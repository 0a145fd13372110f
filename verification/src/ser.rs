//! The formatter: the compact rendering of a value tree, as a spec over
//! sequences of characters, and the executable serializer proved against it.

use vstd::prelude::*;
use vstd::string::*;

use crate::tree::Json;
use crate::tree::JsonVal;

verus! {

/// The rendering of one character inside a quoted string: a double quote
/// becomes `\"`, every other character stands as itself.
pub open spec fn esc_char(c: char) -> Seq<char> {
    if c == '"' {
        seq!['\\', '"']
    } else {
        seq![c]
    }
}

/// The escaped form of a string's characters, character by character.
pub open spec fn spec_escape(s: Seq<char>) -> Seq<char>
    decreases s.len(),
{
    if s.len() == 0 {
        Seq::empty()
    } else {
        spec_escape(s.drop_last()) + esc_char(s.last())
    }
}

/// A quoted string: a double quote, the escaped contents, a double quote.
pub open spec fn spec_quoted(s: Seq<char>) -> Seq<char> {
    seq!['"'] + spec_escape(s) + seq!['"']
}

/// The rendering of one value: quoted escaped text, the number's decimal
/// text as it stands, a nested container's rendering, a boolean or null
/// literal.
pub open spec fn spec_val_text(v: JsonVal) -> Seq<char>
    decreases v,
{
    match v {
        JsonVal::Str(s) => spec_quoted(s@),
        JsonVal::Num(n) => n@,
        JsonVal::Composite(j) => spec_json_text(j),
        JsonVal::Bool(b) => if b {
            "true"@
        } else {
            "false"@
        },
        JsonVal::Null => "null"@,
    }
}

/// The rendering of one object member: the quoted key, a colon, the value.
pub open spec fn spec_member_text(m: (String, JsonVal)) -> Seq<char>
    decreases m,
{
    spec_quoted(m.0@) + seq![':'] + spec_val_text(m.1)
}

/// The renderings of an object's members, one comma between neighbours,
/// none leading or trailing.
pub open spec fn spec_members_text(ms: Seq<(String, JsonVal)>) -> Seq<char>
    decreases ms,
{
    if ms.len() == 0 {
        Seq::empty()
    } else if ms.len() == 1 {
        spec_member_text(ms[0])
    } else {
        spec_members_text(ms.drop_last()) + seq![','] + spec_member_text(ms.last())
    }
}

/// The renderings of an array's items, one comma between neighbours, none
/// leading or trailing.
pub open spec fn spec_items_text(vs: Seq<JsonVal>) -> Seq<char>
    decreases vs,
{
    if vs.len() == 0 {
        Seq::empty()
    } else if vs.len() == 1 {
        spec_val_text(vs[0])
    } else {
        spec_items_text(vs.drop_last()) + seq![','] + spec_val_text(vs.last())
    }
}

/// The compact rendering of a container: its members or items between the
/// delimiter pair of its kind, with no whitespace anywhere.
pub open spec fn spec_json_text(j: Json) -> Seq<char>
    decreases j,
{
    match j {
        Json::Obj(ms) => seq!['{'] + spec_members_text(ms@) + seq!['}'],
        Json::Arr(vs) => seq!['['] + spec_items_text(vs@) + seq![']'],
    }
}

/// Relies on `String::push` of std: it appends the given character to the
/// end of the string.
#[verifier::external_body]
fn push_char(out: &mut String, c: char)
    ensures
        final(out)@ == old(out)@.push(c),
{
    out.push(c);
}

/// The escaped copy of a string: each `"` becomes `\"`, everything else is
/// unchanged.
pub fn escape(s: &String) -> (r: String)
    ensures
        r@ == spec_escape(s@),
{
    let mut out = String::new();
    let n: usize = s.as_str().unicode_len();
    let mut i: usize = 0;
    while i < n
        invariant
            n == s@.len(),
            i <= n,
            out@ == spec_escape(s@.subrange(0, i as int)),
        decreases n - i,
    {
        let c = s.as_str().get_char(i);
        if c == '"' {
            push_char(&mut out, '\\');
            push_char(&mut out, '"');
        } else {
            push_char(&mut out, c);
        }
        proof {
            let pre = s@.subrange(0, i as int);
            let cur = s@.subrange(0, i + 1);
            assert(cur.drop_last() =~= pre);
            assert(cur.last() == s@[i as int]);
            assert(out@ =~= spec_escape(pre) + esc_char(s@[i as int]));
        }
        i = i + 1;
    }
    proof {
        assert(s@.subrange(0, n as int) =~= s@);
    }
    out
}

/// Appends one value's rendering to the output buffer.
fn write_val(v: &JsonVal, out: &mut String)
    ensures
        final(out)@ == old(out)@ + spec_val_text(*v),
    decreases *v,
{
    match v {
        JsonVal::Str(s) => {
            push_char(out, '"');
            let e = escape(s);
            out.append(e.as_str());
            push_char(out, '"');
            proof {
                assert(out@ =~= old(out)@ + spec_val_text(*v));
            }
        },
        JsonVal::Num(n) => {
            out.append(n.as_str());
        },
        JsonVal::Composite(j) => {
            write_json(j, out);
        },
        JsonVal::Bool(b) => {
            if *b {
                out.append("true");
            } else {
                out.append("false");
            }
        },
        JsonVal::Null => {
            out.append("null");
        },
    }
}

/// Appends one container's rendering to the output buffer.
fn write_json(j: &Json, out: &mut String)
    ensures
        final(out)@ == old(out)@ + spec_json_text(*j),
    decreases *j,
{
    match j {
        Json::Obj(ms) => {
            push_char(out, '{');
            let n = ms.len();
            let mut k: usize = 0;
            while k < n
                invariant
                    n == ms@.len(),
                    k <= n,
                    *j == Json::Obj(*ms),
                    out@ == old(out)@ + seq!['{'] + spec_members_text(ms@.subrange(0, k as int)),
                decreases n - k,
            {
                if k > 0 {
                    push_char(out, ',');
                }
                let ghost mid = out@;
                push_char(out, '"');
                let e = escape(&ms[k].0);
                out.append(e.as_str());
                push_char(out, '"');
                push_char(out, ':');
                proof {
                    assert(decreases_to!(*j => j->Obj_0));
                    assert(decreases_to!(*ms => ms@));
                    assert(decreases_to!(ms@ => ms@[k as int]));
                    assert(decreases_to!(ms@[k as int] => ms@[k as int].1));
                    assert(decreases_to!(*j => ms@[k as int].1));
                }
                write_val(&ms[k].1, out);
                proof {
                    let pre = ms@.subrange(0, k as int);
                    let cur = ms@.subrange(0, k + 1);
                    assert(cur.drop_last() =~= pre);
                    assert(cur.last() == ms@[k as int]);
                    assert(out@ =~= mid + spec_member_text(ms@[k as int]));
                    if k > 0 {
                        assert(out@ =~= old(out)@ + seq!['{'] + (spec_members_text(pre)
                            + seq![','] + spec_member_text(cur.last())));
                    } else {
                        assert(out@ =~= old(out)@ + seq!['{'] + spec_member_text(cur[0]));
                    }
                }
                k = k + 1;
            }
            push_char(out, '}');
            proof {
                assert(ms@.subrange(0, n as int) =~= ms@);
                assert(out@ =~= old(out)@ + spec_json_text(*j));
            }
        },
        Json::Arr(vs) => {
            push_char(out, '[');
            let n = vs.len();
            let mut k: usize = 0;
            while k < n
                invariant
                    n == vs@.len(),
                    k <= n,
                    *j == Json::Arr(*vs),
                    out@ == old(out)@ + seq!['['] + spec_items_text(vs@.subrange(0, k as int)),
                decreases n - k,
            {
                if k > 0 {
                    push_char(out, ',');
                }
                let ghost mid = out@;
                proof {
                    assert(decreases_to!(*j => j->Arr_0));
                    assert(decreases_to!(*vs => vs@));
                    assert(decreases_to!(vs@ => vs@[k as int]));
                    assert(decreases_to!(*j => vs@[k as int]));
                }
                write_val(&vs[k], out);
                proof {
                    let pre = vs@.subrange(0, k as int);
                    let cur = vs@.subrange(0, k + 1);
                    assert(cur.drop_last() =~= pre);
                    assert(cur.last() == vs@[k as int]);
                    if k > 0 {
                        assert(out@ =~= old(out)@ + seq!['['] + (spec_items_text(pre)
                            + seq![','] + spec_val_text(cur.last())));
                    } else {
                        assert(out@ =~= old(out)@ + seq!['['] + spec_val_text(cur[0]));
                    }
                }
                k = k + 1;
            }
            push_char(out, ']');
            proof {
                assert(vs@.subrange(0, n as int) =~= vs@);
                assert(out@ =~= old(out)@ + spec_json_text(*j));
            }
        },
    }
}

impl Json {
    /// The compact JSON text of this tree: the one entry point of the
    /// formatter. Rendering never fails and never mutates the tree; callers
    /// answer for the stack that pathologically deep trees consume.
    pub fn serialize(&self) -> (r: String)
        ensures
            r@ == spec_json_text(*self),
    {
        let mut out = String::new();
        write_json(self, &mut out);
        proof {
            assert(out@ =~= spec_json_text(*self));
        }
        out
    }
}

impl JsonVal {
    /// The compact rendering of this one value, as it would appear inside a
    /// serialized container.
    pub fn to_text(&self) -> (r: String)
        ensures
            r@ == spec_val_text(*self),
    {
        let mut out = String::new();
        write_val(self, &mut out);
        proof {
            assert(out@ =~= spec_val_text(*self));
        }
        out
    }
}

} // verus!
