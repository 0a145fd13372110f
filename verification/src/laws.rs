//! General properties of the rendering, stated and proved once and for all.

use vstd::prelude::*;

use crate::ser::esc_char;
use crate::ser::spec_escape;
use crate::ser::spec_items_text;
use crate::ser::spec_json_text;
use crate::ser::spec_member_text;
use crate::ser::spec_members_text;
use crate::ser::spec_val_text;
use crate::tree::Json;
use crate::tree::JsonVal;

verus! {

/// How many times the character `c` occurs in `s`.
pub open spec fn count_char(s: Seq<char>, c: char) -> nat
    decreases s.len(),
{
    if s.len() == 0 {
        0
    } else {
        count_char(s.drop_last(), c) + (if s.last() == c {
            1nat
        } else {
            0nat
        })
    }
}

/// Occurrence counts add up over concatenation.
proof fn lemma_count_char_add(a: Seq<char>, b: Seq<char>, c: char)
    ensures
        count_char(a + b, c) == count_char(a, c) + count_char(b, c),
    decreases b.len(),
{
    if b.len() == 0 {
        assert(a + b =~= a);
    } else {
        assert((a + b).drop_last() =~= a + b.drop_last());
        lemma_count_char_add(a, b.drop_last(), c);
    }
}

/// A one-character sequence holds one occurrence of its character and none
/// of any other.
proof fn lemma_count_char_single(c: char, d: char)
    ensures
        count_char(seq![c], d) == if c == d {
            1nat
        } else {
            0nat
        },
{
    assert(seq![c].drop_last() =~= Seq::<char>::empty());
    assert(count_char(Seq::<char>::empty(), d) == 0);
    assert(seq![c].last() == c);
}

/// Law: a container's text begins and ends with the delimiter pair of its
/// kind — `{` and `}` for an object, `[` and `]` for an array.
pub proof fn lemma_delimiter_pair(j: Json)
    ensures
        spec_json_text(j).len() >= 2,
        j matches Json::Obj(_) ==> spec_json_text(j).first() == '{' && spec_json_text(j).last()
            == '}',
        j matches Json::Arr(_) ==> spec_json_text(j).first() == '[' && spec_json_text(j).last()
            == ']',
{
    let t = spec_json_text(j);
    match j {
        Json::Obj(ms) => {
            assert(t.last() == (seq!['}'])[0]);
        },
        Json::Arr(vs) => {
            assert(t.last() == (seq![']'])[0]);
        },
    }
}

/// How many commas the members' own renderings contribute, keys and values
/// together, apart from the separators between members.
pub open spec fn spec_member_commas(ms: Seq<(String, JsonVal)>) -> nat
    decreases ms.len(),
{
    if ms.len() == 0 {
        0
    } else {
        spec_member_commas(ms.drop_last()) + count_char(spec_member_text(ms.last()), ',')
    }
}

proof fn lemma_members_commas(ms: Seq<(String, JsonVal)>)
    ensures
        ms.len() == 0 ==> count_char(spec_members_text(ms), ',') == 0,
        ms.len() >= 1 ==> count_char(spec_members_text(ms), ',') == (ms.len() - 1)
            + spec_member_commas(ms),
    decreases ms.len(),
{
    if ms.len() == 0 {
    } else if ms.len() == 1 {
        assert(ms.drop_last().len() == 0);
        assert(spec_member_commas(ms.drop_last()) == 0);
        assert(ms.last() == ms[0]);
    } else {
        lemma_members_commas(ms.drop_last());
        let sep = spec_members_text(ms.drop_last()) + seq![','];
        lemma_count_char_add(spec_members_text(ms.drop_last()), seq![','], ',');
        lemma_count_char_add(sep, spec_member_text(ms.last()), ',');
        lemma_count_char_single(',', ',');
    }
}

/// Law: an object's text holds exactly one separating comma between
/// neighbouring members — member count minus one of them when there is a
/// member at all, none when the object is empty — beyond whatever commas
/// the members' own renderings contain.
pub proof fn lemma_object_commas(ms: Vec<(String, JsonVal)>)
    ensures
        ms@.len() == 0 ==> count_char(spec_json_text(Json::Obj(ms)), ',') == 0,
        ms@.len() >= 1 ==> count_char(spec_json_text(Json::Obj(ms)), ',') == (ms@.len() - 1)
            + spec_member_commas(ms@),
{
    lemma_members_commas(ms@);
    let body = spec_members_text(ms@);
    lemma_count_char_add(seq!['{'], body, ',');
    lemma_count_char_add(seq!['{'] + body, seq!['}'], ',');
    lemma_count_char_single('{', ',');
    lemma_count_char_single('}', ',');
}

/// Law: escaping keeps the number of double quotes, and in the escaped text
/// every double quote stands right after a backslash — no raw quote
/// survives unescaped.
pub proof fn lemma_escape_quotes(s: Seq<char>)
    ensures
        count_char(spec_escape(s), '"') == count_char(s, '"'),
        forall|k: int|
            0 <= k < spec_escape(s).len() && #[trigger] spec_escape(s)[k] == '"' ==> k >= 1
                && spec_escape(s)[k - 1] == '\\',
    decreases s.len(),
{
    if s.len() == 0 {
    } else {
        lemma_escape_quotes(s.drop_last());
        let p = spec_escape(s.drop_last());
        let e = esc_char(s.last());
        lemma_count_char_add(p, e, '"');
        if s.last() == '"' {
            assert(e =~= seq!['\\'] + seq!['"']);
            lemma_count_char_add(seq!['\\'], seq!['"'], '"');
            lemma_count_char_single('\\', '"');
            lemma_count_char_single('"', '"');
        } else {
            assert(e =~= seq![s.last()]);
            lemma_count_char_single(s.last(), '"');
        }
        assert forall|k: int|
            0 <= k < spec_escape(s).len() && #[trigger] spec_escape(s)[k] == '"' implies k >= 1
            && spec_escape(s)[k - 1] == '\\' by {
            if k < p.len() {
                assert(spec_escape(s)[k] == p[k]);
                assert(spec_escape(s)[k - 1] == p[k - 1]);
            } else {
                assert(spec_escape(s)[k] == e[k - p.len()]);
            }
        }
    }
}

/// Law: rendering is a function of the tree alone, so two renderings of the
/// same tree are the same text, byte for byte.
pub proof fn lemma_stable_text(j: Json, a: Seq<char>, b: Seq<char>)
    requires
        a == spec_json_text(j),
        b == spec_json_text(j),
    ensures
        a == b,
{
}

/// Law: an array holding one composite value renders as the inner
/// container's text directly between the array's delimiters — no separator
/// and no whitespace next to the nested delimiters.
pub proof fn lemma_nesting(outer: Json, items: Vec<JsonVal>, inner: Json)
    requires
        outer == Json::Arr(items),
        items@ =~= seq![JsonVal::Composite(inner)],
    ensures
        spec_json_text(outer) == seq!['['] + spec_json_text(inner) + seq![']'],
{
    assert(spec_items_text(items@) == spec_val_text(items@[0]));
}

} // verus!
