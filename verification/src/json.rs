//! JSON text: what the crate writes itself, and the places where the JSON
//! library reads or writes for it.

use std::collections::HashMap;

use vstd::prelude::*;

use crate::direnv::{paths_distinct, times};
use crate::number;
use crate::text::views;

verus! {

/// The JSON string literal, quotes included, that `serde_json` writes for a
/// text: a function of the text alone.
pub uninterp spec fn json_text(s: Seq<char>) -> Seq<char>;

/// What `serde_json` makes of a text read as a JSON array of strings: the
/// strings, or the text of its error. A function of the text alone.
pub uninterp spec fn string_array(s: Seq<char>) -> Result<Seq<Seq<char>>, Seq<char>>;

/// `serde_json::to_string` on a string. It writes into memory and every
/// string has a JSON form, so it succeeds; the result is named `json_text`.
#[verifier::external_body]
fn write_string(value: &str) -> (r: Result<String, serde_json::Error>)
    ensures
        r is Ok,
        r->Ok_0@ == json_text(value@),
{
    serde_json::to_string(value)
}

/// `serde_json::from_str` into `Vec<String>`: the strings of a JSON array
/// that holds nothing else, or the text of the parse error. Both are named
/// `string_array`; which texts are accepted is left to the JSON library.
#[verifier::external_body]
pub(crate) fn read_string_array(value: &str) -> (r: Result<Vec<String>, String>)
    ensures
        match string_array(value@) {
            Ok(list) => r is Ok && views(r->Ok_0@) == list,
            Err(message) => r is Err && r->Err_0@ == message,
        },
{
    serde_json::from_str::<Vec<String>>(value).map_err(|err| err.to_string())
}

/// What `serde_json` makes of a text read as a JSON object of whole numbers:
/// the numbers by key, or the text of its error. A function of the text
/// alone.
pub uninterp spec fn number_object(s: Seq<char>) -> Result<Map<Seq<char>, i64>, Seq<char>>;

/// `serde_json::from_str` into `HashMap<String, i64>`: the members of a JSON
/// object of whole numbers, each key once and in no particular order, or the
/// text of the parse error. Both are named `number_object`; which texts are
/// accepted is left to the JSON library.
#[verifier::external_body]
pub(crate) fn read_number_object(value: &str) -> (r: Result<Vec<(String, i64)>, String>)
    ensures
        match number_object(value@) {
            Ok(map) => r is Ok && paths_distinct(r->Ok_0@) && times(r->Ok_0@) == map,
            Err(message) => r is Err && r->Err_0@ == message,
        },
{
    serde_json::from_str::<HashMap<String, i64>>(value)
        .map(|map| map.into_iter().collect())
        .map_err(|err| err.to_string())
}

/// `serde_json::to_string` on a map from strings to whole numbers. It writes
/// into memory and every such map has a JSON form, so it succeeds, and the
/// text reads back as the same map. In which order the members stand is not
/// said.
#[verifier::external_body]
pub(crate) fn write_number_object(entries: &Vec<(String, i64)>) -> (r: Result<
    String,
    serde_json::Error,
>)
    requires
        paths_distinct(entries@),
    ensures
        r is Ok,
        number_object(r->Ok_0@) is Ok,
        number_object(r->Ok_0@)->Ok_0 == times(entries@),
{
    let map: HashMap<&str, i64> = entries.iter().map(|e| (e.0.as_str(), e.1)).collect();
    serde_json::to_string(&map)
}

/// `serde_json::Error`, carried from the writer to the caller unread.
#[verifier::external_type_specification]
#[verifier::external_body]
pub struct ExJsonError(serde_json::Error);

/// The elements of a JSON array of strings, comma separated.
pub open spec fn json_items(items: Seq<Seq<char>>) -> Seq<char>
    decreases items.len(),
{
    if items.len() == 0 {
        Seq::empty()
    } else if items.len() == 1 {
        json_text(items[0])
    } else {
        json_items(items.drop_last()) + ","@ + json_text(items.last())
    }
}

/// A JSON array of strings.
pub open spec fn json_list(items: Seq<Seq<char>>) -> Seq<char> {
    "["@ + json_items(items) + "]"@
}

/// Append the JSON form of `value` to `out`.
pub(crate) fn push_string(out: &mut String, value: &str)
    ensures
        final(out)@ == old(out)@ + json_text(value@),
{
    if let Ok(literal) = write_string(value) {
        out.append(literal.as_str());
    }
}

/// Append the JSON form of `items` to `out`.
pub(crate) fn push_list(out: &mut String, items: &Vec<String>)
    ensures
        final(out)@ == old(out)@ + json_list(views(items@)),
{
    let ghost before = out@;
    out.append("[");
    let mut i: usize = 0;
    proof {
        assert(out@ =~= before + "["@ + json_items(views(items@).take(0)));
    }
    while i < items.len()
        invariant
            i <= items@.len(),
            out@ == before + "["@ + json_items(views(items@).take(i as int)),
        decreases items@.len() - i,
    {
        let ghost held = out@;
        let ghost all = views(items@);
        proof {
            let t = all.take(i + 1);
            assert(t.drop_last() =~= all.take(i as int));
            assert(t.last() == items@[i as int]@);
        }
        if i > 0 {
            out.append(",");
        }
        push_string(out, items[i].as_str());
        proof {
            assert(out@ =~= before + "["@ + json_items(all.take(i + 1)));
        }
        i = i + 1;
    }
    out.append("]");
    proof {
        assert(views(items@).take(i as int) =~= views(items@));
        assert(out@ =~= before + json_list(views(items@)));
    }
}

/// Append `n` in decimal to `out`.
pub(crate) fn push_number(out: &mut String, n: u8)
    ensures
        final(out)@ == old(out)@ + number::decimal(n as nat),
{
    let digits = number::format_decimal(n as u128);
    out.append(digits.as_str());
}

/// A JSON array holds its strings in order, one comma between two.
pub proof fn law_array_lists_its_strings(items: Seq<Seq<char>>, item: Seq<char>)
    ensures
        json_list(Seq::empty()) == "[]"@,
        json_list(seq![item]) == "["@ + json_text(item) + "]"@,
        items.len() > 0 ==> json_items(items.push(item)) == json_items(items) + ","@ + json_text(
            item,
        ),
        json_list(items) == "["@ + json_items(items) + "]"@,
{
    reveal_strlit("[");
    reveal_strlit("]");
    reveal_strlit("[]");
    assert("["@ + Seq::<char>::empty() + "]"@ =~= "[]"@);
    assert(json_items(Seq::empty()) =~= Seq::<char>::empty());
    assert(items.push(item).drop_last() =~= items);
}

} // verus!
