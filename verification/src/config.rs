//! The start-up configuration files: a JSON array of URI strings.

use vstd::prelude::*;
use crate::bootstrap::{Node, ParseError, nodes_from_uris, parse_failures, parsed_nodes};

verus! {

/// What the JSON text `text` holds, as far as the configuration reads it:
/// `None` when it is no JSON, `Some(None)` when it is JSON but no array, and
/// otherwise, for each item of the array in order, its string or `None` when
/// the item is no string.
pub uninterp spec fn spec_json_array_strings(text: Seq<u8>) -> Option<Option<Seq<Option<Seq<char>>>>>;

/// The text of an optional string.
pub open spec fn opt_text(o: Option<String>) -> Option<Seq<char>> {
    match o {
        Some(s) => Some(s@),
        None => None,
    }
}

/// The parsed array as texts.
pub open spec fn json_items_view(r: Option<Option<Vec<Option<String>>>>) -> Option<
    Option<Seq<Option<Seq<char>>>>,
> {
    match r {
        None => None,
        Some(None) => Some(None),
        Some(Some(v)) => Some(Some(v@.map_values(|o: Option<String>| opt_text(o)))),
    }
}

/// Calls `serde_json::from_slice` into a `serde_json::Value`: an error gives
/// `None`, a value other than an array `Some(None)`, and an array the list of
/// its items, each `Some` of its string when it is a `Value::String` and `None`
/// otherwise. The result is a function of the bytes alone (named
/// `spec_json_array_strings`).
#[verifier::external_body]
fn json_array_strings(text: &[u8]) -> (r: Option<Option<Vec<Option<String>>>>)
    ensures
        json_items_view(r) == spec_json_array_strings(text@),
{
    match serde_json::from_slice::<serde_json::Value>(text) {
        Err(_) => None,
        Ok(serde_json::Value::Array(items)) => {
            let mut out = Vec::new();
            for item in items {
                out.push(match item { serde_json::Value::String(s) => Some(s), _ => None });
            }
            Some(Some(out))
        },
        Ok(_) => Some(None),
    }
}

/// The strings among `items`, in order; other items are skipped.
pub open spec fn string_items(items: Seq<Option<Seq<char>>>) -> Seq<Seq<char>>
    decreases items.len(),
{
    if items.len() == 0 {
        seq![]
    } else {
        match items.last() {
            Some(s) => string_items(items.drop_last()).push(s),
            None => string_items(items.drop_last()),
        }
    }
}

/// The strings among `items`, in order.
fn strings_of(items: &Vec<Option<String>>) -> (out: Vec<String>)
    ensures
        out@.map_values(|s: String| s@) == string_items(
            items@.map_values(|o: Option<String>| opt_text(o)),
        ),
{
    let ghost view = items@.map_values(|o: Option<String>| opt_text(o));
    let mut out: Vec<String> = Vec::new();
    let mut i: usize = 0;
    while i < items.len()
        invariant
            i <= items@.len(),
            view == items@.map_values(|o: Option<String>| opt_text(o)),
            out@.map_values(|s: String| s@) == string_items(view.subrange(0, i as int)),
        decreases items@.len() - i,
    {
        assert(view.subrange(0, i + 1).drop_last() =~= view.subrange(0, i as int));
        let ghost before = out@;
        match &items[i] {
            Some(s) => {
                out.push(s.clone());
                assert(out@.map_values(|s: String| s@) =~= before.map_values(|s: String| s@).push(
                    s@,
                ));
            },
            None => {},
        }
        i = i + 1;
    }
    assert(view.subrange(0, items@.len() as int) =~= view);
    out
}

/// Reads the starting nodes from the JSON text of their configuration file: the
/// nodes whose URIs parse and the errors of those that do not, in order. Items
/// that are no strings are skipped, and a value other than an array lists no
/// node. `None` when the text is no JSON.
pub fn nodes_from_config(text: &[u8]) -> (r: Option<(Vec<Node>, Vec<ParseError>)>)
    ensures
        match spec_json_array_strings(text@) {
            None => r is None,
            Some(None) => r matches Some((n, e)) && n@.len() == 0 && e@.len() == 0,
            Some(Some(items)) => r matches Some((n, e)) && n@.map_values(|x: Node| x@)
                == parsed_nodes(string_items(items)) && e@ == parse_failures(string_items(items)),
        },
{
    match json_array_strings(text) {
        None => None,
        Some(None) => Some((Vec::new(), Vec::new())),
        Some(Some(items)) => {
            let uris = strings_of(&items);
            Some(nodes_from_uris(&uris))
        },
    }
}

/// Reads the peer URIs from the JSON text of their configuration file: the
/// strings of the array, in order. Items that are no strings are skipped, and a
/// value other than an array lists none. `None` when the text is no JSON.
pub fn peer_uris_from_config(text: &[u8]) -> (r: Option<Vec<String>>)
    ensures
        match spec_json_array_strings(text@) {
            None => r is None,
            Some(None) => r matches Some(v) && v@.len() == 0,
            Some(Some(items)) => r matches Some(v) && v@.map_values(|s: String| s@)
                == string_items(items),
        },
{
    match json_array_strings(text) {
        None => None,
        Some(None) => Some(Vec::new()),
        Some(Some(items)) => Some(strings_of(&items)),
    }
}

} // verus!
