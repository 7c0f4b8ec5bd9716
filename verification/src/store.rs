//! The durable form of the session order: one JSON array of note ids, kept
//! under one key of a key-value store.
//!
//! Reading and writing the store is the caller's business. This module turns
//! the stored text into a `SessionOrder` and back. The JSON itself is read and
//! written by `serde_json`; what that crate returns is given a name here and
//! not spelled out.

use vstd::prelude::*;
use vstd::string::*;
use crate::order::{strings_of, SessionOrder};

verus! {

/// `serde_json::Error`, the error of both calls below. Nothing is read out of
/// it: an error only tells that the call failed.
#[verifier::external_type_specification]
#[verifier::external_body]
pub struct ExJsonError(serde_json::Error);

/// The list of strings that `serde_json::from_str::<Vec<String>>` reads out of
/// `text`, or `None` where it reports an error.
pub uninterp spec fn json_string_list(text: Seq<char>) -> Option<Seq<Seq<char>>>;

/// The text that `serde_json::to_string` writes for a list of strings, or
/// `None` where it reports an error.
pub uninterp spec fn json_text_of(ids: Seq<Seq<char>>) -> Option<Seq<char>>;

/// Calls `serde_json::from_str` for a `Vec<String>`. Trusted: the result is
/// the one named `json_string_list`, which says no more than that the same
/// text always reads as the same list or fails alike.
#[verifier::external_body]
fn read_string_list(text: &str) -> (r: Result<Vec<String>, serde_json::Error>)
    ensures
        match r {
            Ok(ids) => json_string_list(text@) == Some(strings_of(ids@)),
            Err(_) => json_string_list(text@) is None,
        },
{
    serde_json::from_str::<Vec<String>>(text)
}

/// Calls `serde_json::to_string` on a `Vec<String>`. Trusted: the result is
/// the one named `json_text_of`, which says no more than that the same list is
/// always written as the same text or fails alike.
#[verifier::external_body]
fn write_string_list(ids: &Vec<String>) -> (r: Result<String, serde_json::Error>)
    ensures
        match r {
            Ok(text) => json_text_of(strings_of(ids@)) == Some(text@),
            Err(_) => json_text_of(strings_of(ids@)) is None,
        },
{
    serde_json::to_string(ids)
}

/// The order that a stored list stands for. A value that is missing or is not
/// a list of strings stands for the empty order.
pub open spec fn order_of_list(list: Option<Seq<Seq<char>>>) -> Seq<Seq<char>> {
    match list {
        Some(ids) => ids,
        None => Seq::empty(),
    }
}

/// The order that the store's value stands for: `None` is a store that holds
/// nothing under the key or could not be read.
pub open spec fn stored_order(stored: Option<Seq<char>>) -> Seq<Seq<char>> {
    match stored {
        Some(text) => order_of_list(json_string_list(text)),
        None => Seq::empty(),
    }
}

/// The name of the store that holds the session.
pub fn store_name() -> (name: &'static str)
    ensures
        name@ == seq!['s', 'e', 's', 's', 'i', 'o', 'n', '.', 'b', 'i', 'n'],
{
    proof {
        reveal_strlit("session.bin");
    }
    "session.bin"
}

/// The key under which the store holds the session order.
pub fn order_key() -> (key: &'static str)
    ensures
        key@ == seq!['o', 'p', 'e', 'n', '_', 'n', 'o', 't', 'e', 's'],
{
    proof {
        reveal_strlit("open_notes");
    }
    "open_notes"
}

/// The session order for a list that was read from the store, or for none.
pub fn order_from_list(list: Option<Vec<String>>) -> (order: SessionOrder)
    ensures
        order@ == order_of_list(
            match list {
                Some(ids) => Some(strings_of(ids@)),
                None => None,
            },
        ),
{
    match list {
        Some(ids) => SessionOrder::from_ids(ids),
        None => SessionOrder::new(),
    }
}

/// Reads the session order out of the store's value. Nothing stored and a
/// value that is no JSON array of strings both give the empty order: a
/// damaged store never keeps the session from starting.
pub fn load_order(stored: Option<&str>) -> (order: SessionOrder)
    ensures
        order@ == stored_order(
            match stored {
                Some(text) => Some(text@),
                None => None,
            },
        ),
{
    match stored {
        Some(text) => {
            let list = match read_string_list(text) {
                Ok(ids) => Some(ids),
                Err(_) => None,
            };
            order_from_list(list)
        },
        None => SessionOrder::new(),
    }
}

/// Writes the session order as the text to store. `None` means that the text
/// could not be produced; the caller then leaves the store as it is.
pub fn dump_order(order: &SessionOrder) -> (text: Option<String>)
    ensures
        match text {
            Some(t) => json_text_of(order@) == Some(t@),
            None => json_text_of(order@) is None,
        },
{
    match write_string_list(&order.ids) {
        Ok(t) => Some(t),
        Err(_) => None,
    }
}

} // verus!
