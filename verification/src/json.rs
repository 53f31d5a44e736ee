//! JSON values as the library reads them: a tree of plain values, and the few
//! ways in which the providers' answers are walked.

use vstd::prelude::*;
use crate::outside::{parse_json, parsed_json};
use crate::text::same_text;

verus! {

/// A JSON value. A number is kept as the text that stands for it.
#[derive(Debug)]
pub enum Json {
    Null,
    Bool(bool),
    Number(String),
    Text(String),
    Array(Vec<Json>),
    Object(Vec<(String, Json)>),
}

/// The mathematical value of a [`Json`].
pub enum JsonView {
    Null,
    Bool(bool),
    Number(Seq<char>),
    Text(Seq<char>),
    Array(Seq<JsonView>),
    Object(Seq<(Seq<char>, JsonView)>),
}

/// The value of a JSON value: the same tree, with every string taken as its
/// text.
pub open spec fn json_view(json: Json) -> JsonView
    decreases json,
    via json_view_decreases
{
    match json {
        Json::Null => JsonView::Null,
        Json::Bool(b) => JsonView::Bool(b),
        Json::Number(n) => JsonView::Number(n@),
        Json::Text(s) => JsonView::Text(s@),
        Json::Array(items) => JsonView::Array(
            Seq::new(
                items@.len(),
                |i: int|
                    if 0 <= i < items@.len() {
                        json_view(items@[i])
                    } else {
                        JsonView::Null
                    },
            ),
        ),
        Json::Object(entries) => JsonView::Object(
            Seq::new(
                entries@.len(),
                |i: int|
                    if 0 <= i < entries@.len() {
                        (entries@[i].0@, json_view(entries@[i].1))
                    } else {
                        (Seq::empty(), JsonView::Null)
                    },
            ),
        ),
    }
}

#[via_fn]
proof fn json_view_decreases(json: Json) {
    broadcast use vstd::std_specs::vec::axiom_vec_index_decreases;

}

impl View for Json {
    type V = JsonView;

    open spec fn view(&self) -> JsonView {
        json_view(*self)
    }
}

/// The values of a list of JSON values, in order.
pub open spec fn json_views(items: Seq<Json>) -> Seq<JsonView> {
    Seq::new(items.len(), |i: int| items[i]@)
}

/// The values of the entries of an object, in order.
pub open spec fn entry_views(entries: Seq<(String, Json)>) -> Seq<(Seq<char>, JsonView)> {
    Seq::new(entries.len(), |i: int| (entries[i].0@, entries[i].1@))
}

/// The value of an array is the array of the values of its items, and the
/// value of an object the list of its keys with the values of its members.
pub proof fn lemma_json_view(json: Json)
    ensures
        json matches Json::Array(items) ==> json@ == JsonView::Array(json_views(items@)),
        json matches Json::Object(entries) ==> json@ == JsonView::Object(entry_views(entries@)),
{
    match json {
        Json::Array(items) => {
            assert(json@->Array_0 =~= json_views(items@));
        },
        Json::Object(entries) => {
            assert(json@->Object_0 =~= entry_views(entries@));
        },
        _ => {},
    }
}

/// The place of the first entry under `key`, or the number of entries where
/// there is none.
pub open spec fn index_of_key(entries: Seq<(Seq<char>, JsonView)>, key: Seq<char>) -> int
    decreases entries.len(),
{
    if entries.len() == 0 || entries[0].0 == key {
        0
    } else {
        1 + index_of_key(entries.drop_first(), key)
    }
}

/// A place before which no entry stands under `key` and at which one does,
/// or which is the end, is the index of the key.
pub proof fn lemma_index_of_key_unique(entries: Seq<(Seq<char>, JsonView)>, key: Seq<char>, k: int)
    requires
        0 <= k <= entries.len(),
        forall|i: int| 0 <= i < k ==> (#[trigger] entries[i]).0 != key,
        k < entries.len() ==> entries[k].0 == key,
    ensures
        index_of_key(entries, key) == k,
    decreases entries.len(),
{
    if entries.len() == 0 {
    } else if entries[0].0 == key {
        if k > 0 {
            assert(entries[0].0 != key);
        }
    } else {
        let rest = entries.drop_first();
        assert forall|i: int| 0 <= i < k - 1 implies (#[trigger] rest[i]).0 != key by {
            assert(rest[i] == entries[i + 1]);
        }
        if k - 1 < rest.len() {
            assert(rest[k - 1] == entries[k]);
        }
        lemma_index_of_key_unique(rest, key, k - 1);
    }
}

impl JsonView {
    /// The member of an object under `key`; `None` for a value that is no
    /// object or has no such member.
    pub open spec fn member(self, key: Seq<char>) -> Option<JsonView> {
        match self {
            JsonView::Object(entries) => {
                let k = index_of_key(entries, key);
                if k < entries.len() {
                    Some(entries[k].1)
                } else {
                    None
                }
            },
            _ => None,
        }
    }

    /// The item of an array at place `i`; `None` for a value that is no array
    /// or is too short.
    pub open spec fn item(self, i: int) -> Option<JsonView> {
        match self {
            JsonView::Array(items) => if 0 <= i < items.len() {
                Some(items[i])
            } else {
                None
            },
            _ => None,
        }
    }

    /// The text of a string value; `None` for any other value.
    pub open spec fn text(self) -> Option<Seq<char>> {
        match self {
            JsonView::Text(s) => Some(s),
            _ => None,
        }
    }

    /// The items of an array; `None` for any other value.
    pub open spec fn items(self) -> Option<Seq<JsonView>> {
        match self {
            JsonView::Array(items) => Some(items),
            _ => None,
        }
    }
}

impl Json {
    /// The member of an object under `key`.
    pub fn get(&self, key: &str) -> (r: Option<&Json>)
        ensures
            opt_json_view(r) == self@.member(key@),
    {
        proof {
            lemma_json_view(*self);
        }
        match self {
            Json::Object(entries) => {
                let ghost all = entry_views(entries@);
                let mut i: usize = 0;
                while i < entries.len()
                    invariant
                        all == entry_views(entries@),
                        self@ == JsonView::Object(all),
                        i <= entries@.len(),
                        forall|k: int| 0 <= k < i ==> (#[trigger] all[k]).0 != key@,
                    decreases entries@.len() - i,
                {
                    assert(all[i as int] == (entries@[i as int].0@, entries@[i as int].1@));
                    if same_text(entries[i].0.as_str(), key) {
                        proof {
                            lemma_index_of_key_unique(all, key@, i as int);
                        }
                        return Some(&entries[i].1);
                    }
                    i += 1;
                }
                proof {
                    lemma_index_of_key_unique(all, key@, all.len() as int);
                }
                None
            },
            _ => None,
        }
    }

    /// The item of an array at place `i`.
    pub fn at(&self, i: usize) -> (r: Option<&Json>)
        ensures
            opt_json_view(r) == self@.item(i as int),
    {
        proof {
            lemma_json_view(*self);
        }
        match self {
            Json::Array(items) => if i < items.len() {
                Some(&items[i])
            } else {
                None
            },
            _ => None,
        }
    }

    /// The text of a string value.
    pub fn as_str(&self) -> (r: Option<&str>)
        ensures
            match r {
                Some(s) => self@.text() == Some(s@),
                None => self@.text() is None,
            },
    {
        proof {
            lemma_json_view(*self);
        }
        match self {
            Json::Text(s) => Some(s.as_str()),
            _ => None,
        }
    }

    /// The items of an array.
    pub fn as_array(&self) -> (r: Option<&Vec<Json>>)
        ensures
            match r {
                Some(v) => self@.items() == Some(json_views(v@)),
                None => self@.items() is None,
            },
    {
        proof {
            lemma_json_view(*self);
        }
        match self {
            Json::Array(items) => Some(items),
            _ => None,
        }
    }
}

/// The member under `key` of a value that may be missing.
pub open spec fn opt_member(o: Option<JsonView>, key: Seq<char>) -> Option<JsonView> {
    match o {
        Some(j) => j.member(key),
        None => None,
    }
}

/// The item at place `i` of a value that may be missing.
pub open spec fn opt_item(o: Option<JsonView>, i: int) -> Option<JsonView> {
    match o {
        Some(j) => j.item(i),
        None => None,
    }
}

/// The text of a value that may be missing.
pub open spec fn opt_text(o: Option<JsonView>) -> Option<Seq<char>> {
    match o {
        Some(j) => j.text(),
        None => None,
    }
}

/// The value behind a reference that may be missing.
pub open spec fn opt_json_view(o: Option<&Json>) -> Option<JsonView> {
    match o {
        Some(j) => Some(j@),
        None => None,
    }
}

/// The member under `key` of a value that may be missing.
pub fn get_in<'a>(o: Option<&'a Json>, key: &str) -> (r: Option<&'a Json>)
    ensures
        opt_json_view(r) == opt_member(opt_json_view(o), key@),
{
    match o {
        Some(j) => j.get(key),
        None => None,
    }
}

/// The item at place `i` of a value that may be missing.
pub fn at_in<'a>(o: Option<&'a Json>, i: usize) -> (r: Option<&'a Json>)
    ensures
        opt_json_view(r) == opt_item(opt_json_view(o), i as int),
{
    match o {
        Some(j) => j.at(i),
        None => None,
    }
}

/// An owned copy of the text of a value that may be missing.
pub fn text_in(o: Option<&Json>) -> (r: Option<String>)
    ensures
        crate::text::opt_view(r) == opt_text(opt_json_view(o)),
{
    match o {
        Some(j) => match j.as_str() {
            Some(s) => Some(String::from_str(s)),
            None => None,
        },
        None => None,
    }
}

/// Reads a JSON text: the value, or the words of the reader's complaint.
pub fn parse(text: &str) -> (r: Result<Json, String>)
    ensures
        match r {
            Ok(json) => parsed_json(text@) == Ok::<JsonView, Seq<char>>(json@),
            Err(words) => parsed_json(text@) == Err::<JsonView, Seq<char>>(words@),
        },
{
    parse_json(text)
}

} // verus!
