//! Filters: the declarative query that a fetch or a subscription sends to a
//! relay.

use vstd::prelude::*;
use vstd::string::*;
use crate::error::NostrError;
use crate::event::{EventData, NostrEvent};
use crate::hex::{canonical_hex64, is_hex64, lower_hex};

verus! {

/// A query for events. Each field that is present is a constraint and an
/// event must meet all of them; within `ids`, `authors` and `kinds` it has to
/// equal one of the listed values.
#[derive(Debug, Clone)]
pub struct NostrFilter {
    pub ids: Option<Vec<String>>,
    pub authors: Option<Vec<String>>,
    pub kinds: Option<Vec<u16>>,
    pub since: Option<u64>,
    pub until: Option<u64>,
    pub limit: Option<u64>,
    pub search: Option<String>,
}

/// The mathematical content of a `NostrFilter`.
pub struct FilterData {
    pub ids: Option<Seq<Seq<char>>>,
    pub authors: Option<Seq<Seq<char>>>,
    pub kinds: Option<Seq<u16>>,
    pub since: Option<u64>,
    pub until: Option<u64>,
    pub limit: Option<u64>,
    pub search: Option<Seq<char>>,
}

impl View for NostrFilter {
    type V = FilterData;

    open spec fn view(&self) -> FilterData {
        FilterData {
            ids: self.ids.deep_view(),
            authors: self.authors.deep_view(),
            kinds: self.kinds.deep_view(),
            since: self.since,
            until: self.until,
            limit: self.limit,
            search: self.search.deep_view(),
        }
    }
}

/// Every text of the list is 64 hexadecimal digits.
pub open spec fn all_hex64(list: Seq<Seq<char>>) -> bool {
    forall|i: int| 0 <= i < list.len() ==> is_hex64(#[trigger] list[i])
}

/// The list with every text in lower-case hexadecimal.
pub open spec fn lower_all(list: Seq<Seq<char>>) -> Seq<Seq<char>> {
    Seq::new(list.len(), |i: int| lower_hex(list[i]))
}

/// An optional list is absent or holds only texts of 64 hexadecimal digits.
pub open spec fn hex_field_ok(field: Option<Seq<Seq<char>>>) -> bool {
    field matches Some(list) ==> all_hex64(list)
}

/// An optional list with its texts, if any, in lower-case hexadecimal.
pub open spec fn hex_field_value(field: Option<Seq<Seq<char>>>) -> Option<Seq<Seq<char>>> {
    match field {
        Some(list) => Some(lower_all(list)),
        None => None,
    }
}

impl FilterData {
    /// The filter with ids and authors in canonical form.
    pub open spec fn canonical(self) -> FilterData {
        FilterData {
            ids: hex_field_value(self.ids),
            authors: hex_field_value(self.authors),
            ..self
        }
    }

    /// Whether an event meets every constraint that is present. `limit`
    /// bounds the number of results and `search` is left to the relay:
    /// neither bears on a single event.
    pub open spec fn matches(self, event: EventData) -> bool {
        &&& (self.ids matches Some(ids) ==> ids.contains(event.id))
        &&& (self.authors matches Some(authors) ==> authors.contains(event.pubkey))
        &&& (self.kinds matches Some(kinds) ==> kinds.contains(event.kind))
        &&& (self.since matches Some(since) ==> since <= event.created_at)
        &&& (self.until matches Some(until) ==> event.created_at <= until)
    }
}

/// Brings a list of ids or of public keys into canonical form, or gives
/// `None` where a text of the list is not 64 hexadecimal digits.
fn canonical_list(list: &Vec<String>) -> (r: Option<Vec<String>>)
    ensures
        match r {
            Some(out) => all_hex64(list.deep_view()) && out.deep_view() == lower_all(
                list.deep_view(),
            ),
            None => !all_hex64(list.deep_view()),
        },
{
    let mut out: Vec<String> = Vec::new();
    let mut i: usize = 0;
    while i < list.len()
        invariant
            i <= list.len(),
            out.len() == i,
            forall|j: int| 0 <= j < i ==> is_hex64(#[trigger] list.deep_view()[j]),
            forall|j: int| 0 <= j < i ==> (#[trigger] out[j])@ == lower_hex(list[j]@),
        decreases list.len() - i,
    {
        assert(list.deep_view()[i as int] == list[i as int]@);
        match canonical_hex64(list[i].as_str()) {
            Some(text) => {
                out.push(text);
            },
            None => {
                return None;
            },
        }
        i += 1;
    }
    assert(out.deep_view() =~= lower_all(list.deep_view()));
    Some(out)
}

/// Brings an optional list of ids or public keys into canonical form, or
/// gives `Err` where a text of the list is not 64 hexadecimal digits.
fn canonical_field(field: Option<Vec<String>>) -> (r: Result<Option<Vec<String>>, ()>)
    ensures
        match r {
            Ok(value) => hex_field_ok(field.deep_view()) && value.deep_view() == hex_field_value(
                field.deep_view(),
            ),
            Err(_) => !hex_field_ok(field.deep_view()),
        },
{
    match field {
        None => Ok(None),
        Some(list) => match canonical_list(&list) {
            Some(out) => Ok(Some(out)),
            None => Err(()),
        },
    }
}

/// Whether a list of strings holds the given one.
pub(crate) fn holds_text(list: &Vec<String>, text: &String) -> (found: bool)
    ensures
        found == list.deep_view().contains(text@),
{
    let mut i: usize = 0;
    while i < list.len()
        invariant
            i <= list.len(),
            forall|j: int| 0 <= j < i ==> (#[trigger] list.deep_view()[j]) != text@,
        decreases list.len() - i,
    {
        assert(list.deep_view()[i as int] == list[i as int]@);
        if list[i] == *text {
            return true;
        }
        i += 1;
    }
    false
}

/// Whether a list of kinds holds the given one.
fn holds_kind(list: &Vec<u16>, kind: u16) -> (found: bool)
    ensures
        found == list.deep_view().contains(kind),
{
    let mut i: usize = 0;
    while i < list.len()
        invariant
            i <= list.len(),
            forall|j: int| 0 <= j < i ==> (#[trigger] list.deep_view()[j]) != kind,
        decreases list.len() - i,
    {
        assert(list.deep_view()[i as int] == list[i as int]);
        if list[i] == kind {
            return true;
        }
        i += 1;
    }
    false
}

impl NostrFilter {
    /// Checks the filter and brings it into canonical form: ids and authors
    /// in lower-case hexadecimal, everything else as given.
    ///
    /// Fails with `InvalidHex` exactly when an id is not 64 hexadecimal
    /// digits, and with `InvalidPublicKey` exactly when the ids are in order
    /// and an author is not.
    pub fn validated(self) -> (r: Result<NostrFilter, NostrError>)
        ensures
            match r {
                Ok(filter) => hex_field_ok(self@.ids) && hex_field_ok(self@.authors) && filter@
                    == self@.canonical(),
                Err(e) => e.detail() == "expected 64 hexadecimal digits"@ && if hex_field_ok(
                    self@.ids,
                ) {
                    !hex_field_ok(self@.authors) && e is InvalidPublicKey
                } else {
                    e is InvalidHex
                },
            },
    {
        let ids = match canonical_field(self.ids) {
            Ok(value) => value,
            Err(_) => {
                return Err(
                    NostrError::InvalidHex(String::from_str("expected 64 hexadecimal digits")),
                );
            },
        };
        let authors = match canonical_field(self.authors) {
            Ok(value) => value,
            Err(_) => {
                return Err(
                    NostrError::InvalidPublicKey(
                        String::from_str("expected 64 hexadecimal digits"),
                    ),
                );
            },
        };
        Ok(
            NostrFilter {
                ids,
                authors,
                kinds: self.kinds,
                since: self.since,
                until: self.until,
                limit: self.limit,
                search: self.search,
            },
        )
    }

    /// Whether an event meets every constraint of the filter that is
    /// present. Ids and authors are compared as they are written, so the
    /// filter should be in canonical form. A list that is present and empty
    /// admits no event.
    pub fn matches(&self, event: &NostrEvent) -> (found: bool)
        ensures
            found == self@.matches(event@),
    {
        let ids_ok = match &self.ids {
            Some(ids) => holds_text(ids, &event.id),
            None => true,
        };
        let authors_ok = match &self.authors {
            Some(authors) => holds_text(authors, &event.pubkey),
            None => true,
        };
        let kinds_ok = match &self.kinds {
            Some(kinds) => holds_kind(kinds, event.kind),
            None => true,
        };
        let since_ok = match self.since {
            Some(since) => since <= event.created_at,
            None => true,
        };
        let until_ok = match self.until {
            Some(until) => event.created_at <= until,
            None => true,
        };
        ids_ok && authors_ok && kinds_ok && since_ok && until_ok
    }
}

} // verus!
