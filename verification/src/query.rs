//! Gateway queries: free text plus structured filters.

use vstd::prelude::*;

use crate::keyed::KeyMap;
use crate::text;
use crate::text::{to_ascii_lowercase, trimmed};

verus! {

/// A query as the gateway hands it down: what is left of the text once the filters were taken out,
/// and the filters, each with its values.
pub struct GatewayQuery {
    pub free_text: String,
    pub filters: KeyMap<Vec<String>>,
}

/// The view of a [`GatewayQuery`].
#[verifier::ext_equal]
pub struct QueryView {
    pub free_text: Seq<char>,
    pub filters: Map<Seq<char>, Seq<Seq<char>>>,
}

impl View for GatewayQuery {
    type V = QueryView;

    open spec fn view(&self) -> QueryView {
        QueryView { free_text: self.free_text@, filters: self.filters@ }
    }
}

impl QueryView {
    /// The values of a filter; none when the query does not carry it.
    pub open spec fn values(self, key: Seq<char>) -> Seq<Seq<char>> {
        if self.filters.contains_key(key) {
            self.filters[key]
        } else {
            Seq::empty()
        }
    }

    /// The first value of a filter.
    pub open spec fn first(self, key: Seq<char>) -> Option<Seq<char>> {
        if self.values(key).len() > 0 {
            Some(self.values(key)[0])
        } else {
            None
        }
    }

    /// Does a filter carry a truthy value?
    pub open spec fn is_true(self, key: Seq<char>) -> bool {
        exists|i: int|
            0 <= i < self.values(key).len() && text::ascii_lowercase(#[trigger] self.values(key)[i])
                == "true"@
    }
}

impl GatewayQuery {
    /// A query of free text alone.
    pub fn from_free_text(free_text: &str) -> (r: Self)
        ensures
            r@.free_text == free_text@,
            r@.filters == Map::<Seq<char>, Seq<Seq<char>>>::empty(),
    {
        GatewayQuery { free_text: free_text.to_owned(), filters: KeyMap::new() }
    }

    /// The values of a filter, if the query carries it.
    pub fn values(&self, key: &str) -> (r: Option<&Vec<String>>)
        ensures
            match r {
                Some(v) => self@.filters.contains_key(key@) && text::texts(v@) == self@.values(key@),
                None => !self@.filters.contains_key(key@),
            },
    {
        match self.filters.get(key) {
            Some(v) => {
                assert(text::texts(v@) =~= v.deep_view());
                Some(v)
            },
            None => None,
        }
    }

    /// The first value of a filter.
    pub fn first(&self, key: &str) -> (r: Option<&str>)
        ensures
            match r {
                Some(v) => self@.first(key@) == Some(v@),
                None => self@.first(key@) is None,
            },
    {
        match self.values(key) {
            Some(v) => {
                assert(text::texts(v@).len() == v@.len());
                if v.len() > 0 {
                    assert(text::texts(v@)[0] == v@[0]@);
                    Some(v[0].as_str())
                } else {
                    None
                }
            },
            None => None,
        }
    }

    /// Does a filter carry a truthy value (`true`, in any case)?
    pub fn is_true(&self, key: &str) -> (r: bool)
        ensures
            r == self@.is_true(key@),
    {
        match self.values(key) {
            Some(v) => {
                let ghost all = self@.values(key@);
                let mut i: usize = 0;
                while i < v.len()
                    invariant
                        i <= v.len(),
                        all == text::texts(v@),
                        all == self@.values(key@),
                        forall|k: int|
                            0 <= k < i ==> text::ascii_lowercase(#[trigger] all[k]) != "true"@,
                    decreases v.len() - i,
                {
                    assert(all[i as int] == v@[i as int]@);
                    if text::str_eq(to_ascii_lowercase(v[i].as_str()).as_str(), "true") {
                        return true;
                    }
                    i = i + 1;
                }
                false
            },
            None => false,
        }
    }

    /// Is there no free text?
    pub fn has_no_text(&self) -> (r: bool)
        ensures
            r == (text::trim(self@.free_text).len() == 0),
    {
        trimmed(self.free_text.as_str()).is_empty()
    }
}

} // verus!
