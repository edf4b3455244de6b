//! The space directory search: its session with the backend, paging, and
//! the comparison of result lists by their rooms.

use vstd::prelude::*;
use crate::client::same_strings;
use crate::display::system::strings_view;

verus! {

broadcast use vstd::string::group_string_axioms;

/// Two result lists count as equal when they list the same rooms in the
/// same order.
pub fn same_results(a: &Vec<String>, b: &Vec<String>) -> (r: bool)
    ensures
        r == (strings_view(a@) == strings_view(b@)),
{
    same_strings(a, b)
}

/// The search on screen: its session with the backend, whether more
/// results can be loaded, and whether a load is under way.
pub struct SpaceSearch {
    pub session: Option<u128>,
    pub has_more: bool,
    pub loading: bool,
}

/// What the search asks of the backend.
pub enum SpaceSearchAction {
    /// Close the session.
    Close(u128),
    /// Open a session and run the first search without a term.
    Open(u128),
    /// Load the next page of the session.
    LoadMore(u128),
    /// Search the session again with a term, or without one.
    Search(u128, Option<String>),
}

impl SpaceSearch {
    pub fn new() -> (s: SpaceSearch)
        ensures
            s.session is None && s.has_more && !s.loading,
    {
        SpaceSearch { session: None, has_more: true, loading: false }
    }

    /// The picker was shown or hidden. Showing it opens a session under the
    /// fresh id and clears the results; hiding it closes the open session.
    pub fn set_open(&mut self, open: bool, fresh_id: u128) -> (a: Option<SpaceSearchAction>)
        ensures
            open ==> final(self).session == Some(fresh_id) && final(self).has_more && final(self).loading
                == old(self).loading && a == Some(SpaceSearchAction::Open(fresh_id)),
            !open ==> final(self).session is None && final(self).has_more == old(self).has_more
                && final(self).loading == old(self).loading && match old(self).session {
                Some(id) => a == Some(SpaceSearchAction::Close(id)),
                None => a is None,
            },
    {
        if !open {
            match self.session {
                Some(id) => {
                    self.session = None;
                    Some(SpaceSearchAction::Close(id))
                },
                None => None,
            }
        } else {
            self.session = Some(fresh_id);
            self.has_more = true;
            Some(SpaceSearchAction::Open(fresh_id))
        }
    }

    /// Scrolling to the end loads more, while a session is open, more
    /// results remain and no load is under way.
    pub fn reached_end(&mut self) -> (a: Option<SpaceSearchAction>)
        ensures
            match old(self).session {
                Some(id) => if old(self).has_more && !old(self).loading {
                    a == Some(SpaceSearchAction::LoadMore(id)) && final(self).loading && final(self).session
                        == old(self).session && final(self).has_more == old(self).has_more
                } else {
                    a is None && *final(self) == *old(self)
                },
                None => a is None && *final(self) == *old(self),
            },
    {
        match self.session {
            Some(id) => {
                if self.has_more && !self.loading {
                    self.loading = true;
                    Some(SpaceSearchAction::LoadMore(id))
                } else {
                    None
                }
            },
            None => None,
        }
    }

    /// A load ended; `at_end` says whether the directory has no more.
    pub fn loaded(&mut self, at_end: Option<bool>)
        ensures
            !final(self).loading,
            final(self).session == old(self).session,
            final(self).has_more == match at_end {
                Some(e) => !e,
                None => old(self).has_more,
            },
    {
        match at_end {
            Some(e) => self.has_more = !e,
            None => {},
        }
        self.loading = false;
    }

    /// Typing searches again: with the text as term, or without a term
    /// when the field is empty.
    pub fn typed(&mut self, value: String) -> (a: Option<SpaceSearchAction>)
        ensures
            match old(self).session {
                Some(id) => final(self).has_more && final(self).session == old(self).session && final(self).loading
                    == old(self).loading && match a {
                    Some(SpaceSearchAction::Search(i, term)) => i == id && match term {
                        Some(t) => value@.len() > 0 && t@ == value@,
                        None => value@.len() == 0,
                    },
                    _ => false,
                },
                None => a is None && *final(self) == *old(self),
            },
    {
        match self.session {
            Some(id) => {
                let term = if value.as_str().is_empty() {
                    None
                } else {
                    Some(value)
                };
                self.has_more = true;
                Some(SpaceSearchAction::Search(id, term))
            },
            None => None,
        }
    }
}

} // verus!
