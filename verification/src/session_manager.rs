//! The table of connected sessions.

use vstd::prelude::*;

use crate::error::{other_error_with, ScrcpyError};
use crate::table::Table;

verus! {

/// The table of sessions, by their names. It does not connect or stop them.
pub struct SessionManager<S> {
    sessions: Table<S>,
}

impl<S> View for SessionManager<S> {
    type V = Map<Seq<char>, S>;

    closed spec fn view(&self) -> Map<Seq<char>, S> {
        self.sessions@
    }
}

impl<S> SessionManager<S> {
    /// Each name stands in the table at most once.
    pub closed spec fn valid(&self) -> bool {
        self.sessions.valid()
    }

    /// A table without sessions.
    pub fn new() -> (r: Self)
        ensures
            r.valid(),
            r@ == Map::<Seq<char>, S>::empty(),
    {
        SessionManager { sessions: Table::new() }
    }

    /// Puts a session in. A name that is taken is an error, and the table stays as it was.
    pub fn insert(&mut self, session_id: String, session: S) -> (r: Result<(), ScrcpyError>)
        requires
            old(self).valid(),
        ensures
            final(self).valid(),
            match r {
                Ok(_) => !old(self)@.dom().contains(session_id@) && final(self)@
                    == old(self)@.insert(session_id@, session),
                Err(e) => old(self)@.dom().contains(session_id@) && final(self)@ == old(self)@
                    && e@ == crate::error::ErrorView::Other(
                    "session already exists: "@ + session_id@,
                ),
            },
    {
        if self.sessions.contains_key(session_id.as_str()) {
            return Err(other_error_with("session already exists: ", session_id.as_str()));
        }
        self.sessions.insert(session_id, session);
        Ok(())
    }

    /// The session with a name.
    pub fn get(&self, session_id: &str) -> (r: Option<&S>)
        requires
            self.valid(),
        ensures
            match r {
                Some(s) => self@.dom().contains(session_id@) && *s == self@[session_id@],
                None => !self@.dom().contains(session_id@),
            },
    {
        self.sessions.get(session_id)
    }

    /// The session with a name, to be changed in place.
    pub fn get_mut(&mut self, session_id: &str) -> (r: Option<&mut S>)
        requires
            old(self).valid(),
        ensures
            final(self).valid(),
            match r {
                Some(s) => old(self)@.dom().contains(session_id@) && *s == old(self)@[session_id@]
                    && final(self)@ == old(self)@.insert(session_id@, *final(s)),
                None => !old(self)@.dom().contains(session_id@) && final(self)@ == old(self)@,
            },
    {
        self.sessions.get_mut(session_id)
    }

    /// Takes a session out.
    pub fn remove(&mut self, session_id: &str) -> (r: Option<S>)
        requires
            old(self).valid(),
        ensures
            final(self).valid(),
            final(self)@ == old(self)@.remove(session_id@),
            match r {
                Some(s) => old(self)@.dom().contains(session_id@) && s == old(self)@[session_id@],
                None => !old(self)@.dom().contains(session_id@),
            },
    {
        self.sessions.remove(session_id)
    }

    /// The number of sessions.
    pub fn len(&self) -> (r: usize)
        requires
            self.valid(),
        ensures
            r == self@.len(),
    {
        self.sessions.len()
    }

    /// Whether there is no session.
    pub fn is_empty(&self) -> (r: bool)
        requires
            self.valid(),
        ensures
            r == (self@.len() == 0),
    {
        self.sessions.len() == 0
    }

    /// The names of the sessions, in ascending order.
    pub fn list_session_ids(&self) -> (r: Vec<String>)
        requires
            self.valid(),
        ensures
            crate::table::sorted_texts(r@),
            forall|k: Seq<char>|
                self@.dom().contains(k) <==> crate::text::strings_view(r@).contains(k),
    {
        self.sessions.sorted_keys()
    }

    /// Takes every session out.
    pub fn clear(&mut self)
        ensures
            final(self).valid(),
            final(self)@ == Map::<Seq<char>, S>::empty(),
    {
        self.sessions.clear();
    }
}

} // verus!
