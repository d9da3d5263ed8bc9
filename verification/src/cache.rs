//! The credential cache of the push channel: one bearer token, shared by
//! every push send, replaced whole by a refresh.

use vstd::prelude::*;
use crate::errors::NotiDeliverError;

verus! {

/// Holds the bearer token for the push provider. The ghost set records every
/// token a successful refresh produced, so provenance can be stated.
pub struct TokenManager {
    token: Option<String>,
    issued: Ghost<Set<Seq<char>>>,
}

impl TokenManager {
    /// The token the cache holds now.
    pub closed spec fn spec_token(&self) -> Option<Seq<char>> {
        match self.token {
            Some(ref s) => Some(s@),
            None => None,
        }
    }

    /// Every token a refresh has produced so far.
    pub closed spec fn spec_issued(&self) -> Set<Seq<char>> {
        self.issued@
    }

    /// The held token, if any, came out of a refresh.
    pub open spec fn wf(&self) -> bool {
        match self.spec_token() {
            Some(t) => self.spec_issued().contains(t),
            None => true,
        }
    }

    /// A cache primed with the token of the initial refresh. That first
    /// refresh is fatal on failure, so it always hands a token here.
    pub fn new(initial: String) -> (r: TokenManager)
        ensures
            r.spec_token() == Some(initial@),
            r.spec_issued() == Set::<Seq<char>>::empty().insert(initial@),
            r.wf(),
    {
        let ghost issued = Set::<Seq<char>>::empty().insert(initial@);
        TokenManager { token: Some(initial), issued: Ghost(issued) }
    }

    /// The current token: always a value some refresh produced whole, never
    /// a torn mixture.
    pub fn get_token(&self) -> (r: Option<&String>)
        ensures
            match r {
                Some(t) => self.spec_token() == Some(t@),
                None => self.spec_token() is None,
            },
    {
        match &self.token {
            Some(t) => Some(t),
            None => None,
        }
    }

    /// Applies the outcome of a refresh: a fresh token replaces the held one
    /// whole; on failure the held token stays in place.
    pub fn update_token(&mut self, fetched: Result<String, NotiDeliverError>)
        requires
            old(self).wf(),
        ensures
            final(self).wf(),
            match fetched {
                Ok(t) => final(self).spec_token() == Some(t@) && final(self).spec_issued()
                    == old(self).spec_issued().insert(t@),
                Err(_) => final(self).spec_token() == old(self).spec_token() && final(self)
                    .spec_issued() == old(self).spec_issued(),
            },
    {
        match fetched {
            Ok(t) => {
                proof {
                    let upd = self.issued@.insert(t@);
                    self.issued@ = upd;
                }
                self.token = Some(t);
            },
            Err(_) => {},
        }
    }
}

/// Law: the cache never answers with a torn token — whatever it holds was,
/// at some moment, the whole output of one refresh.
pub proof fn lemma_token_provenance(m: &TokenManager)
    requires
        m.wf(),
    ensures
        m.spec_token() matches Some(t) ==> m.spec_issued().contains(t),
{
}

} // verus!
