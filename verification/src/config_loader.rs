//! The settings of a deployment.

use vstd::prelude::*;

verus! {

/// What a deployment is set up with: the tokens that callers may present,
/// and where the records are kept.
#[derive(Debug, PartialEq, Eq)]
pub struct ConfigFile {
    pub access_tokens: Vec<String>,
    pub database_name: String,
    pub collection_raffle: String,
    pub collection_ticket: String,
}

impl ConfigFile {
    /// Whether `token` is one of the access tokens.
    pub open spec fn accepts(self, token: Seq<char>) -> bool {
        exists|i: int| 0 <= i < self.access_tokens@.len() && (#[trigger] self.access_tokens@[i])@ == token
    }

    /// Whether a caller who presents `token` is let in: the token has to be
    /// one of the access tokens, letter for letter.
    pub fn accepts_token(&self, token: &String) -> (accepted: bool)
        ensures
            accepted == self.accepts(token@),
    {
        let mut at: usize = 0;
        while at < self.access_tokens.len()
            invariant
                at <= self.access_tokens.len(),
                forall|i: int| 0 <= i < at ==> (#[trigger] self.access_tokens@[i])@ != token@,
            decreases self.access_tokens.len() - at,
        {
            if self.access_tokens[at] == *token {
                return true;
            }
            at = at + 1;
        }
        false
    }
}

} // verus!
