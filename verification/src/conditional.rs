use vstd::prelude::*;
use crate::date::Date;
use crate::text::{dup_opt_string, str_eq};

verus! {

/// A precondition over an object's etag and upload time.  All fields are
/// optional and combine conjunctively; an empty conditional passes for
/// every object.  When a get's conditional fails, the object's metadata is
/// still returned, but without a body.
#[derive(Debug)]
pub struct R2Conditional {
    /// Passes only if the object's etag equals the given string.
    pub etag_matches: Option<String>,
    /// Passes only if the object's etag differs from the given string.
    pub etag_does_not_match: Option<String>,
    /// Passes only if the object was uploaded strictly before the instant.
    pub uploaded_before: Option<Date>,
    /// Passes only if the object was uploaded strictly after the instant.
    pub uploaded_after: Option<Date>,
}

impl R2Conditional {
    /// A conditional with no constraints: passes for every object.
    pub fn empty() -> (r: R2Conditional)
        ensures
            r == R2Conditional::spec_empty(),
    {
        R2Conditional {
            etag_matches: None,
            etag_does_not_match: None,
            uploaded_before: None,
            uploaded_after: None,
        }
    }

    /// The spec-level conditional with no constraints.
    pub open spec fn spec_empty() -> R2Conditional {
        R2Conditional {
            etag_matches: None,
            etag_does_not_match: None,
            uploaded_before: None,
            uploaded_after: None,
        }
    }

    /// Whether an object with the given etag and upload time satisfies
    /// every constraint of the conditional.
    pub open spec fn spec_passes(&self, etag: Seq<char>, uploaded: Date) -> bool {
        &&& match self.etag_matches {
            Some(e) => e@ == etag,
            None => true,
        }
        &&& match self.etag_does_not_match {
            Some(e) => e@ != etag,
            None => true,
        }
        &&& match self.uploaded_before {
            Some(d) => uploaded.millis < d.millis,
            None => true,
        }
        &&& match self.uploaded_after {
            Some(d) => uploaded.millis > d.millis,
            None => true,
        }
    }

    /// Evaluates the conditional against an object's etag and upload time.
    pub fn passes(&self, etag: &String, uploaded: Date) -> (r: bool)
        ensures
            r == self.spec_passes(etag@, uploaded),
    {
        let matches_ok = match &self.etag_matches {
            Some(e) => str_eq(e.as_str(), etag.as_str()),
            None => true,
        };
        let not_matches_ok = match &self.etag_does_not_match {
            Some(e) => !str_eq(e.as_str(), etag.as_str()),
            None => true,
        };
        let before_ok = match &self.uploaded_before {
            Some(d) => uploaded.is_before(d),
            None => true,
        };
        let after_ok = match &self.uploaded_after {
            Some(d) => uploaded.is_after(d),
            None => true,
        };
        matches_ok && not_matches_ok && before_ok && after_ok
    }

    /// A copy of the conditional, field for field.
    pub fn dup(&self) -> (r: R2Conditional)
        ensures
            r == *self,
    {
        R2Conditional {
            etag_matches: dup_opt_string(&self.etag_matches),
            etag_does_not_match: dup_opt_string(&self.etag_does_not_match),
            uploaded_before: self.uploaded_before,
            uploaded_after: self.uploaded_after,
        }
    }
}

} // verus!
