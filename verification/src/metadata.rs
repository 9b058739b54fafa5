use vstd::prelude::*;
use crate::date::Date;
use crate::text::dup_opt_string;

verus! {

/// HTTP content-negotiation headers stored alongside an object and echoed
/// verbatim on retrieval.
#[derive(Debug)]
pub struct HttpMetadata {
    pub content_type: Option<String>,
    pub content_language: Option<String>,
    pub content_disposition: Option<String>,
    pub content_encoding: Option<String>,
    pub cache_control: Option<String>,
    pub cache_expiry: Option<Date>,
}

impl HttpMetadata {
    /// Metadata with every field absent.
    pub fn empty() -> (r: HttpMetadata)
        ensures
            r == HttpMetadata::spec_empty(),
    {
        HttpMetadata {
            content_type: None,
            content_language: None,
            content_disposition: None,
            content_encoding: None,
            cache_control: None,
            cache_expiry: None,
        }
    }

    /// The spec-level value with every field absent.
    pub open spec fn spec_empty() -> HttpMetadata {
        HttpMetadata {
            content_type: None,
            content_language: None,
            content_disposition: None,
            content_encoding: None,
            cache_control: None,
            cache_expiry: None,
        }
    }

    /// A copy of the metadata, field for field.
    pub fn dup(&self) -> (r: HttpMetadata)
        ensures
            r == *self,
    {
        HttpMetadata {
            content_type: dup_opt_string(&self.content_type),
            content_language: dup_opt_string(&self.content_language),
            content_disposition: dup_opt_string(&self.content_disposition),
            content_encoding: dup_opt_string(&self.content_encoding),
            cache_control: dup_opt_string(&self.cache_control),
            cache_expiry: self.cache_expiry,
        }
    }
}

impl Default for HttpMetadata {
    /// The default metadata has every field absent.
    fn default() -> (r: HttpMetadata)
        ensures
            r == HttpMetadata::spec_empty(),
    {
        HttpMetadata::empty()
    }
}

/// A flag asking a listing to carry a class of per-object metadata that is
/// otherwise left cheap and absent on the returned objects.
#[derive(Debug, Clone, Copy, PartialEq, Eq, Structural)]
pub enum Include {
    HttpMetadata,
    CustomMetadata,
}

/// A copy of a custom-metadata pair list, key for key and value for value.
pub fn dup_pairs(pairs: &Vec<(String, String)>) -> (r: Vec<(String, String)>)
    ensures
        r@ == pairs@,
{
    let mut r: Vec<(String, String)> = Vec::new();
    let mut i: usize = 0;
    while i < pairs.len()
        invariant
            i <= pairs.len(),
            r@ == pairs@.subrange(0, i as int),
        decreases pairs.len() - i,
    {
        let k = pairs[i].0.clone();
        let v = pairs[i].1.clone();
        r.push((k, v));
        proof {
            assert(r@ =~= pairs@.subrange(0, i + 1 as int));
        }
        i = i + 1;
    }
    proof {
        assert(pairs@.subrange(0, pairs@.len() as int) =~= pairs@);
    }
    r
}

} // verus!
