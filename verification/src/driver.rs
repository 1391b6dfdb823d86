//! The decisions that a conversion run takes around the translation: which
//! address each endpoint is fetched from, and which symbols are echoed.
use vstd::prelude::*;
use crate::model::Symbol;
use crate::text::{contains, contains_str, trim, trim_str};

verus! {

/// The address of an endpoint: the root address followed by the endpoint
/// without surrounding white space.
pub fn endpoint_url(root_url: &str, endpoint: &str) -> (r: String)
    ensures
        r@ == root_url@ + trim(endpoint@),
{
    let mut r = String::from_str(root_url);
    r.append(trim_str(endpoint));
    r
}

/// Whether the symbol's JSON text is echoed while converting: its base name
/// mentions `ResourceModel`.
pub fn mentions_resource_model(symbol: &Symbol) -> (r: bool)
    ensures
        r == contains(symbol.basename@, "ResourceModel"@),
{
    contains_str(symbol.basename.as_str(), "ResourceModel")
}

} // verus!
