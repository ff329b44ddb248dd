//! The JSON index of the aggregated documents: one (name, url) pair per
//! configured upstream, in configuration order, with each url pointing at
//! the docs endpoint for that upstream's base64-encoded name.

use vstd::prelude::*;
use crate::docs::{base64_encode, base64_of};
use crate::gateway::GatewayEntry;
use vstd::string::StringExecFns;

verus! {

/// The index served under `/docs/swagger-config.json`.
#[derive(Debug)]
pub struct SwaggerUiConfig {
    pub urls: Vec<Url>,
}

/// One entry of the index: an upstream's label and the URL of its cached
/// document.
#[derive(Debug)]
pub struct Url {
    pub name: String,
    pub url: String,
}

/// The index of the routing table's entries, in order: each upstream's name
/// as it stands, and `/docs/defs/` followed by the base64 form of the name.
pub fn swagger_ui_config(entries: &Vec<GatewayEntry>) -> (r: SwaggerUiConfig)
    ensures
        r.urls@.len() == entries@.len(),
        forall|i: int|
            0 <= i < entries@.len() ==> (#[trigger] r.urls@[i]).name@ == entries@[i].config.name@
                && r.urls@[i].url@ == "/docs/defs/"@ + base64_of(entries@[i].config.name@),
{
    let mut urls: Vec<Url> = Vec::new();
    let mut i: usize = 0;
    while i < entries.len()
        invariant
            i <= entries@.len(),
            urls@.len() == i,
            forall|k: int|
                0 <= k < i ==> (#[trigger] urls@[k]).name@ == entries@[k].config.name@
                    && urls@[k].url@ == "/docs/defs/"@ + base64_of(entries@[k].config.name@),
        decreases entries@.len() - i,
    {
        let name = entries[i].config.name.clone();
        let mut url = String::from_str("/docs/defs/");
        let encoded = base64_encode(entries[i].config.name.as_str());
        url.append(encoded.as_str());
        urls.push(Url { name, url });
        i = i + 1;
    }
    SwaggerUiConfig { urls }
}

} // verus!
