//! The refresh cycle's decisions: which parser a fetched document gets, what
//! each slot of the routing table becomes, and the installation of the fresh
//! table.
//!
//! The fetching itself, the clock and the lock live outside. Each slot is
//! rebuilt from its own upstream's fetch alone, so one upstream's failure
//! empties only its own slot; the installation replaces every slot in one
//! step.

use vstd::prelude::*;
use crate::config::OpenApiConfig;
use crate::gateway::{
    ContentType,
    GatewayEntry,
    content_label,
    document_route_models,
    entry_wf,
    first_bad,
    models_of,
    parse_openapi,
};
use crate::openapi::OpenApiV3;
use crate::text::{ends_with, str_ends_with, str_eq};

verus! {

/// The parser a fetched document gets: an exact `application/yaml` or
/// `application/yml` content type means YAML, an exact `application/json`
/// means JSON, and otherwise a `.yml` or `.yaml` URL suffix means YAML and
/// anything else JSON.
pub open spec fn parser_choice(header: Option<&str>, url: Seq<char>) -> ContentType {
    match header {
        Some(h) => if h@ == "application/yaml"@ || h@ == "application/yml"@ {
            ContentType::YAML
        } else if h@ == "application/json"@ {
            ContentType::JSON
        } else {
            suffix_choice(url)
        },
        None => suffix_choice(url),
    }
}

/// The parser a URL suffix calls for: YAML for `.yml` and `.yaml`, else
/// JSON.
pub open spec fn suffix_choice(url: Seq<char>) -> ContentType {
    if ends_with(url, ".yml"@) || ends_with(url, ".yaml"@) {
        ContentType::YAML
    } else {
        ContentType::JSON
    }
}

/// The parser for a fetched document, from its content-type header and its
/// URL.
pub fn select_parser(header: Option<&str>, url: &str) -> (r: ContentType)
    ensures
        r == parser_choice(header, url@),
{
    match header {
        Some(h) => {
            if str_eq(h, "application/yaml") || str_eq(h, "application/yml") {
                ContentType::YAML
            } else if str_eq(h, "application/json") {
                ContentType::JSON
            } else if str_ends_with(url, ".yml") || str_ends_with(url, ".yaml") {
                ContentType::YAML
            } else {
                ContentType::JSON
            }
        },
        None => {
            if str_ends_with(url, ".yml") || str_ends_with(url, ".yaml") {
                ContentType::YAML
            } else {
                ContentType::JSON
            }
        },
    }
}

/// What one upstream's fetch brought back: the parser chosen for it, the
/// raw bytes, and the document as parsed outside (or the message of the
/// parse failure).
pub struct FetchedDocument {
    pub content_type: ContentType,
    pub bytes: Vec<u8>,
    pub document: Result<OpenApiV3, String>,
}

/// What a rebuilt slot must be, given its own upstream's fetch alone: the
/// configuration is kept either way; a failed fetch, a failed parse or a
/// rejected pattern leaves an empty slot; otherwise the slot holds the
/// document and its compiled routes.
pub open spec fn entry_from_fetch(
    r: GatewayEntry,
    config: OpenApiConfig,
    fetch: Option<FetchedDocument>,
) -> bool {
    &&& r.config == config
    &&& entry_wf(r)
    &&& match fetch {
        None => r.openapi_file is None && r.routes@.len() == 0,
        Some(f) => match f.document {
            Err(_) => r.openapi_file is None && r.routes@.len() == 0,
            Ok(doc) => match first_bad(document_route_models(doc), 0) {
                Some(_) => r.openapi_file is None && r.routes@.len() == 0,
                None => (r.openapi_file matches Some(file) && file.content_type@ == content_label(
                    f.content_type,
                ) && file.contents@ == f.bytes@) && models_of(r.routes@)
                    == document_route_models(doc),
            },
        },
    }
}

/// One slot rebuilt from its own upstream's fetch. A missing fetch or a
/// failed parse yields the empty slot; the configuration survives either
/// way, so the upstream is retried on the next cycle.
pub fn refresh_entry(config: OpenApiConfig, fetch: Option<FetchedDocument>) -> (r: GatewayEntry)
    ensures
        entry_from_fetch(r, config, fetch),
{
    match fetch {
        None => GatewayEntry::empty(config),
        Some(f) => {
            let content_type = f.content_type;
            let bytes = f.bytes;
            let document = f.document;
            let c2 = config.clone();
            match parse_openapi(content_type, c2, &bytes, document) {
                Ok(e) => e,
                Err(_) => GatewayEntry::empty(config),
            }
        },
    }
}

/// The fresh table built slot by slot, each slot from its own upstream's
/// fetch alone: one upstream's failure empties only its own slot, and the
/// other slots get their own fresh contents.
pub fn rebuild_table(configs: &Vec<OpenApiConfig>, fetches: Vec<Option<FetchedDocument>>) -> (r:
    Vec<GatewayEntry>)
    requires
        fetches@.len() == configs@.len(),
    ensures
        r@.len() == configs@.len(),
        forall|i: int|
            0 <= i < r@.len() ==> entry_from_fetch(#[trigger] r@[i], configs@[i], fetches@[i]),
{
    let ghost orig = fetches@;
    let mut rest = fetches;
    let mut out: Vec<GatewayEntry> = Vec::new();
    let mut i: usize = 0;
    while i < configs.len()
        invariant
            i <= configs@.len(),
            orig.len() == configs@.len(),
            rest@ == orig.skip(i as int),
            out@.len() == i,
            forall|k: int|
                0 <= k < i ==> entry_from_fetch(#[trigger] out@[k], configs@[k], orig[k]),
        decreases configs@.len() - i,
    {
        let ghost prev_rest = rest@;
        let f = rest.remove(0);
        proof {
            assert(f == orig[i as int]);
            assert(rest@ =~= orig.skip(i as int + 1));
        }
        let entry = refresh_entry(configs[i].clone(), f);
        out.push(entry);
        i = i + 1;
    }
    out
}

/// The installation of a fresh table: every slot is replaced at once, so
/// the table as a whole is the fresh one after the call — a reader holding
/// the lock sees either the table wholly before or wholly after, never a
/// mix.
pub fn install_entries(table: &mut Vec<GatewayEntry>, fresh: Vec<GatewayEntry>)
    ensures
        final(table)@ == fresh@,
{
    *table = fresh;
}

} // verus!
