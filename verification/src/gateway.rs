//! Gateway entries: one upstream's configuration paired with its fetched
//! document and its compiled routes.
//!
//! A compiled route holds the anchored pattern built by the route compiler,
//! the lowercased method name, and the ordered list of path parameters whose
//! count drives specificity. An entry claims a (path, method) pair when some
//! route's pattern matches the path and the method names agree ignoring
//! case.

use vstd::prelude::*;
use crate::config::OpenApiConfig;
use crate::openapi::{
    OpenApiV3,
    Parameter,
    Path,
    PathMethod,
    Server,
    effective_params,
    filter_path_params,
    path_params,
    param_names,
};
use crate::pattern::{
    route_pattern_spec,
    regex_compiles,
    regex_accepts,
    build_route_pattern,
    regex_compile_ok,
    regex_is_match,
};
use crate::text::{lower_of, str_eq, to_lowercase, trim_slashes, trim_trailing_slashes};
use vstd::slice::slice_to_vec;
use vstd::string::StringExecFns;

verus! {

/// One compiled route: the anchored pattern, the lowercased method, and the
/// path parameters that drove the wildcards.
#[derive(Debug)]
pub struct Route {
    pub pattern: String,
    pub method: String,
    pub path_parameters: Vec<Parameter>,
}

impl Route {
    /// A route with the given pattern and method and no path parameters.
    pub fn new(pattern: String, method: String) -> (r: Route)
        ensures
            r.pattern@ == pattern@,
            r.method@ == method@,
            r.path_parameters@ == Seq::<Parameter>::empty(),
    {
        let r = Route { pattern, method, path_parameters: Vec::new() };
        proof {
            assert(r.path_parameters@ =~= Seq::<Parameter>::empty());
        }
        r
    }

    /// Whether this route's pattern matches the path. A pattern the regex
    /// engine rejects matches nothing.
    pub fn matches_path(&self, path: &str) -> (r: bool)
        ensures
            r == route_claims_path(*self, path@),
    {
        regex_is_match(self.pattern.as_str(), path)
    }
}

/// What a route is, mathematically: its pattern, its method and its path
/// parameters, as sequences.
#[verifier::ext_equal]
pub struct RouteModel {
    pub pattern: Seq<char>,
    pub method: Seq<char>,
    pub params: Seq<Parameter>,
}

impl View for Route {
    type V = RouteModel;

    open spec fn view(&self) -> RouteModel {
        RouteModel {
            pattern: self.pattern@,
            method: self.method@,
            params: self.path_parameters@,
        }
    }
}

/// The models of a sequence of routes, in order.
pub open spec fn models_of(rs: Seq<Route>) -> Seq<RouteModel> {
    Seq::new(rs.len(), |i: int| rs[i]@)
}

/// The fetched document of one upstream: its content-type label and its raw
/// bytes.
#[derive(Debug)]
pub struct OpenApiFile {
    pub content_type: String,
    pub contents: Vec<u8>,
}

/// One upstream's slot in the routing table: its configuration, its fetched
/// document when the last fetch succeeded, and its compiled routes.
#[derive(Debug)]
pub struct GatewayEntry {
    pub config: OpenApiConfig,
    pub openapi_file: Option<OpenApiFile>,
    pub routes: Vec<Route>,
}

/// Whether a route's pattern matches the path. A pattern the regex engine
/// rejects matches nothing.
pub open spec fn route_claims_path(r: Route, path: Seq<char>) -> bool {
    regex_compiles(r.pattern@) && regex_accepts(r.pattern@, path)
}

/// Whether a route claims the (path, method) pair: its pattern matches the
/// path and the methods agree ignoring case.
pub open spec fn route_claims(r: Route, path: Seq<char>, method: Seq<char>) -> bool {
    route_claims_path(r, path) && lower_of(r.method@) == lower_of(method)
}

/// Whether some route of the entry claims the (path, method) pair.
pub open spec fn entry_claims(e: GatewayEntry, path: Seq<char>, method: Seq<char>) -> bool {
    exists|i: int| 0 <= i < e.routes@.len() && route_claims(e.routes@[i], path, method)
}

/// Whether some route of the entry matches the path, whatever its method.
pub open spec fn entry_claims_path(e: GatewayEntry, path: Seq<char>) -> bool {
    exists|i: int| 0 <= i < e.routes@.len() && route_claims_path(e.routes@[i], path)
}

impl GatewayEntry {
    /// Whether some route of this entry matches the path and, ignoring
    /// case, the method.
    pub fn contains_route_and_method(&self, path: &str, method: &str) -> (r: bool)
        ensures
            r == entry_claims(*self, path@, method@),
    {
        let method_lower = to_lowercase(method);
        let mut i: usize = 0;
        while i < self.routes.len()
            invariant
                i <= self.routes@.len(),
                method_lower@ == lower_of(method@),
                forall|k: int| 0 <= k < i ==> !route_claims(self.routes@[k], path@, method@),
            decreases self.routes@.len() - i,
        {
            if regex_is_match(self.routes[i].pattern.as_str(), path) {
                let route_lower = to_lowercase(self.routes[i].method.as_str());
                if str_eq(route_lower.as_str(), method_lower.as_str()) {
                    proof {
                        assert(route_claims(self.routes@[i as int], path@, method@));
                    }
                    return true;
                }
            }
            i = i + 1;
        }
        false
    }

    /// Whether some route of this entry matches the path, whatever its
    /// method.
    pub fn contains_route(&self, path: &str) -> (r: bool)
        ensures
            r == entry_claims_path(*self, path@),
    {
        let mut i: usize = 0;
        while i < self.routes.len()
            invariant
                i <= self.routes@.len(),
                forall|k: int| 0 <= k < i ==> !route_claims_path(self.routes@[k], path@),
            decreases self.routes@.len() - i,
        {
            if regex_is_match(self.routes[i].pattern.as_str(), path) {
                proof {
                    assert(route_claims_path(self.routes@[i as int], path@));
                }
                return true;
            }
            i = i + 1;
        }
        false
    }
}

/// The syntax a fetched document was parsed under.
#[derive(Clone, Copy, Debug, PartialEq, Eq, Structural)]
pub enum ContentType {
    JSON,
    YAML,
}

/// A failure to turn a fetched document into routes. All of these are
/// non-fatal: the entry loses its document and routes for the cycle.
#[derive(Debug)]
pub enum ParseError {
    /// The document is not valid JSON; the message says why.
    JsonParseError(String),
    /// The document is not valid YAML; the message says why.
    YamlParseError(String),
    /// A compiled pattern was rejected by the regex engine, which indicates
    /// a malformed parameter name; the payload is the pattern.
    InvalidRoutePattern(String),
}

/// The content-type label stored for a document parsed under the given
/// syntax.
pub open spec fn content_label(ct: ContentType) -> Seq<char> {
    match ct {
        ContentType::JSON => "application/json"@,
        ContentType::YAML => "application/yaml"@,
    }
}

/// The route compiled from one (server prefix, path template, method)
/// triple: the effective parameters are the method's own when present, else
/// the path-level ones; the pattern substitutes the path parameters among
/// them; the method is stored lowercased.
pub open spec fn route_model_of(
    prefix: Seq<char>,
    path_name: Seq<char>,
    path_level: Seq<Parameter>,
    method_name: Seq<char>,
    m: PathMethod,
) -> RouteModel {
    let eff = effective_params(path_level, m);
    RouteModel {
        pattern: route_pattern_spec(prefix + path_name, param_names(path_params(eff))),
        method: lower_of(method_name),
        params: path_params(eff),
    }
}

/// The routes of one path template, in method order, from method `j` on.
pub open spec fn path_route_models(prefix: Seq<char>, name: Seq<char>, p: Path, j: int) -> Seq<
    RouteModel,
>
    decreases p.methods@.len() - j,
{
    if j < 0 || j >= p.methods@.len() {
        Seq::empty()
    } else {
        seq![route_model_of(prefix, name, p.parameters@, p.methods@[j].0@, p.methods@[j].1)]
            + path_route_models(prefix, name, p, j + 1)
    }
}

/// The routes of a document under one server prefix, in path order, from
/// path `i` on.
pub open spec fn doc_route_models(paths: Seq<(String, Path)>, i: int, prefix: Seq<char>) -> Seq<
    RouteModel,
>
    decreases paths.len() - i,
{
    if i < 0 || i >= paths.len() {
        Seq::empty()
    } else {
        path_route_models(prefix, paths[i].0@, paths[i].1, 0) + doc_route_models(
            paths,
            i + 1,
            prefix,
        )
    }
}

/// The first pattern among `ms[i..]` that the regex engine rejects, if any.
pub open spec fn first_bad(ms: Seq<RouteModel>, i: int) -> Option<Seq<char>>
    decreases ms.len() - i,
{
    if i < 0 || i >= ms.len() {
        None
    } else if !regex_compiles(ms[i].pattern) {
        Some(ms[i].pattern)
    } else {
        first_bad(ms, i + 1)
    }
}

proof fn lemma_first_bad_shift(a: Seq<RouteModel>, b: Seq<RouteModel>, k: int)
    requires
        0 <= k <= b.len(),
    ensures
        first_bad(a + b, a.len() + k) == first_bad(b, k),
    decreases b.len() - k,
{
    if k < b.len() {
        assert((a + b)[a.len() + k] == b[k]);
        lemma_first_bad_shift(a, b, k + 1);
    }
}

proof fn lemma_first_bad_concat_at(a: Seq<RouteModel>, b: Seq<RouteModel>, i: int)
    requires
        0 <= i <= a.len(),
    ensures
        first_bad(a + b, i) == match first_bad(a, i) {
            Some(p) => Some(p),
            None => first_bad(b, 0),
        },
    decreases a.len() - i,
{
    if i < a.len() {
        assert((a + b)[i] == a[i]);
        lemma_first_bad_concat_at(a, b, i + 1);
    } else {
        lemma_first_bad_shift(a, b, 0);
    }
}

/// The first rejected pattern of a concatenation is the first of the left
/// part, or else the first of the right part.
pub proof fn lemma_first_bad_concat(a: Seq<RouteModel>, b: Seq<RouteModel>)
    ensures
        first_bad(a + b, 0) == match first_bad(a, 0) {
            Some(p) => Some(p),
            None => first_bad(b, 0),
        },
{
    lemma_first_bad_concat_at(a, b, 0);
}

/// A sequence of models whose patterns all compile has no first rejected
/// pattern.
pub proof fn lemma_all_compile(ms: Seq<RouteModel>, i: int)
    requires
        0 <= i <= ms.len(),
        forall|k: int| i <= k < ms.len() ==> regex_compiles(#[trigger] ms[k].pattern),
    ensures
        first_bad(ms, i) is None,
    decreases ms.len() - i,
{
    if i < ms.len() {
        lemma_all_compile(ms, i + 1);
    }
}

/// A sequence of models without a first rejected pattern has only patterns
/// that compile.
pub proof fn lemma_first_bad_none(ms: Seq<RouteModel>, i: int)
    requires
        0 <= i <= ms.len(),
        first_bad(ms, i) is None,
    ensures
        forall|k: int| i <= k < ms.len() ==> regex_compiles(#[trigger] ms[k].pattern),
    decreases ms.len() - i,
{
    if i < ms.len() {
        lemma_first_bad_none(ms, i + 1);
    }
}

/// The pattern compiled from one raw URI template and its parameters: the
/// anchored pattern over the path parameters among them, checked against
/// the regex engine. A rejected pattern is a parse error carrying the
/// pattern.
pub fn regex_from_route(url: &str, parameters: &Vec<Parameter>) -> (r: Result<String, ParseError>)
    ensures
        regex_compiles(route_pattern_spec(url@, param_names(path_params(parameters@)))) ==> (
        r matches Ok(p) && p@ == route_pattern_spec(url@, param_names(path_params(parameters@)))),
        !regex_compiles(route_pattern_spec(url@, param_names(path_params(parameters@)))) ==> (
        r matches Err(e) && e matches ParseError::InvalidRoutePattern(p) && p@
            == route_pattern_spec(url@, param_names(path_params(parameters@)))),
{
    let pp = filter_path_params(parameters);
    let mut names: Vec<String> = Vec::new();
    let mut i: usize = 0;
    while i < pp.len()
        invariant
            i <= pp@.len(),
            names.deep_view() == param_names(pp@).subrange(0, i as int),
        decreases pp@.len() - i,
    {
        let ghost gi = i as int;
        let ghost prevd = names.deep_view();
        let cloned = pp[i].name.clone();
        proof {
            assert(cloned@ == pp@[gi].name@);
        }
        names.push(cloned);
        i = i + 1;
        proof {
            assert(names.deep_view() =~= prevd.push(pp@[gi].name@));
            assert(names.deep_view() =~= param_names(pp@).subrange(0, i as int));
        }
    }
    proof {
        assert(names.deep_view() =~= param_names(path_params(parameters@)));
    }
    let pattern = build_route_pattern(url, &names);
    if regex_compile_ok(pattern.as_str()) {
        Ok(pattern)
    } else {
        Err(ParseError::InvalidRoutePattern(pattern))
    }
}

/// The routes of a whole document under one server prefix, in path order
/// and method order; or the first pattern the regex engine rejected.
pub fn collect_routes(json: &OpenApiV3, server_prefix: &str) -> (r: Result<Vec<Route>, ParseError>)
    ensures
        first_bad(doc_route_models(json.paths@, 0, server_prefix@), 0) is None ==> (r matches Ok(v)
            && models_of(v@) == doc_route_models(json.paths@, 0, server_prefix@)),
        first_bad(doc_route_models(json.paths@, 0, server_prefix@), 0) matches Some(bp) ==> (
        r matches Err(e) && e matches ParseError::InvalidRoutePattern(p) && p@ == bp),
{
    let ghost full = doc_route_models(json.paths@, 0, server_prefix@);
    let mut acc: Vec<Route> = Vec::new();
    let mut i: usize = 0;
    while i < json.paths.len()
        invariant
            i <= json.paths@.len(),
            full == doc_route_models(json.paths@, 0, server_prefix@),
            full == models_of(acc@) + doc_route_models(json.paths@, i as int, server_prefix@),
            forall|k: int|
                0 <= k < acc@.len() ==> regex_compiles(#[trigger] models_of(acc@)[k].pattern),
        decreases json.paths@.len() - i,
    {
        let ghost gi = i as int;
        let path_uri = String::from_str(server_prefix).concat(json.paths[i].0.as_str());
        let ghost path_name = json.paths@[gi].0@;
        let ghost p = json.paths@[gi].1;
        let mut j: usize = 0;
        while j < json.paths[i].1.methods.len()
            invariant
                j <= p.methods@.len(),
                i < json.paths@.len(),
                gi == i as int,
                p == json.paths@[gi].1,
                path_name == json.paths@[gi].0@,
                path_uri@ == server_prefix@ + path_name,
                full == doc_route_models(json.paths@, 0, server_prefix@),
                full == models_of(acc@) + path_route_models(server_prefix@, path_name, p, j as int)
                    + doc_route_models(json.paths@, gi + 1, server_prefix@),
                forall|k: int|
                    0 <= k < acc@.len() ==> regex_compiles(#[trigger] models_of(acc@)[k].pattern),
            decreases p.methods@.len() - j,
        {
            let ghost gj = j as int;
            let ghost prev = acc@;
            let ghost model = route_model_of(
                server_prefix@,
                path_name,
                p.parameters@,
                p.methods@[gj].0@,
                p.methods@[gj].1,
            );
            let eff: &Vec<Parameter> = match &json.paths[i].1.methods[j].1.parameters {
                Some(v) => v,
                None => &json.paths[i].1.parameters,
            };
            proof {
                assert(eff@ == effective_params(p.parameters@, p.methods@[gj].1));
            }
            let pattern = match regex_from_route(path_uri.as_str(), eff) {
                Ok(pat) => pat,
                Err(e) => {
                    proof {
                        let bad_tail = path_route_models(server_prefix@, path_name, p, gj)
                            + doc_route_models(json.paths@, gi + 1, server_prefix@);
                        assert(full == models_of(prev) + bad_tail);
                        lemma_all_compile(models_of(prev), 0);
                        lemma_first_bad_concat(models_of(prev), bad_tail);
                        assert(bad_tail[0] == model);
                        assert(!regex_compiles(model.pattern));
                        assert(first_bad(bad_tail, 0) == Some(model.pattern));
                        assert(first_bad(full, 0) == Some(model.pattern));
                    }
                    return Err(e);
                },
            };
            let method_lower = to_lowercase(json.paths[i].1.methods[j].0.as_str());
            let params = filter_path_params(eff);
            let route = Route { pattern, method: method_lower, path_parameters: params };
            proof {
                assert(route@ =~= model);
            }
            acc.push(route);
            j = j + 1;
            proof {
                assert(models_of(acc@) =~= models_of(prev).push(model));
                assert(path_route_models(server_prefix@, path_name, p, gj) == seq![model]
                    + path_route_models(server_prefix@, path_name, p, gj + 1));
                assert(models_of(prev) + path_route_models(server_prefix@, path_name, p, gj)
                    =~= models_of(acc@) + path_route_models(server_prefix@, path_name, p, gj + 1));
                assert(forall|k: int|
                    0 <= k < acc@.len() ==> regex_compiles(
                        #[trigger] models_of(acc@)[k].pattern,
                    ));
            }
        }
        i = i + 1;
        proof {
            assert(path_route_models(server_prefix@, path_name, p, p.methods@.len() as int)
                =~= Seq::<RouteModel>::empty());
            assert(models_of(acc@) + path_route_models(
                server_prefix@,
                path_name,
                p,
                p.methods@.len() as int,
            ) =~= models_of(acc@));
            assert(doc_route_models(json.paths@, gi, server_prefix@) == path_route_models(
                server_prefix@,
                path_name,
                p,
                0,
            ) + doc_route_models(json.paths@, gi + 1, server_prefix@));
        }
    }
    proof {
        assert(doc_route_models(json.paths@, i as int, server_prefix@) =~= Seq::<
            RouteModel,
        >::empty());
        assert(models_of(acc@) =~= full);
        lemma_all_compile(full, 0);
    }
    Ok(acc)
}

/// The effective server prefixes of a document: each server URL with its
/// trailing slashes trimmed. A document without servers gets the single
/// default server `/`, whose trimmed form is empty.
pub open spec fn server_prefixes(servers: Seq<Server>) -> Seq<Seq<char>> {
    if servers.len() == 0 {
        seq![Seq::<char>::empty()]
    } else {
        Seq::new(servers.len(), |i: int| trim_slashes(servers[i].url@))
    }
}

/// The routes of a document under the prefixes `prefixes[s..]`, one server
/// after the other.
pub open spec fn all_route_models(
    prefixes: Seq<Seq<char>>,
    paths: Seq<(String, Path)>,
    s: int,
) -> Seq<RouteModel>
    decreases prefixes.len() - s,
{
    if s < 0 || s >= prefixes.len() {
        Seq::empty()
    } else {
        doc_route_models(paths, 0, prefixes[s]) + all_route_models(prefixes, paths, s + 1)
    }
}

/// All the routes of a parsed document, server by server, path by path,
/// method by method.
pub open spec fn document_route_models(doc: OpenApiV3) -> Seq<RouteModel> {
    all_route_models(server_prefixes(doc.servers@), doc.paths@, 0)
}

/// Whether a route model's pattern is anchored with `^` and `$`.
pub open spec fn route_anchored(m: RouteModel) -> bool {
    m.pattern.len() >= 2 && m.pattern.first() == '^' && m.pattern.last() == '$'
}

/// A well-formed entry: an entry without a document has no routes, and
/// every route's pattern compiles and is anchored.
pub open spec fn entry_wf(e: GatewayEntry) -> bool {
    &&& e.openapi_file is None ==> e.routes@.len() == 0
    &&& forall|k: int|
        0 <= k < e.routes@.len() ==> regex_compiles(#[trigger] e.routes@[k]@.pattern)
    &&& forall|k: int| 0 <= k < e.routes@.len() ==> route_anchored(#[trigger] e.routes@[k]@)
}

proof fn lemma_path_models_anchored(prefix: Seq<char>, name: Seq<char>, p: Path, j: int)
    ensures
        forall|k: int|
            0 <= k < path_route_models(prefix, name, p, j).len() ==> route_anchored(
                #[trigger] path_route_models(prefix, name, p, j)[k],
            ),
    decreases p.methods@.len() - j,
{
    if 0 <= j < p.methods@.len() {
        lemma_path_models_anchored(prefix, name, p, j + 1);
        let m = route_model_of(prefix, name, p.parameters@, p.methods@[j].0@, p.methods@[j].1);
        crate::pattern::lemma_route_pattern_anchored(
            prefix + name,
            param_names(path_params(effective_params(p.parameters@, p.methods@[j].1))),
        );
        assert(route_anchored(m));
        let s = path_route_models(prefix, name, p, j);
        let rest = path_route_models(prefix, name, p, j + 1);
        assert forall|k: int| 0 <= k < s.len() implies route_anchored(#[trigger] s[k]) by {
            if k == 0 {
                assert(s[k] == m);
            } else {
                assert(s[k] == rest[k - 1]);
            }
        }
    }
}

proof fn lemma_doc_models_anchored(paths: Seq<(String, Path)>, i: int, prefix: Seq<char>)
    ensures
        forall|k: int|
            0 <= k < doc_route_models(paths, i, prefix).len() ==> route_anchored(
                #[trigger] doc_route_models(paths, i, prefix)[k],
            ),
    decreases paths.len() - i,
{
    if 0 <= i < paths.len() {
        lemma_path_models_anchored(prefix, paths[i].0@, paths[i].1, 0);
        lemma_doc_models_anchored(paths, i + 1, prefix);
        let s = doc_route_models(paths, i, prefix);
        let a = path_route_models(prefix, paths[i].0@, paths[i].1, 0);
        let b = doc_route_models(paths, i + 1, prefix);
        assert forall|k: int| 0 <= k < s.len() implies route_anchored(#[trigger] s[k]) by {
            if k < a.len() {
                assert(s[k] == a[k]);
            } else {
                assert(s[k] == b[k - a.len()]);
            }
        }
    }
}

/// Every route a document compiles to is anchored with `^` and `$`.
pub proof fn lemma_all_models_anchored(
    prefixes: Seq<Seq<char>>,
    paths: Seq<(String, Path)>,
    s: int,
)
    ensures
        forall|k: int|
            0 <= k < all_route_models(prefixes, paths, s).len() ==> route_anchored(
                #[trigger] all_route_models(prefixes, paths, s)[k],
            ),
    decreases prefixes.len() - s,
{
    if 0 <= s < prefixes.len() {
        lemma_doc_models_anchored(paths, 0, prefixes[s]);
        lemma_all_models_anchored(prefixes, paths, s + 1);
        let w = all_route_models(prefixes, paths, s);
        let a = doc_route_models(paths, 0, prefixes[s]);
        let b = all_route_models(prefixes, paths, s + 1);
        assert forall|k: int| 0 <= k < w.len() implies route_anchored(#[trigger] w[k]) by {
            if k < a.len() {
                assert(w[k] == a[k]);
            } else {
                assert(w[k] == b[k - a.len()]);
            }
        }
    }
}

impl GatewayEntry {
    /// The slot of an upstream whose last fetch or parse failed: the
    /// configuration is kept, the document and the routes are gone.
    pub fn empty(config: OpenApiConfig) -> (r: GatewayEntry)
        ensures
            r.config == config,
            r.openapi_file is None,
            r.routes@ == Seq::<Route>::empty(),
            entry_wf(r),
    {
        let r = GatewayEntry { config, openapi_file: None, routes: Vec::new() };
        proof {
            assert(r.routes@ =~= Seq::<Route>::empty());
        }
        r
    }
}

/// One upstream's slot built from its fetched document. The document, already
/// parsed (or failed) outside, is compiled into routes: every server prefix
/// is trimmed of trailing slashes (a document without servers gets the
/// default `/`), and each (prefix, path, method) triple yields one route.
/// A parse failure or a rejected pattern loses the whole entry for this
/// cycle.
pub fn parse_openapi(
    content_type: ContentType,
    config: OpenApiConfig,
    file_buffer: &Vec<u8>,
    document: Result<OpenApiV3, String>,
) -> (r: Result<GatewayEntry, ParseError>)
    ensures
        match document {
            Err(msg) => match content_type {
                ContentType::JSON => r matches Err(e) && (e matches ParseError::JsonParseError(t)
                    && t@ == msg@),
                ContentType::YAML => r matches Err(e) && (e matches ParseError::YamlParseError(t)
                    && t@ == msg@),
            },
            Ok(doc) => match first_bad(document_route_models(doc), 0) {
                None => r matches Ok(entry) && entry.config == config && (entry.openapi_file
                    matches Some(f) && f.content_type@ == content_label(content_type)
                    && f.contents@ == file_buffer@) && models_of(entry.routes@)
                    == document_route_models(doc) && entry_wf(entry),
                Some(bp) => r matches Err(e) && (e matches ParseError::InvalidRoutePattern(p) && p@
                    == bp),
            },
        },
{
    let doc = match document {
        Ok(d) => d,
        Err(msg) => {
            return Err(
                match content_type {
                    ContentType::JSON => ParseError::JsonParseError(msg),
                    ContentType::YAML => ParseError::YamlParseError(msg),
                },
            );
        },
    };
    let ghost pviews = server_prefixes(doc.servers@);
    let mut prefixes: Vec<String> = Vec::new();
    if doc.servers.len() == 0 {
        let root = trim_trailing_slashes("/");
        proof {
            reveal_strlit("/");
            assert("/"@.len() == 1);
            assert("/"@.last() == '/');
            assert("/"@.drop_last() =~= Seq::<char>::empty());
            assert(trim_slashes(Seq::<char>::empty()) == Seq::<char>::empty());
            assert(trim_slashes("/"@) == trim_slashes("/"@.drop_last()));
            assert(trim_slashes("/"@) =~= Seq::<char>::empty());
        }
        prefixes.push(root);
        proof {
            assert(prefixes.deep_view() =~= pviews);
        }
    } else {
        let mut s: usize = 0;
        while s < doc.servers.len()
            invariant
                s <= doc.servers@.len(),
                doc.servers@.len() > 0,
                pviews == server_prefixes(doc.servers@),
                prefixes.deep_view() == pviews.subrange(0, s as int),
            decreases doc.servers@.len() - s,
        {
            let ghost prevd = prefixes.deep_view();
            let ghost gs = s as int;
            let trimmed = trim_trailing_slashes(doc.servers[s].url.as_str());
            prefixes.push(trimmed);
            s = s + 1;
            proof {
                assert(prefixes.deep_view() =~= prevd.push(trim_slashes(doc.servers@[gs].url@)));
                assert(prefixes.deep_view() =~= pviews.subrange(0, s as int));
            }
        }
        proof {
            assert(prefixes.deep_view() =~= pviews);
        }
    }
    let ghost fullm = all_route_models(pviews, doc.paths@, 0);
    let mut routes: Vec<Route> = Vec::new();
    let mut s: usize = 0;
    while s < prefixes.len()
        invariant
            s <= prefixes@.len(),
            document == Ok::<OpenApiV3, String>(doc),
            pviews == server_prefixes(doc.servers@),
            prefixes.deep_view() == pviews,
            fullm == document_route_models(doc),
            fullm == models_of(routes@) + all_route_models(pviews, doc.paths@, s as int),
            forall|k: int|
                0 <= k < routes@.len() ==> regex_compiles(
                    #[trigger] models_of(routes@)[k].pattern,
                ),
        decreases prefixes@.len() - s,
    {
        let ghost gs = s as int;
        let ghost prevm = models_of(routes@);
        proof {
            assert(prefixes.deep_view()[gs] == prefixes@[gs]@);
        }
        let rs = match collect_routes(&doc, prefixes[s].as_str()) {
            Ok(v) => v,
            Err(e) => {
                proof {
                    let here = doc_route_models(doc.paths@, 0, pviews[gs]);
                    let rest = all_route_models(pviews, doc.paths@, gs + 1);
                    assert(fullm == prevm + (here + rest));
                    lemma_all_compile(prevm, 0);
                    lemma_first_bad_concat(prevm, here + rest);
                    lemma_first_bad_concat(here, rest);
                    assert(first_bad(here, 0) matches Some(bp) && (e matches
                        ParseError::InvalidRoutePattern(p) && p@ == bp));
                    assert(first_bad(fullm, 0) == first_bad(here, 0));
                }
                return Err(e);
            },
        };
        proof {
            let here = doc_route_models(doc.paths@, 0, pviews[gs]);
            assert(first_bad(here, 0) is None);
            lemma_first_bad_none(here, 0);
        }
        let mut tail = rs;
        routes.append(&mut tail);
        s = s + 1;
        proof {
            let here = doc_route_models(doc.paths@, 0, pviews[gs]);
            assert(models_of(routes@) =~= prevm + here);
            assert(forall|k: int|
                0 <= k < routes@.len() ==> regex_compiles(
                    #[trigger] models_of(routes@)[k].pattern,
                ));
            assert(all_route_models(pviews, doc.paths@, gs) == here + all_route_models(
                pviews,
                doc.paths@,
                gs + 1,
            ));
            assert(prevm + all_route_models(pviews, doc.paths@, gs) =~= models_of(routes@)
                + all_route_models(pviews, doc.paths@, gs + 1));
        }
    }
    proof {
        assert(all_route_models(pviews, doc.paths@, s as int) =~= Seq::<RouteModel>::empty());
        assert(models_of(routes@) =~= fullm);
        lemma_all_compile(fullm, 0);
        lemma_all_models_anchored(pviews, doc.paths@, 0);
        assert forall|k: int| 0 <= k < routes@.len() implies route_anchored(
            #[trigger] routes@[k]@,
        ) && regex_compiles(routes@[k]@.pattern) by {
            assert(routes@[k]@ == models_of(routes@)[k]);
            assert(models_of(routes@)[k] == all_route_models(pviews, doc.paths@, 0)[k]);
            assert(route_anchored(all_route_models(pviews, doc.paths@, 0)[k]));
        }
    }
    let label = match content_type {
        ContentType::JSON => "application/json",
        ContentType::YAML => "application/yaml",
    };
    let file = OpenApiFile {
        content_type: String::from_str(label),
        contents: slice_to_vec(file_buffer.as_slice()),
    };
    let entry = GatewayEntry { config, openapi_file: Some(file), routes };
    proof {
        assert(entry_wf(entry));
    }
    Ok(entry)
}

/// Whether an entry claims a pair depends on the request method only
/// through its lowercase form: two methods with one lowercase form are
/// treated identically.
pub proof fn lemma_method_case_insensitive(
    e: GatewayEntry,
    path: Seq<char>,
    m1: Seq<char>,
    m2: Seq<char>,
)
    requires
        lower_of(m1) == lower_of(m2),
    ensures
        entry_claims(e, path, m1) == entry_claims(e, path, m2),
{
    if entry_claims(e, path, m1) {
        let i = choose|i: int| 0 <= i < e.routes@.len() && route_claims(e.routes@[i], path, m1);
        assert(route_claims(e.routes@[i], path, m2));
    }
    if entry_claims(e, path, m2) {
        let i = choose|i: int| 0 <= i < e.routes@.len() && route_claims(e.routes@[i], path, m2);
        assert(route_claims(e.routes@[i], path, m1));
    }
}

} // verus!
