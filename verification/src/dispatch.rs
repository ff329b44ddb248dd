//! Entry selection: per request, the entry whose matching route has the
//! fewest path parameters wins; ties fall to the first entry in
//! configuration order. A miss with a path some entry still claims can be
//! short-circuited with CORS headers when a global CORS block is
//! configured.

use vstd::prelude::*;
use crate::config::{CorsConfig, HttpMethod, method_name};
use crate::gateway::{GatewayEntry, entry_claims_path, route_claims};
use crate::pattern::regex_is_match;
use crate::text::{lower_of, str_eq, to_lowercase};
use vstd::string::StringExecFns;

verus! {

/// The fewest path parameters among the routes of `routes[i..]` claiming
/// the pair, if any claims it.
pub open spec fn min_params_from(
    routes: Seq<crate::gateway::Route>,
    path: Seq<char>,
    method: Seq<char>,
    i: int,
) -> Option<int>
    decreases routes.len() - i,
{
    if i < 0 || i >= routes.len() {
        None
    } else {
        let rest = min_params_from(routes, path, method, i + 1);
        if route_claims(routes[i], path, method) {
            let c = routes[i].path_parameters@.len() as int;
            match rest {
                None => Some(c),
                Some(b) => Some(
                    if c <= b {
                        c
                    } else {
                        b
                    },
                ),
            }
        } else {
            rest
        }
    }
}

/// The fewest path parameters among an entry's routes claiming the pair,
/// if the entry claims it at all.
pub open spec fn entry_min_params(e: GatewayEntry, path: Seq<char>, method: Seq<char>) -> Option<
    int,
> {
    min_params_from(e.routes@, path, method, 0)
}

/// The winner among `entries[i..]`: the entry with the fewest path
/// parameters on its best claiming route, the earliest on ties, together
/// with that count.
pub open spec fn best_entry_from(
    entries: Seq<GatewayEntry>,
    path: Seq<char>,
    method: Seq<char>,
    i: int,
) -> Option<(int, int)>
    decreases entries.len() - i,
{
    if i < 0 || i >= entries.len() {
        None
    } else {
        let rest = best_entry_from(entries, path, method, i + 1);
        match entry_min_params(entries[i], path, method) {
            None => rest,
            Some(c) => match rest {
                None => Some((i, c)),
                Some((bj, bc)) => if c <= bc {
                    Some((i, c))
                } else {
                    Some((bj, bc))
                },
            },
        }
    }
}

/// The winning entry for a request, with its parameter count.
pub open spec fn best_entry(entries: Seq<GatewayEntry>, path: Seq<char>, method: Seq<char>) -> Option<
    (int, int),
> {
    best_entry_from(entries, path, method, 0)
}

/// What the winner means: it claims the pair with its count, no entry does
/// better, and no earlier entry ties it.
pub proof fn lemma_best_entry_props(
    entries: Seq<GatewayEntry>,
    path: Seq<char>,
    method: Seq<char>,
    i: int,
)
    requires
        0 <= i <= entries.len(),
    ensures
        best_entry_from(entries, path, method, i) is None ==> forall|j: int|
            i <= j < entries.len() ==> entry_min_params(#[trigger] entries[j], path, method)
                is None,
        best_entry_from(entries, path, method, i) matches Some((w, c)) ==> {
            &&& i <= w < entries.len()
            &&& entry_min_params(entries[w], path, method) == Some(c)
            &&& forall|j: int|
                i <= j < entries.len() ==> match entry_min_params(
                    #[trigger] entries[j],
                    path,
                    method,
                ) {
                    Some(cj) => c <= cj && (j < w ==> cj > c),
                    None => true,
                }
        },
    decreases entries.len() - i,
{
    if i < entries.len() {
        lemma_best_entry_props(entries, path, method, i + 1);
    }
}

/// Specificity: when two entries both claim the pair and one's best route
/// has strictly fewer path parameters, the other is not chosen, and the
/// chosen entry's count is at most the smaller of the two.
pub proof fn lemma_specificity(
    entries: Seq<GatewayEntry>,
    path: Seq<char>,
    method: Seq<char>,
    i: int,
    j: int,
    ci: int,
    cj: int,
)
    requires
        0 <= i < entries.len(),
        0 <= j < entries.len(),
        entry_min_params(entries[i], path, method) == Some(ci),
        entry_min_params(entries[j], path, method) == Some(cj),
        ci < cj,
    ensures
        best_entry(entries, path, method) matches Some((w, c)) && w != j && c <= ci,
{
    lemma_best_entry_props(entries, path, method, 0);
}

/// The fewest path parameters among this entry's routes that claim the
/// pair, or nothing when none does.
fn entry_min_params_exec(e: &GatewayEntry, path: &str, method_lower: &str, ghost_method: Ghost<
    Seq<char>,
>) -> (r: Option<usize>)
    requires
        method_lower@ == lower_of(ghost_method@),
    ensures
        match entry_min_params(*e, path@, ghost_method@) {
            None => r is None,
            Some(c) => r matches Some(x) && x == c,
        },
{
    let ghost m = ghost_method@;
    let mut cur: Option<usize> = None;
    let mut k: usize = e.routes.len();
    while k > 0
        invariant
            k <= e.routes@.len(),
            method_lower@ == lower_of(m),
            match min_params_from(e.routes@, path@, m, k as int) {
                None => cur is None,
                Some(c) => cur matches Some(x) && x == c,
            },
        decreases k,
    {
        k = k - 1;
        let ghost gk = k as int;
        let claims = if regex_is_match(e.routes[k].pattern.as_str(), path) {
            let route_lower = to_lowercase(e.routes[k].method.as_str());
            str_eq(route_lower.as_str(), method_lower)
        } else {
            false
        };
        proof {
            assert(claims == route_claims(e.routes@[gk], path@, m));
        }
        if claims {
            let c = e.routes[k].path_parameters.len();
            cur = match cur {
                None => Some(c),
                Some(b) => Some(
                    if c <= b {
                        c
                    } else {
                        b
                    },
                ),
            };
        }
    }
    cur
}

/// The entry that wins the request: among the entries whose routes claim
/// the pair (the method compared ignoring case), the one whose best
/// claiming route has the fewest path parameters; the earliest wins ties.
pub fn matching_route_with_least_matching_parameters(
    path: &str,
    method: &str,
    entries: &Vec<GatewayEntry>,
) -> (r: Option<usize>)
    ensures
        match best_entry(entries@, path@, method@) {
            None => r is None,
            Some((w, c)) => r matches Some(x) && x == w,
        },
{
    let method_lower = to_lowercase(method);
    let mut best: Option<(usize, usize)> = None;
    let mut i: usize = entries.len();
    while i > 0
        invariant
            i <= entries@.len(),
            method_lower@ == lower_of(method@),
            match best_entry_from(entries@, path@, method@, i as int) {
                None => best is None,
                Some((w, c)) => best matches Some(p) && p.0 == w && p.1 == c,
            },
        decreases i,
    {
        i = i - 1;
        let cnt = entry_min_params_exec(&entries[i], path, method_lower.as_str(), Ghost(method@));
        match cnt {
            None => {},
            Some(c) => {
                best = match best {
                    None => Some((i, c)),
                    Some((bj, bc)) => if c <= bc {
                        Some((i, c))
                    } else {
                        Some((bj, bc))
                    },
                };
            },
        }
    }
    match best {
        None => None,
        Some((w, _)) => Some(w),
    }
}

/// Whether some entry claims the path, whatever the method.
pub open spec fn some_entry_claims_path(entries: Seq<GatewayEntry>, path: Seq<char>) -> bool {
    exists|i: int| 0 <= i < entries.len() && entry_claims_path(entries[i], path)
}

/// Whether any entry has a route matching the path, ignoring methods.
pub fn any_entry_claims_path(entries: &Vec<GatewayEntry>, path: &str) -> (r: bool)
    ensures
        r == some_entry_claims_path(entries@, path@),
{
    let mut i: usize = 0;
    while i < entries.len()
        invariant
            i <= entries@.len(),
            forall|k: int| 0 <= k < i ==> !entry_claims_path(#[trigger] entries@[k], path@),
        decreases entries@.len() - i,
    {
        if entries[i].contains_route(path) {
            proof {
                assert(entry_claims_path(entries@[i as int], path@));
            }
            return true;
        }
        i = i + 1;
    }
    false
}

/// What the gateway does with a request that is not a docs request.
#[derive(Clone, Copy, Debug, PartialEq, Eq, Structural)]
pub enum DispatchDecision {
    /// Forward to the entry at this index of the routing table.
    Forward(usize),
    /// No entry claims the method, but one claims the path and a CORS block
    /// is configured: answer 200 with the CORS headers and an empty body.
    CorsShortCircuit,
    /// Nobody claims the request: answer 404 with an empty body.
    NotFound,
}

/// The gateway's decision for one request: forward to the most specific
/// claiming entry; else, when the path is claimed and CORS is configured,
/// short-circuit; else report that nothing was found.
pub fn dispatch_decision(
    entries: &Vec<GatewayEntry>,
    path: &str,
    method: &str,
    cors_configured: bool,
) -> (r: DispatchDecision)
    ensures
        match best_entry(entries@, path@, method@) {
            Some((w, c)) => r == DispatchDecision::Forward(w as usize),
            None => if cors_configured && some_entry_claims_path(entries@, path@) {
                r == DispatchDecision::CorsShortCircuit
            } else {
                r == DispatchDecision::NotFound
            },
        },
{
    match matching_route_with_least_matching_parameters(path, method, entries) {
        Some(i) => DispatchDecision::Forward(i),
        None => {
            if cors_configured && any_entry_claims_path(entries, path) {
                DispatchDecision::CorsShortCircuit
            } else {
                DispatchDecision::NotFound
            }
        },
    }
}

/// The items joined after the first, each preceded by a comma and a space.
pub open spec fn join_tail(ss: Seq<Seq<char>>, i: int) -> Seq<char>
    decreases ss.len() - i,
{
    if i < 0 || i >= ss.len() {
        Seq::empty()
    } else {
        ", "@ + ss[i] + join_tail(ss, i + 1)
    }
}

/// The items joined with a comma and a space between each two.
pub open spec fn joined(ss: Seq<Seq<char>>) -> Seq<char> {
    if ss.len() == 0 {
        Seq::empty()
    } else {
        ss[0] + join_tail(ss, 1)
    }
}

/// The canonical names of the methods, in order.
pub open spec fn method_names(ms: Seq<HttpMethod>) -> Seq<Seq<char>> {
    Seq::new(ms.len(), |i: int| method_name(ms[i]))
}

/// The strings joined with `", "`.
pub fn join_strings(v: &Vec<String>) -> (r: String)
    ensures
        r@ == joined(v.deep_view()),
{
    let ghost ss = v.deep_view();
    if v.len() == 0 {
        let r = String::new();
        proof {
            assert(r@ =~= joined(ss));
        }
        return r;
    }
    let mut acc = v[0].clone();
    let mut i: usize = 1;
    while i < v.len()
        invariant
            1 <= i <= v@.len(),
            ss == v.deep_view(),
            joined(ss) == acc@ + join_tail(ss, i as int),
        decreases v@.len() - i,
    {
        let ghost gi = i as int;
        let ghost prev = acc@;
        acc.append(", ");
        acc.append(v[i].as_str());
        i = i + 1;
        proof {
            assert(acc@ =~= prev + (", "@ + ss[gi]));
            assert(join_tail(ss, gi) == ", "@ + ss[gi] + join_tail(ss, gi + 1));
            assert(prev + join_tail(ss, gi) =~= acc@ + join_tail(ss, gi + 1));
        }
    }
    proof {
        assert(acc@ + join_tail(ss, i as int) =~= acc@);
    }
    acc
}

/// The canonical method names joined with `", "`.
pub fn join_methods(v: &Vec<HttpMethod>) -> (r: String)
    ensures
        r@ == joined(method_names(v@)),
{
    let ghost ss = method_names(v@);
    if v.len() == 0 {
        let r = String::new();
        proof {
            assert(r@ =~= joined(ss));
        }
        return r;
    }
    let mut acc = String::from_str(v[0].as_str());
    let mut i: usize = 1;
    while i < v.len()
        invariant
            1 <= i <= v@.len(),
            ss == method_names(v@),
            joined(ss) == acc@ + join_tail(ss, i as int),
        decreases v@.len() - i,
    {
        let ghost gi = i as int;
        let ghost prev = acc@;
        acc.append(", ");
        acc.append(v[i].as_str());
        i = i + 1;
        proof {
            assert(acc@ =~= prev + (", "@ + ss[gi]));
            assert(join_tail(ss, gi) == ", "@ + ss[gi] + join_tail(ss, gi + 1));
            assert(prev + join_tail(ss, gi) =~= acc@ + join_tail(ss, gi + 1));
        }
    }
    proof {
        assert(acc@ + join_tail(ss, i as int) =~= acc@);
    }
    acc
}

/// The three CORS headers derived from the configuration, in order: the
/// allowed origin as it stands, then the allowed methods and the allowed
/// headers, each list joined with `", "`.
pub fn cors_headers(cors: &CorsConfig) -> (r: Vec<(String, String)>)
    ensures
        r@.len() == 3,
        r@[0].0@ == "Access-Control-Allow-Origin"@,
        r@[0].1@ == cors.allowed_origin@,
        r@[1].0@ == "Access-Control-Allow-Methods"@,
        r@[1].1@ == joined(method_names(cors.allowed_methods@)),
        r@[2].0@ == "Access-Control-Allow-Headers"@,
        r@[2].1@ == joined(cors.allowed_headers.deep_view()),
{
    let mut r: Vec<(String, String)> = Vec::new();
    r.push((String::from_str("Access-Control-Allow-Origin"), cors.allowed_origin.clone()));
    r.push((String::from_str("Access-Control-Allow-Methods"), join_methods(&cors.allowed_methods)));
    r.push(
        (String::from_str("Access-Control-Allow-Headers"), join_strings(&cors.allowed_headers)),
    );
    r
}

} // verus!
