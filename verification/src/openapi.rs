//! The in-memory view of an OpenAPI v3 document: server prefixes, path
//! templates, the methods under each path, and their parameters.
//!
//! A method record's own parameter list, when present, wholly replaces the
//! path-level list; only parameters with `in == "path"` take part in route
//! compilation.

use vstd::prelude::*;
use crate::text::str_eq;

verus! {

/// One entry of a document's `servers` array: a URL prefix.
#[derive(Debug)]
pub struct Server {
    pub url: String,
}

/// One declared parameter: its name and where it lives (`path`, `query`,
/// `header` or `cookie`).
#[derive(Debug)]
pub struct Parameter {
    pub name: String,
    pub in_type: String,
}

/// One method under a path: its optional parameter list, which overrides the
/// path-level list when present.
#[derive(Debug)]
pub struct PathMethod {
    pub parameters: Option<Vec<Parameter>>,
}

/// One path template: its path-level parameters and its methods, keyed by
/// method name.
#[derive(Debug)]
pub struct Path {
    pub parameters: Vec<Parameter>,
    pub methods: Vec<(String, PathMethod)>,
}

/// A parsed OpenAPI v3 document: server prefixes and path templates.
#[derive(Debug)]
pub struct OpenApiV3 {
    pub servers: Vec<Server>,
    pub paths: Vec<(String, Path)>,
}

impl Clone for Parameter {
    fn clone(&self) -> (r: Self)
        ensures
            r == *self,
    {
        Parameter { name: self.name.clone(), in_type: self.in_type.clone() }
    }
}

impl Clone for Server {
    fn clone(&self) -> (r: Self)
        ensures
            r == *self,
    {
        Server { url: self.url.clone() }
    }
}

/// Whether a parameter is a path parameter.
pub open spec fn is_path_param(p: Parameter) -> bool {
    p.in_type@ == "path"@
}

/// The path parameters among `params[i..]`, in order.
pub open spec fn path_params_from(params: Seq<Parameter>, i: int) -> Seq<Parameter>
    decreases params.len() - i,
{
    if i < 0 || i >= params.len() {
        Seq::empty()
    } else if is_path_param(params[i]) {
        seq![params[i]] + path_params_from(params, i + 1)
    } else {
        path_params_from(params, i + 1)
    }
}

/// The path parameters among `params`, in order.
pub open spec fn path_params(params: Seq<Parameter>) -> Seq<Parameter> {
    path_params_from(params, 0)
}

/// The names of the given parameters, in order.
pub open spec fn param_names(params: Seq<Parameter>) -> Seq<Seq<char>> {
    Seq::new(params.len(), |i: int| params[i].name@)
}

/// The parameter list in force for one method record: its own list when
/// present, else the path-level list.
pub open spec fn effective_params(path_level: Seq<Parameter>, m: PathMethod) -> Seq<Parameter> {
    match m.parameters {
        Some(own) => own@,
        None => path_level,
    }
}

/// The path parameters among `params`, in order, as a vector.
pub fn filter_path_params(params: &Vec<Parameter>) -> (r: Vec<Parameter>)
    ensures
        r@ == path_params(params@),
{
    let mut r: Vec<Parameter> = Vec::new();
    let mut i: usize = 0;
    while i < params.len()
        invariant
            i <= params@.len(),
            path_params_from(params@, 0) == r@ + path_params_from(params@, i as int),
        decreases params@.len() - i,
    {
        let ghost gi = i as int;
        let ghost prev = r@;
        if str_eq(params[i].in_type.as_str(), "path") {
            r.push(params[i].clone());
            proof {
                assert(prev + path_params_from(params@, gi) =~= r@ + path_params_from(
                    params@,
                    gi + 1,
                ));
            }
        } else {
            proof {
                assert(path_params_from(params@, gi) == path_params_from(params@, gi + 1));
            }
        }
        i = i + 1;
    }
    proof {
        assert(r@ + path_params_from(params@, i as int) =~= r@);
    }
    r
}

} // verus!
