//! Gateway configuration: the upstream list, the reload cron expression and
//! the optional global CORS block.
//!
//! The configuration is read either from a TOML file or from environment
//! variables. File and environment access live outside the library; the
//! assembly and validation of the values read — splitting the comma-separated
//! CORS lists, parsing HTTP method names, applying defaults — is verified
//! here.

use vstd::prelude::*;
use crate::text::{str_eq, str_chars, chars_to_string};
use vstd::string::StringExecFns;

verus! {

/// One upstream declaration: a human label and the URL of its OpenAPI
/// document.
#[derive(Debug)]
pub struct OpenApiConfig {
    pub name: String,
    pub url: String,
}

impl Clone for OpenApiConfig {
    fn clone(&self) -> (r: Self)
        ensures
            r == *self,
    {
        OpenApiConfig { name: self.name.clone(), url: self.url.clone() }
    }
}

/// The process-wide CORS block: the allowed origin, methods and headers.
#[derive(Clone, Debug)]
pub struct CorsConfig {
    pub allowed_origin: String,
    pub allowed_methods: Vec<HttpMethod>,
    pub allowed_headers: Vec<String>,
}

/// An HTTP method, as the CORS configuration names them.
#[derive(Clone, Copy, Debug, PartialEq, Eq, Structural)]
pub enum HttpMethod {
    GET,
    POST,
    PUT,
    PATCH,
    DELETE,
    OPTIONS,
    HEAD,
}

/// A configuration failure: all of these are fatal at startup.
#[derive(Debug)]
pub enum ConfigError {
    /// The TOML file did not parse; the message says why.
    Toml(String),
    /// The configuration file could not be read; the message says why.
    Io(String),
    /// A CORS method name is not one of the seven known methods.
    InvalidHttpMethod(String),
    /// Some but not all of the three CORS environment values are present.
    IncompleteCors,
}

/// The whole configuration.
#[derive(Debug)]
pub struct Config {
    pub reload_cron: String,
    pub openapi_urls: Vec<OpenApiConfig>,
    pub global_cors: Option<CorsConfig>,
}

/// The canonical (upper-case) name of an HTTP method.
pub open spec fn method_name(m: HttpMethod) -> Seq<char> {
    match m {
        HttpMethod::GET => "GET"@,
        HttpMethod::POST => "POST"@,
        HttpMethod::PUT => "PUT"@,
        HttpMethod::PATCH => "PATCH"@,
        HttpMethod::DELETE => "DELETE"@,
        HttpMethod::OPTIONS => "OPTIONS"@,
        HttpMethod::HEAD => "HEAD"@,
    }
}

/// The method whose canonical name is `s`, if any. Only the exact upper-case
/// names are accepted.
pub open spec fn method_of_str(s: Seq<char>) -> Option<HttpMethod> {
    if s == "GET"@ {
        Some(HttpMethod::GET)
    } else if s == "POST"@ {
        Some(HttpMethod::POST)
    } else if s == "PUT"@ {
        Some(HttpMethod::PUT)
    } else if s == "PATCH"@ {
        Some(HttpMethod::PATCH)
    } else if s == "DELETE"@ {
        Some(HttpMethod::DELETE)
    } else if s == "OPTIONS"@ {
        Some(HttpMethod::OPTIONS)
    } else if s == "HEAD"@ {
        Some(HttpMethod::HEAD)
    } else {
        None
    }
}

impl HttpMethod {
    /// Parses a method name; any string but the seven canonical names is
    /// rejected and echoed back inside the error.
    pub fn from_str(s: &str) -> (r: Result<HttpMethod, ConfigError>)
        ensures
            match method_of_str(s@) {
                Some(m) => r == Ok::<HttpMethod, ConfigError>(m),
                None => r matches Err(e) && (e matches ConfigError::InvalidHttpMethod(t) && t@
                    == s@),
            },
    {
        if str_eq(s, "GET") {
            Ok(HttpMethod::GET)
        } else if str_eq(s, "POST") {
            Ok(HttpMethod::POST)
        } else if str_eq(s, "PUT") {
            Ok(HttpMethod::PUT)
        } else if str_eq(s, "PATCH") {
            Ok(HttpMethod::PATCH)
        } else if str_eq(s, "DELETE") {
            Ok(HttpMethod::DELETE)
        } else if str_eq(s, "OPTIONS") {
            Ok(HttpMethod::OPTIONS)
        } else if str_eq(s, "HEAD") {
            Ok(HttpMethod::HEAD)
        } else {
            Err(ConfigError::InvalidHttpMethod(String::from_str(s)))
        }
    }

    /// The canonical name of this method.
    pub fn as_str(&self) -> (r: &'static str)
        ensures
            r@ == method_name(*self),
    {
        match self {
            HttpMethod::GET => "GET",
            HttpMethod::POST => "POST",
            HttpMethod::PUT => "PUT",
            HttpMethod::PATCH => "PATCH",
            HttpMethod::DELETE => "DELETE",
            HttpMethod::OPTIONS => "OPTIONS",
            HttpMethod::HEAD => "HEAD",
        }
    }
}

/// Whether a character counts as blank when a comma-separated item is
/// trimmed.
pub open spec fn is_blank(c: char) -> bool {
    c == ' ' || c == '\t'
}

/// `s` with leading blanks removed.
pub open spec fn trim_front(s: Seq<char>) -> Seq<char>
    decreases s.len(),
{
    if s.len() > 0 && is_blank(s.first()) {
        trim_front(s.drop_first())
    } else {
        s
    }
}

/// `s` with trailing blanks removed.
pub open spec fn trim_back(s: Seq<char>) -> Seq<char>
    decreases s.len(),
{
    if s.len() > 0 && is_blank(s.last()) {
        trim_back(s.drop_last())
    } else {
        s
    }
}

/// `s` with leading and trailing blanks removed.
pub open spec fn trim_blanks(s: Seq<char>) -> Seq<char> {
    trim_back(trim_front(s))
}

/// `s` with leading and trailing blanks removed.
pub fn trim(s: &str) -> (r: String)
    ensures
        r@ == trim_blanks(s@),
{
    let mut v = str_chars(s);
    proof {
        assert(v@.subrange(0, v@.len() as int) =~= v@);
    }
    let mut start: usize = 0;
    while start < v.len() && (v[start] == ' ' || v[start] == '\t')
        invariant
            start <= v@.len(),
            v@ == s@,
            trim_front(s@) == trim_front(v@.subrange(start as int, v@.len() as int)),
        decreases v@.len() - start,
    {
        proof {
            let tail = v@.subrange(start as int, v@.len() as int);
            assert(tail.drop_first() =~= v@.subrange(start as int + 1, v@.len() as int));
        }
        start = start + 1;
    }
    let mut out: Vec<char> = Vec::new();
    let mut i: usize = start;
    while i < v.len()
        invariant
            start <= i <= v@.len(),
            v@ == s@,
            out@ == v@.subrange(start as int, i as int),
        decreases v@.len() - i,
    {
        out.push(v[i]);
        i = i + 1;
        proof {
            assert(out@ =~= v@.subrange(start as int, i as int));
        }
    }
    proof {
        assert(out@ =~= trim_front(s@));
    }
    while out.len() > 0 && (out[out.len() - 1] == ' ' || out[out.len() - 1] == '\t')
        invariant
            trim_back(trim_front(s@)) == trim_back(out@),
        decreases out@.len(),
    {
        let ghost prev = out@;
        out.pop();
        proof {
            assert(out@ == prev.drop_last());
        }
    }
    chars_to_string(&out)
}

/// The pieces of `s[i..]` between commas, in order, with `cur` the piece
/// begun so far. A trailing comma yields a final empty piece, and an empty
/// string is one empty piece, as `str::split` has it.
pub open spec fn split_acc(s: Seq<char>, i: int, cur: Seq<char>) -> Seq<Seq<char>>
    decreases s.len() - i,
{
    if i < 0 || i >= s.len() {
        seq![cur]
    } else if s[i] == ',' {
        seq![cur] + split_acc(s, i + 1, Seq::empty())
    } else {
        split_acc(s, i + 1, cur.push(s[i]))
    }
}

/// The pieces of `s` between commas, in order.
pub open spec fn split_commas(s: Seq<char>) -> Seq<Seq<char>> {
    split_acc(s, 0, Seq::empty())
}

/// The pieces of `s` between commas, in order.
pub fn split_on_commas(s: &str) -> (r: Vec<String>)
    ensures
        r.deep_view() == split_commas(s@),
{
    let v = str_chars(s);
    let mut out: Vec<String> = Vec::new();
    let mut piece: Vec<char> = Vec::new();
    let mut i: usize = 0;
    while i < v.len()
        invariant
            i <= v@.len(),
            v@ == s@,
            split_acc(s@, 0, Seq::empty()) == out.deep_view() + split_acc(s@, i as int, piece@),
        decreases v@.len() - i,
    {
        let ghost gi = i as int;
        let ghost prev_out = out.deep_view();
        let ghost prev_piece = piece@;
        if v[i] == ',' {
            out.push(chars_to_string(&piece));
            piece = Vec::new();
            proof {
                assert(out.deep_view() =~= prev_out.push(prev_piece));
                assert(split_acc(s@, gi, prev_piece) == seq![prev_piece] + split_acc(
                    s@,
                    gi + 1,
                    Seq::empty(),
                ));
                assert(prev_out + split_acc(s@, gi, prev_piece) =~= out.deep_view() + split_acc(
                    s@,
                    gi + 1,
                    piece@,
                ));
            }
        } else {
            piece.push(v[i]);
            proof {
                assert(piece@ == prev_piece.push(s@[gi]));
                assert(split_acc(s@, gi, prev_piece) == split_acc(s@, gi + 1, piece@));
            }
        }
        i = i + 1;
    }
    out.push(chars_to_string(&piece));
    proof {
        assert(split_acc(s@, i as int, piece@) == seq![piece@]);
        assert(out.deep_view() =~= split_commas(s@));
    }
    out
}

/// The methods named by the trimmed pieces `pieces[i..]`, or the first piece
/// that names none.
pub open spec fn methods_of_pieces(pieces: Seq<Seq<char>>, i: int) -> Result<
    Seq<HttpMethod>,
    Seq<char>,
>
    decreases pieces.len() - i,
{
    if i < 0 || i >= pieces.len() {
        Ok(Seq::empty())
    } else {
        match method_of_str(trim_blanks(pieces[i])) {
            None => Err(trim_blanks(pieces[i])),
            Some(m) => match methods_of_pieces(pieces, i + 1) {
                Ok(rest) => Ok(seq![m] + rest),
                Err(e) => Err(e),
            },
        }
    }
}

/// Each piece trimmed, from `i` on.
pub open spec fn trimmed_pieces(pieces: Seq<Seq<char>>, i: int) -> Seq<Seq<char>>
    decreases pieces.len() - i,
{
    if i < 0 || i >= pieces.len() {
        Seq::empty()
    } else {
        seq![trim_blanks(pieces[i])] + trimmed_pieces(pieces, i + 1)
    }
}

/// `r` with `a` prepended onto its success value.
pub open spec fn prepend_methods(a: Seq<HttpMethod>, r: Result<Seq<HttpMethod>, Seq<char>>) -> Result<
    Seq<HttpMethod>,
    Seq<char>,
> {
    match r {
        Ok(rest) => Ok(a + rest),
        Err(e) => Err(e),
    }
}

/// The methods named by a comma-separated list, each piece trimmed; or the
/// first piece that names no method, echoed back inside the error.
pub fn parse_method_list(s: &str) -> (r: Result<Vec<HttpMethod>, ConfigError>)
    ensures
        methods_of_pieces(split_commas(s@), 0) matches Ok(ms) ==> (r matches Ok(v) && v@ == ms),
        methods_of_pieces(split_commas(s@), 0) matches Err(bad) ==> (r matches Err(e) && e matches
            ConfigError::InvalidHttpMethod(t) && t@ == bad),
{
    let ghost pieces = split_commas(s@);
    let parts = split_on_commas(s);
    let mut acc: Vec<HttpMethod> = Vec::new();
    let mut i: usize = 0;
    while i < parts.len()
        invariant
            i <= parts@.len(),
            pieces == split_commas(s@),
            parts.deep_view() == pieces,
            methods_of_pieces(pieces, 0) == prepend_methods(acc@, methods_of_pieces(pieces, i as int)),
        decreases parts@.len() - i,
    {
        let ghost gi = i as int;
        let ghost prev = acc@;
        let t = trim(parts[i].as_str());
        proof {
            assert(parts.deep_view()[gi] == parts@[gi]@);
            assert(t@ == trim_blanks(pieces[gi]));
        }
        match HttpMethod::from_str(t.as_str()) {
            Ok(m) => {
                acc.push(m);
                i = i + 1;
                proof {
                    assert(acc@ =~= prev.push(m));
                    assert(methods_of_pieces(pieces, gi) == prepend_methods(
                        seq![m],
                        methods_of_pieces(pieces, gi + 1),
                    ));
                    assert(prepend_methods(prev, methods_of_pieces(pieces, gi)) == prepend_methods(
                        acc@,
                        methods_of_pieces(pieces, gi + 1),
                    )) by {
                        match methods_of_pieces(pieces, gi + 1) {
                            Ok(rest) => {
                                assert(prev + (seq![m] + rest) =~= acc@ + rest);
                            },
                            Err(_) => {},
                        }
                    }
                }
            },
            Err(e) => {
                proof {
                    assert(methods_of_pieces(pieces, gi) == Err::<Seq<HttpMethod>, Seq<char>>(t@));
                }
                return Err(e);
            },
        }
    }
    proof {
        assert(methods_of_pieces(pieces, i as int) == Ok::<Seq<HttpMethod>, Seq<char>>(
            Seq::empty(),
        ));
        assert(acc@ + Seq::<HttpMethod>::empty() =~= acc@);
    }
    Ok(acc)
}

/// Each piece of a comma-separated list, trimmed, in order.
pub fn split_and_trim(s: &str) -> (r: Vec<String>)
    ensures
        r.deep_view() == trimmed_pieces(split_commas(s@), 0),
{
    let ghost pieces = split_commas(s@);
    let parts = split_on_commas(s);
    let mut acc: Vec<String> = Vec::new();
    let mut i: usize = 0;
    while i < parts.len()
        invariant
            i <= parts@.len(),
            parts.deep_view() == pieces,
            trimmed_pieces(pieces, 0) == acc.deep_view() + trimmed_pieces(pieces, i as int),
        decreases parts@.len() - i,
    {
        let ghost gi = i as int;
        let ghost prev = acc.deep_view();
        let t = trim(parts[i].as_str());
        proof {
            assert(parts.deep_view()[gi] == parts@[gi]@);
        }
        acc.push(t);
        i = i + 1;
        proof {
            assert(acc.deep_view() =~= prev.push(trim_blanks(pieces[gi])));
            assert(trimmed_pieces(pieces, gi) == seq![trim_blanks(pieces[gi])] + trimmed_pieces(
                pieces,
                gi + 1,
            ));
            assert(prev + trimmed_pieces(pieces, gi) =~= acc.deep_view() + trimmed_pieces(
                pieces,
                gi + 1,
            ));
        }
    }
    proof {
        assert(acc.deep_view() + trimmed_pieces(pieces, i as int) =~= acc.deep_view());
    }
    acc
}

/// The CORS block assembled from the three environment values, in the order
/// origin, methods, headers. All three present: the methods list is split on
/// commas, trimmed and parsed, the headers list split and trimmed. None
/// present: no CORS block. A mix is incomplete and rejected, as is a method
/// name that is not one of the seven.
pub fn cors_from_env(
    origin: Option<String>,
    methods: Option<String>,
    headers: Option<String>,
) -> (r: Result<Option<CorsConfig>, ConfigError>)
    ensures
        origin is None && methods is None && headers is None ==> (r matches Ok(c) && c is None),
        origin is Some && methods is Some && headers is Some ==> match methods_of_pieces(
            split_commas(methods->0@),
            0,
        ) {
            Ok(ms) => r matches Ok(c) && (c matches Some(cc) && cc.allowed_origin@ == origin->0@
                && cc.allowed_methods@ == ms && cc.allowed_headers.deep_view() == trimmed_pieces(
                split_commas(headers->0@),
                0,
            )),
            Err(bad) => r matches Err(e) && (e matches ConfigError::InvalidHttpMethod(t) && t@
                == bad),
        },
        !(origin is None && methods is None && headers is None) && !(origin is Some && methods
            is Some && headers is Some) ==> (r matches Err(e) && e matches
            ConfigError::IncompleteCors),
{
    match (origin, methods, headers) {
        (Some(o), Some(m), Some(h)) => {
            let ms = match parse_method_list(m.as_str()) {
                Ok(ms) => ms,
                Err(e) => {
                    return Err(e);
                },
            };
            let hs = split_and_trim(h.as_str());
            Ok(
                Some(
                    CorsConfig {
                        allowed_origin: o,
                        allowed_methods: ms,
                        allowed_headers: hs,
                    },
                ),
            )
        },
        (None, None, None) => Ok(None),
        _ => Err(ConfigError::IncompleteCors),
    }
}

/// One step of the environment upstream scan: an upstream exists only where
/// both its URL and its name are present; anything else stops the scan.
pub fn upstream_from_env(url: Option<String>, name: Option<String>) -> (r: Option<OpenApiConfig>)
    ensures
        url is Some && name is Some ==> (r matches Some(c) && c.url@ == url->0@ && c.name@
            == name->0@),
        url is None || name is None ==> r is None,
{
    match (url, name) {
        (Some(url), Some(name)) => Some(OpenApiConfig { name, url }),
        _ => None,
    }
}

/// The whole configuration assembled from environment values: the upstreams
/// already scanned, the cron expression (defaulted to every minute when
/// absent) and the three CORS values.
pub fn config_from_env(
    reload_cron: Option<String>,
    upstreams: Vec<OpenApiConfig>,
    cors_origin: Option<String>,
    cors_methods: Option<String>,
    cors_headers: Option<String>,
) -> (r: Result<Config, ConfigError>)
    ensures
        r matches Ok(c) ==> {
            &&& c.openapi_urls@ == upstreams@
            &&& match reload_cron {
                Some(s) => c.reload_cron@ == s@,
                None => c.reload_cron@ == "* * * * *"@,
            }
        },
        cors_origin is None && cors_methods is None && cors_headers is None ==> (r matches Ok(c)
            && c.global_cors is None),
        r is Err <==> !(cors_origin is None && cors_methods is None && cors_headers is None) && !(
        cors_origin is Some && cors_methods is Some && cors_headers is Some && methods_of_pieces(
            split_commas(cors_methods->0@),
            0,
        ) is Ok),
{
    let cors = match cors_from_env(cors_origin, cors_methods, cors_headers) {
        Ok(c) => c,
        Err(e) => {
            return Err(e);
        },
    };
    let cron = match reload_cron {
        Some(s) => s,
        None => String::from_str("* * * * *"),
    };
    Ok(Config { reload_cron: cron, openapi_urls: upstreams, global_cors: cors })
}

} // verus!
