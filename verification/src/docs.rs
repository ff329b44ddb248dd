//! The docs endpoints' logic: resolving a static documentation file name,
//! inferring its content type, and looking a cached document up by the
//! base64 form of its upstream's name.
//!
//! Reading files and answering HTTP stay outside; everything decided here —
//! which file, which content type, which entry — is verified.

use vstd::prelude::*;
use crate::gateway::GatewayEntry;
use crate::text::{chars_to_string, starts_with, str_chars, str_eq, str_starts_with};
use vstd::slice::slice_to_vec;
use vstd::string::StringExecFns;

verus! {

/// The base64 form of a string's UTF-8 bytes, as `base64::encode` computes
/// it. The result depends on the characters alone.
pub uninterp spec fn base64_of(s: Seq<char>) -> Seq<char>;

/// Relies on base64::encode: the standard base64 form, with padding, of the
/// string's UTF-8 bytes.
#[verifier::external_body]
pub(crate) fn base64_encode(s: &str) -> (r: String)
    ensures
        r@ == base64_of(s@),
{
    base64::encode(s)
}

/// Whether a request is for the docs tree: an exact `GET` on a path that
/// begins with `/docs`.
pub fn is_docs_request(method: &str, path: &str) -> (r: bool)
    ensures
        r == (method@ == "GET"@ && starts_with(path@, "/docs"@)),
{
    str_eq(method, "GET") && str_starts_with(path, "/docs")
}

/// `s` with every leading `/` removed.
pub open spec fn strip_leading_slashes(s: Seq<char>) -> Seq<char>
    decreases s.len(),
{
    if s.len() > 0 && s.first() == '/' {
        strip_leading_slashes(s.drop_first())
    } else {
        s
    }
}

/// The file a docs path names: the part after `/docs`, leading slashes
/// stripped. A name that begins with a dot is a traversal attempt and names
/// nothing; an empty name defaults to `index.html`.
pub open spec fn docs_file_spec(path: Seq<char>) -> Option<Seq<char>> {
    let rest = strip_leading_slashes(path.skip(5));
    if rest.len() > 0 && rest.first() == '.' {
        None
    } else if rest.len() == 0 {
        Some("index.html"@)
    } else {
        Some(rest)
    }
}

/// The file a docs path names, or nothing for a traversal attempt.
pub fn docs_file_name(path: &str) -> (r: Option<String>)
    requires
        path@.len() >= 5,
    ensures
        match docs_file_spec(path@) {
            None => r is None,
            Some(name) => r matches Some(f) && f@ == name,
        },
{
    let v = str_chars(path);
    let mut start: usize = 5;
    proof {
        assert(v@.skip(5).skip(0) =~= v@.subrange(5, v@.len() as int));
        assert(strip_leading_slashes(path@.skip(5)) == strip_leading_slashes(
            v@.subrange(start as int, v@.len() as int),
        ));
    }
    while start < v.len() && v[start] == '/'
        invariant
            5 <= start <= v@.len(),
            v@ == path@,
            strip_leading_slashes(path@.skip(5)) == strip_leading_slashes(
                v@.subrange(start as int, v@.len() as int),
            ),
        decreases v@.len() - start,
    {
        proof {
            let tail = v@.subrange(start as int, v@.len() as int);
            assert(tail.drop_first() =~= v@.subrange(start as int + 1, v@.len() as int));
        }
        start = start + 1;
    }
    proof {
        assert(strip_leading_slashes(v@.subrange(start as int, v@.len() as int)) == v@.subrange(
            start as int,
            v@.len() as int,
        ));
    }
    let mut name: Vec<char> = Vec::new();
    let mut i: usize = start;
    while i < v.len()
        invariant
            start <= i <= v@.len(),
            v@ == path@,
            name@ == v@.subrange(start as int, i as int),
        decreases v@.len() - i,
    {
        name.push(v[i]);
        i = i + 1;
        proof {
            assert(name@ =~= v@.subrange(start as int, i as int));
        }
    }
    proof {
        assert(name@ =~= strip_leading_slashes(path@.skip(5)));
    }
    if name.len() > 0 && name[0] == '.' {
        return None;
    }
    if name.len() == 0 {
        return Some(String::from_str("index.html"));
    }
    Some(chars_to_string(&name))
}

/// The position just after the last `.` of `s`, if `s` has a dot.
pub open spec fn after_last_dot(s: Seq<char>) -> Option<int>
    decreases s.len(),
{
    if s.len() == 0 {
        None
    } else if s.last() == '.' {
        Some(s.len() as int)
    } else {
        after_last_dot(s.drop_last())
    }
}

/// The content type a file extension calls for.
pub open spec fn content_type_of_ext(ext: Seq<char>) -> Seq<char> {
    if ext == "css"@ {
        "text/css"@
    } else if ext == "js"@ {
        "text/javascript"@
    } else if ext == "html"@ {
        "text/html"@
    } else if ext == "png"@ {
        "image/png"@
    } else if ext == "json"@ {
        "application/json"@
    } else if ext == "yml"@ {
        "application/yaml"@
    } else if ext == "yaml"@ {
        "application/yaml"@
    } else {
        "text/plain"@
    }
}

/// The content type served for a file name: by the extension after its last
/// dot, plain text when it has none.
pub open spec fn content_type_spec(name: Seq<char>) -> Seq<char> {
    match after_last_dot(name) {
        None => "text/plain"@,
        Some(p) => content_type_of_ext(name.subrange(p, name.len() as int)),
    }
}

/// The content type served for a static docs file, by its extension.
pub fn content_type_for(name: &str) -> (r: &'static str)
    ensures
        r@ == content_type_spec(name@),
{
    let v = str_chars(name);
    proof {
        assert(v@.subrange(0, v@.len() as int) =~= v@);
    }
    let mut k: usize = v.len();
    while k > 0 && v[k - 1] != '.'
        invariant
            k <= v@.len(),
            v@ == name@,
            after_last_dot(name@) == after_last_dot(v@.subrange(0, k as int)),
        decreases k,
    {
        proof {
            let head = v@.subrange(0, k as int);
            assert(head.drop_last() =~= v@.subrange(0, k as int - 1));
        }
        k = k - 1;
    }
    if k == 0 {
        proof {
            assert(v@.subrange(0, 0) =~= Seq::<char>::empty());
        }
        return "text/plain";
    }
    proof {
        let head = v@.subrange(0, k as int);
        assert(head.last() == '.');
        assert(after_last_dot(name@) == Some(k as int));
    }
    let mut ext: Vec<char> = Vec::new();
    let mut i: usize = k;
    while i < v.len()
        invariant
            k <= i <= v@.len(),
            v@ == name@,
            ext@ == v@.subrange(k as int, i as int),
        decreases v@.len() - i,
    {
        ext.push(v[i]);
        i = i + 1;
        proof {
            assert(ext@ =~= v@.subrange(k as int, i as int));
        }
    }
    let ext_s = chars_to_string(&ext);
    let e = ext_s.as_str();
    if str_eq(e, "css") {
        "text/css"
    } else if str_eq(e, "js") {
        "text/javascript"
    } else if str_eq(e, "html") {
        "text/html"
    } else if str_eq(e, "png") {
        "image/png"
    } else if str_eq(e, "json") {
        "application/json"
    } else if str_eq(e, "yml") {
        "application/yaml"
    } else if str_eq(e, "yaml") {
        "application/yaml"
    } else {
        "text/plain"
    }
}

/// Whether an entry's name encodes to the requested document key.
pub open spec fn def_matches(e: GatewayEntry, def: Seq<char>) -> bool {
    base64_of(e.config.name@) == def
}

/// The index of the last entry whose name encodes to `def`, if any.
pub open spec fn last_def_index(entries: Seq<GatewayEntry>, def: Seq<char>) -> Option<int>
    decreases entries.len(),
{
    if entries.len() == 0 {
        None
    } else if def_matches(entries.last(), def) {
        Some(entries.len() - 1)
    } else {
        last_def_index(entries.drop_last(), def)
    }
}

/// The cached document served under `/docs/defs/{def}`: the last entry
/// whose base64-encoded name equals `def`, provided it holds a document;
/// its content type and bytes.
pub fn find_document(entries: &Vec<GatewayEntry>, def: &str) -> (r: Option<(String, Vec<u8>)>)
    ensures
        match last_def_index(entries@, def@) {
            None => r is None,
            Some(i) => match entries@[i].openapi_file {
                Some(f) => r matches Some(d) && d.0@ == f.content_type@ && d.1@ == f.contents@,
                None => r is None,
            },
        },
{
    proof {
        assert(entries@.subrange(0, entries@.len() as int) =~= entries@);
    }
    let mut k: usize = entries.len();
    while k > 0
        invariant
            k <= entries@.len(),
            last_def_index(entries@, def@) == last_def_index(
                entries@.subrange(0, k as int),
                def@,
            ),
        decreases k,
    {
        let ghost head = entries@.subrange(0, k as int);
        let enc = base64_encode(entries[k - 1].config.name.as_str());
        if str_eq(enc.as_str(), def) {
            proof {
                assert(head.last() == entries@[k - 1]);
                assert(def_matches(entries@[k - 1], def@));
                assert(last_def_index(entries@, def@) == Some(k - 1 as int));
            }
            return match &entries[k - 1].openapi_file {
                Some(f) => Some((f.content_type.clone(), slice_to_vec(f.contents.as_slice()))),
                None => None,
            };
        }
        proof {
            assert(head.last() == entries@[k - 1]);
            assert(head.drop_last() =~= entries@.subrange(0, k as int - 1));
        }
        k = k - 1;
    }
    proof {
        assert(entries@.subrange(0, 0) =~= Seq::<GatewayEntry>::empty());
    }
    None
}

} // verus!
