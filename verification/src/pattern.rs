//! Pattern construction for compiled routes.
//!
//! A route's matcher is built from a raw URI template in three steps: the
//! template is regex-escaped, each escaped `\{name\}` token of a path
//! parameter is replaced by the wildcard `[^/]*`, and the result is anchored
//! with `^` and `$`. Escaping is done by the regex crate through a trusted
//! wrapper with an exact contract; the token substitution is verified code.
//! Matching a path against a pattern goes through the regex engine, whose
//! verdict is named by `regex_accepts`.

use vstd::prelude::*;

verus! {

/// The characters that the regex crate treats as meta characters.
/// This set is fixed: the crate documents that it will not change.
pub open spec fn is_meta_char(c: char) -> bool {
    c == '\\' || c == '.' || c == '+' || c == '*' || c == '?' || c == '(' || c == ')'
        || c == '|' || c == '[' || c == ']' || c == '{' || c == '}' || c == '^' || c == '$'
        || c == '#' || c == '&' || c == '-' || c == '~'
}

/// The escaped form of a string: a backslash before every meta character,
/// every other character kept as it is.
pub open spec fn escape_seq(s: Seq<char>) -> Seq<char>
    decreases s.len(),
{
    if s.len() == 0 {
        Seq::empty()
    } else if is_meta_char(s[0]) {
        seq!['\\', s[0]] + escape_seq(s.skip(1))
    } else {
        seq![s[0]] + escape_seq(s.skip(1))
    }
}

/// Relies on regex::escape: it puts a backslash before every character of the
/// fixed, documented meta-character set and keeps every other character.
#[verifier::external_body]
pub(crate) fn regex_escape(s: &str) -> (r: String)
    ensures
        r@ == escape_seq(s@),
{
    regex::escape(s)
}

/// Whether the regex engine accepts this string as a pattern.
pub uninterp spec fn regex_compiles(pattern: Seq<char>) -> bool;

/// The verdict of the regex engine: whether the compiled pattern matches
/// somewhere inside the text. The result depends on the pattern and the text
/// alone. (The patterns built here are anchored, so a match is a match of the
/// whole text.)
pub uninterp spec fn regex_accepts(pattern: Seq<char>, text: Seq<char>) -> bool;

/// Relies on regex::Regex::new: whether the pattern is a valid regular
/// expression.
#[verifier::external_body]
pub(crate) fn regex_compile_ok(pattern: &str) -> (r: bool)
    ensures
        r == regex_compiles(pattern@),
{
    regex::Regex::new(pattern).is_ok()
}

/// Relies on regex::Regex::new and regex::Regex::is_match: compiles the
/// pattern and asks the engine for its verdict on the text. A pattern that
/// does not compile matches nothing.
#[verifier::external_body]
pub(crate) fn regex_is_match(pattern: &str, text: &str) -> (r: bool)
    ensures
        regex_compiles(pattern@) ==> r == regex_accepts(pattern@, text@),
        !regex_compiles(pattern@) ==> r == false,
{
    match regex::Regex::new(pattern) {
        Ok(re) => re.is_match(text),
        Err(_) => false,
    }
}

/// The replacement of every occurrence of `from` in `s[i..]` by `to`,
/// scanning left to right without overlap, as `str::replace` does it.
pub open spec fn replace_from(s: Seq<char>, i: int, from: Seq<char>, to: Seq<char>) -> Seq<char>
    decreases s.len() - i,
{
    if i < 0 || i >= s.len() {
        Seq::empty()
    } else if from.len() > 0 && i + from.len() <= s.len() && s.subrange(i, i + from.len() as int)
        == from {
        to + replace_from(s, i + from.len() as int, from, to)
    } else {
        seq![s[i]] + replace_from(s, i + 1, from, to)
    }
}

/// The replacement of every occurrence of `from` in `s` by `to`. An empty
/// `from` occurs nowhere and leaves `s` unchanged.
pub open spec fn replace_seq(s: Seq<char>, from: Seq<char>, to: Seq<char>) -> Seq<char> {
    if from.len() == 0 {
        s
    } else {
        replace_from(s, 0, from, to)
    }
}

/// Whether `from` occurs in `s` starting at position `i`.
fn match_at(s: &Vec<char>, i: usize, from: &Vec<char>) -> (r: bool)
    requires
        i + from@.len() <= s@.len(),
    ensures
        r == (s@.subrange(i as int, i + from@.len()) == from@),
{
    let n = s.len();
    let mut j: usize = 0;
    while j < from.len()
        invariant
            j <= from@.len(),
            i + from@.len() <= s@.len(),
            n == s@.len(),
            forall|k: int| 0 <= k < j ==> s@[i + k] == from@[k],
        decreases from@.len() - j,
    {
        if s[i + j] != from[j] {
            proof {
                assert(s@.subrange(i as int, i + from@.len())[j as int] != from@[j as int]);
            }
            return false;
        }
        j = j + 1;
    }
    proof {
        assert(s@.subrange(i as int, i + from@.len()) =~= from@);
    }
    true
}

/// Every occurrence of `from` in `s` replaced by `to`, scanning left to
/// right without overlap.
pub fn replace_chars(s: &Vec<char>, from: &Vec<char>, to: &Vec<char>) -> (r: Vec<char>)
    ensures
        r@ == replace_seq(s@, from@, to@),
{
    if from.len() == 0 {
        return s.clone();
    }
    let mut out: Vec<char> = Vec::new();
    let mut i: usize = 0;
    while i < s.len()
        invariant
            i <= s@.len(),
            from@.len() > 0,
            replace_from(s@, 0, from@, to@) == out@ + replace_from(s@, i as int, from@, to@),
        decreases s@.len() - i,
    {
        let ghost prev_out = out@;
        let ghost gi = i as int;
        if from.len() <= s.len() - i && match_at(s, i, from) {
            let mut j: usize = 0;
            while j < to.len()
                invariant
                    j <= to@.len(),
                    out@ == prev_out + to@.subrange(0, j as int),
                decreases to@.len() - j,
            {
                out.push(to[j]);
                j = j + 1;
                proof {
                    assert(out@ =~= prev_out + to@.subrange(0, j as int));
                }
            }
            i = i + from.len();
            proof {
                assert(out@ =~= prev_out + to@);
                assert(replace_from(s@, gi, from@, to@) == to@ + replace_from(
                    s@,
                    i as int,
                    from@,
                    to@,
                ));
                assert(prev_out + replace_from(s@, gi, from@, to@) =~= out@ + replace_from(
                    s@,
                    i as int,
                    from@,
                    to@,
                ));
            }
        } else {
            out.push(s[i]);
            i = i + 1;
            proof {
                assert(replace_from(s@, gi, from@, to@) == seq![s@[gi]] + replace_from(
                    s@,
                    i as int,
                    from@,
                    to@,
                ));
                assert(prev_out + replace_from(s@, gi, from@, to@) =~= out@ + replace_from(
                    s@,
                    i as int,
                    from@,
                    to@,
                ));
            }
        }
    }
    proof {
        assert(out@ + replace_from(s@, i as int, from@, to@) =~= out@);
    }
    out
}

/// The wildcard that replaces a path parameter: any run of non-slash
/// characters.
pub open spec fn wildcard_seq() -> Seq<char> {
    seq!['[', '^', '/', ']', '*']
}

/// The token that a path parameter named `name` leaves in the escaped
/// template: `\{name\}`, with the name's own hyphens re-escaped.
pub open spec fn param_token(name: Seq<char>) -> Seq<char> {
    seq!['\\', '{'] + replace_seq(name, seq!['-'], seq!['\\', '-']) + seq!['\\', '}']
}

/// The escaped template after the tokens of `names[k..]` have been replaced
/// by the wildcard, one parameter after the other.
pub open spec fn substitute_from(p: Seq<char>, names: Seq<Seq<char>>, k: int) -> Seq<char>
    decreases names.len() - k,
{
    if k < 0 || k >= names.len() {
        p
    } else {
        substitute_from(replace_seq(p, param_token(names[k]), wildcard_seq()), names, k + 1)
    }
}

/// The pattern compiled from a raw URI template and its path-parameter
/// names: the escaped template, each parameter token replaced by the
/// wildcard, anchored with `^` and `$`.
pub open spec fn route_pattern_spec(raw: Seq<char>, names: Seq<Seq<char>>) -> Seq<char> {
    seq!['^'] + substitute_from(escape_seq(raw), names, 0) + seq!['$']
}

/// Every compiled route pattern begins with `^` and ends with `$`.
pub proof fn lemma_route_pattern_anchored(raw: Seq<char>, names: Seq<Seq<char>>)
    ensures
        route_pattern_spec(raw, names).len() >= 2,
        route_pattern_spec(raw, names).first() == '^',
        route_pattern_spec(raw, names).last() == '$',
{
    let mid = substitute_from(escape_seq(raw), names, 0);
    let p = route_pattern_spec(raw, names);
    assert(p.len() == mid.len() + 2);
    assert(p[0] == '^');
    assert(p[p.len() - 1] == '$');
}

/// The anchored pattern for one raw URI template and the names of its path
/// parameters.
pub fn build_route_pattern(raw_uri: &str, param_names: &Vec<String>) -> (r: String)
    ensures
        r@ == route_pattern_spec(raw_uri@, param_names.deep_view()),
        r@.len() >= 2,
        r@.first() == '^',
        r@.last() == '$',
{
    let escaped = regex_escape(raw_uri);
    let mut pat = crate::text::str_chars(escaped.as_str());
    let mut k: usize = 0;
    while k < param_names.len()
        invariant
            k <= param_names@.len(),
            substitute_from(escape_seq(raw_uri@), param_names.deep_view(), 0) == substitute_from(
                pat@,
                param_names.deep_view(),
                k as int,
            ),
        decreases param_names@.len() - k,
    {
        let ghost names = param_names.deep_view();
        let ghost gk = k as int;
        let name_chars = crate::text::str_chars(param_names[k].as_str());
        let hyphen: Vec<char> = vec!['-'];
        let hyphen_escaped: Vec<char> = vec!['\\', '-'];
        let escaped_name = replace_chars(&name_chars, &hyphen, &hyphen_escaped);
        let mut token: Vec<char> = Vec::new();
        token.push('\\');
        token.push('{');
        let mut tail = escaped_name;
        token.append(&mut tail);
        token.push('\\');
        token.push('}');
        let wildcard: Vec<char> = vec!['[', '^', '/', ']', '*'];
        proof {
            assert(hyphen@ =~= seq!['-']);
            assert(hyphen_escaped@ =~= seq!['\\', '-']);
            assert(name_chars@ == names[gk]);
            assert(token@ =~= param_token(names[gk]));
            assert(wildcard@ =~= wildcard_seq());
        }
        pat = replace_chars(&pat, &token, &wildcard);
        k = k + 1;
    }
    let mut anchored: Vec<char> = Vec::new();
    anchored.push('^');
    let mut mid = pat;
    anchored.append(&mut mid);
    anchored.push('$');
    proof {
        assert(anchored@ =~= route_pattern_spec(raw_uri@, param_names.deep_view()));
    }
    let r = crate::text::chars_to_string(&anchored);
    proof {
        assert(r@.last() == '$');
    }
    r
}

} // verus!
