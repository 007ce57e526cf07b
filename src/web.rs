//! What the URL library makes of a link's text: its path, its segments, its
//! query, and links resolved against a base.
use vstd::prelude::*;
use vstd::string::*;

use crate::text::{char_digit, digit_value, push_char};

verus! {

pub open spec fn texts_view(v: Seq<String>) -> Seq<Seq<char>> {
    v.map_values(|x: String| x@)
}

pub open spec fn pairs_view(v: Seq<(String, String)>) -> Seq<(Seq<char>, Seq<char>)> {
    v.map_values(|p: (String, String)| (p.0@, p.1@))
}

pub open spec fn segments_view(r: Option<Option<Vec<String>>>) -> Option<Option<Seq<Seq<char>>>> {
    match r {
        Some(Some(v)) => Some(Some(texts_view(v@))),
        Some(None) => Some(None),
        None => None,
    }
}

pub open spec fn opt_text_view(r: Option<String>) -> Option<Seq<char>> {
    match r {
        Some(t) => Some(t@),
        None => None,
    }
}

/// The path segments of the URL that `s` parses to: `None` where `s` is no
/// absolute URL, `Some(None)` where the URL has no hierarchical path.
pub uninterp spec fn url_path_segments(s: Seq<char>) -> Option<Option<Seq<Seq<char>>>>;

/// The decoded name/value pairs of the query of the URL that `s` parses to.
pub uninterp spec fn url_query_pairs(s: Seq<char>) -> Option<Seq<(Seq<char>, Seq<char>)>>;

/// The serialised path of the URL that `s` parses to.
pub uninterp spec fn url_path(s: Seq<char>) -> Option<Seq<char>>;

/// The serialised query of the URL that `s` parses to, if it has one.
pub uninterp spec fn url_query(s: Seq<char>) -> Option<Option<Seq<char>>>;

/// The text of the URL that `input` resolves to against the base URL `base`.
pub uninterp spec fn url_joined(base: Seq<char>, input: Seq<char>) -> Option<Seq<char>>;

/// The text of the URL that `s` parses to, with its query replaced by `q`.
pub uninterp spec fn url_with_query(s: Seq<char>, q: Option<Seq<char>>) -> Option<Seq<char>>;

/// Relies on `url::Url::parse` and `Url::path_segments`: the segments of the
/// path between slashes, still percent-encoded.
#[verifier::external_body]
pub(crate) fn path_segments(s: &str) -> (r: Option<Option<Vec<String>>>)
    ensures
        segments_view(r) == url_path_segments(s@),
{
    let u = url::Url::parse(s).ok()?;
    Some(u.path_segments().map(|it| it.map(String::from).collect()))
}

/// Relies on `url::Url::parse` and `Url::query_pairs`: the query split at `&`
/// and `=`, form-decoded, in their order.
#[verifier::external_body]
pub(crate) fn query_pairs(s: &str) -> (r: Option<Vec<(String, String)>>)
    ensures
        match r {
            Some(v) => url_query_pairs(s@) == Some(pairs_view(v@)),
            None => url_query_pairs(s@) is None,
        },
{
    let u = url::Url::parse(s).ok()?;
    Some(u.query_pairs().map(|(k, v)| (k.into_owned(), v.into_owned())).collect())
}

/// Relies on `url::Url::parse` and `Url::path`.
#[verifier::external_body]
pub(crate) fn path_of(s: &str) -> (r: Option<String>)
    ensures
        opt_text_view(r) == url_path(s@),
{
    let u = url::Url::parse(s).ok()?;
    Some(u.path().to_string())
}

/// Relies on `url::Url::parse` and `Url::query`.
#[verifier::external_body]
pub(crate) fn query_of(s: &str) -> (r: Option<Option<String>>)
    ensures
        match r {
            Some(q) => url_query(s@) == Some(opt_text_view(q)),
            None => url_query(s@) is None,
        },
{
    let u = url::Url::parse(s).ok()?;
    Some(u.query().map(String::from))
}

/// Relies on `url::Url::parse` of the base and `Url::join`, which resolves
/// `input` against it as a browser resolves a link.
#[verifier::external_body]
pub(crate) fn join(base: &str, input: &str) -> (r: Option<String>)
    ensures
        opt_text_view(r) == url_joined(base@, input@),
{
    let b = url::Url::parse(base).ok()?;
    b.join(input).ok().map(String::from)
}

/// Relies on `url::Url::parse` and `Url::set_query`.
#[verifier::external_body]
pub(crate) fn with_query(s: &str, q: &Option<String>) -> (r: Option<String>)
    ensures
        opt_text_view(r) == url_with_query(s@, opt_text_view(*q)),
{
    let mut u = url::Url::parse(s).ok()?;
    u.set_query(q.as_deref());
    Some(String::from(u))
}

/// `s` with each escape `%XY` of an ASCII character replaced by that
/// character; other text, and escapes of other bytes, are kept as they are.
pub open spec fn percent_decoded(s: Seq<char>) -> Seq<char>
    decreases s.len(),
{
    if s.len() == 0 {
        s
    } else if s.len() >= 3 && s[0] == '%' && digit_value(s[1]) < 8 && digit_value(s[2]) < 16 {
        seq![((digit_value(s[1]) * 16 + digit_value(s[2])) as u32) as char] + percent_decoded(
            s.subrange(3, s.len() as int),
        )
    } else {
        seq![s[0]] + percent_decoded(s.drop_first())
    }
}

/// Decodes the escapes of ASCII characters in `s` from `start` on.
pub fn percent_decode(s: &str, start: usize) -> (r: String)
    requires
        start <= s@.len(),
    ensures
        r@ == percent_decoded(s@.subrange(start as int, s@.len() as int)),
{
    let n = s.unicode_len();
    let mut out = String::new();
    let mut i: usize = start;
    while i < n
        invariant
            n == s@.len(),
            start <= i <= n,
            out@ + percent_decoded(s@.subrange(i as int, n as int)) == percent_decoded(
                s@.subrange(start as int, n as int),
            ),
        decreases n - i,
    {
        let ghost rest = s@.subrange(i as int, n as int);
        let c = s.get_char(i);
        if c == '%' && n - i > 2 {
            let hi = char_digit(s.get_char(i + 1));
            let lo = char_digit(s.get_char(i + 2));
            if hi < 8 && lo < 16 {
                let d = ((hi * 16 + lo) as u8) as char;
                proof {
                    assert(rest.subrange(3, rest.len() as int) =~= s@.subrange(
                        i + 3,
                        n as int,
                    ));
                    assert(((digit_value(rest[1]) * 16 + digit_value(rest[2])) as u32) as char
                        == d);
                    assert(out@.push(d) + percent_decoded(s@.subrange(i + 3, n as int))
                        =~= out@ + percent_decoded(rest));
                }
                push_char(&mut out, d);
                i = i + 3;
                continue ;
            }
        }
        proof {
            assert(rest.drop_first() =~= s@.subrange(i + 1, n as int));
            assert(out@.push(c) + percent_decoded(s@.subrange(i + 1, n as int)) =~= out@
                + percent_decoded(rest));
        }
        push_char(&mut out, c);
        i = i + 1;
    }
    assert(percent_decoded(s@.subrange(n as int, n as int)) =~= Seq::<char>::empty());
    assert(out@ + Seq::<char>::empty() =~= out@);
    out
}

} // verus!
