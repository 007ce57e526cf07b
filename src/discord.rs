//! The signed attachment link: identity, optional validity window, its text
//! form and its cache key.
use vstd::prelude::*;
use vstd::string::*;

use crate::instant::{instant_representable, valid_instant};
use crate::text::{
    bytes_hex, hex_i64_text, lemma_bytes_round_trip, lemma_hex_i64_round_trip,
    lemma_u64_round_trip, parse_hex_bytes, parse_hex_i64, parse_u64, push_char, push_digits,
    push_hex_bytes, push_hex_i64, read_hex_bytes, read_hex_i64, read_u64, text_of,
};
use crate::web::{
    join, opt_text_view, pairs_view, path_of, path_segments, percent_decode, percent_decoded,
    query_of, query_pairs, texts_view, url_joined, url_path, url_path_segments, url_query,
    url_query_pairs, url_with_query, with_query,
};

verus! {

/// Why a link could not be read.
#[derive(Debug, Clone, Copy, PartialEq, Eq, Structural)]
pub enum ParseError {
    InvalidUrl,
    InvalidInnerUrl,
    MissingAttachmentSection,
    MissingChannelId,
    InvalidChannelId,
    MissingAttachmentId,
    InvalidAttachmentId,
    MissingFilename,
    PartialWindow,
    InvalidEx,
    ExOutOfRange,
    InvalidIs,
    IsOutOfRange,
    InvalidHm,
}

/// The validity window of a signature: expiry and issue instants in Unix
/// seconds, and the signature bytes.
#[derive(Debug, Clone)]
pub struct ExpiryParameters {
    pub expiry: i64,
    pub is: i64,
    pub hm: Vec<u8>,
}

/// A signed attachment link: the identity of the attachment and, optionally,
/// the validity window of its signature.
#[derive(Debug, Clone)]
pub struct DiscordUrl {
    pub channel_id: u64,
    pub attachment_id: u64,
    pub filename: String,
    pub expiry_params: Option<ExpiryParameters>,
}

/// What a validity window stands for.
pub struct WindowView {
    pub expiry: i64,
    pub is: i64,
    pub hm: Seq<u8>,
}

/// What a link stands for; two links are the same when their views are.
pub struct UrlView {
    pub channel_id: u64,
    pub attachment_id: u64,
    pub filename: Seq<char>,
    pub window: Option<WindowView>,
}

impl WindowView {
    pub open spec fn wf(self) -> bool {
        valid_instant(self.expiry as int) && valid_instant(self.is as int)
    }
}

impl UrlView {
    pub open spec fn wf(self) -> bool {
        match self.window {
            Some(w) => w.wf(),
            None => true,
        }
    }
}

impl View for ExpiryParameters {
    type V = WindowView;

    open spec fn view(&self) -> WindowView {
        WindowView { expiry: self.expiry, is: self.is, hm: self.hm@ }
    }
}

impl View for DiscordUrl {
    type V = UrlView;

    open spec fn view(&self) -> UrlView {
        UrlView {
            channel_id: self.channel_id,
            attachment_id: self.attachment_id,
            filename: self.filename@,
            window: match self.expiry_params {
                Some(p) => Some(p@),
                None => None,
            },
        }
    }
}

pub open spec fn key_ex() -> Seq<char> {
    seq!['e', 'x']
}

pub open spec fn key_is() -> Seq<char> {
    seq!['i', 's']
}

pub open spec fn key_hm() -> Seq<char> {
    seq!['h', 'm']
}

/// The value of the last pair named `key`, as a map built from the pairs in
/// order would hold it.
pub open spec fn lookup(pairs: Seq<(Seq<char>, Seq<char>)>, key: Seq<char>) -> Option<Seq<char>>
    decreases pairs.len(),
{
    if pairs.len() == 0 {
        None
    } else if pairs.last().0 == key {
        Some(pairs.last().1)
    } else {
        lookup(pairs.drop_last(), key)
    }
}

/// The validity window that query pairs carry: none where none of the three
/// parameters is there, an error where only some are or one is malformed.
pub open spec fn window_of(pairs: Seq<(Seq<char>, Seq<char>)>) -> Result<
    Option<WindowView>,
    ParseError,
> {
    let ex = lookup(pairs, key_ex());
    let is = lookup(pairs, key_is());
    let hm = lookup(pairs, key_hm());
    if ex is None && is is None && hm is None {
        Ok(None)
    } else if ex is None || is is None || hm is None {
        Err(ParseError::PartialWindow)
    } else {
        match parse_hex_i64(ex->0) {
            None => Err(ParseError::InvalidEx),
            Some(e) => if !valid_instant(e as int) {
                Err(ParseError::ExOutOfRange)
            } else {
                match parse_hex_i64(is->0) {
                    None => Err(ParseError::InvalidIs),
                    Some(i) => if !valid_instant(i as int) {
                        Err(ParseError::IsOutOfRange)
                    } else {
                        match parse_hex_bytes(hm->0) {
                            None => Err(ParseError::InvalidHm),
                            Some(h) => Ok(Some(WindowView { expiry: e, is: i, hm: h })),
                        }
                    }
                }
            }
        }
    }
}

/// A link read from its path segments (`None` where the URL has no
/// hierarchical path) and its query pairs: the first segment is skipped, then
/// come the channel id, the attachment id and the file name.
pub open spec fn url_of_parts(
    segments: Option<Seq<Seq<char>>>,
    pairs: Seq<(Seq<char>, Seq<char>)>,
) -> Result<UrlView, ParseError> {
    match segments {
        None => Err(ParseError::MissingAttachmentSection),
        Some(s) => if s.len() < 2 {
            Err(ParseError::MissingChannelId)
        } else {
            match parse_u64(s[1]) {
                None => Err(ParseError::InvalidChannelId),
                Some(c) => if s.len() < 3 {
                    Err(ParseError::MissingAttachmentId)
                } else {
                    match parse_u64(s[2]) {
                        None => Err(ParseError::InvalidAttachmentId),
                        Some(a) => if s.len() < 4 {
                            Err(ParseError::MissingFilename)
                        } else {
                            match window_of(pairs) {
                                Err(e) => Err(e),
                                Ok(w) => Ok(
                                    UrlView {
                                        channel_id: c,
                                        attachment_id: a,
                                        filename: s[3],
                                        window: w,
                                    },
                                ),
                            }
                        }
                    }
                }
            }
        }
    }
}

/// The link that the text `s` of a bare attachment URL stands for.
pub open spec fn url_of_text(s: Seq<char>) -> Result<UrlView, ParseError> {
    match (url_path_segments(s), url_query_pairs(s)) {
        (Some(segments), Some(pairs)) => url_of_parts(segments, pairs),
        _ => Err(ParseError::InvalidUrl),
    }
}

/// The base against which the inner link of a wrapped URL is resolved.
pub open spec fn cdn_base() -> Seq<char> {
    "https://cdn.discordapp.com/"@
}

/// The link that a wrapped URL `s` stands for: its path, without the leading
/// slash and percent-decoded, is the inner link, which takes the outer query.
pub open spec fn url_of_wrapped_text(s: Seq<char>) -> Result<UrlView, ParseError> {
    match (url_path(s), url_query(s)) {
        (Some(p), Some(q)) => if p.len() == 0 {
            Err(ParseError::InvalidInnerUrl)
        } else {
            match url_joined(cdn_base(), percent_decoded(p.drop_first())) {
                None => Err(ParseError::InvalidInnerUrl),
                Some(inner) => match url_with_query(inner, q) {
                    None => Err(ParseError::InvalidInnerUrl),
                    Some(t) => url_of_text(t),
                },
            }
        },
        _ => Err(ParseError::InvalidUrl),
    }
}

pub open spec fn parse_result_matches(r: Result<DiscordUrl, ParseError>, s: Result<UrlView, ParseError>) -> bool {
    match r {
        Ok(u) => s == Ok::<UrlView, ParseError>(u@) && u@.wf(),
        Err(e) => s == Err::<UrlView, ParseError>(e),
    }
}

/// The canonical text of a link.
pub open spec fn render(v: UrlView) -> Seq<char> {
    let base = "https://cdn.discordapp.com/attachments/"@ + text_of(v.channel_id as nat, 10)
        + seq!['/'] + text_of(v.attachment_id as nat, 10) + seq!['/'] + v.filename;
    match v.window {
        None => base,
        Some(w) => base + seq!['?', 'e', 'x', '='] + hex_i64_text(w.expiry) + seq![
            '&',
            'i',
            's',
            '=',
        ] + hex_i64_text(w.is) + seq!['&', 'h', 'm', '='] + bytes_hex(w.hm),
    }
}

/// The path segments of the canonical text of a link.
pub open spec fn rendered_segments(v: UrlView) -> Seq<Seq<char>> {
    seq![
        seq!['a', 't', 't', 'a', 'c', 'h', 'm', 'e', 'n', 't', 's'],
        text_of(v.channel_id as nat, 10),
        text_of(v.attachment_id as nat, 10),
        v.filename,
    ]
}

/// The query pairs of the canonical text of a link.
pub open spec fn rendered_pairs(v: UrlView) -> Seq<(Seq<char>, Seq<char>)> {
    match v.window {
        None => Seq::empty(),
        Some(w) => seq![
            (key_ex(), hex_i64_text(w.expiry)),
            (key_is(), hex_i64_text(w.is)),
            (key_hm(), bytes_hex(w.hm)),
        ],
    }
}

/// The cache key of a link: its channel and attachment ids in lower-case hex,
/// joined by a slash.
pub open spec fn kv_key(v: UrlView) -> Seq<char> {
    text_of(v.channel_id as nat, 16) + seq!['/'] + text_of(v.attachment_id as nat, 16)
}

/// `parts` joined by `sep`.
pub open spec fn joined(parts: Seq<Seq<char>>, sep: char) -> Seq<char>
    decreases parts.len(),
{
    if parts.len() == 0 {
        Seq::empty()
    } else if parts.len() == 1 {
        parts[0]
    } else {
        joined(parts.drop_last(), sep) + seq![sep] + parts.last()
    }
}

/// Query pairs written as `name=value`, joined by `&`.
pub open spec fn query_text(pairs: Seq<(Seq<char>, Seq<char>)>) -> Seq<char> {
    joined(pairs.map_values(|p: (Seq<char>, Seq<char>)| p.0 + seq!['='] + p.1), '&')
}

/// The canonical text of a link is the CDN origin, then its segments joined
/// by slashes, then, with a window, `?` and its query pairs.
pub proof fn lemma_render_parts(v: UrlView)
    ensures
        render(v) == "https://cdn.discordapp.com/"@ + joined(rendered_segments(v), '/') + match v.window {
            Some(_) => seq!['?'] + query_text(rendered_pairs(v)),
            None => Seq::<char>::empty(),
        },
{
    reveal_strlit("https://cdn.discordapp.com/attachments/");
    reveal_strlit("https://cdn.discordapp.com/");
    let segs = rendered_segments(v);
    let s1 = segs.drop_last();
    let s2 = s1.drop_last();
    let s3 = s2.drop_last();
    assert(s3 =~= seq![segs[0]]);
    assert(s2.last() == segs[1] && s1.last() == segs[2] && segs.last() == segs[3]);
    assert(joined(s3, '/') == segs[0]);
    assert(joined(s2, '/') == segs[0] + seq!['/'] + segs[1]);
    assert(joined(s1, '/') == joined(s2, '/') + seq!['/'] + segs[2]);
    assert(joined(segs, '/') == joined(s1, '/') + seq!['/'] + segs[3]);
    assert("https://cdn.discordapp.com/attachments/"@ =~= "https://cdn.discordapp.com/"@
        + segs[0] + seq!['/']);
    let base = "https://cdn.discordapp.com/attachments/"@ + text_of(v.channel_id as nat, 10)
        + seq!['/'] + text_of(v.attachment_id as nat, 10) + seq!['/'] + v.filename;
    assert(base =~= "https://cdn.discordapp.com/"@ + joined(segs, '/'));
    match v.window {
        Some(w) => {
            let pairs = rendered_pairs(v);
            let texts = pairs.map_values(|p: (Seq<char>, Seq<char>)| p.0 + seq!['='] + p.1);
            let t1 = texts.drop_last();
            let t2 = t1.drop_last();
            assert(t2 =~= seq![texts[0]]);
            assert(t1.last() == texts[1] && texts.last() == texts[2]);
            assert(joined(t2, '&') == texts[0]);
            assert(joined(t1, '&') == texts[0] + seq!['&'] + texts[1]);
            assert(joined(texts, '&') == joined(t1, '&') + seq!['&'] + texts[2]);
            assert(render(v) =~= base + (seq!['?'] + query_text(pairs)));
        },
        None => {
            assert(render(v) =~= base + Seq::<char>::empty());
        },
    }
}

/// Round trip: the segments and query pairs of a link's canonical text read
/// back as that same link, window and signature bytes included.
pub proof fn lemma_round_trip(v: UrlView)
    requires
        v.wf(),
    ensures
        url_of_parts(Some(rendered_segments(v)), rendered_pairs(v)) == Ok::<UrlView, ParseError>(v),
{
    lemma_u64_round_trip(v.channel_id);
    lemma_u64_round_trip(v.attachment_id);
    let pairs = rendered_pairs(v);
    match v.window {
        None => {
            assert(lookup(pairs, key_ex()) is None);
            assert(lookup(pairs, key_is()) is None);
            assert(lookup(pairs, key_hm()) is None);
        },
        Some(w) => {
            lemma_hex_i64_round_trip(w.expiry);
            lemma_hex_i64_round_trip(w.is);
            lemma_bytes_round_trip(w.hm);
            assert(pairs.drop_last().drop_last().drop_last() =~= Seq::<
                (Seq<char>, Seq<char>),
            >::empty());
            assert(key_ex() != key_hm() && key_ex() != key_is());
            assert(key_is() != key_hm());
            assert(lookup(pairs, key_hm()) == Some(bytes_hex(w.hm)));
            assert(lookup(pairs.drop_last(), key_is()) == Some(hex_i64_text(w.is)));
            assert(lookup(pairs, key_is()) == Some(hex_i64_text(w.is)));
            assert(lookup(pairs.drop_last().drop_last(), key_ex()) == Some(
                hex_i64_text(w.expiry),
            ));
            assert(lookup(pairs.drop_last(), key_ex()) == Some(hex_i64_text(w.expiry)));
            assert(lookup(pairs, key_ex()) == Some(hex_i64_text(w.expiry)));
            assert(window_of(pairs) == Ok::<Option<WindowView>, ParseError>(Some(w)));
        },
    }
}

/// A query that carries some but not all of `ex`, `is` and `hm` is an error,
/// never a partial window.
pub proof fn lemma_partial_window_rejected(pairs: Seq<(Seq<char>, Seq<char>)>)
    requires
        lookup(pairs, key_ex()) is Some || lookup(pairs, key_is()) is Some || lookup(
            pairs,
            key_hm(),
        ) is Some,
        lookup(pairs, key_ex()) is None || lookup(pairs, key_is()) is None || lookup(
            pairs,
            key_hm(),
        ) is None,
    ensures
        window_of(pairs) == Err::<Option<WindowView>, ParseError>(ParseError::PartialWindow),
{
}

/// The cache key depends on the channel and attachment ids alone: a link with
/// another file name or another window has the same key.
pub proof fn lemma_kv_key_identity(a: UrlView, b: UrlView)
    requires
        a.channel_id == b.channel_id,
        a.attachment_id == b.attachment_id,
    ensures
        kv_key(a) == kv_key(b),
{
}

/// Whether `s` is the two characters `k0` `k1`.
fn is_key(s: &str, k0: char, k1: char) -> (r: bool)
    ensures
        r == (s@ == seq![k0, k1]),
{
    if s.unicode_len() == 2 && s.get_char(0) == k0 && s.get_char(1) == k1 {
        assert(s@ =~= seq![k0, k1]);
        true
    } else {
        false
    }
}

/// The index of the last pair named `k0` `k1`.
fn find_param(pairs: &Vec<(String, String)>, k0: char, k1: char) -> (r: Option<usize>)
    ensures
        match r {
            Some(i) => i < pairs@.len() && lookup(pairs_view(pairs@), seq![k0, k1]) == Some(
                pairs@[i as int].1@,
            ),
            None => lookup(pairs_view(pairs@), seq![k0, k1]) is None,
        },
{
    let ghost pv = pairs_view(pairs@);
    let mut found: Option<usize> = None;
    let mut i: usize = 0;
    while i < pairs.len()
        invariant
            i <= pairs@.len(),
            pv == pairs_view(pairs@),
            match found {
                Some(j) => j < i && lookup(pv.subrange(0, i as int), seq![k0, k1]) == Some(
                    pairs@[j as int].1@,
                ),
                None => lookup(pv.subrange(0, i as int), seq![k0, k1]) is None,
            },
        decreases pairs.len() - i,
    {
        proof {
            assert(pv.subrange(0, i as int + 1).drop_last() =~= pv.subrange(0, i as int));
        }
        if is_key(pairs[i].0.as_str(), k0, k1) {
            found = Some(i);
        }
        i = i + 1;
    }
    assert(pv.subrange(0, pairs@.len() as int) =~= pv);
    found
}

impl ExpiryParameters {
    /// Reads the validity window from query pairs: `None` where none of `ex`,
    /// `is` and `hm` is there, an error where some but not all are, or where
    /// one is malformed or names an instant out of range.
    pub fn try_from_params_map(params: &Vec<(String, String)>) -> (r: Option<
        Result<Self, ParseError>,
    >)
        ensures
            match r {
                None => window_of(pairs_view(params@)) == Ok::<Option<WindowView>, ParseError>(
                    None,
                ),
                Some(Ok(p)) => window_of(pairs_view(params@)) == Ok::<
                    Option<WindowView>,
                    ParseError,
                >(Some(p@)) && p@.wf(),
                Some(Err(e)) => window_of(pairs_view(params@)) == Err::<
                    Option<WindowView>,
                    ParseError,
                >(e),
            },
    {
        let ex = find_param(params, 'e', 'x');
        let is = find_param(params, 'i', 's');
        let hm = find_param(params, 'h', 'm');
        proof {
            assert(key_ex() == seq!['e', 'x']);
            assert(key_is() == seq!['i', 's']);
            assert(key_hm() == seq!['h', 'm']);
        }
        match (ex, is, hm) {
            (None, None, None) => None,
            (Some(ex), Some(is), Some(hm)) => {
                let expiry = match read_hex_i64(params[ex].1.as_str()) {
                    None => return Some(Err(ParseError::InvalidEx)),
                    Some(v) => v,
                };
                if !instant_representable(expiry) {
                    return Some(Err(ParseError::ExOutOfRange));
                }
                let issued = match read_hex_i64(params[is].1.as_str()) {
                    None => return Some(Err(ParseError::InvalidIs)),
                    Some(v) => v,
                };
                if !instant_representable(issued) {
                    return Some(Err(ParseError::IsOutOfRange));
                }
                let bytes = match read_hex_bytes(params[hm].1.as_str()) {
                    None => return Some(Err(ParseError::InvalidHm)),
                    Some(v) => v,
                };
                Some(Ok(ExpiryParameters { expiry, is: issued, hm: bytes }))
            },
            _ => Some(Err(ParseError::PartialWindow)),
        }
    }

    /// A copy with the same instants and signature bytes.
    pub fn duplicate(&self) -> (r: Self)
        ensures
            r@ == self@,
    {
        let mut hm: Vec<u8> = Vec::new();
        let mut i: usize = 0;
        while i < self.hm.len()
            invariant
                i <= self.hm@.len(),
                hm@ == self.hm@.subrange(0, i as int),
            decreases self.hm@.len() - i,
        {
            hm.push(self.hm[i]);
            i = i + 1;
            assert(hm@ =~= self.hm@.subrange(0, i as int));
        }
        assert(hm@ =~= self.hm@);
        ExpiryParameters { expiry: self.expiry, is: self.is, hm }
    }

    /// Field-wise equality, signature bytes included.
    pub fn same_as(&self, other: &Self) -> (r: bool)
        ensures
            r == (self@ == other@),
    {
        if self.expiry != other.expiry || self.is != other.is || self.hm.len() != other.hm.len() {
            return false;
        }
        let mut i: usize = 0;
        while i < self.hm.len()
            invariant
                i <= self.hm@.len(),
                self.hm@.len() == other.hm@.len(),
                self.hm@.subrange(0, i as int) == other.hm@.subrange(0, i as int),
            decreases self.hm@.len() - i,
        {
            if self.hm[i] != other.hm[i] {
                assert(self.hm@[i as int] != other.hm@[i as int]);
                assert(self.hm@ != other.hm@);
                return false;
            }
            i = i + 1;
            assert(self.hm@.subrange(0, i as int) =~= other.hm@.subrange(0, i as int));
        }
        assert(self.hm@ =~= self.hm@.subrange(0, i as int));
        assert(other.hm@ =~= other.hm@.subrange(0, i as int));
        true
    }
}

fn text_same(a: &String, b: &String) -> (r: bool)
    ensures
        r == (a@ == b@),
{
    let n = a.as_str().unicode_len();
    if n != b.as_str().unicode_len() {
        return false;
    }
    let mut i: usize = 0;
    while i < n
        invariant
            n == a@.len(),
            n == b@.len(),
            i <= n,
            a@.subrange(0, i as int) == b@.subrange(0, i as int),
        decreases n - i,
    {
        if a.as_str().get_char(i) != b.as_str().get_char(i) {
            assert(a@[i as int] != b@[i as int]);
            return false;
        }
        i = i + 1;
        assert(a@.subrange(0, i as int) =~= b@.subrange(0, i as int));
    }
    assert(a@ =~= a@.subrange(0, n as int));
    assert(b@ =~= b@.subrange(0, n as int));
    true
}

fn copy_text(a: &String) -> (r: String)
    ensures
        r@ == a@,
{
    let mut out = String::new();
    let n = a.as_str().unicode_len();
    let mut i: usize = 0;
    while i < n
        invariant
            n == a@.len(),
            i <= n,
            out@ == a@.subrange(0, i as int),
        decreases n - i,
    {
        push_char(&mut out, a.as_str().get_char(i));
        i = i + 1;
        assert(out@ =~= a@.subrange(0, i as int));
    }
    assert(out@ =~= a@);
    out
}

impl DiscordUrl {
    /// Reads a link from the path segments and query pairs of its URL.
    pub fn from_parts(segments: &Option<Vec<String>>, pairs: &Vec<(String, String)>) -> (r: Result<
        DiscordUrl,
        ParseError,
    >)
        ensures
            parse_result_matches(
                r,
                url_of_parts(
                    match segments {
                        Some(v) => Some(texts_view(v@)),
                        None => None,
                    },
                    pairs_view(pairs@),
                ),
            ),
    {
        let segs = match segments {
            None => return Err(ParseError::MissingAttachmentSection),
            Some(v) => v,
        };
        if segs.len() < 2 {
            return Err(ParseError::MissingChannelId);
        }
        let channel_id = match read_u64(segs[1].as_str()) {
            None => return Err(ParseError::InvalidChannelId),
            Some(v) => v,
        };
        if segs.len() < 3 {
            return Err(ParseError::MissingAttachmentId);
        }
        let attachment_id = match read_u64(segs[2].as_str()) {
            None => return Err(ParseError::InvalidAttachmentId),
            Some(v) => v,
        };
        if segs.len() < 4 {
            return Err(ParseError::MissingFilename);
        }
        let filename = copy_text(&segs[3]);
        let expiry_params = match ExpiryParameters::try_from_params_map(pairs) {
            None => None,
            Some(Err(e)) => return Err(e),
            Some(Ok(p)) => Some(p),
        };
        Ok(DiscordUrl { channel_id, attachment_id, filename, expiry_params })
    }

    /// Reads a bare attachment link `.../attachments/{channel}/{attachment}/{file}`
    /// with its window, if any, in the query.
    pub fn try_from_url(url: &str) -> (r: Result<DiscordUrl, ParseError>)
        ensures
            parse_result_matches(r, url_of_text(url@)),
    {
        let segments = match path_segments(url) {
            None => return Err(ParseError::InvalidUrl),
            Some(s) => s,
        };
        let pairs = match query_pairs(url) {
            None => return Err(ParseError::InvalidUrl),
            Some(p) => p,
        };
        DiscordUrl::from_parts(&segments, &pairs)
    }

    /// Reads a wrapped link: the path of `url`, percent-decoded, is the inner
    /// link, resolved against the CDN host, and the window rides on the query
    /// of `url`.
    pub fn try_from_full_url(url: &str) -> (r: Result<DiscordUrl, ParseError>)
        ensures
            parse_result_matches(r, url_of_wrapped_text(url@)),
    {
        let path = match path_of(url) {
            None => return Err(ParseError::InvalidUrl),
            Some(p) => p,
        };
        let query = match query_of(url) {
            None => return Err(ParseError::InvalidUrl),
            Some(q) => q,
        };
        if path.as_str().unicode_len() == 0 {
            return Err(ParseError::InvalidInnerUrl);
        }
        let inner_text = percent_decode(path.as_str(), 1);
        proof {
            assert(path@.subrange(1, path@.len() as int) =~= path@.drop_first());
        }
        let inner = match join("https://cdn.discordapp.com/", inner_text.as_str()) {
            None => return Err(ParseError::InvalidInnerUrl),
            Some(t) => t,
        };
        let full = match with_query(inner.as_str(), &query) {
            None => return Err(ParseError::InvalidInnerUrl),
            Some(t) => t,
        };
        DiscordUrl::try_from_url(full.as_str())
    }

    /// The canonical text of the link.
    pub fn to_string(&self) -> (r: String)
        ensures
            r@ == render(self@),
    {
        let mut s = String::new();
        s.append("https://cdn.discordapp.com/attachments/");
        push_digits(&mut s, self.channel_id, 10);
        push_char(&mut s, '/');
        push_digits(&mut s, self.attachment_id, 10);
        push_char(&mut s, '/');
        s.append(self.filename.as_str());
        let ghost base = s@;
        match &self.expiry_params {
            None => {},
            Some(p) => {
                push_char(&mut s, '?');
                push_char(&mut s, 'e');
                push_char(&mut s, 'x');
                push_char(&mut s, '=');
                push_hex_i64(&mut s, p.expiry);
                push_char(&mut s, '&');
                push_char(&mut s, 'i');
                push_char(&mut s, 's');
                push_char(&mut s, '=');
                push_hex_i64(&mut s, p.is);
                push_char(&mut s, '&');
                push_char(&mut s, 'h');
                push_char(&mut s, 'm');
                push_char(&mut s, '=');
                push_hex_bytes(&mut s, &p.hm);
            },
        }
        assert(s@ =~= render(self@));
        s
    }

    /// The cache key: channel and attachment ids in lower-case hex.
    pub fn to_kv_key(&self) -> (r: String)
        ensures
            r@ == kv_key(self@),
    {
        let mut s = String::new();
        push_digits(&mut s, self.channel_id, 16);
        push_char(&mut s, '/');
        push_digits(&mut s, self.attachment_id, 16);
        assert(s@ =~= kv_key(self@));
        s
    }

    /// A copy with the same identity and window.
    pub fn duplicate(&self) -> (r: Self)
        ensures
            r@ == self@,
    {
        let expiry_params = match &self.expiry_params {
            None => None,
            Some(p) => Some(p.duplicate()),
        };
        DiscordUrl {
            channel_id: self.channel_id,
            attachment_id: self.attachment_id,
            filename: copy_text(&self.filename),
            expiry_params,
        }
    }

    /// Structural equality: identity and window, signature bytes included.
    pub fn same_as(&self, other: &Self) -> (r: bool)
        ensures
            r == (self@ == other@),
    {
        if self.channel_id != other.channel_id || self.attachment_id != other.attachment_id {
            return false;
        }
        if !text_same(&self.filename, &other.filename) {
            return false;
        }
        match (&self.expiry_params, &other.expiry_params) {
            (None, None) => true,
            (Some(a), Some(b)) => a.same_as(b),
            _ => false,
        }
    }
}

impl PartialEq for DiscordUrl {
    fn eq(&self, other: &Self) -> (r: bool) {
        self.same_as(other)
    }
}

impl vstd::std_specs::cmp::PartialEqSpecImpl for DiscordUrl {
    open spec fn obeys_eq_spec() -> bool {
        true
    }

    open spec fn eq_spec(&self, other: &Self) -> bool {
        self@ == other@
    }
}

impl Eq for DiscordUrl {

}

} // verus!
