//! The local streaming proxy: its state, the addresses it hands out, and the
//! rewriting of HLS manifests so that every segment is fetched through it.
use vstd::prelude::*;
use vstd::utf8::{encode_utf8, valid_utf8, decode_utf8};
use base64::Engine;
use crate::text::{
    chars_of, string_of, owned, push_str, push_char, push_chars, push_decimal, decimal_text,
    has_sub_at, contains_seq, has_str, sub_at, find_sub, find_chars, lemma_find_sub_found, last_index_of, rfind_char,
    lemma_find_sub_first,
    slice_chars, lines, split_lines, decimal_string,
};
use crate::numtext::{parse_u64, parse_u64_spec};

verus! {

// ---------------------------------------------------------------------------
// URL-safe base64 without padding
// ---------------------------------------------------------------------------

/// The symbol of a six-bit value in the URL-safe base64 alphabet
/// (`A-Z`, `a-z`, `0-9`, `-`, `_`).
pub open spec fn b64_symbol(v: int) -> char {
    if v < 26 {
        (65 + v) as char
    } else if v < 52 {
        (97 + (v - 26)) as char
    } else if v < 62 {
        (48 + (v - 52)) as char
    } else if v == 62 {
        '-'
    } else {
        '_'
    }
}

/// URL-safe base64 without padding: each three bytes become four symbols;
/// one or two bytes left over become two or three symbols.
pub open spec fn b64_url_encode(b: Seq<u8>) -> Seq<char>
    decreases b.len(),
{
    if b.len() == 0 {
        seq![]
    } else if b.len() == 1 {
        seq![b64_symbol(b[0] as int / 4), b64_symbol((b[0] as int % 4) * 16)]
    } else if b.len() == 2 {
        seq![
            b64_symbol(b[0] as int / 4),
            b64_symbol((b[0] as int % 4) * 16 + b[1] as int / 16),
            b64_symbol((b[1] as int % 16) * 4),
        ]
    } else {
        seq![
            b64_symbol(b[0] as int / 4),
            b64_symbol((b[0] as int % 4) * 16 + b[1] as int / 16),
            b64_symbol((b[1] as int % 16) * 4 + b[2] as int / 64),
            b64_symbol(b[2] as int % 64),
        ] + b64_url_encode(b.subrange(3, b.len() as int))
    }
}

proof fn lemma_symbol_injective(x: int, y: int)
    requires
        0 <= x < 64,
        0 <= y < 64,
        b64_symbol(x) == b64_symbol(y),
    ensures
        x == y,
{
    let cx = b64_symbol(x);
    let cy = b64_symbol(y);
    assert(cx as int == cy as int);
}

pub open spec fn b64_len(n: nat) -> nat {
    4 * (n / 3) + if n % 3 == 0 {
        0
    } else {
        n % 3 + 1
    }
}

proof fn lemma_b64_len(b: Seq<u8>)
    ensures
        b64_url_encode(b).len() == b64_len(b.len()),
    decreases b.len(),
{
    if b.len() >= 3 {
        lemma_b64_len(b.subrange(3, b.len() as int));
    }
}


proof fn lemma_sextets_injective(a0: u8, a1: u8, a2: u8, b0: u8, b1: u8, b2: u8)
    requires
        a0 as int / 4 == b0 as int / 4,
        (a0 as int % 4) * 16 + a1 as int / 16 == (b0 as int % 4) * 16 + b1 as int / 16,
        (a1 as int % 16) * 4 + a2 as int / 64 == (b1 as int % 16) * 4 + b2 as int / 64,
        a2 as int % 64 == b2 as int % 64,
    ensures
        a0 == b0,
        a1 == b1,
        a2 == b2,
{
    assert(a0 == b0 && a1 == b1 && a2 == b2) by (bit_vector)
        requires
            a0 / 4 == b0 / 4,
            (a0 % 4) as u32 * 16 + (a1 / 16) as u32 == (b0 % 4) as u32 * 16 + (b1 / 16) as u32,
            (a1 % 16) as u32 * 4 + (a2 / 64) as u32 == (b1 % 16) as u32 * 4 + (b2 / 64) as u32,
            a2 % 64 == b2 % 64,
    ;
}

/// Different byte strings have different encodings.
pub proof fn lemma_b64_injective(a: Seq<u8>, b: Seq<u8>)
    requires
        b64_url_encode(a) == b64_url_encode(b),
    ensures
        a == b,
    decreases a.len(),
{
    lemma_b64_len(a);
    lemma_b64_len(b);
    let ea = b64_url_encode(a);
    let eb = b64_url_encode(b);
    assert(a.len() == b.len()) by {
        assert(b64_len(a.len()) == b64_len(b.len()));
    }
    if a.len() == 0 {
        assert(a =~= b);
    } else if a.len() == 1 {
        lemma_symbol_injective(a[0] as int / 4, b[0] as int / 4);
        assert(ea[1] == eb[1]);
        lemma_symbol_injective((a[0] as int % 4) * 16, (b[0] as int % 4) * 16);
        let (x, y) = (a[0], b[0]);
        assert(x == y) by (bit_vector)
            requires
                x / 4 == y / 4,
                x % 4 == y % 4,
        ;
        assert(a =~= b);
    } else if a.len() == 2 {
        assert(ea =~= seq![
            b64_symbol(a[0] as int / 4),
            b64_symbol((a[0] as int % 4) * 16 + a[1] as int / 16),
            b64_symbol((a[1] as int % 16) * 4),
        ]);
        assert(eb =~= seq![
            b64_symbol(b[0] as int / 4),
            b64_symbol((b[0] as int % 4) * 16 + b[1] as int / 16),
            b64_symbol((b[1] as int % 16) * 4),
        ]);
        assert(ea[0] == eb[0] && ea[1] == eb[1] && ea[2] == eb[2]);
        lemma_symbol_injective(a[0] as int / 4, b[0] as int / 4);
        lemma_symbol_injective(
            (a[0] as int % 4) * 16 + a[1] as int / 16,
            (b[0] as int % 4) * 16 + b[1] as int / 16,
        );
        lemma_symbol_injective((a[1] as int % 16) * 4, (b[1] as int % 16) * 4);
        lemma_sextets_injective(a[0], a[1], 0, b[0], b[1], 0);
        assert(a =~= b);
    } else {
        let ra = a.subrange(3, a.len() as int);
        let rb = b.subrange(3, b.len() as int);
        let ha = seq![
            b64_symbol(a[0] as int / 4),
            b64_symbol((a[0] as int % 4) * 16 + a[1] as int / 16),
            b64_symbol((a[1] as int % 16) * 4 + a[2] as int / 64),
            b64_symbol(a[2] as int % 64),
        ];
        let hb = seq![
            b64_symbol(b[0] as int / 4),
            b64_symbol((b[0] as int % 4) * 16 + b[1] as int / 16),
            b64_symbol((b[1] as int % 16) * 4 + b[2] as int / 64),
            b64_symbol(b[2] as int % 64),
        ];
        assert(ea == ha + b64_url_encode(ra));
        assert(eb == hb + b64_url_encode(rb));
        assert(ha.len() == 4 && hb.len() == 4);
        assert(forall|i: int| 0 <= i < 4 ==> (ha + b64_url_encode(ra))[i] == #[trigger] ha[i]);
        assert(forall|i: int| 0 <= i < 4 ==> (hb + b64_url_encode(rb))[i] == #[trigger] hb[i]);
        assert(ea[0] == eb[0] && ea[1] == eb[1] && ea[2] == eb[2] && ea[3] == eb[3]);
        assert(ha[0] == hb[0] && ha[1] == hb[1] && ha[2] == hb[2] && ha[3] == hb[3]);
        lemma_symbol_injective(a[0] as int / 4, b[0] as int / 4);
        lemma_symbol_injective(
            (a[0] as int % 4) * 16 + a[1] as int / 16,
            (b[0] as int % 4) * 16 + b[1] as int / 16,
        );
        lemma_symbol_injective(
            (a[1] as int % 16) * 4 + a[2] as int / 64,
            (b[1] as int % 16) * 4 + b[2] as int / 64,
        );
        lemma_symbol_injective(a[2] as int % 64, b[2] as int % 64);
        lemma_sextets_injective(a[0], a[1], a[2], b[0], b[1], b[2]);
        assert(b64_url_encode(ra) =~= ea.subrange(4, ea.len() as int));
        assert(b64_url_encode(rb) =~= eb.subrange(4, eb.len() as int));
        lemma_b64_injective(ra, rb);
        assert(a =~= b) by {
            assert forall|i: int| 0 <= i < a.len() implies a[i] == b[i] by {
                if i >= 3 {
                    assert(ra[i - 3] == rb[i - 3]);
                }
            }
        }
    }
}


#[verifier::external_type_specification]
#[verifier::external_body]
pub struct ExBase64DecodeError(base64::DecodeError);

/// `base64::engine::general_purpose::URL_SAFE_NO_PAD.encode` on the UTF-8
/// bytes of `s`. Claimed: the result is the URL-safe base64 encoding of
/// those bytes, without `=` padding.
#[verifier::external_body]
fn base64_url_encode(s: &str) -> (r: String)
    ensures
        r@ == b64_url_encode(encode_utf8(s@)),
{
    base64::engine::general_purpose::URL_SAFE_NO_PAD.encode(s)
}

/// `base64::engine::general_purpose::URL_SAFE_NO_PAD.decode` on the bytes
/// of `s`. Claimed: it succeeds exactly when `s` is the encoding of some
/// bytes (this engine accepts no padding and no stray trailing bits), and
/// then returns those bytes.
#[verifier::external_body]
fn base64_url_decode(s: &str) -> (r: Result<Vec<u8>, base64::DecodeError>)
    ensures
        match r {
            Ok(b) => b64_url_encode(b@) == s@,
            Err(_) => forall|b: Seq<u8>| b64_url_encode(b) != s@,
        },
{
    base64::engine::general_purpose::URL_SAFE_NO_PAD.decode(s)
}

/// `String::from_utf8`. Claimed: it succeeds exactly on valid UTF-8, with
/// the string whose encoding the bytes are.
#[verifier::external_body]
fn utf8_string(bytes: Vec<u8>) -> (r: Option<String>)
    ensures
        match r {
            Some(s) => encode_utf8(s@) == bytes@,
            None => !valid_utf8(bytes@),
        },
{
    String::from_utf8(bytes).ok()
}

// ---------------------------------------------------------------------------
// Segment addresses
// ---------------------------------------------------------------------------

/// Why the address of a segment request could not be read.
#[derive(Debug, Clone, Copy, PartialEq, Eq, Structural)]
pub enum SegmentError {
    /// The `url` parameter is not URL-safe base64.
    InvalidBase64,
    /// It is, but the bytes are not UTF-8.
    InvalidUtf8,
}

/// The upstream address carried by a segment request's `url` parameter.
pub open spec fn segment_target_spec(encoded: Seq<char>) -> Result<Seq<char>, SegmentError> {
    if exists|b: Seq<u8>| b64_url_encode(b) == encoded {
        let b = choose|b: Seq<u8>| b64_url_encode(b) == encoded;
        if valid_utf8(b) {
            Ok(decode_utf8(b))
        } else {
            Err(SegmentError::InvalidUtf8)
        }
    } else {
        Err(SegmentError::InvalidBase64)
    }
}

pub open spec fn segment_result_view(r: Result<String, SegmentError>) -> Result<Seq<char>, SegmentError> {
    match r {
        Ok(s) => Ok(s@),
        Err(e) => Err(e),
    }
}

/// Reads the upstream address of a segment request from its base64 `url`
/// parameter.
pub fn decode_segment_url(encoded: &str) -> (r: Result<String, SegmentError>)
    ensures
        segment_result_view(r) == segment_target_spec(encoded@),
{
    match base64_url_decode(encoded) {
        Ok(bytes) => {
            let ghost b = bytes@;
            proof {
                let c = choose|c: Seq<u8>| b64_url_encode(c) == encoded@;
                lemma_b64_injective(c, b);
            }
            match utf8_string(bytes) {
                Some(s) => {
                    proof {
                        vstd::utf8::encode_utf8_valid_utf8(s@);
                        vstd::utf8::encode_utf8_decode_utf8(s@);
                    }
                    Ok(s)
                },
                None => Err(SegmentError::InvalidUtf8),
            }
        },
        Err(_) => Err(SegmentError::InvalidBase64),
    }
}

/// Law: the `url` parameter that the proxy writes for an address reads back
/// as that address.
pub proof fn lemma_segment_url_roundtrip(url: Seq<char>)
    ensures
        segment_target_spec(b64_url_encode(encode_utf8(url))) == Ok::<Seq<char>, SegmentError>(url),
{
    let e = b64_url_encode(encode_utf8(url));
    assert(b64_url_encode(encode_utf8(url)) == e);
    let b = choose|b: Seq<u8>| b64_url_encode(b) == e;
    lemma_b64_injective(b, encode_utf8(url));
    vstd::utf8::encode_utf8_valid_utf8(url);
    vstd::utf8::encode_utf8_decode_utf8(url);
}


// ---------------------------------------------------------------------------
// HLS manifests
// ---------------------------------------------------------------------------

/// The proxy address through which the segment at `absolute` is fetched.
pub open spec fn segment_link(port: u16, absolute: Seq<char>) -> Seq<char> {
    "http://127.0.0.1:"@ + decimal_text(port as nat) + "/segment?url="@ + b64_url_encode(
        encode_utf8(absolute),
    )
}

/// A manifest entry made absolute: kept when it starts with `http`, else put
/// after the manifest's base.
pub open spec fn absolute_url(base: Seq<char>, uri: Seq<char>) -> Seq<char> {
    if has_sub_at(uri, 0, "http"@) {
        uri
    } else {
        base + uri
    }
}

/// The manifest address up to and including its last `/`, or the whole
/// address when it has none.
pub open spec fn manifest_base(url: Seq<char>) -> Seq<char> {
    match last_index_of(url, '/') {
        Some(i) => url.subrange(0, i + 1),
        None => url,
    }
}

/// A tag line whose `URI="..."` attribute is pointed at the proxy; the line
/// unchanged when it has no such attribute or the quote is not closed.
pub open spec fn rewrite_tag_spec(line: Seq<char>, base: Seq<char>, port: u16) -> Seq<char> {
    match find_sub(line, "URI=\""@, 0) {
        Some(start) => match find_sub(line, seq!['"'], start + 5) {
            Some(e) => line.subrange(0, start) + "URI=\""@ + segment_link(
                port,
                absolute_url(base, line.subrange(start + 5, e)),
            ) + seq!['"'] + line.subrange(e + 1, line.len() as int),
            None => line,
        },
        None => line,
    }
}

/// One manifest line rewritten: tags kept (their `URI` attribute pointed at
/// the proxy), segment lines replaced by proxy addresses, empty lines kept.
pub open spec fn rewrite_line(line: Seq<char>, base: Seq<char>, port: u16) -> Seq<char> {
    if line.len() > 0 && line[0] == '#' {
        if contains_seq(line, "URI=\""@) {
            rewrite_tag_spec(line, base, port)
        } else {
            line
        }
    } else if line.len() > 0 {
        segment_link(port, absolute_url(base, line))
    } else {
        seq![]
    }
}

/// The rewritten lines, each followed by a line feed.
pub open spec fn rewrite_lines(ls: Seq<Seq<char>>, base: Seq<char>, port: u16) -> Seq<char>
    decreases ls.len(),
{
    if ls.len() == 0 {
        seq![]
    } else {
        rewrite_lines(ls.drop_last(), base, port) + rewrite_line(ls.last(), base, port) + seq!['\n']
    }
}

/// The manifest at `base_url`, as the proxy serves it.
pub open spec fn rewrite_manifest_spec(manifest: Seq<char>, base_url: Seq<char>, port: u16) -> Seq<char> {
    rewrite_lines(lines(manifest), manifest_base(base_url), port)
}

fn segment_link_exec(port: u16, absolute: &str) -> (r: String)
    ensures
        r@ == segment_link(port, absolute@),
{
    let mut r = owned("http://127.0.0.1:");
    push_decimal(&mut r, port as u64);
    push_str(&mut r, "/segment?url=");
    let enc = base64_url_encode(absolute);
    push_str(&mut r, enc.as_str());
    r
}

fn absolute_url_exec(base: &Vec<char>, uri: &Vec<char>) -> (r: String)
    ensures
        r@ == absolute_url(base@, uri@),
{
    if sub_at(uri, 0, &chars_of("http")) {
        string_of(uri)
    } else {
        let mut r = string_of(base);
        push_chars(&mut r, uri, 0, uri.len());
        assert(uri@.subrange(0, uri@.len() as int) =~= uri@);
        r
    }
}

fn rewrite_tag_chars(line: &Vec<char>, base: &Vec<char>, port: u16) -> (r: String)
    ensures
        r@ == rewrite_tag_spec(line@, base@, port),
{
    let marker = chars_of("URI=\"");
    proof {
        reveal_strlit("URI=\"");
    }
    match find_chars(line, &marker, 0) {
        Some(start) => {
            let quote = chars_of("\"");
            proof {
                reveal_strlit("\"");
                assert(quote@ =~= seq!['"']);
                assert(marker@.len() == 5);
                assert(start + 5 <= line@.len());
                assert(line@.len() == line.len());
            }
            match find_chars(line, &quote, start + 5) {
                Some(e) => {
                    proof {
                        lemma_find_sub_found(line@, quote@, start + 5);
                        assert(e + 1 <= line@.len());
                        assert(line@.len() == line.len());
                    }
                    let uri = slice_chars(line, start + 5, e);
                    let absolute = absolute_url_exec(base, &uri);
                    let link = segment_link_exec(port, absolute.as_str());
                    let mut r = String::new();
                    push_chars(&mut r, line, 0, start);
                    push_str(&mut r, "URI=\"");
                    push_str(&mut r, link.as_str());
                    push_str(&mut r, "\"");
                    push_chars(&mut r, line, e + 1, line.len());
                    assert(r@ =~= rewrite_tag_spec(line@, base@, port));
                    r
                },
                None => string_of(line),
            }
        },
        None => string_of(line),
    }
}

/// Rewrite URI in HLS tags like #EXT-X-KEY:METHOD=AES-128,URI="..."
pub fn rewrite_uri_in_tag(line: &str, base: &str, port: u16) -> (r: String)
    ensures
        r@ == rewrite_tag_spec(line@, base@, port),
{
    rewrite_tag_chars(&chars_of(line), &chars_of(base), port)
}

fn rewrite_line_exec(line: &Vec<char>, base: &Vec<char>, port: u16) -> (r: String)
    ensures
        r@ == rewrite_line(line@, base@, port),
{
    if line.len() > 0 && line[0] == '#' {
        if has_str(line, "URI=\"") {
            rewrite_tag_chars(line, base, port)
        } else {
            string_of(line)
        }
    } else if line.len() > 0 {
        let absolute = absolute_url_exec(base, line);
        segment_link_exec(port, absolute.as_str())
    } else {
        String::new()
    }
}

/// Rewrite HLS manifest URLs to go through our proxy
pub fn rewrite_hls_manifest(manifest: &str, base_url: &str, port: u16) -> (r: String)
    ensures
        r@ == rewrite_manifest_spec(manifest@, base_url@, port),
{
    let url = chars_of(base_url);
    let base = match rfind_char(&url, '/') {
        Some(idx) => slice_chars(&url, 0, idx + 1),
        None => url,
    };
    let ls = split_lines(&chars_of(manifest));
    let ghost all = lines(manifest@);
    let mut result = String::new();
    let mut i: usize = 0;
    while i < ls.len()
        invariant
            i <= ls.len(),
            ls@.len() == all.len(),
            all == lines(manifest@),
            base@ == manifest_base(base_url@),
            forall|j: int| 0 <= j < ls@.len() ==> #[trigger] ls@[j]@ == all[j],
            result@ == rewrite_lines(all.take(i as int), base@, port),
        decreases ls.len() - i,
    {
        let piece = rewrite_line_exec(&ls[i], &base, port);
        push_str(&mut result, piece.as_str());
        push_char(&mut result, '\n');
        proof {
            assert(all.take(i + 1).drop_last() =~= all.take(i as int));
            assert(all.take(i + 1).last() == all[i as int]);
        }
        i += 1;
    }
    assert(all.take(ls.len() as int) =~= all);
    result
}


// ---------------------------------------------------------------------------
// Proxy state and requests
// ---------------------------------------------------------------------------

/// Shared state for the streaming proxy: the port it listens on, the address
/// it currently streams, and the headers that go with it.
#[derive(Debug)]
pub struct StreamProxy {
    pub port: u16,
    pub current_url: Option<String>,
    pub headers: Vec<(String, String)>,
}

/// The address the player is given: `http://127.0.0.1:{port}/stream`.
pub open spec fn local_url_spec(port: u16) -> Seq<char> {
    "http://127.0.0.1:"@ + decimal_text(port as nat) + "/stream"@
}

/// What the `/stream` endpoint does with the current address.
#[derive(Debug)]
pub enum StreamRoute {
    /// No address is set: the reply is `no_stream_reply`.
    NoUrl,
    /// An HLS manifest, fetched and rewritten.
    Manifest(String),
    /// Anything else, proxied as it is.
    Direct(String),
}

/// An address that is served as an HLS manifest.
pub open spec fn is_manifest_url(u: Seq<char>) -> bool {
    contains_seq(u, ".m3u8"@) || contains_seq(u, "manifest"@)
}

impl StreamProxy {
    pub fn new(port: u16) -> (r: Self)
        ensures
            r.port == port,
            r.current_url is None,
            r.headers@.len() == 0,
    {
        StreamProxy { port, current_url: None, headers: Vec::new() }
    }

    /// Set the URL to proxy
    pub fn set_url(&mut self, url: String, headers: Vec<(String, String)>)
        ensures
            final(self).port == old(self).port,
            final(self).current_url == Some(url),
            final(self).headers == headers,
    {
        self.current_url = Some(url);
        self.headers = headers;
    }

    /// Get the local proxy URL that frontend should use
    pub fn get_local_url(&self) -> (r: String)
        ensures
            r@ == local_url_spec(self.port),
    {
        let mut r = owned("http://127.0.0.1:");
        push_decimal(&mut r, self.port as u64);
        push_str(&mut r, "/stream");
        r
    }

    /// How the `/stream` endpoint serves the current address.
    pub fn route(&self) -> (r: StreamRoute)
        ensures
            match self.current_url {
                None => r is NoUrl,
                Some(u) => if is_manifest_url(u@) {
                    r == StreamRoute::Manifest(u)
                } else {
                    r == StreamRoute::Direct(u)
                },
            },
    {
        match &self.current_url {
            None => StreamRoute::NoUrl,
            Some(u) => {
                let c = chars_of(u.as_str());
                if has_str(&c, ".m3u8") || has_str(&c, "manifest") {
                    StreamRoute::Manifest(u.clone())
                } else {
                    StreamRoute::Direct(u.clone())
                }
            },
        }
    }
}

/// A reply that the proxy makes itself: a status and a text body.
#[derive(Debug, Clone)]
pub struct ProxyReply {
    pub status: u16,
    pub body: String,
}

/// The `/stream` reply when no address is set.
pub fn no_stream_reply() -> (r: ProxyReply)
    ensures
        r.status == 404,
        r.body@ == "No stream URL set"@,
{
    ProxyReply { status: 404, body: owned("No stream URL set") }
}

/// The `/segment` reply when its address cannot be read.
pub fn segment_error_reply(e: SegmentError) -> (r: ProxyReply)
    ensures
        r.status == 400,
        r.body@ == match e {
            SegmentError::InvalidBase64 => "Invalid base64 URL"@,
            SegmentError::InvalidUtf8 => "Invalid URL encoding"@,
        },
{
    match e {
        SegmentError::InvalidBase64 => ProxyReply { status: 400, body: owned("Invalid base64 URL") },
        SegmentError::InvalidUtf8 => ProxyReply { status: 400, body: owned("Invalid URL encoding") },
    }
}

/// A header as a pair of texts.
pub open spec fn pair_view(p: (String, String)) -> (Seq<char>, Seq<char>) {
    (p.0@, p.1@)
}

pub open spec fn pairs_view(v: Seq<(String, String)>) -> Seq<(Seq<char>, Seq<char>)> {
    v.map_values(|p: (String, String)| pair_view(p))
}

pub open spec fn browser_user_agent() -> Seq<char> {
    "Mozilla/5.0 (Windows NT 10.0; Win64; x64) AppleWebKit/537.36"@
}

/// The headers sent upstream: a browser's user agent, YouTube as referer,
/// and the player's `Range` when it sent one.
pub open spec fn upstream_headers_spec(range: Option<Seq<char>>) -> Seq<(Seq<char>, Seq<char>)> {
    let base = seq![("User-Agent"@, browser_user_agent()), ("Referer"@, "https://www.youtube.com/"@)];
    match range {
        Some(r) => base.push(("Range"@, r)),
        None => base,
    }
}

fn header(name: &str, value: &str) -> (r: (String, String))
    ensures
        pair_view(r) == (name@, value@),
{
    (owned(name), owned(value))
}

proof fn lemma_pairs_push(v: Seq<(String, String)>, p: (String, String))
    ensures
        pairs_view(v.push(p)) == pairs_view(v).push(pair_view(p)),
{
    assert(pairs_view(v.push(p)) =~= pairs_view(v).push(pair_view(p)));
}

/// Headers for the upstream request.
pub fn upstream_headers(range: Option<&str>) -> (r: Vec<(String, String)>)
    ensures
        pairs_view(r@) == upstream_headers_spec(
            match range {
                Some(x) => Some(x@),
                None => None,
            },
        ),
{
    let mut v: Vec<(String, String)> = Vec::new();
    let h1 = header("User-Agent", "Mozilla/5.0 (Windows NT 10.0; Win64; x64) AppleWebKit/537.36");
    proof {
        lemma_pairs_push(v@, h1);
    }
    v.push(h1);
    let h2 = header("Referer", "https://www.youtube.com/");
    proof {
        lemma_pairs_push(v@, h2);
    }
    v.push(h2);
    match range {
        Some(x) => {
            let h3 = header("Range", x);
            proof {
                lemma_pairs_push(v@, h3);
            }
            v.push(h3);
        },
        None => {},
    }
    assert(pairs_view(v@) =~= upstream_headers_spec(
        match range {
            Some(x) => Some(x@),
            None => None,
        },
    ));
    v
}

pub open spec fn no_cache() -> Seq<char> {
    "no-store, no-cache, must-revalidate, max-age=0"@
}

/// The headers of a rewritten manifest.
pub open spec fn manifest_headers_spec() -> Seq<(Seq<char>, Seq<char>)> {
    seq![
        ("Content-Type"@, "application/vnd.apple.mpegurl"@),
        ("Access-Control-Allow-Origin"@, "*"@),
        ("Cache-Control"@, no_cache()),
    ]
}

pub fn manifest_headers() -> (r: Vec<(String, String)>)
    ensures
        pairs_view(r@) == manifest_headers_spec(),
{
    let mut v: Vec<(String, String)> = Vec::new();
    let h = header("Content-Type", "application/vnd.apple.mpegurl");
    proof { lemma_pairs_push(v@, h); }
    v.push(h);
    let h = header("Access-Control-Allow-Origin", "*");
    proof { lemma_pairs_push(v@, h); }
    v.push(h);
    let h = header("Cache-Control", "no-store, no-cache, must-revalidate, max-age=0");
    proof { lemma_pairs_push(v@, h); }
    v.push(h);
    assert(pairs_view(v@) =~= manifest_headers_spec());
    v
}

/// The headers of a proxied stream: the upstream content type (`video/mp4`
/// when it gave none), byte ranges accepted, no caching, and the upstream
/// length (when it is a number) and range.
pub open spec fn stream_headers_spec(
    content_type: Option<Seq<char>>,
    content_length: Option<Seq<char>>,
    content_range: Option<Seq<char>>,
) -> Seq<(Seq<char>, Seq<char>)> {
    let base = seq![
        ("Content-Type"@, match content_type {
            Some(t) => t,
            None => "video/mp4"@,
        }),
        ("Accept-Ranges"@, "bytes"@),
        ("Access-Control-Allow-Origin"@, "*"@),
        ("Cache-Control"@, no_cache()),
        ("Pragma"@, "no-cache"@),
        ("Expires"@, "0"@),
    ];
    let with_len = match content_length {
        Some(l) => match parse_u64_spec(l) {
            Some(n) => base.push(("Content-Length"@, decimal_text(n as nat))),
            None => base,
        },
        None => base,
    };
    match content_range {
        Some(r) => with_len.push(("Content-Range"@, r)),
        None => with_len,
    }
}

pub open spec fn opt_str_view(o: Option<&str>) -> Option<Seq<char>> {
    match o {
        Some(x) => Some(x@),
        None => None,
    }
}

pub fn stream_headers(
    content_type: Option<&str>,
    content_length: Option<&str>,
    content_range: Option<&str>,
) -> (r: Vec<(String, String)>)
    ensures
        pairs_view(r@) == stream_headers_spec(
            opt_str_view(content_type),
            opt_str_view(content_length),
            opt_str_view(content_range),
        ),
{
    let mut v: Vec<(String, String)> = Vec::new();
    let h = match content_type {
        Some(t) => header("Content-Type", t),
        None => header("Content-Type", "video/mp4"),
    };
    proof { lemma_pairs_push(v@, h); }
    v.push(h);
    let h = header("Accept-Ranges", "bytes");
    proof { lemma_pairs_push(v@, h); }
    v.push(h);
    let h = header("Access-Control-Allow-Origin", "*");
    proof { lemma_pairs_push(v@, h); }
    v.push(h);
    let h = header("Cache-Control", "no-store, no-cache, must-revalidate, max-age=0");
    proof { lemma_pairs_push(v@, h); }
    v.push(h);
    let h = header("Pragma", "no-cache");
    proof { lemma_pairs_push(v@, h); }
    v.push(h);
    let h = header("Expires", "0");
    proof { lemma_pairs_push(v@, h); }
    v.push(h);
    let ghost base = pairs_view(v@);
    match content_length {
        Some(l) => match parse_u64(&chars_of(l)) {
            Some(n) => {
                let h = (owned("Content-Length"), decimal_string(n));
                proof { lemma_pairs_push(v@, h); }
                v.push(h);
            },
            None => {},
        },
        None => {},
    }
    match content_range {
        Some(x) => {
            let h = header("Content-Range", x);
            proof { lemma_pairs_push(v@, h); }
            v.push(h);
        },
        None => {},
    }
    assert(pairs_view(v@) =~= stream_headers_spec(
        opt_str_view(content_type),
        opt_str_view(content_length),
        opt_str_view(content_range),
    ));
    v
}


/// Law: switching the streamed address keeps the endpoint that the player
/// was given (same port, so the same local address).
pub proof fn lemma_switch_keeps_endpoint(before: StreamProxy, after: StreamProxy)
    requires
        after.port == before.port,
    ensures
        local_url_spec(after.port) == local_url_spec(before.port),
{
}

/// Law: every segment line of a rewritten manifest is a proxy address whose
/// `url` parameter reads back as the segment's absolute address.
pub proof fn lemma_segment_line_roundtrip(line: Seq<char>, base: Seq<char>, port: u16)
    requires
        line.len() > 0,
        line[0] != '#',
    ensures
        rewrite_line(line, base, port) == segment_link(port, absolute_url(base, line)),
        segment_target_spec(b64_url_encode(encode_utf8(absolute_url(base, line)))) == Ok::<
            Seq<char>,
            SegmentError,
        >(absolute_url(base, line)),
{
    lemma_segment_url_roundtrip(absolute_url(base, line));
}


/// Law: in a tag line whose first `URI="` attribute holds `u` up to its
/// closing quote, that attribute is pointed at the proxy whatever `u` is:
/// at the proxy address of `u` itself when it starts with `http`, else of
/// `u` after the manifest's base. Everything before and after the attribute
/// stays as it was, and the address's `url` parameter reads back as the
/// absolute address of `u`.
pub proof fn lemma_tag_uri_through_proxy(pre: Seq<char>, u: Seq<char>, post: Seq<char>, base: Seq<char>, port: u16)
    requires
        forall|j: int| 0 <= j < pre.len() ==> !has_sub_at(pre + "URI=\""@ + u + seq!['"'] + post, j, "URI=\""@),
        forall|j: int| 0 <= j < u.len() ==> u[j] != '"',
    ensures
        rewrite_tag_spec(pre + "URI=\""@ + u + seq!['"'] + post, base, port) == pre + "URI=\""@
            + "http://127.0.0.1:"@ + decimal_text(port as nat) + "/segment?url="@ + b64_url_encode(
            encode_utf8(if has_sub_at(u, 0, "http"@) { u } else { base + u }),
        ) + seq!['"'] + post,
        segment_target_spec(
            b64_url_encode(encode_utf8(if has_sub_at(u, 0, "http"@) { u } else { base + u })),
        ) == Ok::<Seq<char>, SegmentError>(if has_sub_at(u, 0, "http"@) { u } else { base + u }),
        pre.len() > 0 && pre[0] == '#' ==> rewrite_line(pre + "URI=\""@ + u + seq!['"'] + post, base, port)
            == rewrite_tag_spec(pre + "URI=\""@ + u + seq!['"'] + post, base, port),
{
    reveal_strlit("URI=\"");
    let attr = "URI=\""@;
    let line = pre + attr + u + seq!['"'] + post;
    let target = if has_sub_at(u, 0, "http"@) { u } else { base + u };
    let start: int = pre.len() as int;
    let e: int = start + 5 + u.len();
    assert(line.subrange(start, start + 5) =~= attr);
    lemma_find_sub_first(line, attr, 0, start);
    assert(line.subrange(e, e + 1) =~= seq!['"']);
    assert forall|i: int| start + 5 <= i < e implies !has_sub_at(line, i, seq!['"']) by {
        assert(line[i] == u[i - start - 5]);
        if has_sub_at(line, i, seq!['"']) {
            assert(line.subrange(i, i + 1)[0] == line[i]);
        }
    }
    lemma_find_sub_first(line, seq!['"'], start + 5, e);
    assert(line.subrange(0, start) =~= pre);
    assert(line.subrange(start + 5, e) =~= u);
    assert(line.subrange(e + 1, line.len() as int) =~= post);
    assert(absolute_url(base, u) == target);
    let link = segment_link(port, target);
    assert(pre + attr + link + seq!['"'] + post =~= pre + attr + "http://127.0.0.1:"@ + decimal_text(
        port as nat,
    ) + "/segment?url="@ + b64_url_encode(encode_utf8(target)) + seq!['"'] + post);
    lemma_segment_url_roundtrip(target);
    if pre.len() > 0 && pre[0] == '#' {
        assert(line[0] == '#');
        assert(has_sub_at(line, start, attr));
    }
}


/// Law: a tag line with no `URI="` attribute, and a tag line whose attribute
/// has no closing quote, is served unchanged.
pub proof fn lemma_plain_tag_kept(line: Seq<char>, base: Seq<char>, port: u16)
    requires
        line.len() > 0,
        line[0] == '#',
        !contains_seq(line, "URI=\""@) || (forall|j: int| 0 <= j < line.len() ==> line[j] != '"'),
    ensures
        rewrite_line(line, base, port) == line,
{
    reveal_strlit("URI=\"");
    if contains_seq(line, "URI=\""@) {
        lemma_find_sub_found(line, "URI=\""@, 0);
        if let Some(start) = find_sub(line, "URI=\""@, 0) {
            lemma_find_sub_found(line, seq!['"'], start + 5);
            if let Some(e) = find_sub(line, seq!['"'], start + 5) {
                assert(line.subrange(e, e + 1)[0] == line[e]);
            }
        }
    }
}

} // verus!
