//! The site's address and the URLs and paths built from it.

use vstd::prelude::*;
use crate::text::{push_char, push_str};

verus! {

/// The site every request goes to.
pub const BASE_URL: &'static str = "https://prehraj.to";

/// The characters of [`BASE_URL`].
pub open spec fn base_url() -> Seq<char> {
    "https://prehraj.to"@
}

/// Bytes that stand for themselves in an encoded URL component: ASCII
/// letters and digits and `-`, `.`, `_`, `~`.
pub open spec fn is_unreserved(b: u8) -> bool {
    ||| 48 <= b <= 57
    ||| 65 <= b <= 90
    ||| 97 <= b <= 122
    ||| b == 45
    ||| b == 46
    ||| b == 95
    ||| b == 126
}

/// The upper-case hexadecimal digit for `d < 16`.
pub open spec fn hex_upper(d: nat) -> char
    recommends
        d < 16,
{
    if d < 10 {
        (48 + d) as char
    } else {
        (55 + d) as char
    }
}

/// How one byte is written in an encoded URL component.
pub open spec fn encode_byte(b: u8) -> Seq<char> {
    if is_unreserved(b) {
        seq![b as char]
    } else {
        seq!['%', hex_upper((b / 16) as nat), hex_upper((b % 16) as nat)]
    }
}

/// Percent-encoding of a byte string: each byte by [`encode_byte`], in order.
pub open spec fn percent_encode(bytes: Seq<u8>) -> Seq<char>
    decreases bytes.len(),
{
    if bytes.len() == 0 {
        Seq::empty()
    } else {
        percent_encode(bytes.drop_last()) + encode_byte(bytes.last())
    }
}

/// The search page path for a query: `/hledej/` and the query's UTF-8
/// bytes percent-encoded.
pub open spec fn search_path(query: Seq<char>) -> Seq<char> {
    "/hledej/"@ + percent_encode(vstd::utf8::encode_utf8(query))
}

/// The page path of a video: `/{slug}/{id}`.
pub open spec fn video_path(slug: Seq<char>, id: Seq<char>) -> Seq<char> {
    seq!['/'] + slug + seq!['/'] + id
}

/// The download page path of a video: `/{slug}/{id}?do=download`.
pub open spec fn download_path(slug: Seq<char>, id: Seq<char>) -> Seq<char> {
    video_path(slug, id) + "?do=download"@
}

fn hex_digit(d: u8) -> (c: char)
    requires
        d < 16,
    ensures
        c == hex_upper(d as nat),
{
    if d < 10 {
        (48u8 + d) as char
    } else {
        (55u8 + d) as char
    }
}

/// Appends the percent-encoding of `s`'s UTF-8 bytes to `out`.
pub fn push_percent_encoded(out: &mut String, s: &str)
    ensures
        final(out)@ == old(out)@ + percent_encode(vstd::utf8::encode_utf8(s@)),
{
    let bytes: &[u8] = s.as_bytes();
    let n: usize = bytes.len();
    let ghost start = out@;
    let mut i: usize = 0;
    assert(bytes@.subrange(0, 0) =~= Seq::<u8>::empty());
    while i < n
        invariant
            i <= n,
            n == bytes@.len(),
            bytes@ == vstd::utf8::encode_utf8(s@),
            out@ == start + percent_encode(bytes@.subrange(0, i as int)),
        decreases n - i,
    {
        let b: u8 = bytes[i];
        let ghost before = out@;
        if (48 <= b && b <= 57) || (65 <= b && b <= 90) || (97 <= b && b <= 122) || b == 45 || b
            == 46 || b == 95 || b == 126 {
            push_char(out, b as char);
            assert(out@ =~= before + encode_byte(b));
        } else {
            push_char(out, '%');
            push_char(out, hex_digit(b / 16));
            push_char(out, hex_digit(b % 16));
            assert(out@ =~= before + encode_byte(b));
        }
        assert(bytes@.subrange(0, i + 1).drop_last() =~= bytes@.subrange(0, i as int));
        i = i + 1;
    }
    assert(bytes@.subrange(0, n as int) =~= bytes@);
}

/// The search page path for `query` (already trimmed by the caller).
pub fn build_search_path(query: &str) -> (p: String)
    ensures
        p@ == search_path(query@),
{
    let mut p = String::new();
    push_str(&mut p, "/hledej/");
    push_percent_encoded(&mut p, query);
    p
}

/// The full search URL for `query`: [`BASE_URL`] and [`build_search_path`].
pub fn build_search_url(query: &str) -> (u: String)
    ensures
        u@ == base_url() + search_path(query@),
{
    let mut u = String::new();
    push_str(&mut u, BASE_URL);
    let path = build_search_path(query);
    push_str(&mut u, path.as_str());
    u
}

/// The page path of a video.
pub fn build_video_path(video_slug: &str, video_id: &str) -> (p: String)
    ensures
        p@ == video_path(video_slug@, video_id@),
{
    let mut p = String::new();
    push_char(&mut p, '/');
    push_str(&mut p, video_slug);
    push_char(&mut p, '/');
    push_str(&mut p, video_id);
    assert(p@ =~= video_path(video_slug@, video_id@));
    p
}

/// The download page path of a video.
pub fn build_download_path(video_slug: &str, video_id: &str) -> (p: String)
    ensures
        p@ == download_path(video_slug@, video_id@),
{
    let mut p = build_video_path(video_slug, video_id);
    push_str(&mut p, "?do=download");
    p
}

/// The full download page URL of a video.
pub fn build_download_url(video_slug: &str, video_id: &str) -> (u: String)
    ensures
        u@ == base_url() + download_path(video_slug@, video_id@),
{
    let mut u = String::new();
    push_str(&mut u, BASE_URL);
    let p = build_download_path(video_slug, video_id);
    push_str(&mut u, p.as_str());
    u
}

/// The absolute URL of a path on the site: [`BASE_URL`] followed by `path`.
pub fn site_url(path: &str) -> (u: String)
    ensures
        u@ == base_url() + path@,
{
    let mut u = String::new();
    push_str(&mut u, BASE_URL);
    push_str(&mut u, path);
    u
}

/// Characters that may stand in an encoded URL component: ASCII letters
/// and digits, `-`, `.`, `_`, `~`, and `%` for escapes. `/`, `?`, `#`, `&`,
/// `=`, `+`, space and all non-ASCII characters are not among them.
pub open spec fn is_component_safe(c: char) -> bool {
    ||| 'a' <= c <= 'z'
    ||| 'A' <= c <= 'Z'
    ||| '0' <= c <= '9'
    ||| c == '-'
    ||| c == '.'
    ||| c == '_'
    ||| c == '~'
    ||| c == '%'
}

/// The value of a hexadecimal digit (either case).
pub open spec fn hex_value(c: char) -> int {
    if '0' <= c <= '9' {
        c as int - 48
    } else if 'A' <= c <= 'F' {
        c as int - 55
    } else if 'a' <= c <= 'f' {
        c as int - 87
    } else {
        0
    }
}

/// Percent-decoding: `%` and two hexadecimal digits stand for the byte they
/// spell; any other character stands for its own code.
pub open spec fn percent_decode(s: Seq<char>) -> Seq<u8>
    decreases s.len(),
{
    if s.len() == 0 {
        Seq::empty()
    } else if s[0] == '%' && s.len() >= 3 {
        seq![(hex_value(s[1]) * 16 + hex_value(s[2])) as u8] + percent_decode(s.subrange(3, s.len() as int))
    } else {
        seq![s[0] as u8] + percent_decode(s.drop_first())
    }
}

proof fn lemma_encode_byte_decodes(b: u8, y: Seq<char>)
    ensures
        percent_decode(encode_byte(b) + y) == seq![b] + percent_decode(y),
        forall|i: int| 0 <= i < encode_byte(b).len() ==> is_component_safe(#[trigger] encode_byte(b)[i]),
{
    let u = encode_byte(b);
    let t = u + y;
    if is_unreserved(b) {
        assert(t[0] == b as char);
        assert(t.drop_first() =~= y);
        assert((b as char) as u8 == b);
    } else {
        let hi: nat = (b / 16) as nat;
        let lo: nat = (b % 16) as nat;
        assert(t[0] == '%');
        assert(t[1] == hex_upper(hi));
        assert(t[2] == hex_upper(lo));
        assert(t.subrange(3, t.len() as int) =~= y);
        assert(hex_value(hex_upper(hi)) == hi);
        assert(hex_value(hex_upper(lo)) == lo);
        assert(hi * 16 + lo == b);
    }
}

/// Percent-encoding is undone by percent-decoding, also when more encoded
/// text follows.
pub proof fn lemma_percent_encode_decodes(bytes: Seq<u8>, y: Seq<char>)
    ensures
        percent_decode(percent_encode(bytes) + y) == bytes + percent_decode(y),
    decreases bytes.len(),
{
    if bytes.len() == 0 {
        assert(percent_encode(bytes) + y =~= y);
        assert(bytes + percent_decode(y) =~= percent_decode(y));
    } else {
        let front = bytes.drop_last();
        let b = bytes.last();
        assert(percent_encode(bytes) + y =~= percent_encode(front) + (encode_byte(b) + y));
        lemma_percent_encode_decodes(front, encode_byte(b) + y);
        lemma_encode_byte_decodes(b, y);
        assert(front + (seq![b] + percent_decode(y)) =~= bytes + percent_decode(y));
    }
}

/// Every character of a percent-encoding may stand in a URL component: the
/// encoding holds no `/`, `?` or `#` that would end the component.
pub proof fn lemma_percent_encode_safe(bytes: Seq<u8>)
    ensures
        forall|i: int|
            0 <= i < percent_encode(bytes).len() ==> is_component_safe(
                #[trigger] percent_encode(bytes)[i],
            ),
    decreases bytes.len(),
{
    if bytes.len() > 0 {
        let front = bytes.drop_last();
        lemma_percent_encode_safe(front);
        lemma_encode_byte_decodes(bytes.last(), Seq::empty());
        let e = percent_encode(bytes);
        assert forall|i: int| 0 <= i < e.len() implies is_component_safe(#[trigger] e[i]) by {
            if i < percent_encode(front).len() {
                assert(e[i] == percent_encode(front)[i]);
            } else {
                assert(e[i] == encode_byte(bytes.last())[i - percent_encode(front).len()]);
            }
        }
    }
}

/// The search path of a query is `/hledej/` followed by one path segment
/// that holds no `/`, `?` or `#` and that percent-decodes to the query's
/// UTF-8 bytes.
pub proof fn lemma_search_path_encodes_query(query: Seq<char>)
    ensures
        search_path(query).subrange(0, 8) == "/hledej/"@,
        percent_decode(search_path(query).subrange(8, search_path(query).len() as int))
            == vstd::utf8::encode_utf8(query),
        forall|i: int|
            8 <= i < search_path(query).len() ==> is_component_safe(#[trigger] search_path(query)[i])
                && search_path(query)[i] != '/' && search_path(query)[i] != '?'
                && search_path(query)[i] != '#',
{
    reveal_strlit("/hledej/");
    let bytes = vstd::utf8::encode_utf8(query);
    let e = percent_encode(bytes);
    let p = search_path(query);
    assert(p.subrange(0, 8) =~= "/hledej/"@);
    assert(p.subrange(8, p.len() as int) =~= e);
    lemma_percent_encode_decodes(bytes, Seq::empty());
    assert(e + Seq::<char>::empty() =~= e);
    assert(bytes + percent_decode(Seq::<char>::empty()) =~= bytes);
    lemma_percent_encode_safe(bytes);
    assert forall|i: int| 8 <= i < p.len() implies is_component_safe(#[trigger] p[i]) && p[i]
        != '/' && p[i] != '?' && p[i] != '#' by {
        assert(p[i] == e[i - 8]);
    }
}

} // verus!
