//! `data:` URLs: the media type and the content that one holds.
//!
//! What stands after `data:` is a media type, optionally `;base64`, a
//! comma, and the content, with `%XX` for the bytes that cannot stand as they
//! are.

use crate::text::{chars_of, first_index, lemma_first_index, subtext};
use crate::web_url::{Url, UrlView};
use vstd::prelude::*;
use vstd::string::*;

verus! {

/// The value of a hexadecimal digit.
pub open spec fn hex_value(c: char) -> Option<u8> {
    if '0' <= c && c <= '9' {
        Some(((c as u8) - ('0' as u8)) as u8)
    } else if 'a' <= c && c <= 'f' {
        Some(((c as u8) - ('a' as u8) + 10) as u8)
    } else if 'A' <= c && c <= 'F' {
        Some(((c as u8) - ('A' as u8) + 10) as u8)
    } else {
        None
    }
}

/// Whether `s` has a percent sign and two hexadecimal digits at its start.
pub open spec fn starts_escaped(s: Seq<char>) -> bool {
    s.len() >= 3 && s[0] == '%' && hex_value(s[1]) is Some && hex_value(s[2]) is Some
}

/// The bytes that an ASCII text stands for once each `%XX` is replaced by
/// the byte that it names. A percent sign that no two hexadecimal digits
/// follow stands for itself.
pub open spec fn percent_decoded(s: Seq<char>) -> Seq<u8>
    decreases s.len(),
{
    if s.len() == 0 {
        Seq::empty()
    } else if starts_escaped(s) {
        seq![(hex_value(s[1])->0 * 16 + hex_value(s[2])->0) as u8] + percent_decoded(s.skip(3))
    } else {
        seq![s[0] as u8] + percent_decoded(s.drop_first())
    }
}

/// The six bits that a character of the base64 alphabet stands for.
pub open spec fn sextet(b: u8) -> Option<u8> {
    if 'A' as u8 <= b && b <= 'Z' as u8 {
        Some((b - ('A' as u8)) as u8)
    } else if 'a' as u8 <= b && b <= 'z' as u8 {
        Some((b - ('a' as u8) + 26) as u8)
    } else if '0' as u8 <= b && b <= '9' as u8 {
        Some((b - ('0' as u8) + 52) as u8)
    } else if b == '+' as u8 {
        Some(62u8)
    } else if b == '/' as u8 {
        Some(63u8)
    } else {
        None
    }
}

/// Whether every byte of `s` is of the base64 alphabet.
pub open spec fn all_sextets(s: Seq<u8>) -> bool {
    forall|i: int| 0 <= i < s.len() ==> sextet(#[trigger] s[i]) is Some
}

/// The byte that two sextets stand for at the end of a text.
pub open spec fn pair_bytes(a: u8, b: u8) -> Seq<u8> {
    let v = a * 64 + b;
    seq![(v / 16) as u8]
}

/// The two bytes that three sextets stand for at the end of a text.
pub open spec fn triple_bytes(a: u8, b: u8, c: u8) -> Seq<u8> {
    let v = (a * 64 + b) * 64 + c;
    seq![(v / 1024) as u8, ((v / 4) % 256) as u8]
}

/// The three bytes that four sextets stand for.
pub open spec fn quad_bytes(a: u8, b: u8, c: u8, d: u8) -> Seq<u8> {
    let v = ((a * 64 + b) * 64 + c) * 64 + d;
    seq![(v / 65536) as u8, ((v / 256) % 256) as u8, (v % 256) as u8]
}

/// `front` and then the bytes of `rest`, where there are some.
pub open spec fn after(front: Seq<u8>, rest: Option<Seq<u8>>) -> Option<Seq<u8>> {
    match rest {
        Some(r) => Some(front + r),
        None => None,
    }
}

/// The bytes that a run of base64 characters without padding stands for:
/// three for every four characters, and at the end one for two characters and
/// two for three. A single character at the end stands for nothing.
pub open spec fn sextets_decoded(s: Seq<u8>) -> Option<Seq<u8>>
    recommends
        all_sextets(s),
    decreases s.len(),
{
    if s.len() == 0 {
        Some(Seq::empty())
    } else if s.len() == 1 {
        None
    } else if s.len() == 2 {
        Some(pair_bytes(sextet(s[0])->0, sextet(s[1])->0))
    } else if s.len() == 3 {
        Some(triple_bytes(sextet(s[0])->0, sextet(s[1])->0, sextet(s[2])->0))
    } else {
        after(
            quad_bytes(sextet(s[0])->0, sextet(s[1])->0, sextet(s[2])->0, sextet(s[3])->0),
            sextets_decoded(s.skip(4)),
        )
    }
}

/// Four characters and then the rest.
proof fn lemma_sextets_step(body: Seq<u8>, i: int)
    requires
        0 <= i,
        i + 4 <= body.len(),
    ensures
        sextets_decoded(body.skip(i)) == after(
            quad_bytes(
                sextet(body[i])->0,
                sextet(body[i + 1])->0,
                sextet(body[i + 2])->0,
                sextet(body[i + 3])->0,
            ),
            sextets_decoded(body.skip(i + 4)),
        ),
{
    let rest = body.skip(i);
    assert(rest.skip(4) =~= body.skip(i + 4));
    assert(rest[0] == body[i]);
    assert(rest[1] == body[i + 1]);
    assert(rest[2] == body[i + 2]);
    assert(rest[3] == body[i + 3]);
}

/// What is left at the end: no character, or one, two or three.
proof fn lemma_sextets_end(body: Seq<u8>, i: int)
    requires
        0 <= i <= body.len(),
        body.len() - i < 4,
    ensures
        sextets_decoded(body.skip(i)) == if body.len() - i == 0 {
            Some(Seq::<u8>::empty())
        } else if body.len() - i == 1 {
            None
        } else if body.len() - i == 2 {
            Some(pair_bytes(sextet(body[i])->0, sextet(body[i + 1])->0))
        } else {
            Some(
                triple_bytes(sextet(body[i])->0, sextet(body[i + 1])->0, sextet(body[i + 2])->0),
            )
        },
{
    let rest = body.skip(i);
    if rest.len() >= 1 {
        assert(rest[0] == body[i]);
    }
    if rest.len() >= 2 {
        assert(rest[1] == body[i + 1]);
    }
    if rest.len() >= 3 {
        assert(rest[2] == body[i + 2]);
    }
}

/// The bytes without the spaces.
pub open spec fn not_space() -> spec_fn(u8) -> bool {
    |b: u8| b != ' ' as u8
}

/// The bytes without the padding at their end: one or two equal signs.
pub open spec fn unpadded(s: Seq<u8>) -> Seq<u8> {
    if s.len() >= 2 && s[s.len() - 1] == '=' as u8 && s[s.len() - 2] == '=' as u8 {
        s.take(s.len() - 2)
    } else if s.len() >= 1 && s[s.len() - 1] == '=' as u8 {
        s.take(s.len() - 1)
    } else {
        s
    }
}

/// The bytes that a base64 text stands for. Spaces are passed over and
/// padding is not asked for. There are none where a character is not of the
/// alphabet, or one character is left over.
pub open spec fn base64_decoded(s: Seq<u8>) -> Option<Seq<u8>> {
    let body = unpadded(s.filter(not_space()));
    if all_sextets(body) {
        sextets_decoded(body)
    } else {
        None
    }
}

/// What a `data:` URL holds.
pub struct DataView {
    pub content_type: Seq<char>,
    pub bytes: Seq<u8>,
}

/// Whether `s` ends with `suffix`.
pub open spec fn ends_with(s: Seq<char>, suffix: Seq<char>) -> bool {
    s.len() >= suffix.len() && s.skip(s.len() - suffix.len()) == suffix
}

/// The media type of a `data:` URL, from what stands before the comma
/// without `;base64`: `text/plain;charset=US-ASCII` where nothing stands
/// there, `text/plain` and the parameters where only parameters do.
pub open spec fn media_type_of(media: Seq<char>) -> Seq<char> {
    if media.len() == 0 {
        "text/plain;charset=US-ASCII"@
    } else if media[0] == ';' {
        "text/plain"@ + media
    } else {
        media
    }
}

/// What the text after `data:` holds: nothing where it is not ASCII, has no
/// comma, or says `;base64` and is not base64.
pub open spec fn data_content(text: Seq<char>) -> Option<DataView> {
    let k = first_index(text, ',') as int;
    if !vstd::utf8::is_ascii_chars(text) || k >= text.len() {
        None
    } else {
        let before = text.take(k);
        let raw = percent_decoded(text.skip(k + 1));
        if ends_with(before, ";base64"@) {
            match base64_decoded(raw) {
                Some(bytes) => Some(
                    DataView { content_type: media_type_of(before.take(before.len() - 7)), bytes },
                ),
                None => None,
            }
        } else {
            Some(DataView { content_type: media_type_of(before), bytes: raw })
        }
    }
}

/// The text after `data:` in a URL: the path and, where there is one, the
/// question mark and the query.
pub open spec fn data_text(url: UrlView) -> Seq<char> {
    match url.query {
        Some(q) => url.path + "?"@ + q,
        None => url.path,
    }
}

/// The value of a hexadecimal digit.
fn hex_digit(c: char) -> (r: Option<u8>)
    ensures
        r == hex_value(c),
{
    if '0' <= c && c <= '9' {
        Some((c as u8) - ('0' as u8))
    } else if 'a' <= c && c <= 'f' {
        Some((c as u8) - ('a' as u8) + 10)
    } else if 'A' <= c && c <= 'F' {
        Some((c as u8) - ('A' as u8) + 10)
    } else {
        None
    }
}

/// The bytes that the part of `chars` from `from` on stands for, once each
/// `%XX` is replaced by the byte that it names.
fn percent_decode(chars: &Vec<char>, from: usize) -> (r: Vec<u8>)
    requires
        from <= chars@.len(),
        vstd::utf8::is_ascii_chars(chars@),
    ensures
        r@ == percent_decoded(chars@.skip(from as int)),
{
    let n: usize = chars.len();
    let mut out: Vec<u8> = Vec::new();
    let mut i: usize = from;
    assert(out@ + percent_decoded(chars@.skip(i as int)) =~= percent_decoded(
        chars@.skip(from as int),
    ));
    while i < n
        invariant
            n == chars@.len(),
            from <= i <= n,
            vstd::utf8::is_ascii_chars(chars@),
            out@ + percent_decoded(chars@.skip(i as int)) == percent_decoded(
                chars@.skip(from as int),
            ),
        decreases n - i,
    {
        let ghost rest = chars@.skip(i as int);
        let ghost before = out@;
        let c = chars[i];
        assert(rest[0] == c);
        let mut escaped: Option<u8> = None;
        if c == '%' && n - i >= 3 {
            assert(rest[1] == chars@[i + 1]);
            assert(rest[2] == chars@[i + 2]);
            match (hex_digit(chars[i + 1]), hex_digit(chars[i + 2])) {
                (Some(hi), Some(lo)) => {
                    escaped = Some(hi * 16 + lo);
                },
                _ => {},
            }
        }
        match escaped {
            Some(b) => {
                out.push(b);
                assert(rest.skip(3) =~= chars@.skip(i + 3));
                assert(out@ + percent_decoded(chars@.skip(i + 3)) =~= before + percent_decoded(rest));
                i += 3;
            },
            None => {
                assert(!starts_escaped(rest));
                out.push(c as u8);
                assert(rest.drop_first() =~= chars@.skip(i + 1));
                assert(out@ + percent_decoded(chars@.skip(i + 1)) =~= before + percent_decoded(rest));
                i += 1;
            },
        }
    }
    assert(percent_decoded(chars@.skip(n as int)) =~= Seq::<u8>::empty());
    assert(out@ + Seq::<u8>::empty() =~= out@);
    out
}

/// The six bits that a character of the base64 alphabet stands for.
fn sextet_of(b: u8) -> (r: Option<u8>)
    ensures
        r == sextet(b),
        r matches Some(v) ==> v < 64,
{
    if 'A' as u8 <= b && b <= 'Z' as u8 {
        Some(b - ('A' as u8))
    } else if 'a' as u8 <= b && b <= 'z' as u8 {
        Some(b - ('a' as u8) + 26)
    } else if '0' as u8 <= b && b <= '9' as u8 {
        Some(b - ('0' as u8) + 52)
    } else if b == '+' as u8 {
        Some(62)
    } else if b == '/' as u8 {
        Some(63)
    } else {
        None
    }
}

/// Adds to `out` the three bytes that four sextets stand for.
fn push_quad(out: &mut Vec<u8>, a: u8, b: u8, c: u8, d: u8)
    requires
        a < 64,
        b < 64,
        c < 64,
        d < 64,
    ensures
        final(out)@ == old(out)@ + quad_bytes(a, b, c, d),
{
    let v: u32 = ((a as u32 * 64 + b as u32) * 64 + c as u32) * 64 + d as u32;
    out.push((v / 65536) as u8);
    out.push(((v / 256) % 256) as u8);
    out.push((v % 256) as u8);
    assert(out@ =~= old(out)@ + quad_bytes(a, b, c, d));
}

/// Adds to `out` the two bytes that three sextets stand for.
fn push_triple(out: &mut Vec<u8>, a: u8, b: u8, c: u8)
    requires
        a < 64,
        b < 64,
        c < 64,
    ensures
        final(out)@ == old(out)@ + triple_bytes(a, b, c),
{
    let v: u32 = (a as u32 * 64 + b as u32) * 64 + c as u32;
    out.push((v / 1024) as u8);
    out.push(((v / 4) % 256) as u8);
    assert(out@ =~= old(out)@ + triple_bytes(a, b, c));
}

/// Adds to `out` the byte that two sextets stand for.
fn push_pair(out: &mut Vec<u8>, a: u8, b: u8)
    requires
        a < 64,
        b < 64,
    ensures
        final(out)@ == old(out)@ + pair_bytes(a, b),
{
    let v: u32 = a as u32 * 64 + b as u32;
    out.push((v / 16) as u8);
    assert(out@ =~= old(out)@ + pair_bytes(a, b));
}

/// The bytes without the spaces.
fn without_spaces(bytes: &Vec<u8>) -> (r: Vec<u8>)
    ensures
        r@ == bytes@.filter(not_space()),
{
    let mut out: Vec<u8> = Vec::new();
    let n: usize = bytes.len();
    let mut i: usize = 0;
    let ghost keep = not_space();
    assert(bytes@.take(0).filter(keep) =~= Seq::<u8>::empty()) by {
        reveal(Seq::filter);
    }
    while i < n
        invariant
            n == bytes@.len(),
            i <= n,
            keep == not_space(),
            out@ == bytes@.take(i as int).filter(keep),
        decreases n - i,
    {
        proof {
            reveal(Seq::filter);
            assert(bytes@.take(i + 1).drop_last() =~= bytes@.take(i as int));
        }
        if bytes[i] != ' ' as u8 {
            out.push(bytes[i]);
        }
        i += 1;
    }
    assert(bytes@.take(n as int) =~= bytes@);
    out
}

/// The values of the first `len` bytes of `bytes`, where each is of the
/// base64 alphabet.
fn sextets(bytes: &Vec<u8>, len: usize) -> (r: Option<Vec<u8>>)
    requires
        len <= bytes@.len(),
    ensures
        r is Some == all_sextets(bytes@.take(len as int)),
        r matches Some(v) ==> v@.len() == len && forall|i: int|
            0 <= i < len ==> sextet(bytes@[i]) == Some(#[trigger] v@[i]) && v@[i] < 64,
{
    let mut out: Vec<u8> = Vec::new();
    let mut i: usize = 0;
    while i < len
        invariant
            len <= bytes@.len(),
            i <= len,
            out@.len() == i,
            forall|j: int| 0 <= j < i ==> sextet(bytes@[j]) == Some(#[trigger] out@[j]) && out@[j] < 64,
        decreases len - i,
    {
        match sextet_of(bytes[i]) {
            Some(v) => out.push(v),
            None => {
                assert(bytes@.take(len as int)[i as int] == bytes@[i as int]);
                return None;
            },
        }
        i += 1;
    }
    assert forall|j: int| 0 <= j < len implies sextet(#[trigger] bytes@.take(len as int)[j]) is Some by {
        assert(sextet(bytes@[j]) == Some(out@[j]));
    }
    Some(out)
}

/// The bytes that a base64 text stands for.
pub fn base64_decode(text: &Vec<u8>) -> (r: Option<Vec<u8>>)
    ensures
        match r {
            Some(v) => base64_decoded(text@) == Some(v@),
            None => base64_decoded(text@) is None,
        },
{
    let bytes = without_spaces(text);
    let n: usize = bytes.len();
    let len: usize = if n >= 2 && bytes[n - 1] == '=' as u8 && bytes[n - 2] == '=' as u8 {
        n - 2
    } else if n >= 1 && bytes[n - 1] == '=' as u8 {
        n - 1
    } else {
        n
    };
    let ghost body = bytes@.take(len as int);
    assert(body =~= unpadded(bytes@));
    let values = match sextets(&bytes, len) {
        Some(v) => v,
        None => {
            return None;
        },
    };
    let mut out: Vec<u8> = Vec::new();
    let mut i: usize = 0;
    assert(body.skip(0) =~= body);
    assert(after(out@, sextets_decoded(body)) == sextets_decoded(body)) by {
        match sextets_decoded(body) {
            Some(t) => {
                assert(out@ + t =~= t);
            },
            None => {},
        }
    }
    while len - i >= 4
        invariant
            i <= len,
            len == values@.len(),
            len == body.len(),
            forall|j: int| 0 <= j < len ==> sextet(body[j]) == Some(#[trigger] values@[j]),
            forall|j: int| 0 <= j < len ==> #[trigger] values@[j] < 64,
            after(out@, sextets_decoded(body.skip(i as int))) == sextets_decoded(body),
        decreases len - i,
    {
        let ghost before = out@;
        proof {
            lemma_sextets_step(body, i as int);
        }
        let a = values[i];
        let b = values[i + 1];
        let c = values[i + 2];
        let d = values[i + 3];
        push_quad(&mut out, a, b, c, d);
        proof {
            match sextets_decoded(body.skip(i + 4)) {
                Some(t) => {
                    assert((before + quad_bytes(a, b, c, d)) + t =~= before + (quad_bytes(
                        a,
                        b,
                        c,
                        d,
                    ) + t));
                },
                None => {},
            }
        }
        i += 4;
    }
    let ghost before = out@;
    proof {
        lemma_sextets_end(body, i as int);
    }
    if len - i == 1 {
        return None;
    } else if len - i == 2 {
        let a = values[i];
        let b = values[i + 1];
        push_pair(&mut out, a, b);
    } else if len - i == 3 {
        let a = values[i];
        let b = values[i + 1];
        let c = values[i + 2];
        push_triple(&mut out, a, b, c);
    } else {
        assert(before + Seq::<u8>::empty() =~= before);
    }
    Some(out)
}

/// What a `data:` URL holds, where it can be read.
pub struct DataContent {
    pub content_type: String,
    pub bytes: Vec<u8>,
}

impl View for DataContent {
    type V = DataView;

    open spec fn view(&self) -> DataView {
        DataView { content_type: self.content_type@, bytes: self.bytes@ }
    }
}

/// The view of optional content.
pub open spec fn content_view(c: Option<DataContent>) -> Option<DataView> {
    match c {
        Some(c) => Some(c@),
        None => None,
    }
}

/// Reads what stands after `data:`: the media type and the content.
pub fn decode_text(text: &str) -> (r: Option<DataContent>)
    ensures
        content_view(r) == data_content(text@),
{
    if !text.is_ascii() {
        return None;
    }
    let chars = chars_of(text);
    let n: usize = chars.len();
    let mut k: usize = 0;
    while k < n && chars[k] != ','
        invariant
            chars@ == text@,
            n == chars@.len(),
            k <= n,
            forall|j: int| 0 <= j < k ==> chars@[j] != ',',
        decreases n - k,
    {
        k += 1;
    }
    proof {
        lemma_first_index(chars@, ',', k as int);
    }
    if k >= n {
        return None;
    }
    let raw = percent_decode(&chars, k + 1);
    let ghost before = text@.take(k as int);
    proof {
        reveal_strlit(";base64");
    }
    let base64 = k >= 7 && chars[k - 7] == ';' && chars[k - 6] == 'b' && chars[k - 5] == 'a'
        && chars[k - 4] == 's' && chars[k - 3] == 'e' && chars[k - 2] == '6' && chars[k - 1]
        == '4';
    proof {
        if k >= 7 {
            let tail = before.skip(before.len() - 7);
            assert(tail.len() == 7);
            assert(tail[0] == chars@[k - 7] && tail[1] == chars@[k - 6] && tail[2] == chars@[k
                - 5] && tail[3] == chars@[k - 4] && tail[4] == chars@[k - 3] && tail[5]
                == chars@[k - 2] && tail[6] == chars@[k - 1]);
            if base64 {
                assert(tail =~= ";base64"@);
            }
        }
        assert(base64 == ends_with(before, ";base64"@));
    }
    let end: usize = if base64 {
        k - 7
    } else {
        k
    };
    let ghost media = text@.take(end as int);
    proof {
        if base64 {
            assert(before.take(before.len() - 7) =~= media);
        } else {
            assert(before =~= media);
        }
        assert(text@.subrange(0, end as int) =~= media);
    }
    let content_type = if end == 0 {
        "text/plain;charset=US-ASCII".to_owned()
    } else if chars[0] == ';' {
        let mut t = "text/plain".to_owned();
        t.append(subtext(text, 0, end).as_str());
        t
    } else {
        subtext(text, 0, end)
    };
    assert(content_type@ == media_type_of(media));
    if base64 {
        match base64_decode(&raw) {
            Some(bytes) => Some(DataContent { content_type, bytes }),
            None => None,
        }
    } else {
        Some(DataContent { content_type, bytes: raw })
    }
}

/// Reads a `data:` URL: the media type and the content that it holds.
pub fn decode(url: &Url) -> (r: Option<DataContent>)
    ensures
        content_view(r) == data_content(data_text(url@)),
{
    match url.query() {
        Some(q) => {
            let mut text = url.path().to_owned();
            text.append("?");
            text.append(q);
            decode_text(text.as_str())
        },
        None => decode_text(url.path()),
    }
}

} // verus!
