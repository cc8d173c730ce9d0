//! Texts as header fields hold them: comparison with and without regard to
//! ASCII case, lists separated by commas, media types, and numbers in decimal.

use vstd::prelude::*;
use vstd::string::*;

verus! {

broadcast use vstd::string::group_string_axioms;

/// The ASCII lower-case form of a character; characters outside `A`..=`Z` are unchanged.
pub open spec fn lower(c: char) -> char {
    if 'A' <= c && c <= 'Z' {
        ((c as u8) + 32) as char
    } else {
        c
    }
}

/// Two texts are equal up to the case of their ASCII letters.
pub open spec fn same_ignoring_case(a: Seq<char>, b: Seq<char>) -> bool {
    &&& a.len() == b.len()
    &&& forall|i: int| 0 <= i < a.len() ==> lower(#[trigger] a[i]) == lower(b[i])
}

/// Equality up to ASCII case is reflexive.
pub proof fn law_same_ignoring_case_reflexive(a: Seq<char>)
    ensures
        same_ignoring_case(a, a),
{
}

/// Equality up to ASCII case is symmetric.
pub proof fn law_same_ignoring_case_symmetric(a: Seq<char>, b: Seq<char>)
    ensures
        same_ignoring_case(a, b) == same_ignoring_case(b, a),
{
    if same_ignoring_case(a, b) {
        assert forall|i: int| 0 <= i < b.len() implies lower(#[trigger] b[i]) == lower(a[i]) by {
            let _ = a[i];
        }
    }
    if same_ignoring_case(b, a) {
        assert forall|i: int| 0 <= i < a.len() implies lower(#[trigger] a[i]) == lower(b[i]) by {
            let _ = b[i];
        }
    }
}

/// Equality up to ASCII case is transitive.
pub proof fn law_same_ignoring_case_transitive(a: Seq<char>, b: Seq<char>, c: Seq<char>)
    requires
        same_ignoring_case(a, b),
        same_ignoring_case(b, c),
    ensures
        same_ignoring_case(a, c),
{
    assert forall|i: int| 0 <= i < a.len() implies lower(#[trigger] a[i]) == lower(c[i]) by {
        let _ = b[i];
    }
}

/// The ASCII lower-case form of a character.
pub fn to_lower(c: char) -> (r: char)
    ensures
        r == lower(c),
{
    if 'A' <= c && c <= 'Z' {
        ((c as u8) + 32u8) as char
    } else {
        c
    }
}

/// The characters of a text, in order.
pub fn chars_of(s: &str) -> (r: Vec<char>)
    ensures
        r@ == s@,
{
    let mut out: Vec<char> = Vec::new();
    if s.is_ascii() {
        let bytes = s.as_bytes();
        let n: usize = bytes.len();
        let mut i: usize = 0;
        while i < n
            invariant
                is_ascii(s),
                bytes@ == s.spec_bytes(),
                n == s@.len(),
                i <= n,
                out@ == s@.subrange(0, i as int),
            decreases n - i,
        {
            let b: u8 = bytes[i];
            out.push(b as char);
            i += 1;
            assert(out@ =~= s@.subrange(0, i as int));
        }
        assert(s@.subrange(0, n as int) =~= s@);
    } else {
        let n: usize = s.unicode_len();
        let mut i: usize = 0;
        while i < n
            invariant
                n == s@.len(),
                i <= n,
                out@ == s@.subrange(0, i as int),
            decreases n - i,
        {
            out.push(s.get_char(i));
            i += 1;
            assert(out@ =~= s@.subrange(0, i as int));
        }
        assert(s@.subrange(0, n as int) =~= s@);
    }
    out
}

/// The part of a text between two character positions, as a text of its own.
pub fn subtext(s: &str, from: usize, to: usize) -> (r: String)
    requires
        from <= to <= s@.len(),
    ensures
        r@ == s@.subrange(from as int, to as int),
{
    if s.is_ascii() {
        s.substring_ascii(from, to).to_owned()
    } else {
        s.substring_char(from, to).to_owned()
    }
}

/// Whether two runs of characters are equal up to the case of their ASCII letters.
pub fn chars_same_ignoring_case(a: &Vec<char>, b: &Vec<char>) -> (r: bool)
    ensures
        r == same_ignoring_case(a@, b@),
{
    if a.len() != b.len() {
        return false;
    }
    let n: usize = a.len();
    let mut i: usize = 0;
    while i < n
        invariant
            n == a@.len(),
            n == b@.len(),
            i <= n,
            forall|j: int| 0 <= j < i ==> lower(#[trigger] a@[j]) == lower(b@[j]),
        decreases n - i,
    {
        if to_lower(a[i]) != to_lower(b[i]) {
            return false;
        }
        i += 1;
    }
    true
}

/// Whether two texts are equal up to the case of their ASCII letters.
pub fn eq_ignoring_case(a: &str, b: &str) -> (r: bool)
    ensures
        r == same_ignoring_case(a@, b@),
{
    let x = chars_of(a);
    let y = chars_of(b);
    chars_same_ignoring_case(&x, &y)
}

/// Whether two texts are the same, character for character.
pub fn text_eq(a: &str, b: &str) -> (r: bool)
    ensures
        r == (a@ == b@),
{
    let x = chars_of(a);
    let y = chars_of(b);
    if x.len() != y.len() {
        return false;
    }
    let n: usize = x.len();
    let mut i: usize = 0;
    while i < n
        invariant
            x@ == a@,
            y@ == b@,
            n == x@.len(),
            n == y@.len(),
            i <= n,
            forall|j: int| 0 <= j < i ==> x@[j] == y@[j],
        decreases n - i,
    {
        if x[i] != y[i] {
            assert(a@[i as int] != b@[i as int]);
            return false;
        }
        i += 1;
    }
    assert(x@ =~= y@);
    true
}

/// The views of a run of texts.
pub open spec fn texts(v: Seq<String>) -> Seq<Seq<char>> {
    v.map_values(|t: String| t@)
}

/// Optional whitespace inside a header value: a space or a tab.
pub open spec fn is_blank(c: char) -> bool {
    c == ' ' || c == '\t'
}

/// `s` without the blanks at its start.
pub open spec fn trim_start(s: Seq<char>) -> Seq<char>
    decreases s.len(),
{
    if s.len() > 0 && is_blank(s[0]) {
        trim_start(s.drop_first())
    } else {
        s
    }
}

/// `s` without the blanks at its end.
pub open spec fn trim_end(s: Seq<char>) -> Seq<char>
    decreases s.len(),
{
    if s.len() > 0 && is_blank(s.last()) {
        trim_end(s.drop_last())
    } else {
        s
    }
}

/// `s` without the blanks at its start and at its end.
pub open spec fn trim(s: Seq<char>) -> Seq<char> {
    trim_end(trim_start(s))
}

/// The position of the first `c` in `s`, or the length of `s` where it has none.
pub open spec fn first_index(s: Seq<char>, c: char) -> nat
    decreases s.len(),
{
    if s.len() == 0 || s[0] == c {
        0
    } else {
        1 + first_index(s.drop_first(), c)
    }
}

/// One piece of a comma-separated list: trimmed, and dropped where nothing is left.
pub open spec fn list_piece(s: Seq<char>) -> Seq<Seq<char>> {
    let t = trim(s);
    if t.len() == 0 {
        Seq::empty()
    } else {
        seq![t]
    }
}

/// The items of a comma-separated list: the pieces between the commas, each
/// trimmed of blanks, without the empty ones, in order.
pub open spec fn list_items(s: Seq<char>) -> Seq<Seq<char>>
    decreases s.len(),
{
    let k = first_index(s, ',');
    if k >= s.len() {
        list_piece(s)
    } else {
        list_piece(s.take(k as int)) + list_items(s.skip(k as int + 1))
    }
}

/// Where the first `c` of `s` is, given a position before which there is none.
pub proof fn lemma_first_index(s: Seq<char>, c: char, k: int)
    requires
        0 <= k <= s.len(),
        forall|j: int| 0 <= j < k ==> s[j] != c,
        k == s.len() || s[k] == c,
    ensures
        first_index(s, c) == k,
    decreases k,
{
    if k > 0 {
        let t = s.drop_first();
        assert forall|j: int| 0 <= j < k - 1 implies t[j] != c by {
            assert(t[j] == s[j + 1]);
        }
        lemma_first_index(t, c, k - 1);
    }
}

/// The bounds of the part of `chars` between `from` and `to` that is left
/// when the blanks at both ends are taken away.
pub fn trimmed_bounds(chars: &Vec<char>, from: usize, to: usize) -> (r: (usize, usize))
    requires
        from <= to <= chars@.len(),
    ensures
        from <= r.0 <= r.1 <= to,
        chars@.subrange(r.0 as int, r.1 as int) == trim(chars@.subrange(from as int, to as int)),
{
    let mut a: usize = from;
    while a < to && (chars[a] == ' ' || chars[a] == '\t')
        invariant
            from <= a <= to <= chars@.len(),
            trim_start(chars@.subrange(from as int, to as int)) == trim_start(
                chars@.subrange(a as int, to as int),
            ),
        decreases to - a,
    {
        assert(chars@.subrange(a as int, to as int).drop_first() =~= chars@.subrange(
            a + 1,
            to as int,
        ));
        a += 1;
    }
    let mut b: usize = to;
    while b > a && (chars[b - 1] == ' ' || chars[b - 1] == '\t')
        invariant
            a <= b <= to <= chars@.len(),
            trim_end(chars@.subrange(a as int, to as int)) == trim_end(
                chars@.subrange(a as int, b as int),
            ),
        decreases b - a,
    {
        assert(chars@.subrange(a as int, b as int).drop_last() =~= chars@.subrange(
            a as int,
            b - 1,
        ));
        b -= 1;
    }
    (a, b)
}

/// The items of a comma-separated header value: the pieces between the
/// commas, each trimmed of blanks, without the empty ones, in order.
pub fn split_list(value: &str) -> (r: Vec<String>)
    ensures
        texts(r@) == list_items(value@),
{
    let chars = chars_of(value);
    let n: usize = chars.len();
    let mut out: Vec<String> = Vec::new();
    let mut start: usize = 0;
    let mut i: usize = 0;
    assert(chars@.skip(0) =~= chars@);
    assert(texts(out@) =~= Seq::<Seq<char>>::empty());
    while i < n
        invariant
            chars@ == value@,
            n == chars@.len(),
            start <= i <= n,
            forall|j: int| start <= j < i ==> chars@[j] != ',',
            texts(out@) + list_items(chars@.skip(start as int)) == list_items(chars@),
        decreases n - i,
    {
        if chars[i] == ',' {
            let ghost rest = chars@.skip(start as int);
            let ghost before = texts(out@);
            proof {
                lemma_first_index(rest, ',', i - start);
                assert(rest.take(i - start) =~= chars@.subrange(start as int, i as int));
                assert(rest.skip(i - start + 1) =~= chars@.skip(i + 1));
            }
            let (a, b) = trimmed_bounds(&chars, start, i);
            if a < b {
                out.push(subtext(value, a, b));
                assert(texts(out@) =~= before + list_piece(
                    chars@.subrange(start as int, i as int),
                ));
            }
            start = i + 1;
        }
        i += 1;
    }
    let ghost rest = chars@.skip(start as int);
    let ghost before = texts(out@);
    proof {
        lemma_first_index(rest, ',', n - start);
        assert(rest =~= chars@.subrange(start as int, n as int));
    }
    let (a, b) = trimmed_bounds(&chars, start, n);
    if a < b {
        out.push(subtext(value, a, b));
        assert(texts(out@) =~= before + list_piece(chars@.subrange(start as int, n as int)));
    }
    out
}

/// The character of a decimal digit.
pub open spec fn digit_char(d: nat) -> char
    recommends
        d < 10,
{
    (('0' as u8) + d) as char
}

/// A number written in decimal, without leading zeros.
pub open spec fn decimal(n: nat) -> Seq<char>
    decreases n,
{
    if n < 10 {
        seq![digit_char(n)]
    } else {
        decimal(n / 10).push(digit_char(n % 10))
    }
}

/// The text of one decimal digit.
fn digit_text(d: u64) -> (r: &'static str)
    requires
        d < 10,
    ensures
        r@ == seq![digit_char(d as nat)],
{
    proof {
        reveal_strlit("0");
        reveal_strlit("1");
        reveal_strlit("2");
        reveal_strlit("3");
        reveal_strlit("4");
        reveal_strlit("5");
        reveal_strlit("6");
        reveal_strlit("7");
        reveal_strlit("8");
        reveal_strlit("9");
    }
    let r = if d == 0 {
        "0"
    } else if d == 1 {
        "1"
    } else if d == 2 {
        "2"
    } else if d == 3 {
        "3"
    } else if d == 4 {
        "4"
    } else if d == 5 {
        "5"
    } else if d == 6 {
        "6"
    } else if d == 7 {
        "7"
    } else if d == 8 {
        "8"
    } else {
        "9"
    };
    assert(r@ =~= seq![digit_char(d as nat)]);
    r
}

/// Writes `n` in decimal at the end of `out`.
pub fn push_decimal(out: &mut String, n: u64)
    ensures
        final(out)@ == old(out)@ + decimal(n as nat),
    decreases n,
{
    if n >= 10 {
        push_decimal(out, n / 10);
    }
    let ghost before = out@;
    out.append(digit_text(n % 10));
    assert(out@ =~= old(out)@ + decimal(n as nat));
}

/// Whether a character is a decimal digit.
pub open spec fn is_digit(c: char) -> bool {
    '0' <= c && c <= '9'
}

/// The number that a run of decimal digits writes.
pub open spec fn digits_value(s: Seq<char>) -> nat
    decreases s.len(),
{
    if s.len() == 0 {
        0
    } else {
        digits_value(s.drop_last()) * 10 + ((s.last() as u8) - ('0' as u8)) as nat
    }
}

/// The number that a text writes in decimal, where it is made of digits
/// alone, has one at least, and the number fits in 32 bits.
pub open spec fn decimal_value(s: Seq<char>) -> Option<u32> {
    if s.len() > 0 && (forall|i: int| 0 <= i < s.len() ==> is_digit(#[trigger] s[i]))
        && digits_value(s) <= u32::MAX {
        Some(digits_value(s) as u32)
    } else {
        None
    }
}

/// A longer run of digits writes no smaller a number than its start does.
proof fn lemma_digits_grow(s: Seq<char>, i: int)
    requires
        0 <= i <= s.len(),
        forall|j: int| 0 <= j < s.len() ==> is_digit(#[trigger] s[j]),
    ensures
        digits_value(s.take(i)) <= digits_value(s),
    decreases s.len() - i,
{
    if i < s.len() {
        lemma_digits_grow(s, i + 1);
        assert(s.take(i + 1).drop_last() =~= s.take(i));
    } else {
        assert(s.take(i) =~= s);
    }
}

/// Reads a number written in decimal: `None` where the text is empty, holds
/// anything but digits, or writes a number that does not fit in 32 bits.
pub fn parse_decimal(text: &str) -> (r: Option<u32>)
    ensures
        r == decimal_value(text@),
{
    let chars = chars_of(text);
    let n: usize = chars.len();
    if n == 0 {
        return None;
    }
    let mut acc: u64 = 0;
    let mut i: usize = 0;
    while i < n
        invariant
            chars@ == text@,
            n == chars@.len(),
            i <= n,
            forall|j: int| 0 <= j < i ==> is_digit(#[trigger] chars@[j]),
            acc == digits_value(chars@.take(i as int)),
            acc <= u32::MAX,
        decreases n - i,
    {
        let c = chars[i];
        if !('0' <= c && c <= '9') {
            return None;
        }
        let d: u64 = ((c as u8) - ('0' as u8)) as u64;
        assert(chars@.take(i + 1).drop_last() =~= chars@.take(i as int));
        let next: u64 = acc * 10 + d;
        if next > 0xffff_ffff {
            proof {
                if forall|j: int| 0 <= j < chars@.len() ==> is_digit(#[trigger] chars@[j]) {
                    lemma_digits_grow(chars@, i + 1);
                }
            }
            return None;
        }
        acc = next;
        i += 1;
    }
    assert(chars@.take(n as int) =~= chars@);
    Some(acc as u32)
}

/// The media type that a `Content-Type` value names: what stands before the
/// first semicolon, trimmed of blanks.
pub open spec fn media_essence(value: Seq<char>) -> Seq<char> {
    trim(value.take(first_index(value, ';') as int))
}

/// The media type that a `Content-Type` value names, without its parameters.
pub fn media_type_essence(value: &str) -> (r: String)
    ensures
        r@ == media_essence(value@),
{
    let chars = chars_of(value);
    let n: usize = chars.len();
    let mut i: usize = 0;
    while i < n && chars[i] != ';'
        invariant
            chars@ == value@,
            n == chars@.len(),
            i <= n,
            forall|j: int| 0 <= j < i ==> chars@[j] != ';',
        decreases n - i,
    {
        i += 1;
    }
    proof {
        lemma_first_index(chars@, ';', i as int);
        assert(chars@.take(i as int) =~= chars@.subrange(0, i as int));
    }
    let (a, b) = trimmed_bounds(&chars, 0, i);
    subtext(value, a, b)
}

/// The texts of `names`, one after the other, with a comma between each two.
pub open spec fn comma_joined(names: Seq<Seq<char>>) -> Seq<char>
    decreases names.len(),
{
    if names.len() == 0 {
        Seq::empty()
    } else if names.len() == 1 {
        names[0]
    } else {
        comma_joined(names.drop_last()) + ","@ + names.last()
    }
}

/// The texts of `names`, one after the other, with a comma between each two.
pub fn join_with_commas(names: &Vec<String>) -> (r: String)
    ensures
        r@ == comma_joined(texts(names@)),
{
    let mut out = String::new();
    let n: usize = names.len();
    let mut i: usize = 0;
    assert(texts(names@).take(0) =~= Seq::<Seq<char>>::empty());
    while i < n
        invariant
            n == names@.len(),
            i <= n,
            out@ == comma_joined(texts(names@).take(i as int)),
        decreases n - i,
    {
        let ghost before = out@;
        if i > 0 {
            out.append(",");
        }
        out.append(names[i].as_str());
        proof {
            let t = texts(names@).take(i + 1);
            assert(t.drop_last() =~= texts(names@).take(i as int));
            assert(t.last() == names@[i as int]@);
            if i == 0 {
                assert(out@ =~= t[0]);
            }
        }
        i += 1;
    }
    assert(texts(names@).take(n as int) =~= texts(names@));
    out
}

} // verus!
