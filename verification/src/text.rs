//! Byte-level text model shared by the rest of the crate.
//!
//! Every piece of text the library inspects is ASCII-framed, so contracts speak of the UTF-8
//! bytes of a string (`s.spec_bytes()` for a `str`, `text_bytes(s@)` for a `String`).

use vstd::prelude::*;
use vstd::string::StringSliceAdditionalSpecFns;
use vstd::utf8::*;

verus! {

broadcast use {vstd::seq_lib::group_seq_properties, vstd::utf8::group_utf8_lib};

/// The UTF-8 bytes of a character sequence.
pub open spec fn text_bytes(chars: Seq<char>) -> Seq<u8> {
    encode_utf8(chars)
}

pub open spec fn is_digit(b: u8) -> bool {
    48 <= b <= 57
}

pub open spec fn all_digits(s: Seq<u8>) -> bool {
    forall|i: int| 0 <= i < s.len() ==> is_digit(#[trigger] s[i])
}

/// `is_ascii_graphic`: the visible ASCII characters `!` through `~`.
pub open spec fn is_graphic(b: u8) -> bool {
    33 <= b <= 126
}

pub open spec fn all_graphic(s: Seq<u8>) -> bool {
    forall|i: int| 0 <= i < s.len() ==> is_graphic(#[trigger] s[i])
}

pub open spec fn all_ascii(s: Seq<u8>) -> bool {
    forall|i: int| 0 <= i < s.len() ==> #[trigger] s[i] < 128
}

/// The value of a run of decimal digits, most significant first.
pub open spec fn digits_value(s: Seq<u8>) -> nat
    decreases s.len(),
{
    if s.len() == 0 {
        0
    } else {
        digits_value(s.drop_last()) * 10 + (s.last() - 48) as nat
    }
}

pub open spec fn pow10(n: nat) -> nat
    decreases n,
{
    if n == 0 {
        1
    } else {
        10 * pow10((n - 1) as nat)
    }
}

/// The shortest decimal rendering of a natural number (`n.to_string()`).
pub open spec fn nat_digits(n: nat) -> Seq<u8>
    decreases n,
{
    if n < 10 {
        seq![(48 + n) as u8]
    } else {
        nat_digits(n / 10) + seq![(48 + n % 10) as u8]
    }
}

/// The rendering of `n % 10^width` zero-padded to exactly `width` digits.
pub open spec fn fixed_digits(n: nat, width: nat) -> Seq<u8>
    decreases width,
{
    if width == 0 {
        seq![]
    } else {
        fixed_digits(n / 10, (width - 1) as nat) + seq![(48 + n % 10) as u8]
    }
}

pub proof fn lemma_pow10_positive(n: nat)
    ensures
        pow10(n) >= 1,
    decreases n,
{
    if n > 0 {
        lemma_pow10_positive((n - 1) as nat);
    }
}

pub proof fn lemma_digits_value_push(s: Seq<u8>, d: u8)
    ensures
        digits_value(s.push(d)) == digits_value(s) * 10 + (d - 48) as nat,
{
    assert(s.push(d).drop_last() =~= s);
}

pub proof fn lemma_digits_value_bound(s: Seq<u8>)
    requires
        all_digits(s),
    ensures
        digits_value(s) < pow10(s.len()),
    decreases s.len(),
{
    if s.len() > 0 {
        lemma_digits_value_bound(s.drop_last());
        let v = digits_value(s.drop_last());
        let p = pow10((s.len() - 1) as nat);
        assert(v * 10 + 9 < p * 10) by (nonlinear_arith)
            requires
                v < p,
        ;
    }
}

pub proof fn lemma_nat_digits_shape(n: nat)
    ensures
        all_digits(nat_digits(n)),
        nat_digits(n).len() >= 1,
        digits_value(nat_digits(n)) == n,
        n > 0 ==> nat_digits(n)[0] != 48,
    decreases n,
{
    if n >= 10 {
        lemma_nat_digits_shape(n / 10);
        let d = (48 + n % 10) as u8;
        lemma_digits_value_push(nat_digits(n / 10), d);
        assert(nat_digits(n / 10) + seq![d] =~= nat_digits(n / 10).push(d));
        assert((n / 10) * 10 + n % 10 == n) by (nonlinear_arith);
    } else {
        let s = seq![(48 + n) as u8];
        assert(s.drop_last() =~= Seq::<u8>::empty());
        assert(digits_value(s) == digits_value(s.drop_last()) * 10 + (s.last() - 48) as nat);
    }
}

pub proof fn lemma_fixed_digits_shape(n: nat, width: nat)
    ensures
        all_digits(fixed_digits(n, width)),
        fixed_digits(n, width).len() == width,
        digits_value(fixed_digits(n, width)) == n % pow10(width),
    decreases width,
{
    if width > 0 {
        let w1 = (width - 1) as nat;
        lemma_fixed_digits_shape(n / 10, w1);
        let d = (48 + n % 10) as u8;
        lemma_digits_value_push(fixed_digits(n / 10, w1), d);
        assert(fixed_digits(n / 10, w1) + seq![d] =~= fixed_digits(n / 10, w1).push(d));
        lemma_pow10_positive(w1);
        let p = pow10(w1);
        vstd::arithmetic::div_mod::lemma_mod_breakdown(n as int, 10, p as int);
        assert(((n / 10) % p) * 10 + n % 10 == n % (10 * p));
    }
}

/// Appends the decimal rendering of `n` to `out`.
pub fn push_decimal(out: &mut Vec<u8>, n: u64)
    ensures
        final(out)@ == old(out)@ + nat_digits(n as nat),
    decreases n,
{
    if n >= 10 {
        push_decimal(out, n / 10);
        out.push((48 + n % 10) as u8);
        assert(final(out)@ =~= old(out)@ + nat_digits(n as nat));
    } else {
        out.push((48 + n) as u8);
        assert(final(out)@ =~= old(out)@ + nat_digits(n as nat));
    }
}

/// Appends all of `src` to `out`.
pub fn push_all(out: &mut Vec<u8>, src: &[u8])
    ensures
        final(out)@ == old(out)@ + src@,
{
    let ghost start = out@;
    let mut i: usize = 0;
    while i < src.len()
        invariant
            i <= src.len(),
            out@ == start + src@.subrange(0, i as int),
        decreases src.len() - i,
    {
        out.push(src[i]);
        i = i + 1;
        assert(out@ =~= start + src@.subrange(0, i as int));
    }
    assert(src@.subrange(0, src.len() as int) =~= src@);
}

/// Builds a `String` from bytes that are valid UTF-8.
///
/// Trusted: calls `String::from_utf8`, which std documents to succeed on valid UTF-8 and to
/// keep the bytes unchanged; the `unwrap` cannot fail under the `requires`.
#[verifier::external_body]
pub(crate) fn string_from_utf8(bytes: Vec<u8>) -> (res: String)
    requires
        valid_utf8(bytes@),
    ensures
        res@ == decode_utf8(bytes@),
{
    String::from_utf8(bytes).unwrap()
}

/// Views bytes that are valid UTF-8 as a `str`.
///
/// Trusted: calls `std::str::from_utf8`, which std documents to succeed on valid UTF-8 and to
/// borrow the same bytes; the `unwrap` cannot fail under the `requires`.
#[verifier::external_body]
pub(crate) fn str_from_utf8(bytes: &[u8]) -> (res: &str)
    requires
        valid_utf8(bytes@),
    ensures
        res@ == decode_utf8(bytes@),
{
    std::str::from_utf8(bytes).unwrap()
}

pub proof fn lemma_ascii_valid_utf8(s: Seq<u8>)
    requires
        all_ascii(s),
    ensures
        valid_utf8(s),
{
    assert(s.subrange(0, 0) =~= Seq::<u8>::empty());
    assert(valid_utf8(Seq::<u8>::empty()));
    assert forall|i: int| 0 <= 0 <= i < s.len() <= s.len() implies #[trigger] is_leading_byte_width_1(
        s[i],
    ) by {
        assert(s[i] < 128);
    }
    partial_valid_utf8_extend_ascii_block(s, 0, s.len() as int);
    assert(s.subrange(0, s.len() as int) =~= s);
}

/// Unicode `White_Space` (what `char::is_whitespace` and `str::trim` use).
pub open spec fn is_unicode_whitespace(c: char) -> bool {
    let u = c as u32;
    ||| 9 <= u <= 13
    ||| u == 32
    ||| u == 0x85
    ||| u == 0xA0
    ||| u == 0x1680
    ||| 0x2000 <= u <= 0x200A
    ||| u == 0x2028
    ||| u == 0x2029
    ||| u == 0x202F
    ||| u == 0x205F
    ||| u == 0x3000
}

/// Text that is empty once trimmed: every character is whitespace.
pub open spec fn is_blank_text(s: Seq<char>) -> bool {
    forall|i: int| 0 <= i < s.len() ==> is_unicode_whitespace(#[trigger] s[i])
}

fn char_is_whitespace(c: char) -> (res: bool)
    ensures
        res == is_unicode_whitespace(c),
{
    let u = c as u32;
    (9 <= u && u <= 13) || u == 32 || u == 0x85 || u == 0xA0 || u == 0x1680 || (0x2000 <= u && u
        <= 0x200A) || u == 0x2028 || u == 0x2029 || u == 0x202F || u == 0x205F || u == 0x3000
}

/// Whether `s.trim().is_empty()`.
pub fn is_blank(s: &str) -> (res: bool)
    ensures
        res == is_blank_text(s@),
{
    broadcast use vstd::string::axiom_spec_iter;

    let mut blank = true;
    for c in iter: s.chars()
        invariant
            iter.seq() == s@,
            blank == (forall|j: int| 0 <= j < iter.index() ==> is_unicode_whitespace(s@[j])),
    {
        if !char_is_whitespace(c) {
            blank = false;
        }
    }
    blank
}


/// Appends the UTF-8 bytes of `s`, keeping `out` valid UTF-8.
pub fn push_str(out: &mut Vec<u8>, s: &str)
    ensures
        final(out)@ == old(out)@ + s.spec_bytes(),
        valid_utf8(old(out)@) ==> valid_utf8(final(out)@),
{
    push_all(out, s.as_bytes());
    proof {
        encode_utf8_valid_utf8(s@);
        if valid_utf8(old(out)@) {
            valid_utf8_concat(old(out)@, s.spec_bytes());
        }
    }
}

/// Appends the decimal rendering of `n`, keeping `out` valid UTF-8.
pub fn push_number(out: &mut Vec<u8>, n: u64)
    ensures
        final(out)@ == old(out)@ + nat_digits(n as nat),
        valid_utf8(old(out)@) ==> valid_utf8(final(out)@),
{
    push_decimal(out, n);
    proof {
        lemma_nat_digits_ascii(n as nat);
        lemma_ascii_valid_utf8(nat_digits(n as nat));
        if valid_utf8(old(out)@) {
            valid_utf8_concat(old(out)@, nat_digits(n as nat));
        }
    }
}

pub proof fn lemma_nat_digits_ascii(n: nat)
    ensures
        all_ascii(nat_digits(n)),
{
    lemma_nat_digits_shape(n);
    assert forall|i: int| 0 <= i < nat_digits(n).len() implies #[trigger] nat_digits(n)[i] < 128 by {
        assert(is_digit(nat_digits(n)[i]));
    }
}

/// Builds a `String` from valid UTF-8 bytes.
pub fn utf8_string(bytes: Vec<u8>) -> (res: String)
    requires
        valid_utf8(bytes@),
    ensures
        text_bytes(res@) == bytes@,
{
    string_from_utf8(bytes)
}


/// Byte-wise equality of two slices.
pub fn bytes_eq(a: &[u8], b: &[u8]) -> (res: bool)
    ensures
        res == (a@ == b@),
{
    if a.len() != b.len() {
        return false;
    }
    let mut i: usize = 0;
    while i < a.len()
        invariant
            i <= a.len() == b.len(),
            forall|j: int| 0 <= j < i ==> a@[j] == b@[j],
        decreases a.len() - i,
    {
        if a[i] != b[i] {
            return false;
        }
        i = i + 1;
    }
    assert(a@ =~= b@);
    true
}

/// Equality of two strings.
pub fn str_eq(a: &str, b: &str) -> (res: bool)
    ensures
        res == (a@ == b@),
{
    let r = bytes_eq(a.as_bytes(), b.as_bytes());
    proof {
        decode_utf8_encode_utf8(a.spec_bytes());
        encode_utf8_decode_utf8(a@);
        encode_utf8_decode_utf8(b@);
    }
    r
}


/// Appends the UTF-8 encoding of one character.
pub fn push_char(out: &mut Vec<u8>, c: char)
    ensures
        final(out)@ == old(out)@ + encode_scalar(c as u32),
{
    let v = c as u32;
    proof {
        char_is_scalar(c);
    }
    if v <= 0x7F {
        out.push((v & 0x7F) as u8);
    } else if v <= 0x7FF {
        out.push(0xC0 | ((v >> 6) & 0x1F) as u8);
        out.push(0x80 | (v & 0x3F) as u8);
    } else if v <= 0xFFFF {
        out.push(0xE0 | ((v >> 12) & 0x0F) as u8);
        out.push(0x80 | ((v >> 6) & 0x3F) as u8);
        out.push(0x80 | (v & 0x3F) as u8);
    } else {
        out.push(0xF0 | ((v >> 18) & 0x7) as u8);
        out.push(0x80 | ((v >> 12) & 0x3F) as u8);
        out.push(0x80 | ((v >> 6) & 0x3F) as u8);
        out.push(0x80 | (v & 0x3F) as u8);
    }
    assert(final(out)@ =~= old(out)@ + encode_scalar(c as u32));
}

/// Encoding a sequence with one more character appends that character's encoding.
pub proof fn lemma_encode_utf8_push(s: Seq<char>, c: char)
    ensures
        encode_utf8(s.push(c)) == encode_utf8(s) + encode_scalar(c as u32),
    decreases s.len(),
{
    if s.len() == 0 {
        assert(s.push(c).drop_first() =~= Seq::<char>::empty());
        assert(encode_utf8(Seq::<char>::empty()) =~= Seq::<u8>::empty());
        assert(encode_utf8(s) =~= Seq::<u8>::empty());
        assert(encode_scalar(c as u32) + Seq::<u8>::empty() =~= encode_scalar(c as u32));
    } else {
        lemma_encode_utf8_push(s.drop_first(), c);
        assert(s.push(c).drop_first() =~= s.drop_first().push(c));
        assert(s.push(c)[0] == s[0]);
    }
}

/// Unicode general category `Cc` (what `char::is_control` tests).
pub open spec fn is_control_char(c: char) -> bool {
    let u = c as u32;
    u <= 0x1F || (0x7F <= u <= 0x9F)
}


// ---------------------------------------------------------------------------------------------
// Text order
// ---------------------------------------------------------------------------------------------

/// Lexicographic order of byte strings, a proper prefix first: the order of Rust's `str` and
/// `String`.
pub open spec fn bytes_lt(a: Seq<u8>, b: Seq<u8>) -> bool
    decreases a.len(),
{
    if a.len() == 0 {
        b.len() > 0
    } else if b.len() == 0 {
        false
    } else if a[0] != b[0] {
        a[0] < b[0]
    } else {
        bytes_lt(a.drop_first(), b.drop_first())
    }
}

/// The order of strings: that of their UTF-8 bytes.
pub open spec fn text_lt(a: Seq<char>, b: Seq<char>) -> bool {
    bytes_lt(text_bytes(a), text_bytes(b))
}

pub proof fn lemma_bytes_lt_irreflexive(a: Seq<u8>)
    ensures
        !bytes_lt(a, a),
    decreases a.len(),
{
    if a.len() > 0 {
        lemma_bytes_lt_irreflexive(a.drop_first());
    }
}

pub proof fn lemma_bytes_lt_transitive(a: Seq<u8>, b: Seq<u8>, c: Seq<u8>)
    requires
        bytes_lt(a, b),
        bytes_lt(b, c),
    ensures
        bytes_lt(a, c),
    decreases a.len(),
{
    if a.len() > 0 && b.len() > 0 && c.len() > 0 && a[0] == b[0] && b[0] == c[0] {
        lemma_bytes_lt_transitive(a.drop_first(), b.drop_first(), c.drop_first());
    }
}

pub proof fn lemma_bytes_lt_total(a: Seq<u8>, b: Seq<u8>)
    ensures
        a == b || bytes_lt(a, b) || bytes_lt(b, a),
        !(bytes_lt(a, b) && bytes_lt(b, a)),
    decreases a.len(),
{
    if a.len() > 0 && b.len() > 0 && a[0] == b[0] {
        lemma_bytes_lt_total(a.drop_first(), b.drop_first());
        if a.drop_first() == b.drop_first() {
            assert(a =~= seq![a[0]] + a.drop_first());
            assert(b =~= seq![b[0]] + b.drop_first());
        }
    } else if a.len() == 0 && b.len() == 0 {
        assert(a =~= b);
    }
}

/// Two different texts are ordered one way or the other.
pub proof fn lemma_text_lt_total(a: Seq<char>, b: Seq<char>)
    ensures
        a == b || text_lt(a, b) || text_lt(b, a),
        !(text_lt(a, b) && text_lt(b, a)),
        !text_lt(a, a),
{
    lemma_bytes_lt_total(text_bytes(a), text_bytes(b));
    lemma_bytes_lt_irreflexive(text_bytes(a));
    if text_bytes(a) == text_bytes(b) {
        encode_utf8_decode_utf8(a);
        encode_utf8_decode_utf8(b);
    }
}

pub proof fn lemma_text_lt_transitive(a: Seq<char>, b: Seq<char>, c: Seq<char>)
    requires
        text_lt(a, b),
        text_lt(b, c),
    ensures
        text_lt(a, c),
{
    lemma_bytes_lt_transitive(text_bytes(a), text_bytes(b), text_bytes(c));
}

proof fn lemma_bytes_lt_skip(a: Seq<u8>, b: Seq<u8>, i: int)
    requires
        0 <= i <= a.len(),
        i <= b.len(),
        a.subrange(0, i) == b.subrange(0, i),
    ensures
        bytes_lt(a, b) == bytes_lt(a.subrange(i, a.len() as int), b.subrange(i, b.len() as int)),
    decreases i,
{
    if i > 0 {
        assert(a[0] == a.subrange(0, i)[0]);
        assert(b[0] == b.subrange(0, i)[0]);
        assert(a.drop_first().subrange(0, i - 1) =~= b.drop_first().subrange(0, i - 1)) by {
            assert forall|j: int| 0 <= j < i - 1 implies a.drop_first()[j] == b.drop_first()[j] by {
                assert(a.subrange(0, i)[j + 1] == b.subrange(0, i)[j + 1]);
                assert(a.subrange(0, i)[j + 1] == a[j + 1]);
                assert(b.subrange(0, i)[j + 1] == b[j + 1]);
            }
        }
        lemma_bytes_lt_skip(a.drop_first(), b.drop_first(), i - 1);
        assert(a.drop_first().subrange(i - 1, a.len() - 1) =~= a.subrange(i, a.len() as int));
        assert(b.drop_first().subrange(i - 1, b.len() - 1) =~= b.subrange(i, b.len() as int));
    } else {
        assert(a.subrange(0, a.len() as int) =~= a);
        assert(b.subrange(0, b.len() as int) =~= b);
    }
}

/// Lexicographic comparison of byte strings.
pub fn bytes_less(a: &[u8], b: &[u8]) -> (res: bool)
    ensures
        res == bytes_lt(a@, b@),
{
    let mut i: usize = 0;
    while i < a.len() && i < b.len() && a[i] == b[i]
        invariant
            i <= a.len(),
            i <= b.len(),
            a@.subrange(0, i as int) == b@.subrange(0, i as int),
        decreases a.len() - i,
    {
        assert(a@.subrange(0, i + 1) =~= a@.subrange(0, i as int).push(a@[i as int]));
        assert(b@.subrange(0, i + 1) =~= b@.subrange(0, i as int).push(b@[i as int]));
        i = i + 1;
    }
    proof {
        lemma_bytes_lt_skip(a@, b@, i as int);
    }
    if i < a.len() && i < b.len() {
        assert(a@.subrange(i as int, a@.len() as int)[0] == a@[i as int]);
        assert(b@.subrange(i as int, b@.len() as int)[0] == b@[i as int]);
        a[i] < b[i]
    } else {
        i == a.len() && i < b.len()
    }
}

/// Comparison of two strings in text order.
pub fn str_less(a: &str, b: &str) -> (res: bool)
    ensures
        res == text_lt(a@, b@),
{
    bytes_less(a.as_bytes(), b.as_bytes())
}


// ---------------------------------------------------------------------------------------------
// Debug escaping
// ---------------------------------------------------------------------------------------------

pub open spec fn hex_lower(n: u8) -> u8 {
    if n < 10 {
        (48 + n) as u8
    } else {
        (87 + n) as u8
    }
}

/// How Rust's `Debug` for a string writes one ASCII byte: `\0`, `\t`, `\r`, `\n`, `\\` and
/// `\"` by their escapes, the other control bytes as `\u{..}` with the fewest lower-case hex
/// digits, every other byte as it is. Bytes of non-ASCII characters are kept as they are.
pub open spec fn debug_escape_byte(b: u8) -> Seq<u8> {
    if b == 0 {
        seq![92u8, 48u8]
    } else if b == 9 {
        seq![92u8, 116u8]
    } else if b == 13 {
        seq![92u8, 114u8]
    } else if b == 10 {
        seq![92u8, 110u8]
    } else if b == 92 {
        seq![92u8, 92u8]
    } else if b == 34 {
        seq![92u8, 34u8]
    } else if b < 32 || b == 127 {
        seq![92u8, 117u8, 123u8] + (if b < 16 {
            seq![hex_lower(b)]
        } else {
            seq![hex_lower(b / 16), hex_lower(b % 16)]
        }) + seq![125u8]
    } else {
        seq![b]
    }
}

/// The escaped bytes of a string, byte by byte.
pub open spec fn debug_escaped(bytes: Seq<u8>) -> Seq<u8>
    decreases bytes.len(),
{
    if bytes.len() == 0 {
        Seq::empty()
    } else {
        debug_escape_byte(bytes[0]) + debug_escaped(bytes.drop_first())
    }
}

proof fn lemma_debug_escaped_concat(a: Seq<u8>, b: Seq<u8>)
    ensures
        debug_escaped(a + b) == debug_escaped(a) + debug_escaped(b),
    decreases a.len(),
{
    if a.len() == 0 {
        assert(a + b =~= b);
    } else {
        lemma_debug_escaped_concat(a.drop_first(), b);
        assert((a + b).drop_first() =~= a.drop_first() + b);
        assert((a + b)[0] == a[0]);
    }
}

proof fn lemma_debug_escaped_high(a: Seq<u8>)
    requires
        forall|i: int| 0 <= i < a.len() ==> #[trigger] a[i] >= 128,
    ensures
        debug_escaped(a) == a,
    decreases a.len(),
{
    if a.len() > 0 {
        lemma_debug_escaped_high(a.drop_first());
        assert(a =~= seq![a[0]] + a.drop_first());
    }
}

proof fn lemma_debug_escape_byte_ascii(b: u8)
    requires
        b < 128,
    ensures
        all_ascii(debug_escape_byte(b)),
{
    let e = debug_escape_byte(b);
    assert forall|i: int| 0 <= i < e.len() implies #[trigger] e[i] < 128 by {
        if b < 32 || b == 127 {
            assert(b / 16 < 16 && b % 16 < 16);
        }
    }
}

/// Escaping keeps UTF-8 text valid: ASCII characters become ASCII escapes, and the bytes of the
/// other characters are kept.
proof fn lemma_debug_escaped_valid(bytes: Seq<u8>)
    requires
        valid_utf8(bytes),
    ensures
        valid_utf8(debug_escaped(bytes)),
    decreases bytes.len(),
{
    if bytes.len() > 0 {
        let l = length_of_first_scalar(bytes);
        let head = bytes.subrange(0, l);
        let rest = pop_first_scalar(bytes);
        assert(bytes =~= head + rest);
        assert(rest.len() < bytes.len());
        lemma_debug_escaped_valid(rest);
        lemma_debug_escaped_concat(head, rest);
        if l == 1 {
            assert(head =~= seq![bytes[0]]);
            lemma_debug_escaped_single(bytes[0]);
            lemma_debug_escape_byte_ascii(bytes[0]);
            lemma_ascii_valid_utf8(debug_escaped(head));
        } else {
            assert forall|i: int| 0 <= i < head.len() implies #[trigger] head[i] >= 128 by {
                assert(head[i] == bytes[i]);
            }
            lemma_debug_escaped_high(head);
            assert(valid_first_scalar(head)) by {
                assert(head[0] == bytes[0]);
                if l >= 2 {
                    assert(head[1] == bytes[1]);
                }
                if l >= 3 {
                    assert(head[2] == bytes[2]);
                }
                if l >= 4 {
                    assert(head[3] == bytes[3]);
                }
            }
            assert(length_of_first_scalar(head) == l);
            assert(pop_first_scalar(head) =~= Seq::<u8>::empty());
            assert(valid_utf8(Seq::<u8>::empty()));
            assert(valid_utf8(head));
        }
        valid_utf8_concat(debug_escaped(head), debug_escaped(rest));
    }
}

proof fn lemma_debug_escaped_single(x: u8)
    ensures
        debug_escaped(seq![x]) == debug_escape_byte(x),
{
    assert(seq![x].drop_first() =~= Seq::<u8>::empty());
    assert(seq![x][0] == x);
    assert(debug_escaped(Seq::<u8>::empty()) == Seq::<u8>::empty());
    assert(debug_escape_byte(x) + Seq::<u8>::empty() =~= debug_escape_byte(x));
}

fn hex_lower_digit(n: u8) -> (res: u8)
    requires
        n < 16,
    ensures
        res == hex_lower(n),
{
    if n < 10 {
        48 + n
    } else {
        87 + n
    }
}

/// The escape of one byte.
fn debug_escape_piece(c: u8) -> (res: Vec<u8>)
    ensures
        res@ == debug_escape_byte(c),
{
    let mut out: Vec<u8> = Vec::new();
    if c == 0 {
        out.push(92);
        out.push(48);
    } else if c == 9 {
        out.push(92);
        out.push(116);
    } else if c == 13 {
        out.push(92);
        out.push(114);
    } else if c == 10 {
        out.push(92);
        out.push(110);
    } else if c == 92 {
        out.push(92);
        out.push(92);
    } else if c == 34 {
        out.push(92);
        out.push(34);
    } else if c < 32 || c == 127 {
        out.push(92);
        out.push(117);
        out.push(123);
        if c < 16 {
            out.push(hex_lower_digit(c));
        } else {
            out.push(hex_lower_digit(c / 16));
            out.push(hex_lower_digit(c % 16));
        }
        out.push(125);
    } else {
        out.push(c);
    }
    assert(out@ =~= debug_escape_byte(c));
    out
}

/// Appends a string escaped as Rust's `Debug` escapes its ASCII characters.
pub fn push_debug_escaped(out: &mut Vec<u8>, s: &str)
    ensures
        final(out)@ == old(out)@ + debug_escaped(s.spec_bytes()),
        valid_utf8(old(out)@) ==> valid_utf8(final(out)@),
{
    let b = s.as_bytes();
    let ghost start = out@;
    let mut i: usize = 0;
    while i < b.len()
        invariant
            i <= b.len(),
            b@ == s.spec_bytes(),
            out@ == start + debug_escaped(b@.subrange(0, i as int)),
        decreases b.len() - i,
    {
        let c = b[i];
        proof {
            lemma_debug_escaped_concat(b@.subrange(0, i as int), seq![c]);
            assert(b@.subrange(0, i + 1) =~= b@.subrange(0, i as int) + seq![c]);
            lemma_debug_escaped_single(c);
        }
        let ghost before = out@;
        let piece = debug_escape_piece(c);
        push_all(out, piece.as_slice());
        assert(out@ =~= before + debug_escape_byte(c));
        i = i + 1;
    }
    assert(b@.subrange(0, b.len() as int) =~= b@);
    proof {
        if valid_utf8(start) {
            encode_utf8_valid_utf8(s@);
            lemma_debug_escaped_valid(s.spec_bytes());
            valid_utf8_concat(start, debug_escaped(s.spec_bytes()));
        }
    }
}

// ---------------------------------------------------------------------------------------------
// Ordered sets of names
// ---------------------------------------------------------------------------------------------

/// Names in strictly increasing text order, so none occurs twice.
pub open spec fn names_sorted(ns: Seq<Seq<char>>) -> bool {
    forall|i: int, j: int| 0 <= i < j < ns.len() ==> text_lt(#[trigger] ns[i], #[trigger] ns[j])
}

/// The distinct names of `names`, in text order: what a sorted set of them lists.
pub open spec fn sorted_name_set(names: Seq<Seq<char>>) -> Seq<Seq<char>> {
    choose|ns: Seq<Seq<char>>|
        names_sorted(ns) && forall|n: Seq<char>| #[trigger] ns.contains(n) <==> names.contains(n)
}

/// Two sorted name lists with the same names are the same list.
pub proof fn lemma_sorted_names_unique(a: Seq<Seq<char>>, b: Seq<Seq<char>>)
    requires
        names_sorted(a),
        names_sorted(b),
        forall|n: Seq<char>| #[trigger] a.contains(n) <==> b.contains(n),
    ensures
        a == b,
    decreases a.len() + b.len(),
{
    if a.len() == 0 || b.len() == 0 {
        if a.len() > 0 {
            assert(a.contains(a[0]));
            assert(b.contains(a[0]));
        }
        if b.len() > 0 {
            assert(b.contains(b[0]));
            assert(a.contains(b[0]));
        }
        assert(a =~= b);
    } else {
        assert(a.contains(a[0]));
        assert(b.contains(b[0]));
        assert(b.contains(a[0]));
        assert(a.contains(b[0]));
        let i = choose|i: int| 0 <= i < a.len() && a[i] == b[0];
        let j = choose|j: int| 0 <= j < b.len() && b[j] == a[0];
        if a[0] != b[0] {
            assert(i > 0 && j > 0);
            assert(text_lt(a[0], a[i]));
            assert(text_lt(b[0], b[j]));
            lemma_text_lt_total(a[0], b[0]);
        }
        assert(a[0] == b[0]);
        let ta = a.drop_first();
        let tb = b.drop_first();
        assert forall|x: int, y: int| 0 <= x < y < ta.len() implies text_lt(#[trigger] ta[x], #[trigger] ta[y]) by {
            assert(ta[x] == a[x + 1] && ta[y] == a[y + 1]);
        }
        assert forall|x: int, y: int| 0 <= x < y < tb.len() implies text_lt(#[trigger] tb[x], #[trigger] tb[y]) by {
            assert(tb[x] == b[x + 1] && tb[y] == b[y + 1]);
        }
        assert forall|n: Seq<char>| #[trigger] ta.contains(n) <==> tb.contains(n) by {
            if ta.contains(n) {
                let k = choose|k: int| 0 <= k < ta.len() && ta[k] == n;
                assert(a[k + 1] == n);
                assert(text_lt(a[0], a[k + 1]));
                lemma_text_lt_total(n, n);
                assert(a.contains(n));
                let m = choose|m: int| 0 <= m < b.len() && b[m] == n;
                assert(m != 0);
                assert(tb[m - 1] == n);
            }
            if tb.contains(n) {
                let k = choose|k: int| 0 <= k < tb.len() && tb[k] == n;
                assert(b[k + 1] == n);
                assert(text_lt(b[0], b[k + 1]));
                lemma_text_lt_total(n, n);
                assert(n != a[0]);
                assert(b.contains(n));
                assert(a.contains(n) <==> b.contains(n));
                let m = choose|m: int| 0 <= m < a.len() && a[m] == n;
                assert(m != 0);
                assert(ta[m - 1] == n);
            }
        }
        lemma_sorted_names_unique(ta, tb);
        assert(a =~= seq![a[0]] + ta);
        assert(b =~= seq![b[0]] + tb);
    }
}

/// The texts of a list of strings.
pub open spec fn texts(ns: Seq<String>) -> Seq<Seq<char>> {
    ns.map_values(|s: String| s@)
}

/// Adds a name to a sorted list of names, unless it is already there.
pub fn insert_name(ns: &mut Vec<String>, name: &str)
    requires
        names_sorted(texts(old(ns)@)),
    ensures
        names_sorted(texts(final(ns)@)),
        forall|n: Seq<char>| #[trigger] texts(final(ns)@).contains(n) <==> (texts(old(ns)@).contains(n)
            || n == name@),
{
    let ghost before = texts(ns@);
    let mut p: usize = 0;
    while p < ns.len() && str_less(ns[p].as_str(), name)
        invariant
            p <= ns.len(),
            texts(ns@) == before,
            forall|j: int| 0 <= j < p ==> text_lt(#[trigger] before[j], name@),
        decreases ns.len() - p,
    {
        p = p + 1;
    }
    if p < ns.len() && str_eq(ns[p].as_str(), name) {
        proof {
            assert(before[p as int] == name@);
            assert forall|n: Seq<char>| #[trigger] before.contains(n) <==> (before.contains(n)
                || n == name@) by {
                if n == name@ {
                    assert(before[p as int] == n);
                }
            }
        }
        return;
    }
    ns.insert(p, name.to_owned());
    proof {
        let after = texts(ns@);
        let pp = p as int;
        assert(after =~= before.insert(pp, name@));
        if pp < before.len() {
            assert(!text_lt(before[pp], name@));
            assert(before[pp] != name@);
            lemma_text_lt_total(before[pp], name@);
        }
        assert forall|a: int, b: int| 0 <= a < b < after.len() implies text_lt(
            #[trigger] after[a],
            #[trigger] after[b],
        ) by {
            if b < pp {
                assert(after[a] == before[a] && after[b] == before[b]);
            } else if a > pp {
                assert(after[a] == before[a - 1] && after[b] == before[b - 1]);
            } else if a == pp {
                assert(after[b] == before[b - 1]);
                if b - 1 > pp {
                    assert(text_lt(before[pp], before[b - 1]));
                    lemma_text_lt_transitive(name@, before[pp], before[b - 1]);
                }
            } else if b == pp {
                assert(after[a] == before[a]);
            } else {
                assert(after[a] == before[a] && after[b] == before[b - 1]);
            }
        }
        assert forall|n: Seq<char>| #[trigger] after.contains(n) <==> (before.contains(n) || n
            == name@) by {
            if after.contains(n) {
                let k = choose|k: int| 0 <= k < after.len() && after[k] == n;
                if k < pp {
                    assert(before[k] == n);
                } else if k > pp {
                    assert(before[k - 1] == n);
                }
            }
            if before.contains(n) {
                let k = choose|k: int| 0 <= k < before.len() && before[k] == n;
                if k < pp {
                    assert(after[k] == n);
                } else {
                    assert(after[k + 1] == n);
                }
            }
            if n == name@ {
                assert(after[pp] == n);
            }
        }
    }
}

} // verus!
