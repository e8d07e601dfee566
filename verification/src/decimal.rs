//! Exact base-10 decimals: canonical text, signed text, and fixed-point micros.

use vstd::prelude::*;
use vstd::string::StringSliceAdditionalSpecFns;
use crate::execution::BrokerError;
use vstd::utf8::{decode_utf8, encode_utf8};
use crate::text::{
    all_ascii, all_digits, digits_value, fixed_digits, is_digit, lemma_ascii_valid_utf8,
    lemma_pow10_positive,
    lemma_digits_value_bound, lemma_digits_value_push, lemma_fixed_digits_shape,
    lemma_nat_digits_shape, nat_digits, pow10, push_decimal, str_from_utf8, string_from_utf8,
    text_bytes,
};

verus! {

broadcast use {vstd::seq_lib::group_seq_properties, vstd::utf8::group_utf8_lib};

// ---------------------------------------------------------------------------------------------
// Syntax and canonical form
// ---------------------------------------------------------------------------------------------

/// Index of the first `.` byte, or the length when there is none.
pub open spec fn first_dot(s: Seq<u8>) -> int
    decreases s.len(),
{
    if s.len() == 0 {
        0
    } else if s[0] == 46 {
        0
    } else {
        1 + first_dot(s.drop_first())
    }
}

/// The digits before the first `.`.
pub open spec fn whole_part(s: Seq<u8>) -> Seq<u8> {
    s.subrange(0, first_dot(s))
}

/// Everything after the first `.` (empty when there is no `.`).
pub open spec fn fraction_part(s: Seq<u8>) -> Seq<u8> {
    if first_dot(s) < s.len() {
        s.subrange(first_dot(s) + 1, s.len() as int)
    } else {
        Seq::empty()
    }
}

/// An unsigned base-10 decimal: one or more digits, optionally followed by `.` and digits.
pub open spec fn decimal_syntax(s: Seq<u8>) -> bool {
    &&& whole_part(s).len() > 0
    &&& all_digits(whole_part(s))
    &&& all_digits(fraction_part(s))
}

pub open spec fn trim_leading_zeros(s: Seq<u8>) -> Seq<u8>
    decreases s.len(),
{
    if s.len() > 0 && s[0] == 48 {
        trim_leading_zeros(s.drop_first())
    } else {
        s
    }
}

pub open spec fn trim_trailing_zeros(s: Seq<u8>) -> Seq<u8>
    decreases s.len(),
{
    if s.len() > 0 && s.last() == 48 {
        trim_trailing_zeros(s.drop_last())
    } else {
        s
    }
}

/// The canonical text of a decimal: no leading zeros in the whole part (but at least `0`),
/// no trailing zeros in the fraction, and no `.` when the fraction is empty.
pub open spec fn canonical_decimal(s: Seq<u8>) -> Seq<u8> {
    let w = trim_leading_zeros(whole_part(s));
    let whole = if w.len() == 0 {
        seq![48u8]
    } else {
        w
    };
    let f = trim_trailing_zeros(fraction_part(s));
    if f.len() == 0 {
        whole
    } else {
        whole + seq![46u8] + f
    }
}

/// A decimal already in canonical form.
pub open spec fn is_canonical_decimal(s: Seq<u8>) -> bool {
    decimal_syntax(s) && canonical_decimal(s) == s
}

pub proof fn lemma_first_dot(s: Seq<u8>, i: int)
    requires
        0 <= i <= s.len(),
        forall|j: int| 0 <= j < i ==> s[j] != 46,
        i == s.len() || s[i] == 46,
    ensures
        first_dot(s) == i,
    decreases i,
{
    if i > 0 {
        lemma_first_dot(s.drop_first(), i - 1);
    }
}

pub proof fn lemma_first_dot_bounds(s: Seq<u8>)
    ensures
        0 <= first_dot(s) <= s.len(),
        forall|j: int| 0 <= j < first_dot(s) ==> s[j] != 46,
        first_dot(s) < s.len() ==> s[first_dot(s)] == 46,
    decreases s.len(),
{
    if s.len() > 0 && s[0] != 46 {
        lemma_first_dot_bounds(s.drop_first());
        assert forall|j: int| 0 <= j < first_dot(s) implies s[j] != 46 by {
            if j > 0 {
                assert(s[j] == s.drop_first()[j - 1]);
            }
        }
    }
}

pub proof fn lemma_trim_leading(s: Seq<u8>, k: int)
    requires
        0 <= k <= s.len(),
        forall|j: int| 0 <= j < k ==> s[j] == 48,
        k == s.len() || s[k] != 48,
    ensures
        trim_leading_zeros(s) == s.subrange(k, s.len() as int),
    decreases k,
{
    if k == 0 {
        assert(s.subrange(0, s.len() as int) =~= s);
    } else {
        lemma_trim_leading(s.drop_first(), k - 1);
        assert(s.drop_first().subrange(k - 1, s.len() - 1) =~= s.subrange(k, s.len() as int));
    }
}

pub proof fn lemma_trim_trailing(s: Seq<u8>, k: int)
    requires
        0 <= k <= s.len(),
        forall|j: int| k <= j < s.len() ==> s[j] == 48,
        k == 0 || s[k - 1] != 48,
    ensures
        trim_trailing_zeros(s) == s.subrange(0, k),
    decreases s.len() - k,
{
    if k == s.len() {
        assert(s.subrange(0, k) =~= s);
    } else {
        lemma_trim_trailing(s.drop_last(), k);
        assert(s.drop_last().subrange(0, k) =~= s.subrange(0, k));
    }
}

/// Shape of the canonical text: what every canonical decimal looks like.
pub open spec fn canonical_shape(s: Seq<u8>) -> bool {
    let w = whole_part(s);
    let f = fraction_part(s);
    &&& decimal_syntax(s)
    &&& (w.len() > 1 ==> w[0] != 48)
    &&& (first_dot(s) < s.len() ==> f.len() > 0 && f.last() != 48)
}

proof fn lemma_whole_dot_fraction(w: Seq<u8>, f: Seq<u8>)
    requires
        all_digits(w),
    ensures
        first_dot(w + seq![46u8] + f) == w.len(),
        whole_part(w + seq![46u8] + f) == w,
        fraction_part(w + seq![46u8] + f) == f,
        first_dot(w) == w.len(),
        whole_part(w) == w,
        fraction_part(w) == Seq::<u8>::empty(),
{
    let s = w + seq![46u8] + f;
    assert forall|j: int| 0 <= j < w.len() implies s[j] != 46 by {
        assert(s[j] == w[j]);
        assert(is_digit(w[j]));
    }
    lemma_first_dot(s, w.len() as int);
    assert(s.subrange(0, w.len() as int) =~= w);
    assert(s.subrange(w.len() as int + 1, s.len() as int) =~= f);
    assert forall|j: int| 0 <= j < w.len() implies w[j] != 46 by {
        assert(is_digit(w[j]));
    }
    lemma_first_dot(w, w.len() as int);
    assert(w.subrange(0, w.len() as int) =~= w);
}

proof fn lemma_trim_leading_props(s: Seq<u8>)
    ensures
        trim_leading_zeros(s).len() <= s.len(),
        trim_leading_zeros(s).len() > 0 ==> trim_leading_zeros(s)[0] != 48,
        exists|k: int|
            0 <= k <= s.len() && trim_leading_zeros(s) == s.subrange(k, s.len() as int) && (
            forall|j: int| 0 <= j < k ==> s[j] == 48),
    decreases s.len(),
{
    if s.len() > 0 && s[0] == 48 {
        lemma_trim_leading_props(s.drop_first());
        let k = choose|k: int|
            0 <= k <= s.drop_first().len() && trim_leading_zeros(s.drop_first())
                == s.drop_first().subrange(k, s.drop_first().len() as int) && (forall|j: int|
                0 <= j < k ==> s.drop_first()[j] == 48);
        assert(s.drop_first().subrange(k, s.len() - 1) =~= s.subrange(k + 1, s.len() as int));
        assert forall|j: int| 0 <= j < k + 1 implies s[j] == 48 by {
            if j > 0 {
                assert(s[j] == s.drop_first()[j - 1]);
            }
        }
    } else {
        assert(s.subrange(0, s.len() as int) =~= s);
    }
}

proof fn lemma_trim_trailing_props(s: Seq<u8>)
    ensures
        trim_trailing_zeros(s).len() <= s.len(),
        trim_trailing_zeros(s).len() > 0 ==> trim_trailing_zeros(s).last() != 48,
        exists|k: int|
            0 <= k <= s.len() && trim_trailing_zeros(s) == s.subrange(0, k) && (forall|j: int|
                k <= j < s.len() ==> s[j] == 48),
    decreases s.len(),
{
    if s.len() > 0 && s.last() == 48 {
        lemma_trim_trailing_props(s.drop_last());
        let k = choose|k: int|
            0 <= k <= s.drop_last().len() && trim_trailing_zeros(s.drop_last())
                == s.drop_last().subrange(0, k) && (forall|j: int|
                k <= j < s.drop_last().len() ==> s.drop_last()[j] == 48);
        assert(s.drop_last().subrange(0, k) =~= s.subrange(0, k));
        assert forall|j: int| k <= j < s.len() implies s[j] == 48 by {
            if j < s.len() - 1 {
                assert(s[j] == s.drop_last()[j]);
            }
        }
        assert(0 <= k <= s.len() && trim_trailing_zeros(s) == s.subrange(0, k));
    } else {
        assert(s.subrange(0, s.len() as int) =~= s);
    }
}

proof fn lemma_subrange_all_digits(s: Seq<u8>, a: int, b: int)
    requires
        all_digits(s),
        0 <= a <= b <= s.len(),
    ensures
        all_digits(s.subrange(a, b)),
{
    assert forall|i: int| 0 <= i < b - a implies is_digit(#[trigger] s.subrange(a, b)[i]) by {
        assert(s.subrange(a, b)[i] == s[a + i]);
    }
}

/// The canonical text of a decimal has the canonical shape.
pub proof fn lemma_canonical_shape(s: Seq<u8>)
    requires
        decimal_syntax(s),
    ensures
        canonical_shape(canonical_decimal(s)),
        all_digits(whole_part(canonical_decimal(s))),
{
    let w = trim_leading_zeros(whole_part(s));
    let whole = if w.len() == 0 {
        seq![48u8]
    } else {
        w
    };
    let f = trim_trailing_zeros(fraction_part(s));
    lemma_trim_leading_props(whole_part(s));
    lemma_trim_trailing_props(fraction_part(s));
    let kw = choose|k: int|
        0 <= k <= whole_part(s).len() && trim_leading_zeros(whole_part(s)) == whole_part(
            s,
        ).subrange(k, whole_part(s).len() as int) && (forall|j: int|
            0 <= j < k ==> whole_part(s)[j] == 48);
    lemma_subrange_all_digits(whole_part(s), kw, whole_part(s).len() as int);
    let kf = choose|k: int|
        0 <= k <= fraction_part(s).len() && trim_trailing_zeros(fraction_part(s))
            == fraction_part(s).subrange(0, k) && (forall|j: int|
            k <= j < fraction_part(s).len() ==> fraction_part(s)[j] == 48);
    lemma_subrange_all_digits(fraction_part(s), 0, kf);
    assert(all_digits(whole));
    lemma_whole_dot_fraction(whole, f);
}

/// Canonical-shaped text is its own canonical form.
pub proof fn lemma_canonical_shape_fixed(s: Seq<u8>)
    requires
        canonical_shape(s),
    ensures
        canonical_decimal(s) == s,
{
    let w = whole_part(s);
    let f = fraction_part(s);
    lemma_first_dot_bounds(s);
    if w.len() > 1 || w[0] != 48 {
        lemma_trim_leading(w, 0);
        assert(w.subrange(0, w.len() as int) =~= w);
    } else {
        lemma_trim_leading(w, 1);
        assert(w =~= seq![48u8]);
    }
    if f.len() > 0 {
        lemma_trim_trailing(f, f.len() as int);
        assert(f.subrange(0, f.len() as int) =~= f);
        assert(s =~= w + seq![46u8] + f);
    } else {
        lemma_trim_trailing(f, 0);
        assert(first_dot(s) == s.len());
        assert(s =~= w);
    }
}

/// Canonicalization is idempotent: canonical text is canonical.
pub proof fn law_canonicalization_is_idempotent(s: Seq<u8>)
    requires
        decimal_syntax(s),
    ensures
        is_canonical_decimal(canonical_decimal(s)),
{
    lemma_canonical_shape(s);
    lemma_canonical_shape_fixed(canonical_decimal(s));
}

pub proof fn lemma_canonical_ascii(s: Seq<u8>)
    requires
        canonical_shape(s),
    ensures
        all_ascii(s),
{
    lemma_first_dot_bounds(s);
    assert forall|i: int| 0 <= i < s.len() implies #[trigger] s[i] < 128 by {
        let d = first_dot(s);
        if i < d {
            assert(s[i] == whole_part(s)[i]);
        } else if i > d {
            assert(s[i] == fraction_part(s)[i - d - 1]);
        }
    }
}

/// Appends `src[from..to]` to `out`.
fn push_range(out: &mut Vec<u8>, src: &[u8], from: usize, to: usize)
    requires
        from <= to <= src.len(),
    ensures
        final(out)@ == old(out)@ + src@.subrange(from as int, to as int),
{
    let ghost start = out@;
    let mut i = from;
    while i < to
        invariant
            from <= i <= to <= src.len(),
            out@ == start + src@.subrange(from as int, i as int),
        decreases to - i,
    {
        out.push(src[i]);
        i = i + 1;
        assert(out@ =~= start + src@.subrange(from as int, i as int));
    }
}

/// Index of the first `.` byte, or the length.
fn find_dot(s: &[u8]) -> (res: usize)
    ensures
        res as int == first_dot(s@),
{
    let mut i: usize = 0;
    while i < s.len() && s[i] != 46
        invariant
            i <= s.len(),
            forall|j: int| 0 <= j < i ==> s@[j] != 46,
        decreases s.len() - i,
    {
        i = i + 1;
    }
    proof {
        lemma_first_dot(s@, i as int);
    }
    i
}

/// Whether `s[from..to]` holds only digits.
pub fn range_all_digits(s: &[u8], from: usize, to: usize) -> (res: bool)
    requires
        from <= to <= s.len(),
    ensures
        res == all_digits(s@.subrange(from as int, to as int)),
{
    let mut i = from;
    while i < to
        invariant
            from <= i <= to <= s.len(),
            forall|j: int| from <= j < i ==> is_digit(s@[j]),
        decreases to - i,
    {
        if s[i] < 48 || s[i] > 57 {
            assert(s@.subrange(from as int, to as int)[i - from] == s@[i as int]);
            return false;
        }
        i = i + 1;
    }
    assert forall|j: int| 0 <= j < to - from implies is_digit(
        #[trigger] s@.subrange(from as int, to as int)[j],
    ) by {
        assert(s@.subrange(from as int, to as int)[j] == s@[from + j]);
    }
    true
}

/// Canonicalizes unsigned decimal text, or `None` when it is not an unsigned decimal.
pub fn canonicalize_decimal(s: &[u8]) -> (res: Option<Vec<u8>>)
    ensures
        res is Some <==> decimal_syntax(s@),
        res matches Some(v) ==> v@ == canonical_decimal(s@),
{
    let dot = find_dot(s);
    proof {
        lemma_first_dot_bounds(s@);
    }
    if dot == 0 {
        return None;
    }
    if !range_all_digits(s, 0, dot) {
        return None;
    }
    let frac_start = if dot < s.len() {
        dot + 1
    } else {
        dot
    };
    assert(fraction_part(s@) =~= s@.subrange(frac_start as int, s.len() as int));
    if !range_all_digits(s, frac_start, s.len()) {
        return None;
    }
    let ghost w = whole_part(s@);
    let ghost f = fraction_part(s@);
    // First significant digit of the whole part.
    let mut a: usize = 0;
    while a < dot && s[a] == 48
        invariant
            a <= dot <= s.len(),
            dot == first_dot(s@),
            forall|j: int| 0 <= j < a ==> s@[j] == 48,
        decreases dot - a,
    {
        a = a + 1;
    }
    proof {
        assert forall|j: int| 0 <= j < a implies w[j] == 48 by {
            assert(w[j] == s@[j]);
        }
        if a < dot {
            assert(w[a as int] == s@[a as int]);
        }
        lemma_trim_leading(w, a as int);
        assert(w.subrange(a as int, w.len() as int) =~= s@.subrange(a as int, dot as int));
    }
    // End of the significant fraction digits.
    let mut e: usize = s.len();
    while e > frac_start && s[e - 1] == 48
        invariant
            frac_start <= e <= s.len(),
            forall|j: int| e <= j < s.len() ==> s@[j] == 48,
        decreases e - frac_start,
    {
        e = e - 1;
    }
    proof {
        let k = e - frac_start;
        assert forall|j: int| k <= j < f.len() implies f[j] == 48 by {
            assert(f[j] == s@[frac_start + j]);
        }
        if k > 0 {
            assert(f[k - 1] == s@[e - 1]);
        }
        lemma_trim_trailing(f, k);
        assert(f.subrange(0, k) =~= s@.subrange(frac_start as int, e as int));
    }
    let mut out: Vec<u8> = Vec::new();
    if a == dot {
        out.push(48);
    } else {
        push_range(&mut out, s, a, dot);
    }
    if e > frac_start {
        out.push(46);
        push_range(&mut out, s, frac_start, e);
    }
    assert(out@ =~= canonical_decimal(s@));
    Some(out)
}


// ---------------------------------------------------------------------------------------------
// Decimal value types
// ---------------------------------------------------------------------------------------------

/// Text that is not a (signed) base-10 decimal.
#[derive(Debug, Clone, Copy, PartialEq, Eq)]
pub struct DecimalError;

impl DecimalError {
    /// The error's message, as the error is displayed.
    pub fn message(&self) -> (res: String)
        ensures
            res@ == "invalid signed base-10 decimal"@,
    {
        "invalid signed base-10 decimal".to_owned()
    }
}

/// An exact unsigned base-10 decimal held in canonical text form.
#[derive(Debug, PartialEq, Eq, PartialOrd, Ord, Hash)]
pub struct BrokerDecimal {
    text: Vec<u8>,
}

impl View for BrokerDecimal {
    type V = Seq<u8>;

    closed spec fn view(&self) -> Seq<u8> {
        self.text@
    }
}

/// Views canonical decimal bytes as a `str`.
fn canonical_as_str(text: &Vec<u8>) -> (res: &str)
    requires
        all_ascii(text@),
    ensures
        res.spec_bytes() == text@,
{
    proof {
        lemma_ascii_valid_utf8(text@);
    }
    str_from_utf8(text.as_slice())
}

/// Builds a `String` from ASCII bytes.
pub fn ascii_string(bytes: Vec<u8>) -> (res: String)
    requires
        all_ascii(bytes@),
    ensures
        text_bytes(res@) == bytes@,
{
    proof {
        lemma_ascii_valid_utf8(bytes@);
    }
    string_from_utf8(bytes)
}

impl Clone for BrokerDecimal {
    fn clone(&self) -> (res: Self)
        ensures
            res@ == self@,
    {
        proof {
            use_type_invariant(self);
        }
        BrokerDecimal { text: self.text.clone() }
    }
}

impl BrokerDecimal {
    #[verifier::type_invariant]
    spec fn inv(self) -> bool {
        canonical_shape(self.text@)
    }

    /// Parses and canonicalizes unsigned decimal text.
    pub fn try_new(value: &str) -> (res: Result<Self, DecimalError>)
        ensures
            res is Ok <==> decimal_syntax(value.spec_bytes()),
            res matches Ok(d) ==> d@ == canonical_decimal(value.spec_bytes()),
    {
        let bytes = value.as_bytes();
        match canonicalize_decimal(bytes) {
            Some(text) => {
                proof {
                    lemma_canonical_shape(bytes@);
                }
                Ok(BrokerDecimal { text })
            },
            None => Err(DecimalError),
        }
    }

    /// The canonical text.
    pub fn as_str(&self) -> (res: &str)
        ensures
            res.spec_bytes() == self@,
            is_canonical_decimal(self@),
            canonical_shape(self@),
    {
        proof {
            use_type_invariant(self);
            lemma_canonical_ascii(self.text@);
            lemma_canonical_shape_fixed(self.text@);
        }
        canonical_as_str(&self.text)
    }

    /// Whether the decimal is zero.
    pub fn is_zero(&self) -> (res: bool)
        ensures
            res == (self@ == seq![48u8]),
    {
        proof {
            if self.text@.len() == 1 && self.text@[0] == 48 {
                assert(self.text@ =~= seq![48u8]);
            }
        }
        self.text.len() == 1 && self.text[0] == 48
    }
}

/// The canonical signed text of `s`: an optional `-` (never on zero) before a canonical
/// unsigned decimal; `None` when `s` is not a signed decimal.
pub open spec fn signed_canonical(s: Seq<u8>) -> Option<Seq<u8>> {
    let negative = s.len() > 0 && s[0] == 45;
    let magnitude = if negative {
        s.drop_first()
    } else {
        s
    };
    if !decimal_syntax(magnitude) {
        None
    } else {
        let c = canonical_decimal(magnitude);
        if negative && c != seq![48u8] {
            Some(seq![45u8] + c)
        } else {
            Some(c)
        }
    }
}

pub open spec fn signed_shape(s: Seq<u8>) -> bool {
    ||| canonical_shape(s)
    ||| (s.len() > 0 && s[0] == 45 && canonical_shape(s.drop_first()) && s.drop_first() != seq![
        48u8,
    ])
}

/// An exact signed base-10 decimal held in canonical text form.
#[derive(Debug, PartialEq, Eq, PartialOrd, Ord, Hash)]
pub struct SignedDecimal {
    text: Vec<u8>,
}

impl View for SignedDecimal {
    type V = Seq<u8>;

    closed spec fn view(&self) -> Seq<u8> {
        self.text@
    }
}

impl Clone for SignedDecimal {
    fn clone(&self) -> (res: Self)
        ensures
            res@ == self@,
    {
        proof {
            use_type_invariant(self);
        }
        SignedDecimal { text: self.text.clone() }
    }
}

impl SignedDecimal {
    #[verifier::type_invariant]
    spec fn inv(self) -> bool {
        signed_shape(self.text@)
    }

    /// Parses and canonicalizes signed decimal text.
    pub fn try_new(value: &str) -> (res: Result<Self, DecimalError>)
        ensures
            res is Ok <==> signed_canonical(value.spec_bytes()) is Some,
            res matches Ok(d) ==> d@ == signed_canonical(value.spec_bytes())->0,
    {
        let bytes = value.as_bytes();
        let negative = bytes.len() > 0 && bytes[0] == 45;
        let mut magnitude: Vec<u8> = Vec::new();
        if negative {
            push_range(&mut magnitude, bytes, 1, bytes.len());
            assert(magnitude@ =~= bytes@.drop_first());
        } else {
            push_range(&mut magnitude, bytes, 0, bytes.len());
            assert(magnitude@ =~= bytes@);
        }
        match canonicalize_decimal(magnitude.as_slice()) {
            Some(canonical) => {
                proof {
                    lemma_canonical_shape(magnitude@);
                }
                let zero = canonical.len() == 1 && canonical[0] == 48;
                proof {
                    if canonical@.len() == 1 && canonical@[0] == 48 {
                        assert(canonical@ =~= seq![48u8]);
                    }
                }
                if negative && !zero {
                    let mut text: Vec<u8> = Vec::new();
                    text.push(45);
                    push_range(&mut text, canonical.as_slice(), 0, canonical.len());
                    assert(text@ =~= seq![45u8] + canonical@);
                    assert(text@.drop_first() =~= canonical@);
                    Ok(SignedDecimal { text })
                } else {
                    Ok(SignedDecimal { text: canonical })
                }
            },
            None => Err(DecimalError),
        }
    }

    /// The canonical text.
    pub fn as_str(&self) -> (res: &str)
        ensures
            res.spec_bytes() == self@,
            signed_shape(self@),
    {
        proof {
            use_type_invariant(self);
            if canonical_shape(self.text@) {
                lemma_canonical_ascii(self.text@);
            } else {
                lemma_canonical_ascii(self.text@.drop_first());
                assert forall|i: int| 0 <= i < self.text@.len() implies #[trigger] self.text@[i]
                    < 128 by {
                    if i > 0 {
                        assert(self.text@[i] == self.text@.drop_first()[i - 1]);
                    }
                }
            }
        }
        canonical_as_str(&self.text)
    }
}

// ---------------------------------------------------------------------------------------------
// Fixed-point micros
// ---------------------------------------------------------------------------------------------

/// Why a decimal cannot be held as fixed-point micros.
#[derive(Debug, Clone, Copy, PartialEq, Eq)]
pub enum MicrosConversionError {
    /// More than six non-zero fractional digits.
    PrecisionLoss,
    /// Does not fit the fixed-point range.
    Overflow,
    /// Not a decimal.
    Invalid,
}

impl MicrosConversionError {
    /// The error's message, as the error is displayed.
    pub fn message(&self) -> (res: String)
        ensures
            *self is PrecisionLoss ==> res@ == "decimal has more than six non-zero fractional digits"@,
            *self is Overflow ==> res@ == "decimal does not fit the Helios fixed-point range"@,
            *self is Invalid ==> res@ == "decimal is invalid"@,
    {
        match self {
            MicrosConversionError::PrecisionLoss => "decimal has more than six non-zero fractional digits".to_owned(),
            MicrosConversionError::Overflow => "decimal does not fit the Helios fixed-point range".to_owned(),
            MicrosConversionError::Invalid => "decimal is invalid".to_owned(),
        }
    }
}

pub open spec fn min_nat(a: nat, b: nat) -> nat {
    if a < b {
        a
    } else {
        b
    }
}

/// The first six fractional digits scaled to micros.
pub open spec fn fraction_micros(f: Seq<u8>) -> nat {
    let kept = f.subrange(0, min_nat(6, f.len()) as int);
    digits_value(kept) * pow10((6 - kept.len()) as nat)
}

pub open spec fn fraction_exceeds_micros(f: Seq<u8>) -> bool {
    exists|i: int| 6 <= i < f.len() && f[i] != 48
}

/// The exact micros value of unsigned decimal text, or why there is none.
pub open spec fn micros_of_text(s: Seq<u8>) -> Result<u64, MicrosConversionError> {
    let w = whole_part(s);
    let f = fraction_part(s);
    if !decimal_syntax(s) {
        Err(MicrosConversionError::Invalid)
    } else if fraction_exceeds_micros(f) {
        Err(MicrosConversionError::PrecisionLoss)
    } else if digits_value(w) > u64::MAX {
        Err(MicrosConversionError::Overflow)
    } else if digits_value(w) * 1_000_000 + fraction_micros(f) > u64::MAX {
        Err(MicrosConversionError::Overflow)
    } else {
        Ok((digits_value(w) * 1_000_000 + fraction_micros(f)) as u64)
    }
}

pub proof fn lemma_digits_value_prefix(s: Seq<u8>, k: int)
    requires
        0 <= k <= s.len(),
    ensures
        digits_value(s.subrange(0, k)) <= digits_value(s),
    decreases s.len(),
{
    if k < s.len() {
        lemma_digits_value_prefix(s.drop_last(), k);
        assert(s.drop_last().subrange(0, k) =~= s.subrange(0, k));
    } else {
        assert(s.subrange(0, k) =~= s);
    }
}

proof fn lemma_pow10_six()
    ensures
        pow10(6) == 1_000_000,
{
    reveal_with_fuel(pow10, 7);
}

/// The value of `s[from..to]` read as digits, or `None` when it exceeds `u64`.
pub fn digits_u64(s: &[u8], from: usize, to: usize) -> (res: Option<u64>)
    requires
        from <= to <= s.len(),
        all_digits(s@.subrange(from as int, to as int)),
    ensures
        res is Some <==> digits_value(s@.subrange(from as int, to as int)) <= u64::MAX,
        res matches Some(v) ==> v == digits_value(s@.subrange(from as int, to as int)),
{
    let ghost d = s@.subrange(from as int, to as int);
    let mut acc: u64 = 0;
    let mut i = from;
    assert(d.subrange(0, 0) =~= Seq::<u8>::empty());
    while i < to
        invariant
            from <= i <= to <= s.len(),
            d == s@.subrange(from as int, to as int),
            all_digits(d),
            acc == digits_value(d.subrange(0, i - from)),
        decreases to - i,
    {
        let digit = s[i];
        assert(digit == d[i - from]);
        assert(is_digit(d[i - from]));
        let ghost next = d.subrange(0, i - from + 1);
        proof {
            assert(d.subrange(0, i - from).push(digit) =~= next);
            lemma_digits_value_push(d.subrange(0, i - from), digit);
        }
        match acc.checked_mul(10) {
            Some(m) => match m.checked_add((digit - 48) as u64) {
                Some(v) => {
                    acc = v;
                },
                None => {
                    proof {
                        lemma_digits_value_prefix(d, i - from + 1);
                    }
                    return None;
                },
            },
            None => {
                proof {
                    lemma_digits_value_prefix(d, i - from + 1);
                }
                return None;
            },
        }
        i = i + 1;
    }
    assert(d.subrange(0, to - from) =~= d);
    Some(acc)
}

/// Converts unsigned decimal text to micros without rounding.
pub fn unsigned_text_to_micros(value: &str) -> (res: Result<u64, MicrosConversionError>)
    ensures
        res == micros_of_text(value.spec_bytes()),
{
    let s = value.as_bytes();
    let ghost sb = s@;
    let dot = find_dot(s);
    proof {
        lemma_first_dot_bounds(sb);
    }
    let frac_start = if dot < s.len() {
        dot + 1
    } else {
        dot
    };
    assert(fraction_part(sb) =~= sb.subrange(frac_start as int, s.len() as int));
    assert(whole_part(sb) =~= sb.subrange(0, dot as int));
    if dot == 0 || !range_all_digits(s, 0, dot) || !range_all_digits(s, frac_start, s.len()) {
        return Err(MicrosConversionError::Invalid);
    }
    let ghost f = fraction_part(sb);
    let frac_len = s.len() - frac_start;
    if frac_len > 6 {
        let mut i = frac_start + 6;
        while i < s.len()
            invariant
                frac_start + 6 <= i <= s.len(),
                sb == s@,
                sb == value.spec_bytes(),
                decimal_syntax(sb),
                f == fraction_part(sb),
                f == sb.subrange(frac_start as int, s.len() as int),
                forall|j: int| 6 <= j < i - frac_start ==> f[j] == 48,
            decreases s.len() - i,
        {
            if s[i] != 48 {
                assert(f[i - frac_start] == sb[i as int]);
                return Err(MicrosConversionError::PrecisionLoss);
            }
            assert(f[i - frac_start] == sb[i as int]);
            i = i + 1;
        }
    }
    assert(!fraction_exceeds_micros(f));
    let whole = match digits_u64(s, 0, dot) {
        Some(w) => w,
        None => {
            return Err(MicrosConversionError::Overflow);
        },
    };
    let kept = if frac_len < 6 {
        frac_len
    } else {
        6
    };
    let ghost kept_digits = f.subrange(0, kept as int);
    assert(kept_digits =~= sb.subrange(frac_start as int, (frac_start + kept) as int));
    proof {
        lemma_subrange_all_digits(f, 0, kept as int);
        lemma_digits_value_bound(kept_digits);
        lemma_pow10_six();
        assert(pow10(kept as nat) <= 1_000_000) by {
            reveal_with_fuel(pow10, 7);
        }
    }
    let mut fractional = match digits_u64(s, frac_start, frac_start + kept) {
        Some(v) => v,
        None => {
            return Err(MicrosConversionError::Invalid);
        },
    };
    assert(pow10(0) == 1);
    assert(fractional == digits_value(kept_digits) * pow10(0));
    let mut j = kept;
    while j < 6
        invariant
            kept <= j <= 6,
            fractional == digits_value(kept_digits) * pow10((j - kept) as nat),
            fractional < pow10(j as nat),
            pow10(6) == 1_000_000,
        decreases 6 - j,
    {
        proof {
            assert(pow10((j + 1 - kept) as nat) == 10 * pow10((j - kept) as nat));
            assert(pow10((j + 1) as nat) == 10 * pow10(j as nat));
            assert(pow10(j as nat) <= 100_000) by {
                reveal_with_fuel(pow10, 7);
            }
        }
        fractional = fractional * 10;
        proof {
            let a = digits_value(kept_digits);
            let b = pow10((j - kept) as nat);
            assert(a * b * 10 == a * (10 * b)) by (nonlinear_arith);
        }
        j = j + 1;
    }
    assert(fractional == fraction_micros(f));
    match whole.checked_mul(1_000_000) {
        Some(scaled) => match scaled.checked_add(fractional) {
            Some(total) => Ok(total),
            None => Err(MicrosConversionError::Overflow),
        },
        None => Err(MicrosConversionError::Overflow),
    }
}

/// Converts a broker decimal to fixed-point micros without rounding.
pub fn broker_decimal_to_micros(value: &BrokerDecimal) -> (res: Result<u64, MicrosConversionError>)
    ensures
        res == micros_of_text(value@),
{
    unsigned_text_to_micros(value.as_str())
}

/// The exact signed micros value of signed decimal text.
pub open spec fn signed_micros_of_text(s: Seq<u8>) -> Result<i128, MicrosConversionError> {
    let negative = s.len() > 0 && s[0] == 45;
    let magnitude = if negative {
        s.drop_first()
    } else {
        s
    };
    match micros_of_text(magnitude) {
        Ok(m) => Ok(
            if negative {
                (-(m as int)) as i128
            } else {
                m as i128
            },
        ),
        Err(e) => Err(e),
    }
}

/// Converts a signed decimal to signed fixed-point micros without rounding.
pub fn signed_decimal_to_micros(value: &SignedDecimal) -> (res: Result<i128, MicrosConversionError>)
    ensures
        res == signed_micros_of_text(value@),
{
    let text = value.as_str();
    let bytes = text.as_bytes();
    let negative = bytes.len() > 0 && bytes[0] == 45;
    let mut magnitude: Vec<u8> = Vec::new();
    if negative {
        push_range(&mut magnitude, bytes, 1, bytes.len());
        assert(magnitude@ =~= bytes@.drop_first());
    } else {
        push_range(&mut magnitude, bytes, 0, bytes.len());
        assert(magnitude@ =~= bytes@);
    }
    proof {
        if canonical_shape(value@) {
            lemma_first_dot_bounds(value@);
            assert(value@[0] == whole_part(value@)[0]);
            assert(is_digit(whole_part(value@)[0]));
        }
        if negative {
            lemma_canonical_ascii(value@.drop_first());
        } else {
            lemma_canonical_ascii(value@);
        }
    }
    let magnitude_text = canonical_as_str(&magnitude);
    match unsigned_text_to_micros(magnitude_text) {
        Ok(m) => {
            let wide = m as i128;
            if negative {
                Ok(-wide)
            } else {
                Ok(wide)
            }
        },
        Err(e) => Err(e),
    }
}


/// The decimal text of a micros amount: whole units, then (only when non-zero) a `.` and the
/// fractional digits without trailing zeros.
pub open spec fn micros_text(v: nat) -> Seq<u8> {
    let whole = v / 1_000_000;
    let frac = v % 1_000_000;
    if frac == 0 {
        nat_digits(whole)
    } else {
        nat_digits(whole) + seq![46u8] + trim_trailing_zeros(fixed_digits(frac, 6))
    }
}

proof fn lemma_all_zero_digits_value(s: Seq<u8>)
    requires
        forall|i: int| 0 <= i < s.len() ==> s[i] == 48,
    ensures
        digits_value(s) == 0,
    decreases s.len(),
{
    if s.len() > 0 {
        lemma_all_zero_digits_value(s.drop_last());
    }
}

/// Trailing zero digits scale the value of the digits before them.
pub proof fn lemma_trailing_zeros_value(s: Seq<u8>, k: int)
    requires
        0 <= k <= s.len(),
        forall|j: int| k <= j < s.len() ==> s[j] == 48,
    ensures
        digits_value(s) == digits_value(s.subrange(0, k)) * pow10((s.len() - k) as nat),
    decreases s.len() - k,
{
    if k == s.len() {
        assert(s.subrange(0, k) =~= s);
        assert(pow10(0) == 1);
        assert(digits_value(s) * 1 == digits_value(s));
    } else {
        assert(s.last() == 48);
        assert(digits_value(s) == digits_value(s.drop_last()) * 10);
        lemma_trailing_zeros_value(s.drop_last(), k);
        assert(s.drop_last().subrange(0, k) =~= s.subrange(0, k));
        let a = digits_value(s.subrange(0, k));
        let p = pow10((s.len() - 1 - k) as nat);
        assert(pow10((s.len() - k) as nat) == 10 * p);
        assert(digits_value(s.drop_last()) == a * p);
        assert(a * p * 10 == a * (10 * p)) by (nonlinear_arith);
        assert(digits_value(s) == a * pow10((s.len() - k) as nat));
    }
}

/// Appends `n % 10^width` as exactly `width` digits.
fn push_fixed(out: &mut Vec<u8>, n: u64, width: u64)
    ensures
        final(out)@ == old(out)@ + fixed_digits(n as nat, width as nat),
    decreases width,
{
    if width > 0 {
        push_fixed(out, n / 10, width - 1);
        out.push((48 + n % 10) as u8);
        assert(final(out)@ =~= old(out)@ + fixed_digits(n as nat, width as nat));
    } else {
        assert(final(out)@ =~= old(out)@ + fixed_digits(n as nat, width as nat));
    }
}

/// Renders fixed-point micros as exact decimal text.
pub fn micros_to_decimal(value: u64) -> (res: String)
    ensures
        text_bytes(res@) == micros_text(value as nat),
{
    let whole = value / 1_000_000;
    let fractional = value % 1_000_000;
    let mut out: Vec<u8> = Vec::new();
    push_decimal(&mut out, whole);
    proof {
        lemma_nat_digits_shape(whole as nat);
    }
    if fractional != 0 {
        out.push(46);
        let base = out.len();
        let ghost prefix = out@;
        push_fixed(&mut out, fractional, 6);
        let ghost fd = fixed_digits(fractional as nat, 6);
        proof {
            lemma_fixed_digits_shape(fractional as nat, 6);
            lemma_pow10_six();
            if forall|i: int| 0 <= i < fd.len() ==> fd[i] == 48 {
                lemma_all_zero_digits_value(fd);
            }
            assert(fd.subrange(0, 6) =~= fd);
        }
        while out[out.len() - 1] == 48
            invariant
                base <= out.len() <= base + 6,
                prefix.len() == base,
                fd.len() == 6,
                out@ == prefix + fd.subrange(0, out.len() - base),
                forall|j: int| out.len() - base <= j < 6 ==> fd[j] == 48,
                exists|i: int| 0 <= i < out.len() - base && fd[i] != 48,
            decreases out.len(),
        {
            let ghost k = out.len() - base;
            assert(out@[out.len() - 1] == fd[k - 1]);
            out.pop();
            assert(out@ =~= prefix + fd.subrange(0, k - 1));
        }
        proof {
            let k = out.len() - base;
            assert(out@[out.len() - 1] == fd[k - 1]);
            lemma_trim_trailing(fd, k);
        }
        assert(out@ =~= micros_text(value as nat));
    } else {
        assert(out@ =~= micros_text(value as nat));
    }
    proof {
        lemma_micros_text_shape(value as nat);
        lemma_canonical_ascii(out@);
    }
    ascii_string(out)
}

/// The decimal text of a micros amount is canonical, and its parts are as rendered.
pub proof fn lemma_micros_text_shape(v: nat)
    ensures
        canonical_shape(micros_text(v)),
        whole_part(micros_text(v)) == nat_digits(v / 1_000_000),
        v % 1_000_000 != 0 ==> fraction_part(micros_text(v)) == trim_trailing_zeros(
            fixed_digits(v % 1_000_000, 6),
        ),
        v % 1_000_000 == 0 ==> fraction_part(micros_text(v)) == Seq::<u8>::empty(),
        v % 1_000_000 == 0 ==> first_dot(micros_text(v)) == micros_text(v).len(),
{
    let whole = v / 1_000_000;
    let frac = v % 1_000_000;
    let w = nat_digits(whole);
    lemma_nat_digits_shape(whole);
    if w.len() > 1 {
        if whole == 0 {
            reveal_with_fuel(nat_digits, 2);
        }
    }
    let fd = fixed_digits(frac, 6);
    lemma_fixed_digits_shape(frac, 6);
    lemma_trim_trailing_props(fd);
    let t = trim_trailing_zeros(fd);
    let k = choose|k: int|
        0 <= k <= fd.len() && trim_trailing_zeros(fd) == fd.subrange(0, k) && (forall|j: int|
            k <= j < fd.len() ==> fd[j] == 48);
    lemma_subrange_all_digits(fd, 0, k);
    lemma_whole_dot_fraction(w, t);
    if frac != 0 {
        lemma_pow10_six();
        if t.len() == 0 {
            assert forall|i: int| 0 <= i < fd.len() implies fd[i] == 48 by {}
            lemma_all_zero_digits_value(fd);
        }
    }
}

/// Rendering micros as decimal text and reading it back gives the same micros.
pub proof fn law_micros_round_trip(v: u64)
    ensures
        micros_of_text(micros_text(v as nat)) == Ok::<u64, MicrosConversionError>(v),
{
    let s = micros_text(v as nat);
    let whole = (v / 1_000_000) as nat;
    let frac = (v % 1_000_000) as nat;
    lemma_micros_text_shape(v as nat);
    lemma_nat_digits_shape(whole);
    lemma_pow10_six();
    let f = fraction_part(s);
    if frac == 0 {
        assert(f.len() == 0);
        assert(f.subrange(0, 0) =~= Seq::<u8>::empty());
        let kept = f.subrange(0, min_nat(6, f.len()) as int);
        assert(min_nat(6, f.len()) == 0);
        assert(kept =~= Seq::<u8>::empty());
        assert(digits_value(kept) == 0);
        let scale = pow10((6 - kept.len()) as nat);
        assert(digits_value(kept) * scale == 0) by (nonlinear_arith)
            requires
                digits_value(kept) == 0,
        ;
        assert(fraction_micros(f) == 0);
        assert(whole * 1_000_000 == v) by (nonlinear_arith)
            requires
                whole == v / 1_000_000,
                v % 1_000_000 == 0,
        ;
    } else {
        let fd = fixed_digits(frac, 6);
        lemma_fixed_digits_shape(frac, 6);
        lemma_trim_trailing_props(fd);
        let k = choose|k: int|
            0 <= k <= fd.len() && trim_trailing_zeros(fd) == fd.subrange(0, k) && (forall|j: int|
                k <= j < fd.len() ==> fd[j] == 48);
        lemma_trailing_zeros_value(fd, k);
        assert(f == fd.subrange(0, k));
        assert(f.subrange(0, min_nat(6, f.len()) as int) =~= f);
        assert(frac % 1_000_000 == frac);
        assert(fraction_micros(f) == frac);
        assert(!fraction_exceeds_micros(f));
        assert(whole * 1_000_000 + frac == v) by (nonlinear_arith)
            requires
                whole == v / 1_000_000,
                frac == v % 1_000_000,
        ;
    }
}


// ---------------------------------------------------------------------------------------------
// Numeric comparison
// ---------------------------------------------------------------------------------------------

/// The decimal's value scaled by `10^scale` (exact when `scale` covers its fraction).
pub open spec fn decimal_scaled(s: Seq<u8>, scale: nat) -> nat {
    digits_value(whole_part(s)) * pow10(scale) + digits_value(fraction_part(s)) * pow10(
        (scale - fraction_part(s).len()) as nat,
    )
}

/// `a > b` as numbers.
pub open spec fn decimal_gt(a: Seq<u8>, b: Seq<u8>) -> bool {
    let scale = if fraction_part(a).len() >= fraction_part(b).len() {
        fraction_part(a).len()
    } else {
        fraction_part(b).len()
    };
    decimal_scaled(a, scale) > decimal_scaled(b, scale)
}

pub proof fn lemma_pow10_add(a: nat, b: nat)
    ensures
        pow10(a + b) == pow10(a) * pow10(b),
    decreases b,
{
    if b > 0 {
        lemma_pow10_add(a, (b - 1) as nat);
        let x = pow10(a);
        let y = pow10((b - 1) as nat);
        assert(pow10(a + b) == 10 * pow10((a + b - 1) as nat));
        assert((a + (b - 1) as nat) == (a + b - 1) as nat);
        assert(pow10((a + b - 1) as nat) == x * y);
        assert(pow10(b) == 10 * y);
        assert(x * (10 * y) == 10 * (x * y)) by (nonlinear_arith);
    } else {
        assert(pow10(0) == 1);
        assert(a + b == a);
        assert(pow10(a) * 1 == pow10(a));
    }
}

/// The value of concatenated digits.
pub proof fn lemma_digits_value_concat(x: Seq<u8>, y: Seq<u8>)
    ensures
        digits_value(x + y) == digits_value(x) * pow10(y.len()) + digits_value(y),
    decreases y.len(),
{
    if y.len() == 0 {
        assert(x + y =~= x);
        assert(digits_value(x) * 1 == digits_value(x));
    } else {
        let y1 = y.drop_last();
        lemma_digits_value_concat(x, y1);
        assert((x + y).drop_last() =~= x + y1);
        let vx = digits_value(x);
        let p = pow10(y1.len());
        let vy1 = digits_value(y1);
        let d = (y.last() - 48) as nat;
        assert((vx * p + vy1) * 10 + d == vx * (10 * p) + (vy1 * 10 + d)) by (nonlinear_arith);
    }
}

pub open spec fn zeros(n: nat) -> Seq<u8> {
    Seq::new(n, |i: int| 48u8)
}

proof fn lemma_zeros_value(n: nat)
    ensures
        digits_value(zeros(n)) == 0,
        all_digits(zeros(n)),
    decreases n,
{
    if n > 0 {
        assert(zeros(n).drop_last() =~= zeros((n - 1) as nat));
        lemma_zeros_value((n - 1) as nat);
    }
}

/// For digit strings of equal length, comparing the first differing digit compares values.
proof fn lemma_lex_compare(a: Seq<u8>, b: Seq<u8>, i: int)
    requires
        a.len() == b.len(),
        all_digits(a),
        all_digits(b),
        0 <= i <= a.len(),
        forall|j: int| 0 <= j < i ==> a[j] == b[j],
        i < a.len() ==> a[i] != b[i],
    ensures
        i == a.len() ==> digits_value(a) == digits_value(b),
        i < a.len() ==> (digits_value(a) > digits_value(b) <==> a[i] > b[i]),
{
    if i == a.len() {
        assert(a =~= b);
    } else {
        let p = a.subrange(0, i);
        assert(b.subrange(0, i) =~= p);
        let ra = a.subrange(i + 1, a.len() as int);
        let rb = b.subrange(i + 1, b.len() as int);
        assert(a =~= p + seq![a[i]] + ra);
        assert(b =~= p + seq![b[i]] + rb);
        lemma_digits_value_concat(p + seq![a[i]], ra);
        lemma_digits_value_concat(p + seq![b[i]], rb);
        lemma_digits_value_push(p, a[i]);
        lemma_digits_value_push(p, b[i]);
        assert(p + seq![a[i]] =~= p.push(a[i]));
        assert(p + seq![b[i]] =~= p.push(b[i]));
        lemma_subrange_all_digits(a, i + 1, a.len() as int);
        lemma_subrange_all_digits(b, i + 1, b.len() as int);
        lemma_digits_value_bound(ra);
        lemma_digits_value_bound(rb);
        assert(is_digit(a[i]) && is_digit(b[i]));
        let vp = digits_value(p);
        let n = pow10(ra.len());
        let da = (a[i] - 48) as nat;
        let db = (b[i] - 48) as nat;
        let va = digits_value(ra);
        let vb = digits_value(rb);
        assert(da > db ==> (vp * 10 + da) * n + va > (vp * 10 + db) * n + vb) by (nonlinear_arith)
            requires
                va < n,
                vb < n,
                n >= 1,
        ;
        assert(db > da ==> (vp * 10 + db) * n + vb > (vp * 10 + da) * n + va) by (nonlinear_arith)
            requires
                va < n,
                vb < n,
                n >= 1,
        ;
    }
}

proof fn lemma_all_digits_concat(x: Seq<u8>, y: Seq<u8>)
    requires
        all_digits(x),
        all_digits(y),
    ensures
        all_digits(x + y),
{
    assert forall|i: int| 0 <= i < (x + y).len() implies is_digit(#[trigger] (x + y)[i]) by {
        if i < x.len() {
            assert((x + y)[i] == x[i]);
        } else {
            assert((x + y)[i] == y[i - x.len()]);
        }
    }
}

/// A digit string without a leading zero is at least `10^(len-1)`.
proof fn lemma_leading_digit_bound(w: Seq<u8>)
    requires
        all_digits(w),
        w.len() > 1,
        w[0] != 48,
    ensures
        digits_value(w) >= pow10((w.len() - 1) as nat),
{
    let rest = w.subrange(1, w.len() as int);
    assert(w =~= seq![w[0]] + rest);
    lemma_digits_value_concat(seq![w[0]], rest);
    assert(seq![w[0]].drop_last() =~= Seq::<u8>::empty());
    assert(seq![w[0]].last() == w[0]);
    assert(digits_value(Seq::<u8>::empty()) == 0);
    assert(digits_value(seq![w[0]]) == digits_value(seq![w[0]].drop_last()) * 10 + (w[0] - 48) as nat);
    assert(digits_value(seq![w[0]]) == (w[0] - 48) as nat);
    assert(is_digit(w[0]));
    let p = pow10(rest.len());
    assert(((w[0] - 48) as nat) * p >= p) by (nonlinear_arith)
        requires
            (w[0] - 48) as nat >= 1,
    ;
}

proof fn lemma_pow10_monotone(a: nat, b: nat)
    requires
        a <= b,
    ensures
        pow10(a) <= pow10(b),
    decreases b,
{
    if a < b {
        lemma_pow10_monotone(a, (b - 1) as nat);
        lemma_pow10_positive((b - 1) as nat);
    }
}

/// A larger whole part decides the comparison, whatever the fractions.
proof fn lemma_whole_dominates(a: Seq<u8>, b: Seq<u8>, scale: nat)
    requires
        canonical_shape(a),
        canonical_shape(b),
        fraction_part(a).len() <= scale,
        fraction_part(b).len() <= scale,
        digits_value(whole_part(a)) > digits_value(whole_part(b)),
    ensures
        decimal_scaled(a, scale) > decimal_scaled(b, scale),
{
    let fb = fraction_part(b);
    let fa = fraction_part(a);
    lemma_digits_value_bound(fb);
    lemma_pow10_add(fb.len(), (scale - fb.len()) as nat);
    let p = pow10(scale);
    let q = pow10((scale - fb.len()) as nat);
    let vfb = digits_value(fb);
    lemma_pow10_positive((scale - fb.len()) as nat);
    assert(vfb * q < p) by (nonlinear_arith)
        requires
            vfb < pow10(fb.len()),
            p == pow10(fb.len()) * q,
            q >= 1,
    ;
    lemma_pow10_positive((scale - fb.len()) as nat);
    let vwa = digits_value(whole_part(a));
    let vwb = digits_value(whole_part(b));
    let extra = digits_value(fa) * pow10((scale - fa.len()) as nat);
    assert(vwa * p + extra > vwb * p + vfb * q) by (nonlinear_arith)
        requires
            vwa >= vwb + 1,
            vfb * q < p,
            extra >= 0,
    ;
}

/// With equal whole parts, the comparison is that of the fractions padded to the scale.
proof fn lemma_fraction_compare(a: Seq<u8>, b: Seq<u8>, scale: nat)
    requires
        canonical_shape(a),
        canonical_shape(b),
        whole_part(a) == whole_part(b),
        fraction_part(a).len() <= scale,
        fraction_part(b).len() <= scale,
    ensures
        ({
            let pa = fraction_part(a) + zeros((scale - fraction_part(a).len()) as nat);
            let pb = fraction_part(b) + zeros((scale - fraction_part(b).len()) as nat);
            &&& pa.len() == scale
            &&& pb.len() == scale
            &&& all_digits(pa)
            &&& all_digits(pb)
            &&& decimal_scaled(a, scale) - decimal_scaled(b, scale) == digits_value(pa)
                - digits_value(pb)
        }),
{
    let fa = fraction_part(a);
    let fb = fraction_part(b);
    let za = zeros((scale - fa.len()) as nat);
    let zb = zeros((scale - fb.len()) as nat);
    lemma_zeros_value((scale - fa.len()) as nat);
    lemma_zeros_value((scale - fb.len()) as nat);
    lemma_digits_value_concat(fa, za);
    lemma_digits_value_concat(fb, zb);
    lemma_all_digits_concat(fa, za);
    lemma_all_digits_concat(fb, zb);
}

/// Whether `left > right` as numbers.
pub fn decimal_greater(left: &BrokerDecimal, right: &BrokerDecimal) -> (res: bool)
    ensures
        res == decimal_gt(left@, right@),
{
    let a = left.as_str().as_bytes();
    let b = right.as_str().as_bytes();
    let da = find_dot(a);
    let db = find_dot(b);
    let ghost sa = a@;
    let ghost sb = b@;
    proof {
        lemma_first_dot_bounds(sa);
        lemma_first_dot_bounds(sb);
    }
    let fa = if da < a.len() {
        a.len() - da - 1
    } else {
        0
    };
    let fb = if db < b.len() {
        b.len() - db - 1
    } else {
        0
    };
    let ghost wa = whole_part(sa);
    let ghost wb = whole_part(sb);
    let ghost fra = fraction_part(sa);
    let ghost frb = fraction_part(sb);
    assert(fa == fra.len());
    assert(fb == frb.len());
    let scale = if fa >= fb {
        fa
    } else {
        fb
    };
    if da != db {
        proof {
            if da > db {
                lemma_leading_digit_bound(wa);
                lemma_digits_value_bound(wb);
                lemma_pow10_monotone(wb.len(), (wa.len() - 1) as nat);
                lemma_whole_dominates(sa, sb, scale as nat);
            } else {
                lemma_leading_digit_bound(wb);
                lemma_digits_value_bound(wa);
                lemma_pow10_monotone(wa.len(), (wb.len() - 1) as nat);
                lemma_whole_dominates(sb, sa, scale as nat);
            }
        }
        return da > db;
    }
    let mut i: usize = 0;
    while i < da && a[i] == b[i]
        invariant
            i <= da == db,
            da <= a.len(),
            db <= b.len(),
            sa == a@,
            sb == b@,
            forall|j: int| 0 <= j < i ==> a@[j] == b@[j],
        decreases da - i,
    {
        i = i + 1;
    }
    if i < da {
        proof {
            assert forall|j: int| 0 <= j < i implies wa[j] == wb[j] by {
                assert(wa[j] == sa[j] && wb[j] == sb[j]);
            }
            assert(wa[i as int] == sa[i as int] && wb[i as int] == sb[i as int]);
            lemma_lex_compare(wa, wb, i as int);
            lemma_lex_compare(wb, wa, i as int);
            if a[i as int] > b[i as int] {
                lemma_whole_dominates(sa, sb, scale as nat);
            } else {
                lemma_whole_dominates(sb, sa, scale as nat);
            }
        }
        return a[i] > b[i];
    }
    assert(wa =~= wb);
    // Equal whole parts: compare the fractions padded with zeros to `scale` digits.
    let ghost pa = fra + zeros((scale - fa) as nat);
    let ghost pb = frb + zeros((scale - fb) as nat);
    let mut j: usize = 0;
    while j < scale
        invariant
            j <= scale,
            da < a.len() ==> fa == a.len() - da - 1,
            da >= a.len() ==> fa == 0,
            db < b.len() ==> fb == b.len() - db - 1,
            db >= b.len() ==> fb == 0,
            scale == fa || scale == fb,
            fa <= scale,
            fb <= scale,
            pa.len() == scale,
            pb.len() == scale,
            pa == fra + zeros((scale - fa) as nat),
            pb == frb + zeros((scale - fb) as nat),
            sa == left@,
            sb == right@,
            canonical_shape(sa),
            canonical_shape(sb),
            fra == fraction_part(sa),
            frb == fraction_part(sb),
            whole_part(sa) == whole_part(sb),
            scale == (if fa >= fb {
                fa
            } else {
                fb
            }),
            sa == a@,
            sb == b@,
            fa == fra.len(),
            fb == frb.len(),
            da < a.len() ==> fra =~= sa.subrange(da + 1, a.len() as int),
            db < b.len() ==> frb =~= sb.subrange(db + 1, b.len() as int),
            forall|k: int| 0 <= k < j ==> pa[k] == pb[k],
        decreases scale - j,
    {
        let ca = if j < fa {
            a[da + 1 + j]
        } else {
            48
        };
        let cb = if j < fb {
            b[db + 1 + j]
        } else {
            48
        };
        proof {
            if j < fa {
                assert(pa[j as int] == fra[j as int]);
                assert(fra[j as int] == sa[da + 1 + j]);
            } else {
                assert(pa[j as int] == zeros((scale - fa) as nat)[j - fa]);
            }
            if j < fb {
                assert(pb[j as int] == frb[j as int]);
                assert(frb[j as int] == sb[db + 1 + j]);
            } else {
                assert(pb[j as int] == zeros((scale - fb) as nat)[j - fb]);
            }
        }
        assert(ca == pa[j as int]);
        assert(cb == pb[j as int]);
        if ca != cb {
            proof {
                lemma_fraction_compare(sa, sb, scale as nat);
                lemma_lex_compare(pa, pb, j as int);
            }
            return ca > cb;
        }
        j = j + 1;
    }
    proof {
        lemma_fraction_compare(sa, sb, scale as nat);
        lemma_lex_compare(pa, pb, scale as int);
    }
    false
}

/// Splits decimal text into its whole and fractional parts.
pub fn decimal_parts(value: &str) -> (res: Result<(&str, &str), BrokerError>)
    ensures
        res is Ok <==> whole_part(value.spec_bytes()).len() > 0 && first_dot(
            fraction_part(value.spec_bytes()),
        ) == fraction_part(value.spec_bytes()).len(),
        res matches Ok((w, f)) ==> w.spec_bytes() == whole_part(value.spec_bytes())
            && f.spec_bytes() == fraction_part(value.spec_bytes()),
        res matches Err(e) ==> (e matches BrokerError::Rejected(m) && m@
            == "invalid normalized decimal"@),
{
    let b = value.as_bytes();
    let dot = find_dot(b);
    proof {
        lemma_first_dot_bounds(b@);
    }
    if dot == 0 {
        return Err(BrokerError::Rejected("invalid normalized decimal".to_owned()));
    }
    assert(whole_part(b@) =~= b@.subrange(0, dot as int));
    if dot == b.len() {
        assert(fraction_part(b@) =~= Seq::<u8>::empty());
        assert(b@.subrange(0, dot as int) =~= b@);
        proof {
            reveal_strlit("");
        }
        return Ok((value, ""));
    }
    proof {
        vstd::utf8::encode_utf8_valid_utf8(value@);
        vstd::utf8::is_char_boundary_iff_not_is_continuation_byte(b@, dot as int);
    }
    let (whole, rest) = value.split_at(dot);
    let rb = rest.as_bytes();
    assert(rb@ =~= b@.subrange(dot as int, b.len() as int));
    proof {
        vstd::utf8::valid_utf8_split(b@, dot as int);
        assert(rb@[0] == 46);
        assert(vstd::utf8::is_char_boundary(rb@, 1)) by {
            reveal_with_fuel(vstd::utf8::is_char_boundary, 2);
        }
    }
    let (_, fraction) = rest.split_at(1);
    let fb = fraction.as_bytes();
    assert(fb@ =~= fraction_part(b@));
    let second = find_dot(fb);
    if second < fb.len() {
        return Err(BrokerError::Rejected("invalid normalized decimal".to_owned()));
    }
    proof {
        lemma_first_dot_bounds(fb@);
    }
    assert(second as int == first_dot(fb@));
    assert(fb@ == fraction_part(b@));
    assert(first_dot(fraction_part(b@)) == fraction_part(b@).len());
    assert(whole_part(b@).len() > 0);
    Ok((whole, fraction))
}

} // verus!
