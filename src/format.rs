//! The formatted result of a conversion and the entry points that produce it.

use vstd::prelude::*;
use vstd::slice::slice_subrange;
use crate::digits::{lemma_splice_twice, splice, zeros, DOT, ZERO};
use crate::d2s::{d2d, d2d_spec};
use crate::denote::{denotes, lemma_render_denotes};
use crate::f2s::{f2d, f2d_spec};
use crate::pow5::FullTable;
use crate::ieee::{
    decompose_f32, decompose_f64, f32_exponent, f32_mantissa, f32_sign, f64_exponent,
    f64_mantissa, f64_sign, is_nonfinite_f32, is_nonfinite_f64,
};
use crate::layout::{
    ascii_chars, exp_int_end, fit_fraction, fixed_dp_bytes, fixed_dp_view, inf_text,
    lemma_render_layout, layout_ok, nan_text, neg_inf_text, render_meta, render_text,
    FormattedMeta, FormattedView,
};
use crate::render::render;

verus! {

/// Capacity of the buffer that holds a rendered number: enough for any
/// rendering of either width. A copy with `N` decimal places fits in
/// `BUFFER_LEN + N` bytes.
pub const BUFFER_LEN: usize = 32;

/// Copies `src[from..to]` into `buf` at `at`.
fn copy_into(buf: &mut [u8], at: usize, src: &[u8; 32], from: usize, to: usize)
    requires
        from <= to <= 32,
        at + (to - from) <= old(buf)@.len(),
    ensures
        final(buf)@ == splice(old(buf)@, at as int, src@.subrange(from as int, to as int)),
{
    let ghost start = buf@;
    let total = buf.len();
    let mut i: usize = from;
    while i < to
        invariant
            from <= i <= to <= 32,
            total == start.len(),
            at + (to - from) <= start.len(),
            buf@.len() == start.len(),
            buf@ == splice(start, at as int, src@.subrange(from as int, i as int)),
        decreases to - i,
    {
        buf[at + (i - from)] = src[i];
        i = i + 1;
        assert(buf@ =~= splice(start, at as int, src@.subrange(from as int, i as int)));
    }
}

/// Writes `count` zero digits into `buf` at `at`.
fn fill_zeros(buf: &mut [u8], at: usize, count: usize)
    requires
        at + count <= old(buf)@.len(),
    ensures
        final(buf)@ == splice(old(buf)@, at as int, zeros(count as nat)),
{
    let ghost start = buf@;
    let total = buf.len();
    let mut i: usize = 0;
    while i < count
        invariant
            i <= count,
            total == start.len(),
            at + count <= start.len(),
            buf@.len() == start.len(),
            buf@ == splice(start, at as int, zeros(i as nat)),
        decreases count - i,
    {
        buf[at + i] = ZERO;
        i = i + 1;
        assert(buf@ =~= splice(start, at as int, zeros(i as nat)));
    }
}

/// Writes the fractional part `src[at..at + dlen]` (point included, or empty)
/// at `at`, fitted to exactly `n` digits.
fn write_fraction(buf: &mut [u8], at: usize, src: &[u8; 32], dlen: usize, n: usize)
    requires
        at + dlen <= 32,
        n > 0,
        at + n + 1 <= old(buf)@.len(),
    ensures
        final(buf)@ == splice(
            old(buf)@,
            at as int,
            fit_fraction(src@.subrange(at as int, at + dlen), n as nat),
        ),
{
    let ghost start = buf@;
    let ghost frac = src@.subrange(at as int, at + dlen);
    if dlen == 0 {
        buf[at] = DOT;
        let ghost mid = buf@;
        assert(mid =~= splice(start, at as int, seq![DOT]));
        fill_zeros(buf, at + 1, n);
        proof {
            lemma_splice_twice(start, at as int, seq![DOT], zeros(n as nat));
        }
    } else if dlen - 1 <= n {
        copy_into(buf, at, src, at, at + dlen);
        fill_zeros(buf, at + dlen, n - (dlen - 1));
        proof {
            lemma_splice_twice(start, at as int, frac, zeros((n + 1 - dlen) as nat));
        }
    } else {
        copy_into(buf, at, src, at, at + n + 1);
        assert(src@.subrange(at as int, at + n + 1) =~= frac.subrange(0, n + 1int));
    }
}

/// Relies on `core::str::from_utf8`: ASCII bytes are valid UTF-8, and the
/// string it returns holds them as its characters.
#[verifier::external_body]
fn ascii_str(b: &[u8]) -> (r: &str)
    requires
        forall|i: int| 0 <= i < b@.len() ==> b@[i] < 128,
    ensures
        r@ == ascii_chars(b@),
{
    match core::str::from_utf8(b) {
        Ok(s) => s,
        Err(_) => "",
    }
}

/// What copying the text with `n` decimal places into a buffer holding `buf`
/// gives: the number of bytes written, or `None` when the buffer is too
/// small, and the buffer afterwards.
pub open spec fn copy_result(v: FormattedView, n: nat, buf: Seq<u8>) -> (Option<usize>, Seq<u8>) {
    let out = fixed_dp_bytes(v, n);
    if out.len() <= buf.len() {
        (Some(out.len() as usize), out + buf.subrange(out.len() as int, buf.len() as int))
    } else {
        (None, buf)
    }
}

/// A buffer one byte shorter than the fixed-decimal text gets nothing
/// written; a buffer of exactly its length is filled with it.
pub proof fn lemma_buffer_boundary(v: FormattedView, n: nat, short: Seq<u8>, exact: Seq<u8>)
    requires
        short.len() + 1 == fixed_dp_bytes(v, n).len(),
        exact.len() == fixed_dp_bytes(v, n).len(),
    ensures
        copy_result(v, n, short) == (None::<usize>, short),
        copy_result(v, n, exact) == (Some(exact.len() as usize), fixed_dp_bytes(v, n)),
{
    let out = fixed_dp_bytes(v, n);
    assert(out + exact.subrange(out.len() as int, exact.len() as int) =~= out);
}

/// Safe API for formatting floating point numbers to text.
#[derive(Debug, Clone, Copy)]
pub struct Formatter;

/// The formatted text of a floating point number: a fixed buffer, the number
/// of its bytes in use, and the layout of those bytes.
#[derive(Debug, Clone, Copy)]
pub struct Formatted {
    bytes: [u8; BUFFER_LEN],
    meta: FormattedMeta,
    initialized: usize,
}

impl View for Formatted {
    type V = FormattedView;

    closed spec fn view(&self) -> FormattedView {
        FormattedView {
            text: self.bytes@.subrange(0, self.initialized as int),
            meta: self.meta,
        }
    }
}

impl Formatted {
    #[verifier::type_invariant]
    spec fn inv(&self) -> bool {
        &&& self.initialized <= BUFFER_LEN
        &&& layout_ok(self@)
    }

    /// The formatted text.
    pub fn as_str(&self) -> (r: &str)
        ensures
            r@ == ascii_chars(self@.text),
    {
        proof {
            use_type_invariant(self);
        }
        let b = self.as_bytes();
        proof {
            crate::layout::lemma_layout_ascii(self@);
        }
        ascii_str(b)
    }

    /// The layout of the text.
    pub fn meta(&self) -> (r: FormattedMeta)
        ensures
            r == self@.meta,
    {
        self.meta
    }

    /// The formatted text as bytes.
    pub fn as_bytes(&self) -> (r: &[u8])
        ensures
            r@ == self@.text,
    {
        proof {
            use_type_invariant(self);
        }
        slice_subrange(self.bytes.as_slice(), 0, self.initialized)
    }

    /// The text with `DECIMAL_PLACES` decimal places where the plain decimal
    /// form has at least that many; otherwise the text unchanged. It never
    /// pads.
    pub fn as_str_fixed_dp<const DECIMAL_PLACES: usize>(&self) -> (r: &str)
        ensures
            r@ == ascii_chars(fixed_dp_view(self@, DECIMAL_PLACES as nat)),
    {
        proof {
            use_type_invariant(self);
            crate::layout::lemma_layout_ascii(self@);
        }
        match self.meta {
            FormattedMeta::Decimal { offset_decimal_point } => {
                if DECIMAL_PLACES < self.initialized - offset_decimal_point {
                    let target_length = offset_decimal_point + DECIMAL_PLACES + 1;
                    let b = slice_subrange(self.bytes.as_slice(), 0, target_length);
                    assert(b@ =~= self@.text.subrange(0, target_length as int));
                    ascii_str(b)
                } else {
                    self.as_str()
                }
            },
            _ => self.as_str(),
        }
    }

    /// Copies the text into `buf` with exactly `DECIMAL_PLACES` decimal
    /// places: the fractional part is truncated or padded with zeros, an
    /// exponent is kept, a non-finite text is copied as it is. Returns the
    /// number of bytes written, or `None`, writing nothing, when `buf` is too
    /// small.
    pub fn copy_to_bytes<const DECIMAL_PLACES: usize>(&self, buf: &mut [u8]) -> (r: Option<usize>)
        ensures
            (r, final(buf)@) == copy_result(self@, DECIMAL_PLACES as nat, old(buf)@),
    {
        self.copy_places(buf, DECIMAL_PLACES)
    }

    fn copy_places(&self, buf: &mut [u8], n: usize) -> (r: Option<usize>)
        ensures
            (r, final(buf)@) == copy_result(self@, n as nat, old(buf)@),
    {
        proof {
            use_type_invariant(self);
        }
        match self.meta {
            FormattedMeta::Decimal { offset_decimal_point } => {
                self.copy_decimal(buf, offset_decimal_point, n)
            },
            FormattedMeta::Exponent { offset_decimal_point, offset_exponent } => {
                self.copy_exponent(buf, offset_decimal_point, offset_exponent, n)
            },
            FormattedMeta::Nonfinite => {
                let ghost start = buf@;
                let init = self.initialized;
                if buf.len() < init {
                    return None;
                }
                copy_into(buf, 0, &self.bytes, 0, init);
                assert(buf@ =~= self@.text + start.subrange(init as int, start.len() as int));
                Some(init)
            },
        }
    }

    fn copy_decimal(&self, buf: &mut [u8], p: usize, n: usize) -> (r: Option<usize>)
        requires
            self.initialized <= BUFFER_LEN,
            p < self.initialized,
            self@.meta == (FormattedMeta::Decimal { offset_decimal_point: p }),
        ensures
            (r, final(buf)@) == copy_result(self@, n as nat, old(buf)@),
    {
        let ghost start = buf@;
        let ghost out = fixed_dp_bytes(self@, n as nat);
        let init = self.initialized;
        let len = buf.len();
        if n == 0 {
            if len < p {
                return None;
            }
            copy_into(buf, 0, &self.bytes, 0, p);
            assert(buf@ =~= out + start.subrange(out.len() as int, start.len() as int));
            Some(p)
        } else {
            if len < p + 1 || len - p - 1 < n {
                return None;
            }
            let target_length = p + n + 1;
            if target_length <= init {
                copy_into(buf, 0, &self.bytes, 0, target_length);
            } else {
                copy_into(buf, 0, &self.bytes, 0, init);
                fill_zeros(buf, init, target_length - init);
                proof {
                    lemma_splice_twice(
                        start,
                        0,
                        self.bytes@.subrange(0, init as int),
                        zeros((target_length - init) as nat),
                    );
                }
            }
            assert(buf@ =~= out + start.subrange(out.len() as int, start.len() as int));
            Some(target_length)
        }
    }

    #[verifier::rlimit(40)]
    fn copy_exponent(&self, buf: &mut [u8], dp: Option<usize>, e: usize, n: usize) -> (r: Option<
        usize,
    >)
        requires
            self.initialized <= BUFFER_LEN,
            exp_int_end(dp, e) <= e < self.initialized,
            self@.meta == (FormattedMeta::Exponent { offset_decimal_point: dp, offset_exponent: e }),
        ensures
            (r, final(buf)@) == copy_result(self@, n as nat, old(buf)@),
    {
        let ghost start = buf@;
        let ghost t = self@.text;
        let init = self.initialized;
        let len = buf.len();
        let ip: usize = match dp {
            Some(q) => q,
            None => e,
        };
        let dlen = e - ip;
        let rest = init - dlen;
        if n == 0 {
            if len < rest {
                return None;
            }
        } else if len < rest + 1 || len - rest - 1 < n {
            return None;
        }
        let target_dec = if n == 0 {
            0
        } else {
            n + 1
        };
        let target_length = rest + target_dec;
        let ghost int_part = t.subrange(0, ip as int);
        let ghost new_frac = fit_fraction(t.subrange(ip as int, e as int), n as nat);
        let ghost exp_part = t.subrange(e as int, t.len() as int);
        copy_into(buf, 0, &self.bytes, 0, ip);
        let ghost after_int = buf@;
        if n > 0 {
            write_fraction(buf, ip, &self.bytes, dlen, n);
        }
        proof {
            assert(self.bytes@.subrange(0, ip as int) =~= int_part);
            assert(self.bytes@.subrange(ip as int, ip + dlen) =~= t.subrange(ip as int, e as int));
            if n == 0 {
                assert(buf@ =~= splice(after_int, ip as int, new_frac));
            }
        }
        copy_into(buf, ip + target_dec, &self.bytes, e, init);
        proof {
            assert(self.bytes@.subrange(e as int, init as int) =~= exp_part);
            lemma_splice_twice(start, 0, int_part, new_frac);
            lemma_splice_twice(start, 0, int_part + new_frac, exp_part);
            assert(fixed_dp_bytes(self@, n as nat) == int_part + new_frac + exp_part);
            assert(buf@ =~= fixed_dp_bytes(self@, n as nat) + start.subrange(
                target_length as int,
                start.len() as int,
            ));
        }
        Some(target_length)
    }
}

/// The rendering of `(-1)^neg * m * 10^k` with the given thresholds.
pub open spec fn rendering(neg: bool, m: nat, k: int, upper: int, lower: int) -> FormattedView {
    FormattedView {
        text: render_text(neg, m, k, upper, lower),
        meta: render_meta(neg, m, k, upper, lower),
    }
}

/// Plain decimal form for binary64 where the decimal point falls after at
/// most 16 digits or before at most 4 leading zeros.
pub open spec fn rendering64(neg: bool, m: nat, k: int) -> FormattedView {
    rendering(neg, m, k, 16, -5)
}

/// Plain decimal form for binary32 where the decimal point falls after at
/// most 13 digits or before at most 5 leading zeros.
pub open spec fn rendering32(neg: bool, m: nat, k: int) -> FormattedView {
    rendering(neg, m, k, 13, -6)
}

/// The decimal of a finite binary64 bit pattern: zero for a zero, else the
/// decimal that the digit generator computes from the fields.
pub open spec fn decimal64(bits: u64) -> (nat, int) {
    if f64_exponent(bits) == 0 && f64_mantissa(bits) == 0 {
        (0, 0)
    } else {
        let d = d2d_spec(f64_mantissa(bits) as u64, f64_exponent(bits) as u32);
        (d.mantissa as nat, d.exponent as int)
    }
}

/// The decimal of a finite binary32 bit pattern.
pub open spec fn decimal32(bits: u32) -> (nat, int) {
    if f32_exponent(bits) == 0 && f32_mantissa(bits) == 0 {
        (0, 0)
    } else {
        let d = f2d_spec(f32_mantissa(bits) as u32, f32_exponent(bits) as u32);
        (d.mantissa as nat, d.exponent as int)
    }
}

/// The text of a finite binary64 bit pattern: its decimal with its sign.
pub open spec fn finite_view64(bits: u64) -> FormattedView {
    rendering64(f64_sign(bits), decimal64(bits).0, decimal64(bits).1)
}

/// The text of a finite binary32 bit pattern: its decimal with its sign.
pub open spec fn finite_view32(bits: u32) -> FormattedView {
    rendering32(f32_sign(bits), decimal32(bits).0, decimal32(bits).1)
}

/// The text of a non-finite value with the given fields.
pub open spec fn nonfinite_view(sign: bool, mantissa: nat) -> FormattedView {
    FormattedView {
        text: if mantissa != 0 {
            nan_text()
        } else if sign {
            neg_inf_text()
        } else {
            inf_text()
        },
        meta: FormattedMeta::Nonfinite,
    }
}

/// The text of any binary64 bit pattern.
pub open spec fn format_view64(bits: u64) -> FormattedView {
    if f64_exponent(bits) == 0x7ff {
        nonfinite_view(f64_sign(bits), f64_mantissa(bits))
    } else {
        finite_view64(bits)
    }
}

/// The text of any binary32 bit pattern.
pub open spec fn format_view32(bits: u32) -> FormattedView {
    if f32_exponent(bits) == 0xff {
        nonfinite_view(f32_sign(bits), f32_mantissa(bits))
    } else {
        finite_view32(bits)
    }
}

/// The text of a finite binary64 value reads back as its decimal, with the
/// value's sign (a zero, with its sign, as zero).
pub proof fn lemma_finite_text_denotes64(bits: u64)
    ensures
        denotes(finite_view64(bits), f64_sign(bits), decimal64(bits).0, decimal64(bits).1),
{
    let d = decimal64(bits);
    crate::common::lemma_u64_digits(d.0 as u64);
    lemma_render_denotes(f64_sign(bits), d.0, d.1, 16, -5);
}

/// The text of a finite binary32 value reads back as its decimal, with the
/// value's sign (a zero, with its sign, as zero).
pub proof fn lemma_finite_text_denotes32(bits: u32)
    ensures
        denotes(finite_view32(bits), f32_sign(bits), decimal32(bits).0, decimal32(bits).1),
{
    let d = decimal32(bits);
    crate::common::lemma_u64_digits(d.0 as u64);
    lemma_render_denotes(f32_sign(bits), d.0, d.1, 13, -6);
}

/// On a finite value the checked entry point gives the same text as the
/// finite-only one.
pub proof fn lemma_entry_points_agree(bits64: u64, bits32: u32)
    ensures
        f64_exponent(bits64) != 0x7ff ==> format_view64(bits64) == finite_view64(bits64),
        f32_exponent(bits32) != 0xff ==> format_view32(bits32) == finite_view32(bits32),
{
}

proof fn lemma_render_negated(m: nat, k: int, upper: int, lower: int)
    ensures
        render_text(true, m, k, upper, lower) == seq![crate::digits::MINUS] + render_text(
            false,
            m,
            k,
            upper,
            lower,
        ),
{
    let d = crate::digits::dec(m);
    let len = d.len() as int;
    let kk = len + k;
    let t = render_text(true, m, k, upper, lower);
    let u = render_text(false, m, k, upper, lower);
    assert(crate::layout::sign_text(false) =~= Seq::<u8>::empty());
    assert(t =~= seq![crate::digits::MINUS] + u);
}

/// Negating a finite binary64 value only puts a minus sign in front of its
/// text.
pub proof fn lemma_negation64(bits: u64)
    requires
        bits < 0x8000_0000_0000_0000,
        f64_exponent(bits) != 0x7ff,
    ensures
        finite_view64((bits + 0x8000_0000_0000_0000) as u64).text == seq![crate::digits::MINUS]
            + finite_view64(bits).text,
{
    let n = (bits + 0x8000_0000_0000_0000) as u64;
    assert(f64_exponent(n) == f64_exponent(bits));
    assert(f64_mantissa(n) == f64_mantissa(bits));
    let d = decimal64(bits);
    lemma_render_negated(d.0, d.1, 16, -5);
}

/// Negating a finite binary32 value only puts a minus sign in front of its
/// text.
pub proof fn lemma_negation32(bits: u32)
    requires
        bits < 0x8000_0000,
        f32_exponent(bits) != 0xff,
    ensures
        finite_view32((bits + 0x8000_0000) as u32).text == seq![crate::digits::MINUS]
            + finite_view32(bits).text,
{
    let n = (bits + 0x8000_0000) as u32;
    assert(f32_exponent(n) == f32_exponent(bits));
    assert(f32_mantissa(n) == f32_mantissa(bits));
    let d = decimal32(bits);
    lemma_render_negated(d.0, d.1, 13, -6);
}

impl Formatted {
    fn from_rendering(neg: bool, m: u64, k: i32, upper: i32, lower: i32) -> (r: Formatted)
        requires
            -1100 <= k <= 400,
            0 < upper <= 16,
            -6 <= lower < 0,
        ensures
            r@ == rendering(neg, m as nat, k as int, upper as int, lower as int),
    {
        let (bytes, initialized, meta) = render(neg, m, k, upper, lower);
        proof {
            crate::common::lemma_u64_digits(m);
            lemma_render_layout(neg, m as nat, k as int, upper as int, lower as int);
        }
        let r = Formatted { bytes, meta, initialized };
        assert(r@ == rendering(neg, m as nat, k as int, upper as int, lower as int));
        r
    }

    /// One of the three fixed texts of a non-finite value.
    fn nonfinite(sign: bool, nan: bool) -> (r: Formatted)
        ensures
            r@.meta == FormattedMeta::Nonfinite,
            r@.text == (if nan {
                nan_text()
            } else if sign {
                neg_inf_text()
            } else {
                inf_text()
            }),
    {
        let mut bytes = [0u8; BUFFER_LEN];
        let initialized: usize;
        if nan {
            bytes[0] = 78;
            bytes[1] = 97;
            bytes[2] = 78;
            initialized = 3;
        } else if sign {
            bytes[0] = 45;
            bytes[1] = 105;
            bytes[2] = 110;
            bytes[3] = 102;
            initialized = 4;
        } else {
            bytes[0] = 105;
            bytes[1] = 110;
            bytes[2] = 102;
            initialized = 3;
        }
        assert(bytes@.subrange(0, initialized as int) =~= (if nan {
            nan_text()
        } else if sign {
            neg_inf_text()
        } else {
            inf_text()
        }));
        Formatted { bytes, meta: FormattedMeta::Nonfinite, initialized }
    }
}

/// A floating-point bit pattern that can be formatted to text: `u64` holds
/// a binary64 value, `u32` a binary32 value.
pub trait Float: Copy {
    spec fn formats_as(self, v: FormattedView) -> bool;

    fn format(self) -> (r: Formatted)
        ensures
            self.formats_as(r@),
    ;
}

impl Float for u64 {
    open spec fn formats_as(self, v: FormattedView) -> bool {
        v == format_view64(self)
    }

    fn format(self) -> (r: Formatted) {
        Formatter::format_f64(self)
    }
}

impl Float for u32 {
    open spec fn formats_as(self, v: FormattedView) -> bool {
        v == format_view32(self)
    }

    fn format(self) -> (r: Formatted) {
        Formatter::format_f32(self)
    }
}

impl Formatter {
    /// Formats a floating-point value given by its bit pattern. NaN becomes
    /// `NaN`, the infinities `inf` and `-inf`.
    pub fn format<F: Float>(f: F) -> (r: Formatted)
        ensures
            f.formats_as(r@),
    {
        f.format()
    }

    /// Formats the binary64 value with bit pattern `bits`.
    pub fn format_f64(bits: u64) -> (r: Formatted)
        ensures
            r@ == format_view64(bits),
    {
        if is_nonfinite_f64(bits) {
            let c = decompose_f64(bits);
            Formatted::nonfinite(c.sign, c.mantissa != 0)
        } else {
            Self::format_finite_f64(bits)
        }
    }

    /// Formats the binary32 value with bit pattern `bits`.
    pub fn format_f32(bits: u32) -> (r: Formatted)
        ensures
            r@ == format_view32(bits),
    {
        if is_nonfinite_f32(bits) {
            let c = decompose_f32(bits);
            Formatted::nonfinite(c.sign, c.mantissa != 0)
        } else {
            Self::format_finite_f32(bits)
        }
    }

    /// Formats the binary64 value with bit pattern `bits`, which the caller
    /// knows to be finite. A NaN or an infinity gives some well-formed
    /// number.
    pub fn format_finite_f64(bits: u64) -> (r: Formatted)
        ensures
            r@ == finite_view64(bits),
    {
        let c = decompose_f64(bits);
        if c.exponent == 0 && c.mantissa == 0 {
            Formatted::from_rendering(c.sign, 0, 0, 16, -5)
        } else {
            let v = d2d::<FullTable>(c.mantissa, c.exponent);
            Formatted::from_rendering(c.sign, v.mantissa, v.exponent, 16, -5)
        }
    }

    /// Formats the binary32 value with bit pattern `bits`, which the caller
    /// knows to be finite.
    pub fn format_finite_f32(bits: u32) -> (r: Formatted)
        ensures
            r@ == finite_view32(bits),
    {
        let c = decompose_f32(bits);
        if c.exponent == 0 && c.mantissa == 0 {
            Formatted::from_rendering(c.sign, 0, 0, 13, -6)
        } else {
            let v = f2d::<FullTable>(c.mantissa as u32, c.exponent);
            Formatted::from_rendering(c.sign, v.mantissa as u64, v.exponent, 13, -6)
        }
    }
}

} // verus!
