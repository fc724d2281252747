//! Rendering of one conversion: integers, characters and strings with
//! their flags, width and precision, as C's `printf` lays them out.

use vstd::prelude::*;
use super::parser::ConversionSpecifier;
use super::parser::ConversionType;
use super::parser::NumericParam;
use super::parser::PrintfError;
use crate::mb_rpcs::ptr_to_i32;
use crate::mb_rpcs::spec_ptr_to_i32;
use crate::mb_rpcs::i32_to_ptr;
use crate::mb_rpcs::spec_i32_to_ptr;

verus! {

/// A rendered text or an error, the text as a sequence of bytes.
pub open spec fn result_view(r: Result<Vec<u8>, PrintfError>) -> Result<Seq<u8>, PrintfError> {
    match r {
        Ok(v) => Ok(v@),
        Err(e) => Err(e),
    }
}

/// A value that a conversion specification can render.
pub trait Printf {
    /// What the value needs to be rendered at all.
    spec fn inv(&self) -> bool;

    /// The text of the value under `spec`; nothing where the text is left
    /// to the platform.
    spec fn spec_format(&self, spec: ConversionSpecifier) -> Option<Result<Seq<u8>, PrintfError>>;

    /// The value as a width or a precision, where it can be one.
    spec fn spec_as_int(&self, spec: ConversionSpecifier) -> Option<i32>;

    /// Renders the value under `spec`, whose width and precision are
    /// literal.
    fn format(&self, spec: &ConversionSpecifier) -> (r: Result<Vec<u8>, PrintfError>)
        requires
            self.inv(),
        ensures
            self.spec_format(*spec) matches Some(text) ==> result_view(r) == text,
    ;

    /// The value as the width or precision that a `*` asks for.
    fn as_int(&self, spec: &ConversionSpecifier) -> (r: Option<i32>)
        requires
            self.inv(),
        ensures
            r == self.spec_as_int(*spec),
    ;
}

/// The character of one digit.
pub open spec fn spec_digit(d: nat, upper: bool) -> u8 {
    if d < 10 {
        (0x30 + d) as u8
    } else if upper {
        (0x41 + d - 10) as u8
    } else {
        (0x61 + d - 10) as u8
    }
}

/// The digits of `v` in `base`, most significant first; zero is `0`.
pub open spec fn spec_digits(v: nat, base: nat, upper: bool) -> Seq<u8>
    decreases v,
{
    if base < 2 || v < base {
        seq![spec_digit(v, upper)]
    } else {
        proof {
            assert(v / base < v) by (nonlinear_arith)
                requires
                    base >= 2,
                    v >= base,
            ;
        }
        spec_digits(v / base, base, upper).push(spec_digit(v % base, upper))
    }
}

/// `n` times the byte `c`; nothing where `n` is not positive.
pub open spec fn spec_repeat(c: u8, n: int) -> Seq<u8> {
    Seq::new(
        if n > 0 {
            n as nat
        } else {
            0
        },
        |i: int| c,
    )
}

/// Whether a conversion renders an integer.
pub open spec fn is_int_conversion(t: ConversionType) -> bool {
    t == ConversionType::DecInt || t == ConversionType::DecUInt || t == ConversionType::OctInt || t
        == ConversionType::HexIntLower || t == ConversionType::HexIntUpper
}

/// The base of an integer conversion.
pub open spec fn spec_base(t: ConversionType) -> nat {
    if t == ConversionType::OctInt {
        8
    } else if t == ConversionType::HexIntLower || t == ConversionType::HexIntUpper {
        16
    } else {
        10
    }
}

/// The digits of an integer of magnitude `mag` with precision `p`: at
/// least `p` of them, none for zero under precision 0, and for `#o` a
/// leading `0`.
pub open spec fn spec_int_digits(mag: nat, p: int, spec: ConversionSpecifier) -> Seq<u8> {
    let t = spec.conversion_type;
    let raw = if mag == 0 && p == 0 {
        Seq::<u8>::empty()
    } else {
        spec_digits(mag, spec_base(t), t == ConversionType::HexIntUpper)
    };
    let num = spec_repeat(0x30, p - raw.len()) + raw;
    if t == ConversionType::OctInt && spec.alt_form && (num.len() == 0 || num[0] != 0x30) {
        seq![0x30u8] + num
    } else {
        num
    }
}

/// What stands in front of the digits: for `d` and `i` the sign, `-` or,
/// as the flags ask, `+` or a space; for `#x` and `#X` of a value other
/// than zero, `0x` and `0X`.
pub open spec fn spec_int_head(neg: bool, mag: nat, spec: ConversionSpecifier) -> Seq<u8> {
    let t = spec.conversion_type;
    if t == ConversionType::DecInt {
        if neg {
            seq![0x2du8]
        } else if spec.force_sign {
            seq![0x2bu8]
        } else if spec.space_sign {
            seq![0x20u8]
        } else {
            seq![]
        }
    } else if spec.alt_form && mag != 0 && t == ConversionType::HexIntLower {
        seq![0x30u8, 0x78u8]
    } else if spec.alt_form && mag != 0 && t == ConversionType::HexIntUpper {
        seq![0x30u8, 0x58u8]
    } else {
        seq![]
    }
}

/// `head` and `num` in a field of width `w`: padded with spaces on the
/// right under `-`, with zeros between head and digits where `zeros`
/// holds, with spaces on the left else.
pub open spec fn spec_field(
    head: Seq<u8>,
    num: Seq<u8>,
    w: int,
    left_adj: bool,
    zeros: bool,
) -> Seq<u8> {
    let fill = w - (head.len() + num.len());
    if left_adj {
        head + num + spec_repeat(0x20, fill)
    } else if zeros {
        head + spec_repeat(0x30, fill) + num
    } else {
        spec_repeat(0x20, fill) + head + num
    }
}

/// An integer, given by sign and magnitude, under `spec`. The flag `0`
/// counts only without `-` and without a precision; a negative precision
/// is none. `WrongType` for a conversion that renders no integer,
/// `Unknown` where width or precision is still to be taken from the
/// arguments.
pub open spec fn spec_format_int(neg: bool, mag: nat, spec: ConversionSpecifier) -> Result<
    Seq<u8>,
    PrintfError,
> {
    if !is_int_conversion(spec.conversion_type) {
        Err(PrintfError::WrongType)
    } else {
        match (spec.width, spec.precision) {
            (NumericParam::Literal(w), NumericParam::Literal(p)) => Ok(
                spec_field(
                    spec_int_head(neg, mag, spec),
                    spec_int_digits(mag, p as int, spec),
                    w as int,
                    spec.left_adj,
                    spec.zero_pad && p < 0,
                ),
            ),
            _ => Err(PrintfError::Unknown),
        }
    }
}

/// A word of the protocol under an integer conversion: signed for `d` and
/// `i`, unsigned for the others.
pub open spec fn spec_format_word(word: u32, spec: ConversionSpecifier) -> Result<
    Seq<u8>,
    PrintfError,
> {
    if spec.conversion_type == ConversionType::DecInt {
        let v = spec_ptr_to_i32(word);
        spec_format_int(
            v < 0,
            if v < 0 {
                (-v) as nat
            } else {
                v as nat
            },
            spec,
        )
    } else {
        spec_format_int(false, word as nat, spec)
    }
}

/// Bytes in a field: cut to the precision where one is given, padded with
/// spaces to the width.
pub open spec fn spec_format_bytes(s: Seq<u8>, spec: ConversionSpecifier) -> Result<
    Seq<u8>,
    PrintfError,
> {
    match (spec.width, spec.precision) {
        (NumericParam::Literal(w), NumericParam::Literal(p)) => {
            let body = if 0 <= p < s.len() {
                s.subrange(0, p as int)
            } else {
                s
            };
            Ok(spec_field(Seq::<u8>::empty(), body, w as int, spec.left_adj, false))
        },
        _ => Err(PrintfError::Unknown),
    }
}

/// One byte in a field: padded with spaces to the width.
pub open spec fn spec_format_char(c: u8, spec: ConversionSpecifier) -> Result<
    Seq<u8>,
    PrintfError,
> {
    match spec.width {
        NumericParam::Literal(w) => Ok(
            spec_field(Seq::<u8>::empty(), seq![c], w as int, spec.left_adj, false),
        ),
        _ => Err(PrintfError::Unknown),
    }
}

fn digit_of(d: u32, upper: bool) -> (c: u8)
    requires
        d < 16,
    ensures
        c == spec_digit(d as nat, upper),
{
    if d < 10 {
        (0x30 + d) as u8
    } else if upper {
        (0x41 + d - 10) as u8
    } else {
        (0x61 + d - 10) as u8
    }
}

/// The digits of `v` in `base`, most significant first.
pub fn digits_of(v: u32, base: u32, upper: bool) -> (r: Vec<u8>)
    requires
        2 <= base <= 16,
    ensures
        r@ == spec_digits(v as nat, base as nat, upper),
        1 <= r.len() <= 32,
    decreases v,
{
    if v < base {
        let mut r: Vec<u8> = Vec::new();
        r.push(digit_of(v, upper));
        r
    } else {
        let q = v / base;
        assert(q < v) by (nonlinear_arith)
            requires
                q == v / base,
                base >= 2,
                v >= base,
        ;
        let mut r = digits_of(q, base, upper);
        proof {
            lemma_digits_len(q as nat, base as nat, upper);
            lemma_digits_len(v as nat, base as nat, upper);
        }
        r.push(digit_of(v % base, upper));
        r
    }
}

/// A number below `2^k` has no more than `k` digits in any base.
pub proof fn lemma_digits_len(v: nat, base: nat, upper: bool)
    requires
        2 <= base,
        v < 0x1_0000_0000,
    ensures
        1 <= spec_digits(v, base, upper).len() <= 32,
{
    vstd::arithmetic::power2::lemma2_to64();
    lemma_digits_bound(v, base, upper, 32);
}

/// A number below `2^k` has no more than `k` digits, and a number below
/// the base has one.
pub proof fn lemma_digits_bound(v: nat, base: nat, upper: bool, k: nat)
    requires
        2 <= base,
        k >= 1,
        v < vstd::arithmetic::power2::pow2(k),
    ensures
        1 <= spec_digits(v, base, upper).len() <= k,
    decreases v,
{
    vstd::arithmetic::power2::lemma2_to64();
    if v >= base {
        vstd::arithmetic::power2::lemma_pow2_unfold(k);
        let q = v / base;
        assert(q <= v / 2 && q < v) by (nonlinear_arith)
            requires
                q == v / base,
                base >= 2,
                v >= base,
        ;
        lemma_digits_bound(q, base, upper, (k - 1) as nat);
    }
}

/// Appends `n` times the byte `c`.
pub fn push_n(v: &mut Vec<u8>, c: u8, n: usize)
    ensures
        final(v)@ == old(v)@ + spec_repeat(c, n as int),
{
    let mut k: usize = 0;
    while k < n
        invariant
            k <= n,
            v@ == old(v)@ + spec_repeat(c, k as int),
        decreases n - k,
    {
        v.push(c);
        k = k + 1;
    }
}

/// Appends `n` times the byte `c`; nothing where `n` is not positive.
fn push_fill(v: &mut Vec<u8>, c: u8, n: i64)
    requires
        n <= i32::MAX,
    ensures
        final(v)@ == old(v)@ + spec_repeat(c, n as int),
{
    if n > 0 {
        push_n(v, c, n as usize);
    }
}

/// `head` and `num` in a field of width `w`.
fn field(head: &Vec<u8>, num: &Vec<u8>, w: i32, left_adj: bool, zeros: bool) -> (r: Vec<u8>)
    requires
        head.len() <= 8,
        num.len() <= 0x8000_0000,
    ensures
        r@ == spec_field(head@, num@, w as int, left_adj, zeros),
{
    let fill: i64 = w as i64 - (head.len() as i64 + num.len() as i64);
    let mut r: Vec<u8> = Vec::new();
    if left_adj {
        r.extend_from_slice(head.as_slice());
        r.extend_from_slice(num.as_slice());
        push_fill(&mut r, 0x20, fill);
    } else if zeros {
        r.extend_from_slice(head.as_slice());
        push_fill(&mut r, 0x30, fill);
        r.extend_from_slice(num.as_slice());
    } else {
        push_fill(&mut r, 0x20, fill);
        r.extend_from_slice(head.as_slice());
        r.extend_from_slice(num.as_slice());
    }
    r
}

fn int_head(neg: bool, mag: u32, spec: &ConversionSpecifier) -> (r: Vec<u8>)
    ensures
        r@ == spec_int_head(neg, mag as nat, *spec),
        r.len() <= 2,
{
    let mut r: Vec<u8> = Vec::new();
    match spec.conversion_type {
        ConversionType::DecInt => {
            if neg {
                r.push(0x2d);
            } else if spec.force_sign {
                r.push(0x2b);
            } else if spec.space_sign {
                r.push(0x20);
            }
        },
        ConversionType::HexIntLower => {
            if spec.alt_form && mag != 0 {
                r.push(0x30);
                r.push(0x78);
            }
        },
        ConversionType::HexIntUpper => {
            if spec.alt_form && mag != 0 {
                r.push(0x30);
                r.push(0x58);
            }
        },
        _ => {},
    }
    r
}

fn int_digits(mag: u32, p: i32, spec: &ConversionSpecifier) -> (r: Vec<u8>)
    requires
        is_int_conversion(spec.conversion_type),
    ensures
        r@ == spec_int_digits(mag as nat, p as int, *spec),
        r.len() <= 0x8000_0000,
{
    let (base, upper): (u32, bool) = match spec.conversion_type {
        ConversionType::OctInt => (8, false),
        ConversionType::HexIntLower => (16, false),
        ConversionType::HexIntUpper => (16, true),
        _ => (10, false),
    };
    let raw: Vec<u8> = if mag == 0 && p == 0 {
        Vec::new()
    } else {
        digits_of(mag, base, upper)
    };
    let mut num: Vec<u8> = Vec::new();
    push_fill(&mut num, 0x30, p as i64 - raw.len() as i64);
    num.extend_from_slice(raw.as_slice());
    let is_oct = match spec.conversion_type {
        ConversionType::OctInt => true,
        _ => false,
    };
    if is_oct && spec.alt_form && (num.len() == 0 || num[0] != 0x30) {
        let mut r: Vec<u8> = Vec::new();
        r.push(0x30);
        r.extend_from_slice(num.as_slice());
        r
    } else {
        num
    }
}

/// Renders an integer, given by sign and magnitude.
pub fn format_int(neg: bool, mag: u32, spec: &ConversionSpecifier) -> (r: Result<
    Vec<u8>,
    PrintfError,
>)
    ensures
        result_view(r) == spec_format_int(neg, mag as nat, *spec),
{
    let is_int = match spec.conversion_type {
        ConversionType::DecInt
        | ConversionType::DecUInt
        | ConversionType::OctInt
        | ConversionType::HexIntLower
        | ConversionType::HexIntUpper => true,
        _ => false,
    };
    if !is_int {
        return Err(PrintfError::WrongType);
    }
    match (spec.width, spec.precision) {
        (NumericParam::Literal(w), NumericParam::Literal(p)) => {
            let head = int_head(neg, mag, spec);
            let num = int_digits(mag, p, spec);
            Ok(field(&head, &num, w, spec.left_adj, spec.zero_pad && p < 0))
        },
        _ => Err(PrintfError::Unknown),
    }
}

/// Renders a word of the protocol under an integer conversion.
pub fn format_word(word: u32, spec: &ConversionSpecifier) -> (r: Result<Vec<u8>, PrintfError>)
    ensures
        result_view(r) == spec_format_word(word, *spec),
{
    let signed = match spec.conversion_type {
        ConversionType::DecInt => true,
        _ => false,
    };
    if signed {
        let v = ptr_to_i32(word);
        if v < 0 {
            let mag: u32 = (0 - (v as i64)) as u32;
            format_int(true, mag, spec)
        } else {
            format_int(false, v as u32, spec)
        }
    } else {
        format_int(false, word, spec)
    }
}

/// Renders bytes in a field.
pub fn format_bytes(s: &[u8], spec: &ConversionSpecifier) -> (r: Result<Vec<u8>, PrintfError>)
    requires
        s.len() <= 0x8000_0000,
    ensures
        result_view(r) == spec_format_bytes(s@, *spec),
{
    match (spec.width, spec.precision) {
        (NumericParam::Literal(w), NumericParam::Literal(p)) => {
            let end: usize = if 0 <= p && (p as usize) < s.len() {
                p as usize
            } else {
                s.len()
            };
            let body = super::parser::copy_range(s, 0, end);
            assert(s@.subrange(0, s@.len() as int) =~= s@);
            let head: Vec<u8> = Vec::new();
            Ok(field(&head, &body, w, spec.left_adj, false))
        },
        _ => Err(PrintfError::Unknown),
    }
}

/// Renders one byte in a field.
pub fn format_char(c: u8, spec: &ConversionSpecifier) -> (r: Result<Vec<u8>, PrintfError>)
    ensures
        result_view(r) == spec_format_char(c, *spec),
{
    match spec.width {
        NumericParam::Literal(w) => {
            let head: Vec<u8> = Vec::new();
            let mut body: Vec<u8> = Vec::new();
            body.push(c);
            Ok(field(&head, &body, w, spec.left_adj, false))
        },
        _ => Err(PrintfError::Unknown),
    }
}

/// An unsigned number: every integer conversion renders its value, `%c`
/// the byte that it is, where it is one.
impl Printf for u32 {
    open spec fn inv(&self) -> bool {
        true
    }

    open spec fn spec_format(&self, spec: ConversionSpecifier) -> Option<
        Result<Seq<u8>, PrintfError>,
    > {
        if spec.conversion_type == ConversionType::Char {
            if *self < 256 {
                Some(spec_format_char(*self as u8, spec))
            } else {
                Some(Err(PrintfError::WrongType))
            }
        } else {
            Some(spec_format_int(false, *self as nat, spec))
        }
    }

    open spec fn spec_as_int(&self, spec: ConversionSpecifier) -> Option<i32> {
        if *self <= i32::MAX {
            Some(*self as i32)
        } else {
            None
        }
    }

    fn format(&self, spec: &ConversionSpecifier) -> (r: Result<Vec<u8>, PrintfError>) {
        let is_char = match spec.conversion_type {
            ConversionType::Char => true,
            _ => false,
        };
        if is_char {
            if *self < 256 {
                format_char(*self as u8, spec)
            } else {
                Err(PrintfError::WrongType)
            }
        } else {
            format_int(false, *self, spec)
        }
    }

    fn as_int(&self, spec: &ConversionSpecifier) -> (r: Option<i32>) {
        if *self <= 0x7fff_ffff {
            Some(*self as i32)
        } else {
            None
        }
    }
}

/// A signed number: `%d` and `%i` render its value, the other integer
/// conversions the 32 bits that hold it.
impl Printf for i32 {
    open spec fn inv(&self) -> bool {
        true
    }

    open spec fn spec_format(&self, spec: ConversionSpecifier) -> Option<
        Result<Seq<u8>, PrintfError>,
    > {
        Some(spec_format_word(spec_i32_to_ptr(*self), spec))
    }

    open spec fn spec_as_int(&self, spec: ConversionSpecifier) -> Option<i32> {
        Some(*self)
    }

    fn format(&self, spec: &ConversionSpecifier) -> (r: Result<Vec<u8>, PrintfError>) {
        format_word(i32_to_ptr(*self), spec)
    }

    fn as_int(&self, spec: &ConversionSpecifier) -> (r: Option<i32>) {
        Some(*self)
    }
}

} // verus!
