//! The grammar of a format string: runs of verbatim bytes and conversion
//! specifications, each `%`, flags, width, precision, length and conversion.

use vstd::prelude::*;
use vstd::slice::slice_subrange;

verus! {

/// Why a format could not be rendered.
#[derive(Debug, Clone, Copy, PartialEq, Eq, Structural)]
pub enum PrintfError {
    /// The format string is malformed.
    ParseError,
    /// An argument does not fit the conversion.
    WrongType,
    /// Arguments are left over.
    TooManyArgs,
    /// The format asks for more arguments than were given.
    NotEnoughArgs,
    /// The conversion is not available; the reason is given.
    Other(PrintfOther),
    /// A specification reached the formatter with a width or precision
    /// still to be taken from the arguments.
    Unknown,
}

/// Why a conversion is not available.
#[derive(Debug, Clone, Copy, PartialEq, Eq, Structural)]
pub enum PrintfOther {
    /// `long long` integers need a wider word than the protocol has.
    LongLongInt,
    /// `long double` is not supported.
    LongDouble,
    /// `double` needs a wider word than the protocol has.
    Double,
    /// Floating point is not rendered here.
    Float,
    /// The string of a `%s` could not be read.
    Io,
}

/// Width or precision of a conversion.
#[derive(Debug, Clone, Copy, PartialEq, Eq, Structural)]
pub enum NumericParam {
    /// Given in the format. A negative precision stands for none.
    Literal(i32),
    /// Taken from the next argument.
    FromArgument,
}

/// The conversions.
#[derive(Debug, Clone, Copy, PartialEq, Eq, Structural)]
pub enum ConversionType {
    /// `d` or `i`
    DecInt,
    /// `u`
    DecUInt,
    /// `o`
    OctInt,
    /// `x` or `p`
    HexIntLower,
    /// `X`
    HexIntUpper,
    /// `e`
    SciFloatLower,
    /// `E`
    SciFloatUpper,
    /// `f`
    DecFloatLower,
    /// `F`
    DecFloatUpper,
    /// `g`
    CompactFloatLower,
    /// `G`
    CompactFloatUpper,
    /// `c`
    Char,
    /// `s`
    String,
    /// `%`
    PercentSign,
}

/// A parsed conversion specification.
#[derive(Debug, Clone, Copy, PartialEq, Eq, Structural)]
pub struct ConversionSpecifier {
    /// length `l`
    pub long: bool,
    /// length `ll` or `L`
    pub long_long: bool,
    /// flag `#`
    pub alt_form: bool,
    /// flag `0`
    pub zero_pad: bool,
    /// flag `-`
    pub left_adj: bool,
    /// flag space
    pub space_sign: bool,
    /// flag `+`
    pub force_sign: bool,
    /// field width
    pub width: NumericParam,
    /// precision
    pub precision: NumericParam,
    /// the conversion
    pub conversion_type: ConversionType,
}

/// A piece of a format string.
#[derive(Debug, Clone)]
pub enum FormatElement {
    Verbatim(Vec<u8>),
    Format(ConversionSpecifier),
}

/// A piece of a format string, its bytes as a sequence.
pub enum FormatElementView {
    Verbatim(Seq<u8>),
    Format(ConversionSpecifier),
}

impl View for FormatElement {
    type V = FormatElementView;

    open spec fn view(&self) -> FormatElementView {
        match self {
            FormatElement::Verbatim(v) => FormatElementView::Verbatim(v@),
            FormatElement::Format(s) => FormatElementView::Format(*s),
        }
    }
}

/// The pieces of a parsed format, each by its view.
pub open spec fn elements_view(elems: Seq<FormatElement>) -> Seq<FormatElementView> {
    elems.map_values(|e: FormatElement| e@)
}

/// The precision of a specification that gives none.
pub const NO_PRECISION: i32 = -1;

/// The specification that a lone `%` starts with: no flag, no width, no
/// precision.
pub open spec fn spec_plain_specifier() -> ConversionSpecifier {
    ConversionSpecifier {
        long: false,
        long_long: false,
        alt_form: false,
        zero_pad: false,
        left_adj: false,
        space_sign: false,
        force_sign: false,
        width: NumericParam::Literal(0),
        precision: NumericParam::Literal(NO_PRECISION),
        conversion_type: ConversionType::DecInt,
    }
}

pub open spec fn is_digit(c: u8) -> bool {
    0x30 <= c <= 0x39
}

/// Where the run of decimal digits that starts at `i` ends.
pub open spec fn scan_digits(s: Seq<u8>, i: int) -> int
    decreases s.len() - i,
{
    if 0 <= i < s.len() && is_digit(s[i]) {
        scan_digits(s, i + 1)
    } else {
        i
    }
}

/// The number that a string of decimal digits denotes.
pub open spec fn spec_decimal(s: Seq<u8>) -> nat
    decreases s.len(),
{
    if s.len() == 0 {
        0
    } else {
        spec_decimal(s.drop_last()) * 10 + (s.last() - 0x30) as nat
    }
}

/// A number as a width or precision can hold it: no more than `i32::MAX`.
pub open spec fn spec_clip(v: nat) -> i32 {
    if v > i32::MAX {
        i32::MAX
    } else {
        v as i32
    }
}

/// The specification with the flags of `s` from `i` on, and where they end.
pub open spec fn scan_flags(s: Seq<u8>, i: int, spec: ConversionSpecifier) -> (
    ConversionSpecifier,
    int,
)
    decreases s.len() - i,
{
    if 0 <= i < s.len() {
        if s[i] == 0x23 {
            scan_flags(s, i + 1, ConversionSpecifier { alt_form: true, ..spec })
        } else if s[i] == 0x30 {
            scan_flags(s, i + 1, ConversionSpecifier { zero_pad: true, ..spec })
        } else if s[i] == 0x2d {
            scan_flags(s, i + 1, ConversionSpecifier { left_adj: true, ..spec })
        } else if s[i] == 0x20 {
            scan_flags(s, i + 1, ConversionSpecifier { space_sign: true, ..spec })
        } else if s[i] == 0x2b {
            scan_flags(s, i + 1, ConversionSpecifier { force_sign: true, ..spec })
        } else {
            (spec, i)
        }
    } else {
        (spec, i)
    }
}

/// The width at `i` and where it ends: `*`, or digits that do not start
/// with `0`, or nothing, which is width 0.
pub open spec fn spec_width_at(s: Seq<u8>, i: int) -> (NumericParam, int) {
    if 0 <= i < s.len() && s[i] == 0x2a {
        (NumericParam::FromArgument, i + 1)
    } else if 0 <= i < s.len() && 0x31 <= s[i] <= 0x39 {
        let end = scan_digits(s, i);
        (NumericParam::Literal(spec_clip(spec_decimal(s.subrange(i, end)))), end)
    } else {
        (NumericParam::Literal(0), i)
    }
}

/// The precision behind a `.` at `i` and where it ends: `*`, or digits, or
/// nothing, which is precision 0.
pub open spec fn spec_precision_at(s: Seq<u8>, i: int) -> (NumericParam, int) {
    if 0 <= i < s.len() && s[i] == 0x2a {
        (NumericParam::FromArgument, i + 1)
    } else {
        let end = scan_digits(s, i);
        (NumericParam::Literal(spec_clip(spec_decimal(s.subrange(i, end)))), end)
    }
}

/// Whether `pat` stands in `s` at `i`.
pub open spec fn has_at(s: Seq<u8>, i: int, pat: Seq<u8>) -> bool {
    0 <= i && i + pat.len() <= s.len() && s.subrange(i, i + pat.len()) == pat
}

/// The length modifier at `i`: whether it is `l`, whether it is `ll` or
/// `L`, and where it ends. `hh`, `h`, `q`, `j`, `z`, `Z` and `t` are
/// passed over.
pub open spec fn spec_length_at(s: Seq<u8>, i: int) -> (bool, bool, int) {
    if has_at(s, i, seq![0x6cu8, 0x6cu8]) {
        (false, true, i + 2)
    } else if has_at(s, i, seq![0x4cu8]) {
        (false, true, i + 1)
    } else if has_at(s, i, seq![0x6cu8]) {
        (true, false, i + 1)
    } else if has_at(s, i, seq![0x68u8, 0x68u8]) {
        (false, false, i + 2)
    } else if has_at(s, i, seq![0x68u8]) || has_at(s, i, seq![0x71u8]) || has_at(
        s,
        i,
        seq![0x6au8],
    ) || has_at(s, i, seq![0x7au8]) || has_at(s, i, seq![0x5au8]) || has_at(s, i, seq![0x74u8]) {
        (false, false, i + 1)
    } else {
        (false, false, i)
    }
}

/// The conversion that a byte selects.
pub open spec fn spec_conversion(c: u8) -> Option<ConversionType> {
    if c == 0x69 || c == 0x64 {
        Some(ConversionType::DecInt)
    } else if c == 0x75 {
        Some(ConversionType::DecUInt)
    } else if c == 0x6f {
        Some(ConversionType::OctInt)
    } else if c == 0x78 || c == 0x70 {
        Some(ConversionType::HexIntLower)
    } else if c == 0x58 {
        Some(ConversionType::HexIntUpper)
    } else if c == 0x65 {
        Some(ConversionType::SciFloatLower)
    } else if c == 0x45 {
        Some(ConversionType::SciFloatUpper)
    } else if c == 0x66 {
        Some(ConversionType::DecFloatLower)
    } else if c == 0x46 {
        Some(ConversionType::DecFloatUpper)
    } else if c == 0x67 {
        Some(ConversionType::CompactFloatLower)
    } else if c == 0x47 {
        Some(ConversionType::CompactFloatUpper)
    } else if c == 0x63 || c == 0x43 {
        Some(ConversionType::Char)
    } else if c == 0x73 || c == 0x53 {
        Some(ConversionType::String)
    } else if c == 0x25 {
        Some(ConversionType::PercentSign)
    } else {
        None
    }
}

/// The specification that stands at `i`, behind the `%`, and where it
/// ends: flags, width, precision behind a `.`, length, conversion. `p` is
/// `x` in its alternate form.
pub open spec fn spec_specifier_at(s: Seq<u8>, i: int) -> Result<(ConversionSpecifier, int), PrintfError> {
    let (flags, i1) = scan_flags(s, i, spec_plain_specifier());
    let (width, i2) = spec_width_at(s, i1);
    let (precision, i3) = if 0 <= i2 < s.len() && s[i2] == 0x2e {
        spec_precision_at(s, i2 + 1)
    } else {
        (NumericParam::Literal(NO_PRECISION), i2)
    };
    let (long, long_long, i4) = spec_length_at(s, i3);
    if 0 <= i4 < s.len() && spec_conversion(s[i4]) is Some {
        Ok(
            (
                ConversionSpecifier {
                    long,
                    long_long,
                    alt_form: flags.alt_form || s[i4] == 0x70,
                    width,
                    precision,
                    conversion_type: spec_conversion(s[i4])->0,
                    ..flags
                },
                i4 + 1,
            ),
        )
    } else {
        Err(PrintfError::ParseError)
    }
}

/// Where the run of bytes other than `%` that starts at `i` ends.
pub open spec fn scan_verbatim(s: Seq<u8>, i: int) -> int
    decreases s.len() - i,
{
    if 0 <= i < s.len() && s[i] != 0x25 {
        scan_verbatim(s, i + 1)
    } else {
        i
    }
}

/// The pieces `head` in front of what the rest of a format parsed to.
pub open spec fn spec_prepend(
    head: Seq<FormatElementView>,
    rest: Result<Seq<FormatElementView>, PrintfError>,
) -> Result<Seq<FormatElementView>, PrintfError> {
    match rest {
        Ok(t) => Ok(head + t),
        Err(e) => Err(e),
    }
}

/// The pieces of the format `s` from `i` on: a run of verbatim bytes where
/// there is one, then, behind each `%`, a specification and what follows it.
pub open spec fn spec_parse_from(s: Seq<u8>, i: int) -> Result<Seq<FormatElementView>, PrintfError>
    decreases s.len() - i,
{
    let k = scan_verbatim(s, i);
    let head = if k > i {
        seq![FormatElementView::Verbatim(s.subrange(i, k))]
    } else {
        seq![]
    };
    if 0 <= i <= k < s.len() {
        match spec_specifier_at(s, k + 1) {
            Err(e) => Err(e),
            Ok((spec, j)) => if j > k {
                spec_prepend(head.push(FormatElementView::Format(spec)), spec_parse_from(s, j))
            } else {
                Err(PrintfError::ParseError)
            },
        }
    } else {
        Ok(head)
    }
}

/// The pieces of a format string.
pub open spec fn spec_parse_format(s: Seq<u8>) -> Result<Seq<FormatElementView>, PrintfError> {
    spec_parse_from(s, 0)
}

/// What `take_numeric_param` makes of `s`: the width in front, and the
/// bytes behind it.
pub open spec fn spec_take_numeric_param(s: Seq<u8>) -> (NumericParam, Seq<u8>) {
    (spec_width_at(s, 0).0, s.subrange(spec_width_at(s, 0).1, s.len() as int))
}

/// What `take_conversion_specifier` makes of `s`: the specification in
/// front, and the bytes behind it.
pub open spec fn spec_take_conversion_specifier(s: Seq<u8>) -> Result<
    (ConversionSpecifier, Seq<u8>),
    PrintfError,
> {
    match spec_specifier_at(s, 0) {
        Ok((spec, j)) => Ok((spec, s.subrange(j, s.len() as int))),
        Err(e) => Err(e),
    }
}

/// The value of the digits between `i` and `end`, no more than `i32::MAX`,
/// and the end of the run of digits that starts at `i`.
fn decimal_at(s: &[u8], i: usize) -> (r: (i32, usize))
    requires
        i <= s.len(),
    ensures
        r.1 == scan_digits(s@, i as int),
        i <= r.1 <= s.len(),
        r.0 == spec_clip(spec_decimal(s@.subrange(i as int, r.1 as int))),
{
    let mut w: i32 = 0;
    let mut k: usize = i;
    while k < s.len() && 0x30 <= s[k] && s[k] <= 0x39
        invariant
            i <= k <= s.len(),
            scan_digits(s@, i as int) == scan_digits(s@, k as int),
            w == spec_clip(spec_decimal(s@.subrange(i as int, k as int))),
        decreases s.len() - k,
    {
        let d: i32 = (s[k] - 0x30) as i32;
        proof {
            let t = s@.subrange(i as int, k + 1);
            assert(t.drop_last() =~= s@.subrange(i as int, k as int));
        }
        if w > (i32::MAX - d) / 10 {
            w = i32::MAX;
        } else {
            w = 10 * w + d;
        }
        k = k + 1;
    }
    (w, k)
}

fn flags_at(s: &[u8], i: usize) -> (r: (ConversionSpecifier, usize))
    requires
        i <= s.len(),
    ensures
        r.0 == scan_flags(s@, i as int, spec_plain_specifier()).0,
        r.1 == scan_flags(s@, i as int, spec_plain_specifier()).1,
        i <= r.1 <= s.len(),
{
    let mut spec = ConversionSpecifier {
        long: false,
        long_long: false,
        alt_form: false,
        zero_pad: false,
        left_adj: false,
        space_sign: false,
        force_sign: false,
        width: NumericParam::Literal(0),
        precision: NumericParam::Literal(NO_PRECISION),
        conversion_type: ConversionType::DecInt,
    };
    let mut k: usize = i;
    while k < s.len() && (s[k] == 0x23 || s[k] == 0x30 || s[k] == 0x2d || s[k] == 0x20 || s[k]
        == 0x2b)
        invariant
            i <= k <= s.len(),
            scan_flags(s@, i as int, spec_plain_specifier()) == scan_flags(s@, k as int, spec),
        decreases s.len() - k,
    {
        let c = s[k];
        if c == 0x23 {
            spec.alt_form = true;
        } else if c == 0x30 {
            spec.zero_pad = true;
        } else if c == 0x2d {
            spec.left_adj = true;
        } else if c == 0x20 {
            spec.space_sign = true;
        } else {
            spec.force_sign = true;
        }
        k = k + 1;
    }
    (spec, k)
}

fn width_at(s: &[u8], i: usize) -> (r: (NumericParam, usize))
    requires
        i <= s.len(),
    ensures
        r.0 == spec_width_at(s@, i as int).0,
        r.1 == spec_width_at(s@, i as int).1,
        i <= r.1 <= s.len(),
{
    if i < s.len() && s[i] == 0x2a {
        (NumericParam::FromArgument, i + 1)
    } else if i < s.len() && 0x31 <= s[i] && s[i] <= 0x39 {
        let (w, end) = decimal_at(s, i);
        (NumericParam::Literal(w), end)
    } else {
        (NumericParam::Literal(0), i)
    }
}

fn precision_at(s: &[u8], i: usize) -> (r: (NumericParam, usize))
    requires
        i <= s.len(),
    ensures
        r.0 == spec_precision_at(s@, i as int).0,
        r.1 == spec_precision_at(s@, i as int).1,
        i <= r.1 <= s.len(),
{
    if i < s.len() && s[i] == 0x2a {
        (NumericParam::FromArgument, i + 1)
    } else {
        let (w, end) = decimal_at(s, i);
        (NumericParam::Literal(w), end)
    }
}

/// Whether the byte `a` stands in `s` at `i`.
fn byte_at(s: &[u8], i: usize, a: u8) -> (b: bool)
    ensures
        b == has_at(s@, i as int, seq![a]),
{
    if i < s.len() {
        assert(s@.subrange(i as int, i + 1) =~= seq![s@[i as int]]);
        assert(seq![a][0] == a);
        s[i] == a
    } else {
        false
    }
}

/// Whether `a` and, behind it, `b` stand in `s` at `i`.
fn bytes_at(s: &[u8], i: usize, a: u8, b: u8) -> (r: bool)
    ensures
        r == has_at(s@, i as int, seq![a, b]),
{
    if i < s.len() && i + 1 < s.len() {
        assert(s@.subrange(i as int, i + 2) =~= seq![s@[i as int], s@[i + 1]]);
        s[i] == a && s[i + 1] == b
    } else {
        false
    }
}

fn length_at(s: &[u8], i: usize) -> (r: (bool, bool, usize))
    requires
        i <= s.len(),
    ensures
        r.0 == spec_length_at(s@, i as int).0,
        r.1 == spec_length_at(s@, i as int).1,
        r.2 == spec_length_at(s@, i as int).2,
        i <= r.2 <= s.len(),
{
    if bytes_at(s, i, 0x6c, 0x6c) {
        (false, true, i + 2)
    } else if byte_at(s, i, 0x4c) {
        (false, true, i + 1)
    } else if byte_at(s, i, 0x6c) {
        (true, false, i + 1)
    } else if bytes_at(s, i, 0x68, 0x68) {
        (false, false, i + 2)
    } else if byte_at(s, i, 0x68) || byte_at(s, i, 0x71) || byte_at(s, i, 0x6a) || byte_at(
        s,
        i,
        0x7a,
    ) || byte_at(s, i, 0x5a) || byte_at(s, i, 0x74) {
        (false, false, i + 1)
    } else {
        (false, false, i)
    }
}

fn conversion_of(c: u8) -> (r: Option<ConversionType>)
    ensures
        r == spec_conversion(c),
{
    if c == 0x69 || c == 0x64 {
        Some(ConversionType::DecInt)
    } else if c == 0x75 {
        Some(ConversionType::DecUInt)
    } else if c == 0x6f {
        Some(ConversionType::OctInt)
    } else if c == 0x78 || c == 0x70 {
        Some(ConversionType::HexIntLower)
    } else if c == 0x58 {
        Some(ConversionType::HexIntUpper)
    } else if c == 0x65 {
        Some(ConversionType::SciFloatLower)
    } else if c == 0x45 {
        Some(ConversionType::SciFloatUpper)
    } else if c == 0x66 {
        Some(ConversionType::DecFloatLower)
    } else if c == 0x46 {
        Some(ConversionType::DecFloatUpper)
    } else if c == 0x67 {
        Some(ConversionType::CompactFloatLower)
    } else if c == 0x47 {
        Some(ConversionType::CompactFloatUpper)
    } else if c == 0x63 || c == 0x43 {
        Some(ConversionType::Char)
    } else if c == 0x73 || c == 0x53 {
        Some(ConversionType::String)
    } else if c == 0x25 {
        Some(ConversionType::PercentSign)
    } else {
        None
    }
}

fn specifier_at(s: &[u8], i: usize) -> (r: Result<(ConversionSpecifier, usize), PrintfError>)
    requires
        i <= s.len(),
    ensures
        r matches Ok((spec, j)) ==> spec_specifier_at(s@, i as int) == Ok::<
            (ConversionSpecifier, int),
            PrintfError,
        >((spec, j as int)) && i < j <= s.len(),
        r matches Err(e) ==> spec_specifier_at(s@, i as int) == Err::<
            (ConversionSpecifier, int),
            PrintfError,
        >(e),
{
    let (flags, i1) = flags_at(s, i);
    let (width, i2) = width_at(s, i1);
    let mut precision = NumericParam::Literal(NO_PRECISION);
    let mut i3 = i2;
    if i2 < s.len() && s[i2] == 0x2e {
        let (p, end) = precision_at(s, i2 + 1);
        precision = p;
        i3 = end;
    }
    let (long, long_long, i4) = length_at(s, i3);
    if i4 >= s.len() {
        return Err(PrintfError::ParseError);
    }
    match conversion_of(s[i4]) {
        Some(t) => {
            let spec = ConversionSpecifier {
                long,
                long_long,
                alt_form: flags.alt_form || s[i4] == 0x70,
                zero_pad: flags.zero_pad,
                left_adj: flags.left_adj,
                space_sign: flags.space_sign,
                force_sign: flags.force_sign,
                width,
                precision,
                conversion_type: t,
            };
            Ok((spec, i4 + 1))
        },
        None => Err(PrintfError::ParseError),
    }
}

/// Takes a width off the front of `s`: `*`, or decimal digits that do not
/// start with `0`, clipped to `i32::MAX`; width 0 where neither stands.
pub fn take_numeric_param(s: &[u8]) -> (r: (NumericParam, &[u8]))
    ensures
        (r.0, r.1@) == spec_take_numeric_param(s@),
{
    let (w, end) = width_at(s, 0);
    (w, slice_subrange(s, end, s.len()))
}

/// Takes the conversion specification that follows a `%` off the front of
/// `s`. Fails with `ParseError` where no conversion ends it.
pub fn take_conversion_specifier(s: &[u8]) -> (r: Result<(ConversionSpecifier, &[u8]), PrintfError>)
    ensures
        r matches Ok((spec, rest)) ==> spec_take_conversion_specifier(s@) == Ok::<
            (ConversionSpecifier, Seq<u8>),
            PrintfError,
        >((spec, rest@)),
        r matches Err(e) ==> spec_take_conversion_specifier(s@) == Err::<
            (ConversionSpecifier, Seq<u8>),
            PrintfError,
        >(e),
{
    match specifier_at(s, 0) {
        Ok((spec, j)) => Ok((spec, slice_subrange(s, j, s.len()))),
        Err(e) => Err(e),
    }
}

/// Copies the bytes of `s` between `from` and `to`.
pub fn copy_range(s: &[u8], from: usize, to: usize) -> (v: Vec<u8>)
    requires
        from <= to <= s.len(),
    ensures
        v@ == s@.subrange(from as int, to as int),
{
    let mut v: Vec<u8> = Vec::new();
    let mut k: usize = from;
    while k < to
        invariant
            from <= k <= to <= s.len(),
            v@ == s@.subrange(from as int, k as int),
        decreases to - k,
    {
        v.push(s[k]);
        k = k + 1;
    }
    v
}

/// Splits a format string into its pieces. Fails with `ParseError` where a
/// `%` is not followed by a complete specification.
pub fn parse_format_string(fmt: &[u8]) -> (r: Result<Vec<FormatElement>, PrintfError>)
    ensures
        r matches Ok(elems) ==> spec_parse_format(fmt@) == Ok::<
            Seq<FormatElementView>,
            PrintfError,
        >(elements_view(elems@)),
        r matches Err(e) ==> spec_parse_format(fmt@) == Err::<Seq<FormatElementView>, PrintfError>(
            e,
        ),
{
    let mut res: Vec<FormatElement> = Vec::new();
    let mut i: usize = 0;
    loop
        invariant
            i <= fmt.len(),
            spec_parse_format(fmt@) == spec_prepend(
                elements_view(res@),
                spec_parse_from(fmt@, i as int),
            ),
        decreases fmt.len() - i,
    {
        let mut k: usize = i;
        while k < fmt.len() && fmt[k] != 0x25
            invariant
                i <= k <= fmt.len(),
                scan_verbatim(fmt@, i as int) == scan_verbatim(fmt@, k as int),
            decreases fmt.len() - k,
        {
            k = k + 1;
        }
        let ghost before = elements_view(res@);
        if k > i {
            res.push(FormatElement::Verbatim(copy_range(fmt, i, k)));
        }
        if k >= fmt.len() {
            assert(spec_parse_from(fmt@, i as int) matches Ok(t) && before + t =~= elements_view(
                res@,
            ));
            return Ok(res);
        }
        match specifier_at(fmt, k + 1) {
            Err(e) => {
                return Err(e);
            },
            Ok((spec, j)) => {
                let ghost mid = elements_view(res@);
                res.push(FormatElement::Format(spec));
                proof {
                    let head = if k > i {
                        seq![FormatElementView::Verbatim(fmt@.subrange(i as int, k as int))]
                    } else {
                        seq![]
                    };
                    match spec_parse_from(fmt@, j as int) {
                        Ok(t) => {
                            assert(before + (head.push(FormatElementView::Format(spec)) + t)
                                =~= elements_view(res@) + t);
                        },
                        Err(_) => {},
                    }
                }
                i = j;
            },
        }
    }
}

} // verus!
