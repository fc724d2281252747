//! What the formatter prints, stated for formats of common use.

use vstd::prelude::*;
use super::sprintf::format::Printf;
use super::sprintf::format::spec_digits;
use super::sprintf::parser::ConversionSpecifier;
use super::sprintf::parser::ConversionType;
use super::sprintf::parser::FormatElementView;
use super::sprintf::parser::NumericParam;
use super::sprintf::parser::PrintfError;
use super::sprintf::parser::scan_flags;
use super::sprintf::parser::scan_verbatim;
use super::sprintf::parser::spec_conversion;
use super::sprintf::parser::spec_parse_format;
use super::sprintf::parser::spec_parse_from;
use super::sprintf::parser::spec_plain_specifier;
use super::sprintf::parser::spec_specifier_at;
use super::sprintf::spec_complete;
use super::sprintf::spec_vsprintf;
use super::sprintf::spec_vsprintfp;
use super::sprintf::spec_with_width;
use super::MBFloatFormat;
use super::spec_cprint_args;
use crate::mb_rpcs::MBPtrT;
use crate::mb_rpcs::spec_ptr_to_i32;
use crate::mb_std::mb_ptr_resolver::MBPtrResolver;
use crate::mb_std::mb_ptr_resolver::spec_read_c_str;

verus! {

/// Whether a byte is a conversion that nothing can stand in front of but
/// its `%`: it is no flag, no digit of a width, no `*`, no `.` and starts
/// no length.
pub open spec fn is_bare_conversion(c: u8) -> bool {
    c == 0x64 || c == 0x69 || c == 0x75 || c == 0x6f || c == 0x78 || c == 0x58 || c == 0x63 || c
        == 0x73 || c == 0x25
}

/// A conversion that stands right behind its `%` is a specification
/// without flags, width and precision.
pub proof fn lemma_bare_specifier(s: Seq<u8>, i: int)
    requires
        0 <= i < s.len(),
        is_bare_conversion(s[i]),
    ensures
        spec_specifier_at(s, i) == Ok::<(ConversionSpecifier, int), PrintfError>(
            (
                ConversionSpecifier {
                    conversion_type: spec_conversion(s[i])->0,
                    ..spec_plain_specifier()
                },
                i + 1,
            ),
        ),
{
    assert(scan_flags(s, i, spec_plain_specifier()) == (spec_plain_specifier(), i));
    assert(s.subrange(i, i + 1)[0] == s[i]);
}

/// What C prints for a signed number under `%d`: a `-` where it is
/// negative, and the decimal digits of its magnitude.
pub open spec fn spec_c_decimal(v: i32) -> Seq<u8> {
    if v < 0 {
        seq![0x2du8] + spec_digits((-v) as nat, 10, false)
    } else {
        spec_digits(v as nat, 10, false)
    }
}

/// What C prints for an unsigned number under `%x`: its hexadecimal
/// digits, in lower case.
pub open spec fn spec_c_hex(v: u32) -> Seq<u8> {
    spec_digits(v as nat, 16, false)
}

/// The format `%d/%x/%s`.
pub open spec fn spec_fmt_d_x_s() -> Seq<u8> {
    seq![0x25u8, 0x64u8, 0x2fu8, 0x25u8, 0x78u8, 0x2fu8, 0x25u8, 0x73u8]
}

/// A specification without flags, width and precision.
pub open spec fn spec_bare(t: ConversionType) -> ConversionSpecifier {
    ConversionSpecifier { conversion_type: t, ..spec_plain_specifier() }
}

/// The pieces of `%d/%x/%s`: a `%d`, a slash, a `%x`, a slash and a `%s`.
pub open spec fn spec_elems_d_x_s() -> Seq<FormatElementView> {
    seq![
        FormatElementView::Format(spec_bare(ConversionType::DecInt)),
        FormatElementView::Verbatim(seq![0x2fu8]),
        FormatElementView::Format(spec_bare(ConversionType::HexIntLower)),
        FormatElementView::Verbatim(seq![0x2fu8]),
        FormatElementView::Format(spec_bare(ConversionType::String)),
    ]
}

/// The format `%d/%x/%s` is a `%d`, a slash, a `%x`, a slash and a `%s`.
pub proof fn lemma_parse_d_x_s()
    ensures
        spec_parse_format(spec_fmt_d_x_s()) == Ok::<Seq<FormatElementView>, PrintfError>(
            spec_elems_d_x_s(),
        ),
{
    let s = spec_fmt_d_x_s();
    let d = FormatElementView::Format(spec_bare(ConversionType::DecInt));
    let x = FormatElementView::Format(spec_bare(ConversionType::HexIntLower));
    let t = FormatElementView::Format(spec_bare(ConversionType::String));
    let slash = FormatElementView::Verbatim(seq![0x2fu8]);
    lemma_bare_specifier(s, 1);
    lemma_bare_specifier(s, 4);
    lemma_bare_specifier(s, 7);
    assert(spec_parse_from(s, 8) == Ok::<Seq<FormatElementView>, PrintfError>(seq![]));
    assert(scan_verbatim(s, 6) == 6);
    assert(s.subrange(5, 6) =~= seq![0x2fu8]);
    assert(spec_parse_from(s, 5) == Ok::<Seq<FormatElementView>, PrintfError>(seq![slash, t])) by {
        assert(seq![slash].push(t) + Seq::<FormatElementView>::empty() =~= seq![slash, t]);
    }
    assert(scan_verbatim(s, 3) == 3);
    assert(s.subrange(2, 3) =~= seq![0x2fu8]);
    assert(spec_parse_from(s, 2) == Ok::<Seq<FormatElementView>, PrintfError>(
        seq![slash, x, slash, t],
    )) by {
        assert(seq![slash].push(x) + seq![slash, t] =~= seq![slash, x, slash, t]);
    }
    assert(spec_parse_from(s, 0) == Ok::<Seq<FormatElementView>, PrintfError>(
        seq![d, slash, x, slash, t],
    )) by {
        assert(Seq::<FormatElementView>::empty().push(d) + seq![slash, x, slash, t] =~= seq![
            d,
            slash,
            x,
            slash,
            t,
        ]);
    }
}

/// `/`
pub open spec fn spec_slash() -> Seq<u8> {
    seq![0x2fu8]
}

/// For every signed number `n`, unsigned number `m` and string at `p`, the
/// format `%d/%x/%s` prints what C prints: the decimal digits of `n` with
/// its sign, a slash, the hexadecimal digits of `m`, a slash, and the
/// string.
pub proof fn lemma_cprint_d_x_s<R: MBPtrResolver, F: MBFloatFormat>(
    r: &R,
    float: &F,
    n: MBPtrT,
    m: MBPtrT,
    p: MBPtrT,
)
    requires
        spec_read_c_str(r, p as int) is Ok,
    ensures
        spec_vsprintf(spec_fmt_d_x_s(), spec_cprint_args(seq![n, m, p], r, float)) == Some(
            Ok::<Seq<u8>, PrintfError>(
                spec_c_decimal(spec_ptr_to_i32(n)) + spec_slash() + spec_c_hex(m) + spec_slash()
                    + spec_read_c_str(r, p as int)->Ok_0,
            ),
        ),
{
    lemma_parse_d_x_s();
    let text = spec_read_c_str(r, p as int)->Ok_0;
    let e0 = spec_elems_d_x_s();
    let e1 = e0.drop_first();
    let e2 = e1.drop_first();
    let e3 = e2.drop_first();
    let e4 = e3.drop_first();
    let e5 = e4.drop_first();
    let a0 = spec_cprint_args(seq![n, m, p], r, float);
    let a1 = a0.subrange(1, 3);
    let a2 = a1.subrange(1, 2);
    let a3 = a2.subrange(1, 1);
    // from the end: nothing, `%s`, the second slash, `%x`, the first slash
    assert(spec_vsprintfp(e5, a3) == Some(Ok::<Seq<u8>, PrintfError>(Seq::empty())));
    assert(spec_vsprintfp(e4, a2) == Some(Ok::<Seq<u8>, PrintfError>(text)));
    assert(spec_vsprintfp(e3, a2) == Some(Ok::<Seq<u8>, PrintfError>(spec_slash() + text)));
    let hex = spec_c_hex(m);
    assert(spec_vsprintfp(e2, a1) == Some(
        Ok::<Seq<u8>, PrintfError>(hex + (spec_slash() + text)),
    ));
    assert(spec_vsprintfp(e1, a1) == Some(
        Ok::<Seq<u8>, PrintfError>(spec_slash() + (hex + (spec_slash() + text))),
    ));
    let dec = spec_c_decimal(spec_ptr_to_i32(n));
    assert(dec + (spec_slash() + (hex + (spec_slash() + text))) =~= dec + spec_slash() + hex
        + spec_slash() + text);
}

/// `%%` prints `%` and takes no argument.
pub proof fn lemma_percent<A: Printf>()
    ensures
        spec_vsprintf(seq![0x25u8, 0x25u8], Seq::<A>::empty()) == Some(
            Ok::<Seq<u8>, PrintfError>(seq![0x25u8]),
        ),
{
    let s = seq![0x25u8, 0x25u8];
    let pct = FormatElementView::Format(spec_bare(ConversionType::PercentSign));
    lemma_bare_specifier(s, 1);
    assert(spec_parse_from(s, 2) == Ok::<Seq<FormatElementView>, PrintfError>(seq![]));
    let e = seq![pct];
    let none = Seq::<A>::empty();
    assert(spec_vsprintfp(e.drop_first(), none) == Some(
        Ok::<Seq<u8>, PrintfError>(Seq::empty()),
    ));
}

/// A `*` for the width takes exactly one argument, which is the width;
/// a `*` for the precision as well takes exactly one more.
pub proof fn lemma_star_takes_one<A: Printf>(spec: ConversionSpecifier, args: Seq<A>)
    requires
        spec.width == NumericParam::FromArgument,
        args.len() >= 2,
        args[0].spec_as_int(spec) is Some,
        args[1].spec_as_int(spec) is Some,
    ensures
        spec.precision != NumericParam::FromArgument ==> spec_complete(spec, args) == Ok::<
            (ConversionSpecifier, int),
            PrintfError,
        >((spec_with_width(spec, args[0].spec_as_int(spec)->0), 1)),
        spec.precision == NumericParam::FromArgument ==> spec_complete(spec, args) == Ok::<
            (ConversionSpecifier, int),
            PrintfError,
        >(
            (
                ConversionSpecifier {
                    precision: NumericParam::Literal(args[1].spec_as_int(spec)->0),
                    ..spec_with_width(spec, args[0].spec_as_int(spec)->0)
                },
                2,
            ),
        ),
{
}

} // verus!
