//! A formatter for the conversions of C's `printf`, on bytes.

pub mod format;
pub mod parser;

use vstd::prelude::*;
use self::format::Printf;
use self::format::result_view;
use self::parser::ConversionSpecifier;
use self::parser::ConversionType;
use self::parser::FormatElement;
use self::parser::FormatElementView;
use self::parser::NumericParam;
use self::parser::PrintfError;
use self::parser::elements_view;
use self::parser::parse_format_string;
use self::parser::spec_parse_format;

verus! {

/// `head` in front of a rendered rest.
pub open spec fn spec_join(head: Seq<u8>, rest: Option<Result<Seq<u8>, PrintfError>>) -> Option<
    Result<Seq<u8>, PrintfError>,
> {
    match rest {
        Some(Ok(t)) => Some(Ok(head + t)),
        Some(Err(e)) => Some(Err(e)),
        None => None,
    }
}

/// A width that an argument gave: a negative one asks for its magnitude,
/// adjusted to the left.
pub open spec fn spec_with_width(spec: ConversionSpecifier, w: i32) -> ConversionSpecifier {
    if w < 0 {
        ConversionSpecifier {
            left_adj: true,
            width: NumericParam::Literal(
                if w == i32::MIN {
                    i32::MAX
                } else {
                    (-w) as i32
                },
            ),
            ..spec
        }
    } else {
        ConversionSpecifier { width: NumericParam::Literal(w), ..spec }
    }
}

/// The specification with each `*` replaced by the argument that it takes,
/// the width first, and the number of arguments taken: one for each `*`.
/// `NotEnoughArgs` where an argument is missing, `WrongType` where one
/// cannot be a width or precision.
pub open spec fn spec_complete<A: Printf>(spec: ConversionSpecifier, args: Seq<A>) -> Result<
    (ConversionSpecifier, int),
    PrintfError,
> {
    let after_width: Result<(ConversionSpecifier, int), PrintfError> =
        if spec.width == NumericParam::FromArgument {
        if args.len() < 1 {
            Err(PrintfError::NotEnoughArgs)
        } else {
            match args[0].spec_as_int(spec) {
                Some(w) => Ok((spec_with_width(spec, w), 1)),
                None => Err(PrintfError::WrongType),
            }
        }
    } else {
        Ok((spec, 0))
    };
    match after_width {
        Err(e) => Err(e),
        Ok((s1, n1)) => if spec.precision == NumericParam::FromArgument {
            if args.len() < n1 + 1 {
                Err(PrintfError::NotEnoughArgs)
            } else {
                match args[n1].spec_as_int(spec) {
                    Some(p) => Ok(
                        (ConversionSpecifier { precision: NumericParam::Literal(p), ..s1 }, n1 + 1),
                    ),
                    None => Err(PrintfError::WrongType),
                }
            }
        } else {
            Ok((s1, n1))
        },
    }
}

/// The text of a parsed format with its arguments: verbatim runs as they
/// are, `%%` as `%`, every other specification as the rendering of the next
/// argument, behind the arguments that its `*` take. `NotEnoughArgs` where
/// the arguments run out, `TooManyArgs` where some are left at the end.
/// Nothing where, in front of any failure, the text of an argument is left
/// to the platform.
pub open spec fn spec_vsprintfp<A: Printf>(format: Seq<FormatElementView>, args: Seq<A>) -> Option<
    Result<Seq<u8>, PrintfError>,
>
    decreases format.len(),
{
    if format.len() == 0 {
        if args.len() == 0 {
            Some(Ok(Seq::<u8>::empty()))
        } else {
            Some(Err(PrintfError::TooManyArgs))
        }
    } else {
        match format[0] {
            FormatElementView::Verbatim(s) => spec_join(
                s,
                spec_vsprintfp(format.drop_first(), args),
            ),
            FormatElementView::Format(spec) => if spec.conversion_type
                == ConversionType::PercentSign {
                spec_join(seq![0x25u8], spec_vsprintfp(format.drop_first(), args))
            } else {
                match spec_complete(spec, args) {
                    Err(e) => Some(Err(e)),
                    Ok((completed, used)) => if args.len() <= used || used < 0 {
                        Some(Err(PrintfError::NotEnoughArgs))
                    } else {
                        match args[used].spec_format(completed) {
                            None => None,
                            Some(Err(e)) => Some(Err(e)),
                            Some(Ok(piece)) => spec_join(
                                piece,
                                spec_vsprintfp(
                                    format.drop_first(),
                                    args.subrange(used + 1, args.len() as int),
                                ),
                            ),
                        }
                    },
                }
            },
        }
    }
}

/// The text of a format string with its arguments.
pub open spec fn spec_vsprintf<A: Printf>(format: Seq<u8>, args: Seq<A>) -> Option<
    Result<Seq<u8>, PrintfError>,
> {
    match spec_parse_format(format) {
        Ok(elems) => spec_vsprintfp(elems, args),
        Err(e) => Some(Err(e)),
    }
}

fn with_width(spec: ConversionSpecifier, w: i32) -> (r: ConversionSpecifier)
    ensures
        r == spec_with_width(spec, w),
{
    let mut r = spec;
    if w < 0 {
        r.left_adj = true;
        r.width = NumericParam::Literal(
            if w == i32::MIN {
                i32::MAX
            } else {
                -w
            },
        );
    } else {
        r.width = NumericParam::Literal(w);
    }
    r
}

/// Replaces each `*` of `spec` by the argument that it takes, from
/// `args[at]` on.
fn complete<A: Printf>(spec: &ConversionSpecifier, args: &[A], at: usize) -> (r: Result<
    (ConversionSpecifier, usize),
    PrintfError,
>)
    requires
        at <= args.len(),
        forall|i: int| 0 <= i < args@.len() ==> (#[trigger] args@[i]).inv(),
    ensures
        r matches Ok((c, used)) ==> spec_complete(
            *spec,
            args@.subrange(at as int, args@.len() as int),
        ) == Ok::<(ConversionSpecifier, int), PrintfError>((c, used as int)) && at + used
            <= args.len(),
        r matches Err(e) ==> spec_complete(*spec, args@.subrange(at as int, args@.len() as int))
            == Err::<(ConversionSpecifier, int), PrintfError>(e),
{
    let ghost rest = args@.subrange(at as int, args@.len() as int);
    let mut completed = *spec;
    let mut used: usize = 0;
    let from_arg_w = match spec.width {
        NumericParam::FromArgument => true,
        _ => false,
    };
    if from_arg_w {
        if at >= args.len() {
            return Err(PrintfError::NotEnoughArgs);
        }
        match args[at].as_int(spec) {
            Some(w) => {
                completed = with_width(completed, w);
                used = 1;
            },
            None => {
                return Err(PrintfError::WrongType);
            },
        }
    }
    let from_arg_p = match spec.precision {
        NumericParam::FromArgument => true,
        _ => false,
    };
    if from_arg_p {
        if at + used >= args.len() {
            return Err(PrintfError::NotEnoughArgs);
        }
        match args[at + used].as_int(spec) {
            Some(p) => {
                completed.precision = NumericParam::Literal(p);
                used = used + 1;
            },
            None => {
                return Err(PrintfError::WrongType);
            },
        }
    }
    Ok((completed, used))
}

/// Renders a parsed format with its arguments.
pub fn vsprintfp<A: Printf>(format: &[FormatElement], args: &[A]) -> (r: Result<
    Vec<u8>,
    PrintfError,
>)
    requires
        forall|i: int| 0 <= i < args@.len() ==> (#[trigger] args@[i]).inv(),
    ensures
        spec_vsprintfp(elements_view(format@), args@) matches Some(text) ==> result_view(r) == text,
{
    let mut res: Vec<u8> = Vec::new();
    let mut at: usize = 0;
    let mut i: usize = 0;
    let ghost all = elements_view(format@);
    assert(all.subrange(0, all.len() as int) =~= all);
    assert(args@.subrange(0, args@.len() as int) =~= args@);
    while i < format.len()
        invariant
            i <= format.len(),
            at <= args.len(),
            forall|i: int| 0 <= i < args@.len() ==> (#[trigger] args@[i]).inv(),
            all == elements_view(format@),
            all.len() == format.len(),
            spec_vsprintfp(all, args@) is Some ==> spec_vsprintfp(all, args@) == spec_join(
                res@,
                spec_vsprintfp(
                    all.subrange(i as int, all.len() as int),
                    args@.subrange(at as int, args@.len() as int),
                ),
            ),
        decreases format.len() - i,
    {
        let ghost cur = all.subrange(i as int, all.len() as int);
        let ghost rest_args = args@.subrange(at as int, args@.len() as int);
        let ghost before = res@;
        proof {
            assert(cur.drop_first() =~= all.subrange(i + 1, all.len() as int));
        }
        match &format[i] {
            FormatElement::Verbatim(s) => {
                res.extend_from_slice(s.as_slice());
                proof {
                    match spec_vsprintfp(cur.drop_first(), rest_args) {
                        Some(Ok(t)) => {
                            assert(before + (s@ + t) =~= res@ + t);
                        },
                        _ => {},
                    }
                }
            },
            FormatElement::Format(spec) => {
                let is_percent = match spec.conversion_type {
                    ConversionType::PercentSign => true,
                    _ => false,
                };
                if is_percent {
                    res.push(0x25);
                    proof {
                        match spec_vsprintfp(cur.drop_first(), rest_args) {
                            Some(Ok(t)) => {
                                assert(before + (seq![0x25u8] + t) =~= res@ + t);
                            },
                            _ => {},
                        }
                    }
                } else {
                    let (completed, used) = match complete(spec, args, at) {
                        Ok(c) => c,
                        Err(e) => {
                            return Err(e);
                        },
                    };
                    if at + used >= args.len() {
                        return Err(PrintfError::NotEnoughArgs);
                    }
                    let piece = match args[at + used].format(&completed) {
                        Ok(p) => p,
                        Err(e) => {
                            return Err(e);
                        },
                    };
                    res.extend_from_slice(piece.as_slice());
                    proof {
                        let next_args = rest_args.subrange(used + 1, rest_args.len() as int);
                        assert(next_args =~= args@.subrange(at + used + 1, args@.len() as int));
                        match spec_vsprintfp(cur.drop_first(), next_args) {
                            Some(Ok(t)) => {
                                assert(before + (piece@ + t) =~= res@ + t);
                            },
                            _ => {},
                        }
                    }
                    at = at + used + 1;
                }
            },
        }
        i = i + 1;
    }
    if at == args.len() {
        Ok(res)
    } else {
        Err(PrintfError::TooManyArgs)
    }
}

/// Renders a format string with its arguments.
pub fn vsprintf<A: Printf>(format: &[u8], args: &[A]) -> (r: Result<Vec<u8>, PrintfError>)
    requires
        forall|i: int| 0 <= i < args@.len() ==> (#[trigger] args@[i]).inv(),
    ensures
        spec_vsprintf(format@, args@) matches Some(text) ==> result_view(r) == text,
{
    match parse_format_string(format) {
        Ok(elems) => vsprintfp(elems.as_slice(), args),
        Err(e) => Err(e),
    }
}

} // verus!
