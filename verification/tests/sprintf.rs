use mailbox_rs::mb_std::mb_rpcs::c_print::sprintf::format::digits_of;
use mailbox_rs::mb_std::mb_rpcs::c_print::sprintf::format::format_bytes;
use mailbox_rs::mb_std::mb_rpcs::c_print::sprintf::format::format_char;
use mailbox_rs::mb_std::mb_rpcs::c_print::sprintf::format::format_int;
use mailbox_rs::mb_std::mb_rpcs::c_print::sprintf::format::format_word;
use mailbox_rs::mb_std::mb_rpcs::c_print::sprintf::format::push_n;
use mailbox_rs::mb_std::mb_rpcs::c_print::sprintf::format::Printf;
use mailbox_rs::mb_std::mb_rpcs::c_print::sprintf::parser::parse_format_string;
use mailbox_rs::mb_std::mb_rpcs::c_print::sprintf::parser::take_conversion_specifier;
use mailbox_rs::mb_std::mb_rpcs::c_print::sprintf::parser::take_numeric_param;
use mailbox_rs::mb_std::mb_rpcs::c_print::sprintf::parser::ConversionSpecifier;
use mailbox_rs::mb_std::mb_rpcs::c_print::sprintf::parser::ConversionType;
use mailbox_rs::mb_std::mb_rpcs::c_print::sprintf::parser::FormatElement;
use mailbox_rs::mb_std::mb_rpcs::c_print::sprintf::parser::NumericParam;
use mailbox_rs::mb_std::mb_rpcs::c_print::sprintf::parser::PrintfError;
use mailbox_rs::mb_std::mb_rpcs::c_print::sprintf::parser::NO_PRECISION;
use mailbox_rs::mb_std::mb_rpcs::c_print::sprintf::vsprintf;
use mailbox_rs::mb_std::mb_rpcs::c_print::sprintf::vsprintfp;

fn plain(t: ConversionType) -> ConversionSpecifier {
    ConversionSpecifier {
        long: false,
        long_long: false,
        alt_form: false,
        zero_pad: false,
        left_adj: false,
        space_sign: false,
        force_sign: false,
        width: NumericParam::Literal(0),
        precision: NumericParam::Literal(NO_PRECISION),
        conversion_type: t,
    }
}

fn words(fmt: &str, args: &[u32]) -> Result<String, PrintfError> {
    vsprintf(fmt.as_bytes(), args).map(|v| String::from_utf8(v).unwrap())
}

fn ints(fmt: &str, args: &[i32]) -> Result<String, PrintfError> {
    vsprintf(fmt.as_bytes(), args).map(|v| String::from_utf8(v).unwrap())
}

#[test]
fn take_numeric_param_reads_star_digits_or_nothing() {
    let (p, rest) = take_numeric_param(b"*d");
    assert_eq!(p, NumericParam::FromArgument);
    assert_eq!(rest, b"d");
    let (p, rest) = take_numeric_param(b"120x");
    assert_eq!(p, NumericParam::Literal(120));
    assert_eq!(rest, b"x");
    let (p, rest) = take_numeric_param(b"d");
    assert_eq!(p, NumericParam::Literal(0));
    assert_eq!(rest, b"d");
    let (p, rest) = take_numeric_param(b"05d");
    assert_eq!(p, NumericParam::Literal(0));
    assert_eq!(rest, b"05d");
    let (p, rest) = take_numeric_param(b"");
    assert_eq!(p, NumericParam::Literal(0));
    assert_eq!(rest, b"");
}

#[test]
fn take_numeric_param_clips_at_i32_max() {
    let (p, rest) = take_numeric_param(b"2147483647d");
    assert_eq!(p, NumericParam::Literal(i32::MAX));
    assert_eq!(rest, b"d");
    let (p, rest) = take_numeric_param(b"2147483648d");
    assert_eq!(p, NumericParam::Literal(i32::MAX));
    assert_eq!(rest, b"d");
    let (p, rest) = take_numeric_param(b"99999999999999999999s");
    assert_eq!(p, NumericParam::Literal(i32::MAX));
    assert_eq!(rest, b"s");
}

#[test]
fn take_conversion_specifier_reads_flags_width_precision_length() {
    let (s, rest) = take_conversion_specifier(b"#0- +12.7lld tail").unwrap();
    assert!(s.alt_form && s.zero_pad && s.left_adj && s.space_sign && s.force_sign);
    assert_eq!(s.width, NumericParam::Literal(12));
    assert_eq!(s.precision, NumericParam::Literal(7));
    assert!(s.long_long);
    assert!(!s.long);
    assert_eq!(s.conversion_type, ConversionType::DecInt);
    assert_eq!(rest, b" tail");

    let (s, rest) = take_conversion_specifier(b"d").unwrap();
    assert_eq!(s, plain(ConversionType::DecInt));
    assert_eq!(rest, b"");

    let (s, _) = take_conversion_specifier(b"*.*x").unwrap();
    assert_eq!(s.width, NumericParam::FromArgument);
    assert_eq!(s.precision, NumericParam::FromArgument);
    assert_eq!(s.conversion_type, ConversionType::HexIntLower);

    let (s, _) = take_conversion_specifier(b".d").unwrap();
    assert_eq!(s.precision, NumericParam::Literal(0));
    let (s, _) = take_conversion_specifier(b".05d").unwrap();
    assert_eq!(s.precision, NumericParam::Literal(5));
}

#[test]
fn take_conversion_specifier_knows_the_lengths_and_conversions() {
    let (s, _) = take_conversion_specifier(b"lf").unwrap();
    assert!(s.long && !s.long_long);
    assert_eq!(s.conversion_type, ConversionType::DecFloatLower);
    let (s, _) = take_conversion_specifier(b"Lg").unwrap();
    assert!(s.long_long);
    assert_eq!(s.conversion_type, ConversionType::CompactFloatLower);
    for len in ["hh", "h", "q", "j", "z", "Z", "t"] {
        let text = format!("{}u", len);
        let (s, rest) = take_conversion_specifier(text.as_bytes()).unwrap();
        assert!(!s.long && !s.long_long);
        assert_eq!(s.conversion_type, ConversionType::DecUInt);
        assert_eq!(rest, b"");
    }
    let table = [
        ('i', ConversionType::DecInt),
        ('d', ConversionType::DecInt),
        ('u', ConversionType::DecUInt),
        ('o', ConversionType::OctInt),
        ('x', ConversionType::HexIntLower),
        ('X', ConversionType::HexIntUpper),
        ('e', ConversionType::SciFloatLower),
        ('E', ConversionType::SciFloatUpper),
        ('f', ConversionType::DecFloatLower),
        ('F', ConversionType::DecFloatUpper),
        ('g', ConversionType::CompactFloatLower),
        ('G', ConversionType::CompactFloatUpper),
        ('c', ConversionType::Char),
        ('C', ConversionType::Char),
        ('s', ConversionType::String),
        ('S', ConversionType::String),
        ('%', ConversionType::PercentSign),
    ];
    for (c, t) in table {
        let text = format!("{}", c);
        let (s, _) = take_conversion_specifier(text.as_bytes()).unwrap();
        assert_eq!(s.conversion_type, t);
        assert!(!s.alt_form);
    }
    let (s, _) = take_conversion_specifier(b"p").unwrap();
    assert_eq!(s.conversion_type, ConversionType::HexIntLower);
    assert!(s.alt_form);
}

#[test]
fn take_conversion_specifier_fails_without_conversion() {
    assert_eq!(take_conversion_specifier(b"").unwrap_err(), PrintfError::ParseError);
    assert_eq!(take_conversion_specifier(b"12").unwrap_err(), PrintfError::ParseError);
    assert_eq!(take_conversion_specifier(b"y").unwrap_err(), PrintfError::ParseError);
    assert_eq!(take_conversion_specifier(b"-l").unwrap_err(), PrintfError::ParseError);
}

#[test]
fn parse_format_string_splits_runs_and_specifications() {
    let elems = parse_format_string(b"a%db%%").unwrap();
    assert_eq!(elems.len(), 4);
    assert!(matches!(&elems[0], FormatElement::Verbatim(v) if v == b"a"));
    assert!(matches!(&elems[1], FormatElement::Format(s) if s.conversion_type == ConversionType::DecInt));
    assert!(matches!(&elems[2], FormatElement::Verbatim(v) if v == b"b"));
    assert!(matches!(&elems[3], FormatElement::Format(s) if s.conversion_type == ConversionType::PercentSign));
    assert_eq!(parse_format_string(b"").unwrap().len(), 0);
    assert_eq!(parse_format_string(b"plain").unwrap().len(), 1);
    assert_eq!(parse_format_string(b"%d%d").unwrap().len(), 2);
    assert_eq!(parse_format_string(b"50%").unwrap_err(), PrintfError::ParseError);
    assert_eq!(parse_format_string(b"%q").unwrap_err(), PrintfError::ParseError);
}

#[test]
fn decimal_hex_and_percent_as_printf_does() {
    assert_eq!(ints("%d/%x", &[-5, 255]).unwrap(), "-5/ff");
    assert_eq!(ints("%d", &[i32::MIN]).unwrap(), "-2147483648");
    assert_eq!(ints("%d", &[i32::MAX]).unwrap(), "2147483647");
    assert_eq!(ints("%i|%u", &[-1, -1]).unwrap(), "-1|4294967295");
    assert_eq!(words("%x %X %o", &[0xdead, 0xbeef, 8]).unwrap(), "dead BEEF 10");
    assert_eq!(words("%u", &[4294967295]).unwrap(), "4294967295");
    assert_eq!(words("%%", &[]).unwrap(), "%");
    assert_eq!(words("100%% of %d", &[7]).unwrap(), "100% of 7");
    assert_eq!(words("%d", &[0]).unwrap(), "0");
    assert_eq!(words("", &[]).unwrap(), "");
}

#[test]
fn width_and_flags_as_printf_does() {
    assert_eq!(ints("[%5d]", &[42]).unwrap(), "[   42]");
    assert_eq!(ints("[%-5d]", &[42]).unwrap(), "[42   ]");
    assert_eq!(ints("[%05d]", &[42]).unwrap(), "[00042]");
    assert_eq!(ints("[%05d]", &[-42]).unwrap(), "[-0042]");
    assert_eq!(ints("[%-05d]", &[42]).unwrap(), "[42   ]");
    assert_eq!(ints("[%+d]", &[42]).unwrap(), "[+42]");
    assert_eq!(ints("[%+d]", &[-42]).unwrap(), "[-42]");
    assert_eq!(ints("[% d]", &[42]).unwrap(), "[ 42]");
    assert_eq!(ints("[%+ d]", &[42]).unwrap(), "[+42]");
    assert_eq!(ints("[%2d]", &[12345]).unwrap(), "[12345]");
    assert_eq!(words("[%#x]", &[255]).unwrap(), "[0xff]");
    assert_eq!(words("[%#X]", &[255]).unwrap(), "[0XFF]");
    assert_eq!(words("[%#x]", &[0]).unwrap(), "[0]");
    assert_eq!(words("[%#o]", &[8]).unwrap(), "[010]");
    assert_eq!(words("[%#o]", &[0]).unwrap(), "[0]");
    assert_eq!(words("[%#08x]", &[255]).unwrap(), "[0x0000ff]");
    assert_eq!(words("[%p]", &[0x1000]).unwrap(), "[0x1000]");
    assert_eq!(words("[%+u]", &[5]).unwrap(), "[5]");
}

#[test]
fn precision_as_printf_does() {
    assert_eq!(ints("[%.3d]", &[7]).unwrap(), "[007]");
    assert_eq!(ints("[%.3d]", &[-7]).unwrap(), "[-007]");
    assert_eq!(ints("[%.0d]", &[0]).unwrap(), "[]");
    assert_eq!(ints("[%.d]", &[0]).unwrap(), "[]");
    assert_eq!(ints("[%.0d]", &[5]).unwrap(), "[5]");
    assert_eq!(ints("[%8.3d]", &[7]).unwrap(), "[     007]");
    assert_eq!(ints("[%-8.3d]", &[7]).unwrap(), "[007     ]");
    assert_eq!(ints("[%08.3d]", &[7]).unwrap(), "[     007]");
    assert_eq!(words("[%.4x]", &[0xab]).unwrap(), "[00ab]");
    assert_eq!(words("[%#.0o]", &[0]).unwrap(), "[0]");
}

#[test]
fn star_takes_exactly_one_more_argument() {
    assert_eq!(ints("[%*d]", &[5, 42]).unwrap(), "[   42]");
    assert_eq!(ints("[%*d]", &[-5, 42]).unwrap(), "[42   ]");
    assert_eq!(ints("[%.*d]", &[3, 7]).unwrap(), "[007]");
    assert_eq!(ints("[%.*d]", &[-3, 7]).unwrap(), "[7]");
    assert_eq!(ints("[%*.*d]", &[6, 3, 7]).unwrap(), "[   007]");
    assert_eq!(ints("[%*d]", &[5]).unwrap_err(), PrintfError::NotEnoughArgs);
    assert_eq!(ints("[%*d]", &[]).unwrap_err(), PrintfError::NotEnoughArgs);
    assert_eq!(ints("[%*d]", &[5, 42, 1]).unwrap_err(), PrintfError::TooManyArgs);
    assert_eq!(words("[%*d]", &[0x8000_0000, 1]).unwrap_err(), PrintfError::WrongType);
}

#[test]
fn arity_errors() {
    assert_eq!(words("%d %d", &[1]).unwrap_err(), PrintfError::NotEnoughArgs);
    assert_eq!(words("%d", &[1, 2]).unwrap_err(), PrintfError::TooManyArgs);
    assert_eq!(words("no conversions", &[1]).unwrap_err(), PrintfError::TooManyArgs);
    assert_eq!(words("%d %", &[1]).unwrap_err(), PrintfError::ParseError);
}

#[test]
fn typing_errors_of_numbers() {
    assert_eq!(words("%s", &[1]).unwrap_err(), PrintfError::WrongType);
    assert_eq!(words("%f", &[1]).unwrap_err(), PrintfError::WrongType);
    assert_eq!(words("%c", &[65]).unwrap(), "A");
    assert_eq!(words("%c", &[256]).unwrap_err(), PrintfError::WrongType);
    assert_eq!(ints("%c", &[65]).unwrap_err(), PrintfError::WrongType);
}

#[test]
fn vsprintfp_renders_parsed_pieces() {
    let elems = parse_format_string(b"x=%d;").unwrap();
    let args: Vec<i32> = vec![-3];
    assert_eq!(vsprintfp(&elems, &args).unwrap(), b"x=-3;".to_vec());
    let none: Vec<i32> = vec![];
    assert_eq!(vsprintfp(&elems, &none).unwrap_err(), PrintfError::NotEnoughArgs);
}

#[test]
fn format_functions_on_their_own() {
    assert_eq!(digits_of(0, 10, false), b"0".to_vec());
    assert_eq!(digits_of(4294967295, 16, true), b"FFFFFFFF".to_vec());
    assert_eq!(digits_of(4294967295, 8, false), b"37777777777".to_vec());
    assert_eq!(digits_of(1234567890, 10, false), b"1234567890".to_vec());
    let mut v = b"ab".to_vec();
    push_n(&mut v, b'-', 3);
    assert_eq!(v, b"ab---".to_vec());
    let d = plain(ConversionType::DecInt);
    assert_eq!(format_int(true, 12, &d).unwrap(), b"-12".to_vec());
    assert_eq!(format_word(0xffff_ffff, &d).unwrap(), b"-1".to_vec());
    assert_eq!(format_word(0xffff_ffff, &plain(ConversionType::DecUInt)).unwrap(), b"4294967295".to_vec());
    assert_eq!(format_int(false, 1, &plain(ConversionType::String)).unwrap_err(), PrintfError::WrongType);
    let mut star = d;
    star.width = NumericParam::FromArgument;
    assert_eq!(format_int(false, 1, &star).unwrap_err(), PrintfError::Unknown);
    assert_eq!(format_char(b'x', &star).unwrap_err(), PrintfError::Unknown);
    assert_eq!(format_bytes(b"abc", &star).unwrap_err(), PrintfError::Unknown);
    let mut s = plain(ConversionType::String);
    s.width = NumericParam::Literal(5);
    assert_eq!(format_bytes(b"abc", &s).unwrap(), b"  abc".to_vec());
    s.left_adj = true;
    assert_eq!(format_bytes(b"abc", &s).unwrap(), b"abc  ".to_vec());
    s.precision = NumericParam::Literal(2);
    assert_eq!(format_bytes(b"abc", &s).unwrap(), b"ab   ".to_vec());
    let mut c = plain(ConversionType::Char);
    c.width = NumericParam::Literal(3);
    assert_eq!(format_char(b'x', &c).unwrap(), b"  x".to_vec());
}

#[test]
fn numbers_as_widths() {
    let d = plain(ConversionType::DecInt);
    assert_eq!(5u32.as_int(&d), Some(5));
    assert_eq!(0x8000_0000u32.as_int(&d), None);
    assert_eq!((-5i32).as_int(&d), Some(-5));
    assert_eq!(255u32.format(&plain(ConversionType::HexIntLower)).unwrap(), b"ff".to_vec());
    assert_eq!((-1i32).format(&plain(ConversionType::HexIntLower)).unwrap(), b"ffffffff".to_vec());
}
