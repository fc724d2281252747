//! `CPRINT`: prints a format of C's `printf` with arguments of the client.

pub mod laws;
pub mod sprintf;

use vstd::prelude::*;
use vstd::bytes::spec_u32_from_le_bytes;
use vstd::bytes::u32_from_le_bytes;
use vstd::slice::slice_subrange;
use self::sprintf::format::Printf;
use self::sprintf::format::format_bytes;
use self::sprintf::format::format_char;
use self::sprintf::format::format_word;
use self::sprintf::format::is_int_conversion;
use self::sprintf::format::spec_format_bytes;
use self::sprintf::format::spec_format_char;
use self::sprintf::format::spec_format_word;
use self::sprintf::parser::ConversionSpecifier;
use self::sprintf::parser::ConversionType;
use self::sprintf::parser::PrintfError;
use self::sprintf::parser::PrintfOther;
use self::sprintf::spec_vsprintf;
use self::sprintf::vsprintf;
use self::sprintf::format::digits_of;
use self::sprintf::format::spec_digits;
use super::MBAsyncRPC;
use super::MBAsyncRPCError;
use super::MBAsyncRPCResult;
use super::MBPoll;
use super::emit_lines;
use super::empty_resp;
use super::spec_buf_after;
use super::spec_empty_resp;
use super::spec_line_out;
use super::spec_out_after;
use crate::mb_channel::MBReqEntry;
use crate::mb_channel::MBReqView;
use crate::mb_channel::MBRespEntry;
use crate::mb_channel::MB_MAX_ARGS;
use crate::mb_rpcs::MBAction;
use crate::mb_rpcs::MBCStringArgs;
use crate::mb_rpcs::MBPtrT;
use crate::mb_rpcs::MBRpc;
use crate::mb_rpcs::MB_CPRINT_ARGS;
use crate::mb_rpcs::MB_CPRINT_DIRECT;
use crate::mb_rpcs::MB_CPRINT_REST_SLOT;
use crate::mb_rpcs::put_cprint_req;
use crate::mb_rpcs::spec_cprint_entry;
use crate::mb_std::mb_share_mem::share_mem::read_bytes;
use crate::mb_rpcs::low_byte;
use crate::mb_rpcs::ptr_to_i32;
use crate::mb_rpcs::spec_low_byte;
use crate::mb_rpcs::spec_ptr_to_i32;
use crate::mb_std::mb_ptr_resolver::MBPtrError;
use crate::mb_std::mb_ptr_resolver::MBPtrReader;
use crate::mb_std::mb_ptr_resolver::MBPtrResolver;
use crate::mb_std::mb_ptr_resolver::spec_read_c_str;

verus! {

/// Renders floating-point numbers, given by their bits: 32 of them, or 64
/// where `double` holds. The platform provides the renderer.
pub trait MBFloatFormat {
    fn format_float(&self, bits: u64, double: bool, spec: &ConversionSpecifier) -> Result<
        Vec<u8>,
        PrintfError,
    >;
}

/// Renders no floating-point number: every such conversion fails.
pub struct MBNoFloat;

impl MBFloatFormat for MBNoFloat {
    fn format_float(&self, bits: u64, double: bool, spec: &ConversionSpecifier) -> (r: Result<
        Vec<u8>,
        PrintfError,
    >)
        ensures
            r == Err::<Vec<u8>, _>(PrintfError::Other(PrintfOther::Float)),
    {
        Err(PrintfError::Other(PrintfOther::Float))
    }
}

/// Whether a conversion renders a floating-point number.
pub open spec fn is_float_conversion(t: ConversionType) -> bool {
    t == ConversionType::SciFloatLower || t == ConversionType::SciFloatUpper || t
        == ConversionType::DecFloatLower || t == ConversionType::DecFloatUpper || t
        == ConversionType::CompactFloatLower || t == ConversionType::CompactFloatUpper
}

/// An argument of a `CPRINT`: a word of the client, which a conversion
/// reads as a number, as a character, as the bits of a floating-point
/// number or as the address of a string.
pub struct CPrintArg<'a, R: MBPtrResolver, F: MBFloatFormat> {
    pub arg: MBPtrT,
    pub r: &'a R,
    pub float: &'a F,
}

impl<'a, R: MBPtrResolver, F: MBFloatFormat> CPrintArg<'a, R, F> {
    pub fn new(arg: MBPtrT, r: &'a R, float: &'a F) -> (a: CPrintArg<'a, R, F>)
        ensures
            a.arg == arg,
            a.r == r,
            a.float == float,
    {
        CPrintArg { arg, r, float }
    }
}

impl<'a, R: MBPtrResolver, F: MBFloatFormat> Printf for CPrintArg<'a, R, F> {
    open spec fn inv(&self) -> bool {
        self.r.inv()
    }

    /// Integers render the word, signed under `d` and `i`; `ll` needs a
    /// wider word. `c` renders the low byte. `s` renders the string at the
    /// address that the word is. Floating point takes the word as 32 bits
    /// and leaves the text to the renderer of the platform; `l` and `L`
    /// need a wider word.
    open spec fn spec_format(&self, spec: ConversionSpecifier) -> Option<
        Result<Seq<u8>, PrintfError>,
    > {
        let t = spec.conversion_type;
        if is_int_conversion(t) {
            if spec.long_long {
                Some(Err(PrintfError::Other(PrintfOther::LongLongInt)))
            } else {
                Some(spec_format_word(self.arg, spec))
            }
        } else if t == ConversionType::Char {
            Some(spec_format_char(spec_low_byte(self.arg), spec))
        } else if t == ConversionType::String {
            match spec_read_c_str(self.r, self.arg as int) {
                Ok(s) => Some(spec_format_bytes(s, spec)),
                Err(_) => Some(Err(PrintfError::Other(PrintfOther::Io))),
            }
        } else if is_float_conversion(t) {
            if spec.long_long {
                Some(Err(PrintfError::Other(PrintfOther::LongDouble)))
            } else if spec.long {
                Some(Err(PrintfError::Other(PrintfOther::Double)))
            } else {
                None
            }
        } else {
            Some(Err(PrintfError::WrongType))
        }
    }

    open spec fn spec_as_int(&self, spec: ConversionSpecifier) -> Option<i32> {
        if is_int_conversion(spec.conversion_type) {
            Some(spec_ptr_to_i32(self.arg))
        } else {
            None
        }
    }

    fn format(&self, spec: &ConversionSpecifier) -> (r: Result<Vec<u8>, PrintfError>) {
        match spec.conversion_type {
            ConversionType::DecInt
            | ConversionType::DecUInt
            | ConversionType::OctInt
            | ConversionType::HexIntLower
            | ConversionType::HexIntUpper => {
                if spec.long_long {
                    Err(PrintfError::Other(PrintfOther::LongLongInt))
                } else {
                    format_word(self.arg, spec)
                }
            },
            ConversionType::Char => format_char(low_byte(self.arg), spec),
            ConversionType::String => {
                match self.r.read_c_str(self.arg) {
                    Ok(s) => format_bytes(s.as_slice(), spec),
                    Err(_) => Err(PrintfError::Other(PrintfOther::Io)),
                }
            },
            ConversionType::SciFloatLower
            | ConversionType::SciFloatUpper
            | ConversionType::DecFloatLower
            | ConversionType::DecFloatUpper
            | ConversionType::CompactFloatLower
            | ConversionType::CompactFloatUpper => {
                if spec.long_long {
                    Err(PrintfError::Other(PrintfOther::LongDouble))
                } else if spec.long {
                    Err(PrintfError::Other(PrintfOther::Double))
                } else {
                    self.float.format_float(self.arg as u64, false, spec)
                }
            },
            _ => Err(PrintfError::WrongType),
        }
    }

    fn as_int(&self, spec: &ConversionSpecifier) -> (r: Option<i32>) {
        match spec.conversion_type {
            ConversionType::DecInt
            | ConversionType::DecUInt
            | ConversionType::OctInt
            | ConversionType::HexIntLower
            | ConversionType::HexIntUpper => Some(ptr_to_i32(self.arg)),
            _ => None,
        }
    }
}

/// The arguments `args` of a `CPRINT`, each with the memory and the
/// renderer of floating point that it is read with.
pub open spec fn spec_cprint_args<'a, R: MBPtrResolver, F: MBFloatFormat>(
    args: Seq<MBPtrT>,
    r: &'a R,
    float: &'a F,
) -> Seq<CPrintArg<'a, R, F>> {
    Seq::new(args.len(), |i: int| CPrintArg { arg: args[i], r, float })
}

/// What went wrong with a `CPRINT`.
#[derive(Debug, Clone, Copy, PartialEq, Eq, Structural)]
pub enum MBCParseError {
    /// The name of the file or the format could not be read.
    IOError(MBPtrError),
    /// The format could not be rendered.
    ParseError(PrintfError),
}

/// What went wrong with a `CPRINT`, and where the client printed.
#[derive(Debug)]
pub struct MBCFmtError {
    pub e: MBCParseError,
    pub file: Vec<u8>,
    pub pos: u32,
}

/// What went wrong with a `CPRINT`, the name of the file as a sequence.
pub struct MBCFmtErrorView {
    pub e: MBCParseError,
    pub file: Seq<u8>,
    pub pos: u32,
}

impl View for MBCFmtError {
    type V = MBCFmtErrorView;

    open spec fn view(&self) -> MBCFmtErrorView {
        MBCFmtErrorView { e: self.e, file: self.file@, pos: self.pos }
    }
}

/// The name that stands for a file whose name could not be read.
pub open spec fn spec_unknown_file() -> Seq<u8> {
    seq![0x3cu8, 0x75u8, 0x6eu8, 0x6bu8, 0x6eu8, 0x6fu8, 0x77u8, 0x6eu8, 0x3eu8]
}

/// The name that stands for a file whose name could not be read:
/// `<unknown>`.
pub fn unknown_file() -> (v: Vec<u8>)
    ensures
        v@ == spec_unknown_file(),
{
    let mut v: Vec<u8> = Vec::new();
    v.push(0x3c);
    v.push(0x75);
    v.push(0x6e);
    v.push(0x6b);
    v.push(0x6e);
    v.push(0x6f);
    v.push(0x77);
    v.push(0x6e);
    v.push(0x3e);
    v
}

/// A format of the client with what is needed to render it: the format,
/// the place in the source that prints, the arguments.
pub struct MBCStringFmtParser<'a, R: MBPtrResolver, F: MBFloatFormat> {
    pub fmt_str: Vec<u8>,
    pub file: Vec<u8>,
    pub pos: u32,
    pub args: Vec<MBPtrT>,
    pub r: &'a R,
    pub float: &'a F,
}

/// What reading the name of the file at `file` and the format at `fmt_str`
/// comes to: both strings, or what went wrong. The name is read first;
/// where it cannot be read, `<unknown>` stands for it.
pub open spec fn spec_fmt_strings<R: MBPtrReader>(r: &R, fmt_str: MBPtrT, file: MBPtrT, pos: u32)
    -> Result<(Seq<u8>, Seq<u8>), MBCFmtErrorView> {
    match spec_read_c_str(r, file as int) {
        Err(e) => Err(
            MBCFmtErrorView { e: MBCParseError::IOError(e), file: spec_unknown_file(), pos },
        ),
        Ok(name) => match spec_read_c_str(r, fmt_str as int) {
            Err(e) => Err(MBCFmtErrorView { e: MBCParseError::IOError(e), file: name, pos }),
            Ok(fmt) => Ok((fmt, name)),
        },
    }
}

/// The text of a `CPRINT`: the format at `fmt_str` rendered with `args`,
/// or what went wrong, with the place in the source that prints. Nothing
/// where the text is left to the platform.
pub open spec fn spec_cprint_text<R: MBPtrResolver, F: MBFloatFormat>(
    r: &R,
    float: &F,
    fmt_str: MBPtrT,
    file: MBPtrT,
    pos: u32,
    args: Seq<MBPtrT>,
) -> Option<Result<Seq<u8>, MBCFmtErrorView>> {
    match spec_fmt_strings(r, fmt_str, file, pos) {
        Err(e) => Some(Err(e)),
        Ok((fmt, name)) => match spec_vsprintf(fmt, spec_cprint_args(args, r, float)) {
            Some(Ok(text)) => Some(Ok(text)),
            Some(Err(e)) => Some(
                Err(MBCFmtErrorView { e: MBCParseError::ParseError(e), file: name, pos }),
            ),
            None => None,
        },
    }
}

impl<'a, R: MBPtrResolver, F: MBFloatFormat> MBCStringFmtParser<'a, R, F> {
    /// Reads the name of the file and the format.
    pub fn new(
        fmt_str: MBPtrT,
        file: MBPtrT,
        pos: u32,
        args: Vec<MBPtrT>,
        r: &'a R,
        float: &'a F,
    ) -> (res: Result<MBCStringFmtParser<'a, R, F>, MBCFmtError>)
        requires
            r.inv(),
        ensures
            match spec_fmt_strings(r, fmt_str, file, pos) {
                Ok((fmt, name)) => res matches Ok(p) && p.fmt_str@ == fmt && p.file@ == name
                    && p.pos == pos && p.args@ == args@ && p.r == r && p.float == float,
                Err(e) => res matches Err(err) && err@ == e,
            },
    {
        let name = match r.read_c_str(file) {
            Ok(s) => s,
            Err(e) => {
                return Err(MBCFmtError { e: MBCParseError::IOError(e), file: unknown_file(), pos });
            },
        };
        let fmt = match r.read_c_str(fmt_str) {
            Ok(s) => s,
            Err(e) => {
                return Err(MBCFmtError { e: MBCParseError::IOError(e), file: name, pos });
            },
        };
        Ok(MBCStringFmtParser { fmt_str: fmt, file: name, pos, args, r, float })
    }

    /// Renders the format with the arguments.
    pub fn parse(&self) -> (res: Result<Vec<u8>, MBCFmtError>)
        requires
            self.r.inv(),
        ensures
            match spec_vsprintf(self.fmt_str@, spec_cprint_args(self.args@, self.r, self.float)) {
                Some(Ok(text)) => res matches Ok(t) && t@ == text,
                Some(Err(e)) => res matches Err(err) && err@ == (MBCFmtErrorView {
                    e: MBCParseError::ParseError(e),
                    file: self.file@,
                    pos: self.pos,
                }),
                None => true,
            },
    {
        let mut args: Vec<CPrintArg<'a, R, F>> = Vec::new();
        let mut k: usize = 0;
        while k < self.args.len()
            invariant
                k <= self.args.len(),
                args@.len() == k,
                forall|i: int|
                    0 <= i < k ==> #[trigger] args@[i] == (CPrintArg {
                        arg: self.args@[i],
                        r: self.r,
                        float: self.float,
                    }),
            decreases self.args.len() - k,
        {
            args.push(CPrintArg::new(self.args[k], self.r, self.float));
            k = k + 1;
        }
        assert(args@ =~= spec_cprint_args(self.args@, self.r, self.float));
        assert(self.file@.subrange(0, self.file@.len() as int) =~= self.file@);
        match vsprintf(self.fmt_str.as_slice(), args.as_slice()) {
            Ok(t) => Ok(t),
            Err(e) => Err(
                MBCFmtError {
                    e: MBCParseError::ParseError(e),
                    file: super::c_print::sprintf::parser::copy_range(
                        self.file.as_slice(),
                        0,
                        self.file.len(),
                    ),
                    pos: self.pos,
                },
            ),
        }
    }
}

/// The 32-bit words that bytes hold, four bytes each, least significant
/// byte first.
pub open spec fn spec_words(bytes: Seq<u8>) -> Seq<u32> {
    Seq::new((bytes.len() / 4) as nat, |i: int| spec_u32_from_le_bytes(bytes.subrange(4 * i, 4 * i + 4)))
}

/// Reads the 32-bit words that `bytes` hold.
pub fn words_of(bytes: &[u8]) -> (w: Vec<u32>)
    ensures
        w@ == spec_words(bytes@),
{
    let n = bytes.len() / 4;
    let mut w: Vec<u32> = Vec::new();
    let mut k: usize = 0;
    while k < n
        invariant
            k <= n,
            n == bytes.len() / 4,
            w@.len() == k,
            forall|i: int| 0 <= i < k ==> w@[i] == spec_words(bytes@)[i],
        decreases n - k,
    {
        w.push(u32_from_le_bytes(slice_subrange(bytes, 4 * k, 4 * k + 4)));
        k = k + 1;
    }
    w
}

/// Whether a request is a well-formed `CPRINT`: it has its three leading
/// words.
pub open spec fn spec_cprint_valid(req: MBReqView) -> bool {
    req.words >= 3
}

/// The number of arguments of a `CPRINT` that travel in the entry: all of
/// them where they fit, else the first three.
pub open spec fn spec_cprint_dir_len(req: MBReqView) -> int {
    if req.words - 3 <= MB_CPRINT_ARGS {
        req.words - 3
    } else {
        MB_CPRINT_DIRECT as int
    }
}

/// The number of arguments of a `CPRINT` that are left in the client's
/// memory.
pub open spec fn spec_cprint_rest_len(req: MBReqView) -> int {
    req.words - 3 - spec_cprint_dir_len(req)
}

/// The arguments of a `CPRINT`: those in the entry and, behind them, those
/// that the last slot points to. Nothing where the memory does not cover
/// the latter.
pub open spec fn spec_cprint_all_args<R: MBPtrReader>(r: &R, req: MBReqView) -> Option<
    Seq<MBPtrT>,
> {
    let direct = req.args.subrange(3, 3 + spec_cprint_dir_len(req));
    let rest = spec_cprint_rest_len(req);
    if rest <= 0 {
        Some(direct)
    } else if 4 * rest <= u32::MAX
        && r.covers(req.args[MB_CPRINT_REST_SLOT as int] as int, 4 * rest) {
        Some(
            direct + spec_words(
                read_bytes(r.mem(), req.args[MB_CPRINT_REST_SLOT as int] as int, 4 * rest),
            ),
        )
    } else {
        None
    }
}

/// Reads the arguments of a `CPRINT` request.
pub fn cprint_all_args<R: MBPtrResolver>(r: &R, req: &MBReqEntry) -> (res: Option<Vec<MBPtrT>>)
    requires
        r.inv(),
        spec_cprint_valid(req@),
    ensures
        res is Some <==> spec_cprint_all_args(r, req@) is Some,
        res matches Some(v) ==> Some(v@) == spec_cprint_all_args(r, req@),
{
    let n: u32 = req.words - 3;
    let dir: usize = if n as usize <= MB_CPRINT_ARGS {
        n as usize
    } else {
        MB_CPRINT_DIRECT
    };
    let mut all = copy_words(&req.args, 3, 3 + dir);
    let rest: u64 = n as u64 - dir as u64;
    if rest > 0 {
        if rest * 4 > u32::MAX as u64 {
            return None;
        }
        let bytes = match r.read_slice(req.args[MB_CPRINT_REST_SLOT], (rest * 4) as usize) {
            Ok(b) => b,
            Err(_) => {
                return None;
            },
        };
        let mut words = words_of(bytes.as_slice());
        all.append(&mut words);
    }
    Some(all)
}

/// Copies the slots of `args` between `from` and `to`.
pub fn copy_words(args: &[MBPtrT; MB_MAX_ARGS], from: usize, to: usize) -> (v: Vec<MBPtrT>)
    requires
        from <= to <= MB_MAX_ARGS,
    ensures
        v@ == args@.subrange(from as int, to as int),
{
    let mut v: Vec<MBPtrT> = Vec::new();
    let mut k: usize = from;
    while k < to
        invariant
            from <= k <= to <= MB_MAX_ARGS,
            v@ == args@.subrange(from as int, k as int),
        decreases to - k,
    {
        v.push(args[k]);
        k = k + 1;
    }
    v
}

/// The words with which the report of a failed `CPRINT` begins: `I/O
/// error` where a string could not be read, `format error` else.
pub open spec fn spec_error_kind(e: MBCParseError) -> Seq<u8> {
    match e {
        MBCParseError::IOError(_) => seq![
            0x49u8,
            0x2fu8,
            0x4fu8,
            0x20u8,
            0x65u8,
            0x72u8,
            0x72u8,
            0x6fu8,
            0x72u8,
        ],
        MBCParseError::ParseError(_) => seq![
            0x66u8,
            0x6fu8,
            0x72u8,
            0x6du8,
            0x61u8,
            0x74u8,
            0x20u8,
            0x65u8,
            0x72u8,
            0x72u8,
            0x6fu8,
            0x72u8,
        ],
    }
}

/// The report of a failed `CPRINT`: what went wrong, then `! in `, the
/// name of the file, `, line `, the line in decimal, `!` and a newline.
pub open spec fn spec_error_text(e: MBCFmtErrorView) -> Seq<u8> {
    spec_error_kind(e.e) + seq![0x21u8, 0x20u8, 0x69u8, 0x6eu8, 0x20u8] + e.file + seq![
        0x2cu8,
        0x20u8,
        0x6cu8,
        0x69u8,
        0x6eu8,
        0x65u8,
        0x20u8,
    ] + spec_digits(e.pos as nat, 10, false) + seq![0x21u8, 0x0au8]
}

impl MBCFmtError {
    /// The report of the failure, as the server logs it.
    pub fn message(&self) -> (m: Vec<u8>)
        ensures
            m@ == spec_error_text(self@),
    {
        let mut m: Vec<u8> = Vec::new();
        match self.e {
            MBCParseError::IOError(_) => {
                m.push(0x49);
                m.push(0x2f);
                m.push(0x4f);
                m.push(0x20);
                m.push(0x65);
                m.push(0x72);
                m.push(0x72);
                m.push(0x6f);
                m.push(0x72);
            },
            MBCParseError::ParseError(_) => {
                m.push(0x66);
                m.push(0x6f);
                m.push(0x72);
                m.push(0x6d);
                m.push(0x61);
                m.push(0x74);
                m.push(0x20);
                m.push(0x65);
                m.push(0x72);
                m.push(0x72);
                m.push(0x6f);
                m.push(0x72);
            },
        }
        m.push(0x21);
        m.push(0x20);
        m.push(0x69);
        m.push(0x6e);
        m.push(0x20);
        m.extend_from_slice(self.file.as_slice());
        m.push(0x2c);
        m.push(0x20);
        m.push(0x6c);
        m.push(0x69);
        m.push(0x6e);
        m.push(0x65);
        m.push(0x20);
        let digits = digits_of(self.pos, 10, false);
        m.extend_from_slice(digits.as_slice());
        m.push(0x21);
        m.push(0x0a);
        m
    }
}

/// `CPRINT` with the text that the server holds back until a line is
/// complete, and the renderer of floating point.
pub struct MBCPrint<'a, F: MBFloatFormat> {
    pub buf: Vec<u8>,
    pub float: F,
    pub _marker: core::marker::PhantomData<&'a u8>,
}

impl<'a, F: MBFloatFormat> MBCPrint<'a, F> {
    pub fn new(float: F) -> (p: MBCPrint<'a, F>)
        ensures
            p.buf@.len() == 0,
            p.float == float,
    {
        MBCPrint { buf: Vec::new(), float, _marker: core::marker::PhantomData }
    }
}

impl<'a, F: MBFloatFormat> MBRpc for MBCPrint<'a, F> {
    type REQ = &'a MBCStringArgs;

    type RESP = ();

    open spec fn req_valid(&self, req: &'a MBCStringArgs) -> bool {
        req.len >= 3
    }

    open spec fn spec_put_req(&self, req: &'a MBCStringArgs, entry: MBReqView) -> MBReqView {
        spec_cprint_entry(req, entry)
    }

    open spec fn spec_get_resp(&self, entry: MBRespEntry) -> () {
        ()
    }

    fn put_req(&self, req: &'a MBCStringArgs, entry: &mut MBReqEntry) {
        put_cprint_req(req, entry);
    }

    fn get_resp(&self, _entry: &MBRespEntry) -> (resp: ()) {
    }
}

/// What a `CPRINT` request comes to: a response without result word where
/// arguments were left in the client's memory, none else.
pub open spec fn spec_cprint_result(req: MBReqView) -> MBAsyncRPCResult {
    if spec_cprint_rest_len(req) > 0 {
        Ok(spec_empty_resp())
    } else {
        Err(MBAsyncRPCError::NoResp)
    }
}

/// What serving a `CPRINT` comes to. The request is illegal, and nothing
/// changes, where it has fewer than three words or the arguments left in
/// the client's memory cannot be read. Else the text is taken into the
/// line buffer and what the buffer holds is emitted once it ends in a
/// newline; where the format cannot be rendered, a report is emitted in
/// place of the text. Where the text is left to the platform, text or
/// report are what its renderer makes them.
pub open spec fn spec_cprint_post<R: MBPtrResolver, F: MBFloatFormat>(
    r: &R,
    float: &F,
    name: Seq<u8>,
    req: MBReqView,
    buf0: Seq<u8>,
    buf1: Seq<u8>,
    out0: Seq<u8>,
    out1: Seq<u8>,
    p: MBPoll<MBAsyncRPCResult>,
) -> bool {
    if !spec_cprint_valid(req) || spec_cprint_all_args(r, req) is None {
        &&& p == MBPoll::Ready(Err::<MBRespEntry, _>(MBAsyncRPCError::Illegal(MBAction::CPRINT)))
        &&& buf1 == buf0
        &&& out1 == out0
    } else {
        &&& p == MBPoll::Ready(spec_cprint_result(req))
        &&& match spec_cprint_text(
            r,
            float,
            req.args[0],
            req.args[1],
            req.args[2],
            spec_cprint_all_args(r, req)->0,
        ) {
            Some(Ok(text)) => {
                &&& buf1 == spec_buf_after(buf0, text)
                &&& out1 == out0 + spec_out_after(name, buf0, text)
            },
            Some(Err(e)) => {
                &&& buf1 == buf0
                &&& out1 == out0 + spec_line_out(name, spec_error_text(e))
            },
            None => out0.is_prefix_of(out1),
        }
    }
}

impl<'a, F: MBFloatFormat, R: MBPtrResolver> MBAsyncRPC<R> for MBCPrint<'a, F> {
    open spec fn inv(&self) -> bool {
        true
    }

    /// Renders the format with the arguments and takes the text into the
    /// line buffer; what the buffer holds is emitted once it ends in a
    /// newline. Where the format cannot be rendered, a report is emitted
    /// in place of the text. The request is illegal where it has fewer
    /// than three words or the arguments left in the client's memory
    /// cannot be read.
    fn poll_cmd(
        &mut self,
        server_name: &[u8],
        r: &mut R,
        req: &MBReqEntry,
        out: &mut Vec<u8>,
    ) -> (p: MBPoll<MBAsyncRPCResult>)
        ensures
            final(r).mem() == old(r).mem(),
            final(self).float == old(self).float,
            spec_cprint_post(
                old(r),
                &old(self).float,
                server_name@,
                req@,
                old(self).buf@,
                final(self).buf@,
                old(out)@,
                final(out)@,
                p,
            ),
    {
        if req.words < 3 {
            return MBPoll::Ready(Err(MBAsyncRPCError::Illegal(MBAction::CPRINT)));
        }
        let args = match cprint_all_args(r, req) {
            Some(a) => a,
            None => {
                return MBPoll::Ready(Err(MBAsyncRPCError::Illegal(MBAction::CPRINT)));
            },
        };
        let rendered = match MBCStringFmtParser::new(
            req.args[0],
            req.args[1],
            req.args[2],
            args,
            &*r,
            &self.float,
        ) {
            Ok(parser) => parser.parse(),
            Err(e) => Err(e),
        };
        match rendered {
            Ok(text) => {
                emit_lines(server_name, &mut self.buf, text.as_slice(), out);
            },
            Err(e) => {
                let m = e.message();
                out.push(0x5b);
                out.extend_from_slice(server_name);
                out.push(0x5d);
                out.push(0x20);
                out.extend_from_slice(m.as_slice());
                assert(out@ =~= old(out)@ + spec_line_out(server_name@, spec_error_text(e@)));
            },
        }
        let n: u32 = req.words - 3;
        if n as usize > MB_CPRINT_ARGS {
            MBPoll::Ready(Ok(empty_resp()))
        } else {
            MBPoll::Ready(Err(MBAsyncRPCError::NoResp))
        }
    }
}

/// What was encoded is what is decoded: the format, the file and the line,
/// the arguments that travel in the entry and, where some are left in the
/// client's memory, their address.
pub proof fn lemma_cprint_round_trip(req: &MBCStringArgs, entry: MBReqView)
    requires
        entry.args.len() == MB_MAX_ARGS,
        req.len >= 3,
    ensures
        ({
            let e = spec_cprint_entry(req, entry);
            &&& e.action == MBAction::CPRINT
            &&& e.words == req.len
            &&& spec_cprint_valid(e)
            &&& e.args[0] == req.fmt_str
            &&& e.args[1] == req.file
            &&& e.args[2] == req.pos
            &&& spec_cprint_dir_len(e) == req.spec_dir_args_len()
            &&& spec_cprint_rest_len(e) == req.spec_rest_args_len()
            &&& e.args.subrange(3, 3 + spec_cprint_dir_len(e)) == req.args@.subrange(
                0,
                req.spec_dir_args_len() as int,
            )
            &&& spec_cprint_rest_len(e) > 0 ==> e.args[MB_CPRINT_REST_SLOT as int]
                == req.rest_args
        }),
{
}

} // verus!
