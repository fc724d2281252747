use mailbox_rs::mb_std::mb_server::check_version;
use mailbox_rs::mb_std::mb_server::MBVersion;
use mailbox_rs::mb_std::mb_server::MBVersionMismatch;
use mailbox_rs::mb_std::mb_server::mb_version;
use mailbox_rs::mb_channel::MBReqEntry;
use mailbox_rs::mb_channel::MBRespEntry;
use mailbox_rs::mb_no_std::mb_rpcs::c_print::MBCPrint;
use mailbox_rs::mb_rpcs::MBAction;
use mailbox_rs::mb_rpcs::MBCall;
use mailbox_rs::mb_rpcs::MBCallArgs;
use mailbox_rs::mb_rpcs::MBExit;
use mailbox_rs::mb_rpcs::MBMemCmp;
use mailbox_rs::mb_rpcs::MBMemCmpArgs;
use mailbox_rs::mb_rpcs::MBMemMove;
use mailbox_rs::mb_rpcs::MBMemMoveArgs;
use mailbox_rs::mb_rpcs::MBMemSet;
use mailbox_rs::mb_rpcs::MBMemSetArgs;
use mailbox_rs::mb_rpcs::MBPtrT;
use mailbox_rs::mb_rpcs::MBRpc;
use mailbox_rs::mb_rpcs::MBStopServer;
use mailbox_rs::mb_rpcs::MBStringArgs;
use mailbox_rs::mb_std::mb_ptr_resolver::MBPtrReader;
use mailbox_rs::mb_std::mb_ptr_resolver::MBPtrWriter;
use mailbox_rs::mb_std::mb_ptr_resolver::MBSMPtrResolver;
use mailbox_rs::mb_std::mb_rpcs::c_print::sprintf::parser::ConversionSpecifier;
use mailbox_rs::mb_std::mb_rpcs::c_print::sprintf::parser::NumericParam;
use mailbox_rs::mb_std::mb_rpcs::c_print::sprintf::parser::PrintfError;
use mailbox_rs::mb_std::mb_rpcs::c_print::cprint_all_args;
use mailbox_rs::mb_std::mb_rpcs::c_print::words_of;
use mailbox_rs::mb_std::mb_rpcs::c_print::sprintf::format::Printf;
use mailbox_rs::mb_std::mb_rpcs::c_print::sprintf::parser::ConversionType;
use mailbox_rs::mb_std::mb_rpcs::c_print::sprintf::parser::PrintfOther;
use mailbox_rs::mb_std::mb_rpcs::c_print::sprintf::parser::NO_PRECISION;
use mailbox_rs::mb_std::mb_rpcs::c_print::CPrintArg;
use mailbox_rs::mb_std::mb_rpcs::c_print::MBCStringFmtParser;
use mailbox_rs::mb_std::mb_rpcs::c_print::MBCFmtError;
use mailbox_rs::mb_std::mb_rpcs::c_print::MBCParseError;
use mailbox_rs::mb_std::mb_rpcs::c_print::MBFloatFormat;
use mailbox_rs::mb_std::mb_rpcs::c_print::MBNoFloat;
use mailbox_rs::mb_std::mb_rpcs::call::call_outcome;
use mailbox_rs::mb_std::mb_rpcs::call::MBCallCmd;
use mailbox_rs::mb_std::mb_rpcs::call::MBCallHook;
use mailbox_rs::mb_std::mb_rpcs::call::MBNoCall;
use mailbox_rs::mb_std::mb_rpcs::emit_lines;
use mailbox_rs::mb_std::mb_rpcs::memcmp::memcmp;
use mailbox_rs::mb_std::mb_rpcs::memmove::memmove;
use mailbox_rs::mb_std::mb_rpcs::memset::memset;
use mailbox_rs::mb_std::mb_rpcs::MBAsyncRPC;
use mailbox_rs::mb_std::mb_rpcs::MBAsyncRPCError;
use mailbox_rs::mb_std::mb_rpcs::MBAsyncRPCResult;
use mailbox_rs::mb_std::mb_rpcs::MBPoll;
use mailbox_rs::mb_std::mb_share_mem::share_mem::MBBufferMem;
use mailbox_rs::mb_std::mb_share_mem::share_mem::MBShareMemSpace;

type Mem = MBSMPtrResolver<MBShareMemSpace<MBBufferMem>>;

fn mem() -> Mem {
    let mut s = MBShareMemSpace::new();
    s.add_mem(MBBufferMem::new(0x100, 0x400).unwrap()).unwrap();
    MBSMPtrResolver::new(s)
}

fn ready(p: MBPoll<MBAsyncRPCResult>) -> MBAsyncRPCResult {
    match p {
        MBPoll::Ready(r) => r,
        MBPoll::Pending => panic!("pending"),
    }
}

fn entry<'a, RPC: MBRpc>(rpc: &RPC, req: RPC::REQ) -> MBReqEntry {
    let mut e = MBReqEntry::default();
    rpc.put_req(req, &mut e);
    e
}

#[test]
fn memmove_of_ranges_that_overlap() {
    let mut r = mem();
    r.write_slice(0x200, &[1, 2, 3, 4, 5, 6, 7, 8]).unwrap();
    let res = memmove(&mut r, &MBMemMoveArgs { dest: 0x202, src: 0x204, len: 4 });
    assert_eq!(res.unwrap().words, 0);
    assert_eq!(r.read_slice(0x200, 8).unwrap(), vec![1, 2, 5, 6, 7, 8, 7, 8]);
}

#[test]
fn memmove_towards_higher_addresses_keeps_the_source() {
    let mut r = mem();
    r.write_slice(0x200, &[1, 2, 3, 4, 5, 6, 7, 8]).unwrap();
    assert!(memmove(&mut r, &MBMemMoveArgs { dest: 0x202, src: 0x200, len: 6 }).is_ok());
    assert_eq!(r.read_slice(0x200, 8).unwrap(), vec![1, 2, 1, 2, 3, 4, 5, 6]);
    assert!(memmove(&mut r, &MBMemMoveArgs { dest: 0x210, src: 0x200, len: 0 }).is_ok());
    assert_eq!(r.read_slice(0x210, 2).unwrap(), vec![0, 0]);
}

#[test]
fn memmove_out_of_memory_is_illegal_and_writes_nothing() {
    let mut r = mem();
    r.write_slice(0x4f8, &[1, 2, 3, 4, 5, 6, 7, 8]).unwrap();
    let illegal = Err(MBAsyncRPCError::Illegal(MBAction::MEMMOVE));
    assert_eq!(memmove(&mut r, &MBMemMoveArgs { dest: 0x200, src: 0x4fc, len: 8 }).map(|_| ()), illegal);
    assert_eq!(memmove(&mut r, &MBMemMoveArgs { dest: 0x4fc, src: 0x4f8, len: 8 }).map(|_| ()), illegal);
    assert_eq!(memmove(&mut r, &MBMemMoveArgs { dest: 0x10, src: 0x4f8, len: 1 }).map(|_| ()), illegal);
    assert_eq!(r.read_slice(0x4f8, 8).unwrap(), vec![1, 2, 3, 4, 5, 6, 7, 8]);
    assert_eq!(r.read_slice(0x200, 4).unwrap(), vec![0, 0, 0, 0]);
}

#[test]
fn memset_fills_with_the_low_byte() {
    let mut r = mem();
    r.write_slice(0x200, &[1, 2, 3, 4, 5, 6, 7, 8]).unwrap();
    let res = memset(&mut r, &MBMemSetArgs { dest: 0x202, data: 0x5a, len: 4 });
    assert_eq!(res.unwrap().words, 0);
    assert_eq!(r.read_slice(0x200, 8).unwrap(), vec![1, 2, 0x5a, 0x5a, 0x5a, 0x5a, 7, 8]);
    assert!(memset(&mut r, &MBMemSetArgs { dest: 0x200, data: 0x1234_56ff, len: 2 }).is_ok());
    assert_eq!(r.read_slice(0x200, 3).unwrap(), vec![0xff, 0xff, 0x5a]);
    assert!(memset(&mut r, &MBMemSetArgs { dest: 0x200, data: 1, len: 0 }).is_ok());
    assert_eq!(
        memset(&mut r, &MBMemSetArgs { dest: 0x4fe, data: 1, len: 3 }).map(|_| ()),
        Err(MBAsyncRPCError::Illegal(MBAction::MEMSET))
    );
    assert_eq!(r.read_slice(0x4fe, 2).unwrap(), vec![0, 0]);
}

#[test]
fn memcmp_gives_the_difference_of_the_first_pair_that_differs() {
    let mut r = mem();
    r.write_slice(0x200, &[8, 7, 6, 4, 5, 1, 2, 3]).unwrap();
    r.write_slice(0x300, &[1, 2, 3, 4, 5, 6, 7, 8]).unwrap();
    let res = memcmp(&r, &MBMemCmpArgs { s1: 0x203, s2: 0x303, len: 4 }).unwrap();
    assert_eq!(res.words, 1);
    assert_eq!(MBMemCmp::new().get_resp(&res), -5);
    assert_eq!(res.rets, 0xffff_fffb);
    let res = memcmp(&r, &MBMemCmpArgs { s1: 0x200, s2: 0x300, len: 8 }).unwrap();
    assert_eq!(MBMemCmp::new().get_resp(&res), 7);
    let res = memcmp(&r, &MBMemCmpArgs { s1: 0x203, s2: 0x303, len: 2 }).unwrap();
    assert_eq!((res.words, res.rets), (1, 0));
    let res = memcmp(&r, &MBMemCmpArgs { s1: 0x200, s2: 0x300, len: 0 }).unwrap();
    assert_eq!((res.words, res.rets), (1, 0));
    r.write_slice(0x210, &[0, 255]).unwrap();
    r.write_slice(0x310, &[255, 0]).unwrap();
    let res = memcmp(&r, &MBMemCmpArgs { s1: 0x210, s2: 0x310, len: 2 }).unwrap();
    assert_eq!(MBMemCmp::new().get_resp(&res), -255);
    let res = memcmp(&r, &MBMemCmpArgs { s1: 0x311, s2: 0x211, len: 1 }).unwrap();
    assert_eq!(MBMemCmp::new().get_resp(&res), -255);
}

#[test]
fn memcmp_reads_no_further_than_the_first_difference() {
    let mut r = mem();
    r.write_slice(0x4fe, &[1, 2]).unwrap();
    r.write_slice(0x200, &[1, 3, 0, 0]).unwrap();
    let res = memcmp(&r, &MBMemCmpArgs { s1: 0x4fe, s2: 0x200, len: 4 }).unwrap();
    assert_eq!(MBMemCmp::new().get_resp(&res), -1);
    r.write_slice(0x200, &[1, 2, 0, 0]).unwrap();
    assert_eq!(
        memcmp(&r, &MBMemCmpArgs { s1: 0x4fe, s2: 0x200, len: 4 }).map(|_| ()),
        Err(MBAsyncRPCError::Illegal(MBAction::MEMCMP))
    );
    assert_eq!(
        memcmp(&r, &MBMemCmpArgs { s1: 0xffff_ffff, s2: 0x200, len: 2 }).map(|_| ()),
        Err(MBAsyncRPCError::Illegal(MBAction::MEMCMP))
    );
}

#[test]
fn handlers_of_the_memory_actions_decode_their_requests() {
    let mut r = mem();
    let mut out = Vec::new();
    r.write_slice(0x200, &[1, 2, 3, 4, 5, 6, 7, 8]).unwrap();
    let mut mv = MBMemMove::new();
    let e = entry(&MBMemMove::new(), &MBMemMoveArgs { dest: 0x202, src: 0x204, len: 4 });
    assert_eq!(ready(mv.poll_cmd(b"ch0", &mut r, &e, &mut out)).unwrap().words, 0);
    assert_eq!(r.read_slice(0x200, 8).unwrap(), vec![1, 2, 5, 6, 7, 8, 7, 8]);
    let mut set = MBMemSet::new();
    let e = entry(&MBMemSet::new(), &MBMemSetArgs { dest: 0x200, data: 9, len: 2 });
    assert_eq!(ready(set.poll_cmd(b"ch0", &mut r, &e, &mut out)).unwrap().words, 0);
    assert_eq!(r.read_slice(0x200, 3).unwrap(), vec![9, 9, 5]);
    let mut cmp = MBMemCmp::new();
    let e = entry(&MBMemCmp::new(), &MBMemCmpArgs { s1: 0x200, s2: 0x202, len: 1 });
    assert_eq!(ready(cmp.poll_cmd(b"ch0", &mut r, &e, &mut out)).unwrap().rets, 4);
    assert!(out.is_empty());
}

#[test]
fn emit_lines_holds_text_back_until_a_newline_ends_it() {
    let mut buf = Vec::new();
    let mut out = Vec::new();
    emit_lines(b"ch0", &mut buf, b"hello", &mut out);
    assert_eq!(buf, b"hello".to_vec());
    assert!(out.is_empty());
    emit_lines(b"ch0", &mut buf, b"", &mut out);
    assert!(out.is_empty());
    emit_lines(b"ch0", &mut buf, b" a\nb", &mut out);
    assert_eq!(buf, b"hello a\nb".to_vec());
    assert!(out.is_empty());
    emit_lines(b"ch0", &mut buf, b"\n", &mut out);
    assert!(buf.is_empty());
    assert_eq!(out, b"[ch0] hello a\nb\n".to_vec());
    emit_lines(b"x", &mut buf, b"\n", &mut out);
    assert_eq!(out, b"[ch0] hello a\nb\n[x] \n".to_vec());
}

#[test]
fn print_is_emitted_once_its_line_is_complete() {
    let mut r = mem();
    r.write_slice(0x200, b"hello\n").unwrap();
    let mut out = Vec::new();
    let mut print = mailbox_rs::mb_std::mb_rpcs::print::MBPrint::new();
    let e = entry(&mailbox_rs::mb_std::mb_rpcs::print::MBPrint::new(), &MBStringArgs { len: 5, ptr: 0x200 });
    let res = ready(print.poll_cmd(b"ch0", &mut r, &e, &mut out)).unwrap();
    assert_eq!((res.words, res.rets), (0, 0));
    assert!(out.is_empty());
    let e = entry(&mailbox_rs::mb_std::mb_rpcs::print::MBPrint::new(), &MBStringArgs { len: 1, ptr: 0x205 });
    assert!(ready(print.poll_cmd(b"ch0", &mut r, &e, &mut out)).is_ok());
    assert_eq!(out, b"[ch0] hello\n".to_vec());
    let e = entry(&mailbox_rs::mb_std::mb_rpcs::print::MBPrint::new(), &MBStringArgs { len: 9, ptr: 0x4fc });
    assert_eq!(
        ready(print.poll_cmd(b"ch0", &mut r, &e, &mut out)).map(|_| ()),
        Err(MBAsyncRPCError::Illegal(MBAction::PRINT))
    );
    assert_eq!(out, b"[ch0] hello\n".to_vec());
}

fn cprint_entry(r: &mut Mem, fmt: &[u8], args: &[MBPtrT]) -> MBReqEntry {
    r.write_slice(0x200, b"f.c\0").unwrap();
    r.write_slice(0x210, fmt).unwrap();
    for (i, a) in args.iter().enumerate() {
        r.write_u32(0x300 + 4 * i as u32, *a).unwrap();
    }
    let rpc = MBCPrint::new();
    let c = rpc.to_cstr_args(0x200, 42, 0x210, args, 0x300);
    entry(&rpc, &c)
}

#[test]
fn cprint_with_arguments_left_in_memory() {
    let mut r = mem();
    let e = cprint_entry(&mut r, b"%d %d %d %d %d %d\n\0", &[1, 2, 3, 4, 5, 6]);
    assert_eq!(e.words, 9);
    assert_eq!(&e.args[3..6], &[1, 2, 3]);
    assert_eq!(e.args[7], 0x30c);
    assert_eq!(cprint_all_args(&r, &e).unwrap(), vec![1, 2, 3, 4, 5, 6]);
    let mut out = Vec::new();
    let mut cprint = mailbox_rs::mb_std::mb_rpcs::c_print::MBCPrint::new(MBNoFloat);
    let res = ready(cprint.poll_cmd(b"ch0", &mut r, &e, &mut out));
    assert_eq!(res.unwrap().words, 0);
    assert_eq!(out, b"[ch0] 1 2 3 4 5 6\n".to_vec());
}

#[test]
fn cprint_with_arguments_in_the_entry_has_no_response() {
    let mut r = mem();
    let e = cprint_entry(&mut r, b"%d/%x/%s\n\0", &[0xffff_fffb, 0xbeef, 0x200]);
    let mut out = Vec::new();
    let mut cprint = mailbox_rs::mb_std::mb_rpcs::c_print::MBCPrint::new(MBNoFloat);
    let res = ready(cprint.poll_cmd(b"ch0", &mut r, &e, &mut out));
    assert_eq!(res.map(|_| ()), Err(MBAsyncRPCError::NoResp));
    assert_eq!(out, b"[ch0] -5/beef/f.c\n".to_vec());
    let e = cprint_entry(&mut r, b"%c%c %5s|%-5s|%.2s\0", &[0x148, 0x69, 0x200, 0x200, 0x200]);
    let res = ready(cprint.poll_cmd(b"ch0", &mut r, &e, &mut out));
    assert_eq!(res.map(|_| ()), Err(MBAsyncRPCError::NoResp));
    assert_eq!(out, b"[ch0] -5/beef/f.c\n".to_vec());
    let e = cprint_entry(&mut r, b"\n\0", &[]);
    assert!(ready(cprint.poll_cmd(b"ch0", &mut r, &e, &mut out)).is_err());
    assert_eq!(out, b"[ch0] -5/beef/f.c\n[ch0] Hi   f.c|f.c  |f.\n".to_vec());
}

#[test]
fn cprint_reports_formats_that_cannot_be_rendered() {
    let mut r = mem();
    let mut out = Vec::new();
    let mut cprint = mailbox_rs::mb_std::mb_rpcs::c_print::MBCPrint::new(MBNoFloat);
    let e = cprint_entry(&mut r, b"%d %d\n\0", &[1]);
    assert_eq!(ready(cprint.poll_cmd(b"ch0", &mut r, &e, &mut out)).map(|_| ()), Err(MBAsyncRPCError::NoResp));
    assert_eq!(out, b"[ch0] format error! in f.c, line 42!\n".to_vec());
    out.clear();
    for bad in [&b"%y\0"[..], &b"%s\0"[..], &b"%lld\0"[..], &b"%f\0"[..], &b"%lf\0"[..], &b"%Lf\0"[..], &b"\0"[..]] {
        let e = cprint_entry(&mut r, bad, &[0x500]);
        assert!(ready(cprint.poll_cmd(b"ch0", &mut r, &e, &mut out)).is_err());
        assert_eq!(out, b"[ch0] format error! in f.c, line 42!\n".to_vec());
        out.clear();
    }
    let mut e = cprint_entry(&mut r, b"x\0", &[]);
    e.args[0] = 0x500;
    assert!(ready(cprint.poll_cmd(b"ch0", &mut r, &e, &mut out)).is_err());
    assert_eq!(out, b"[ch0] I/O error! in f.c, line 42!\n".to_vec());
    out.clear();
    e.args[1] = 0x500;
    assert!(ready(cprint.poll_cmd(b"ch0", &mut r, &e, &mut out)).is_err());
    assert_eq!(out, b"[ch0] I/O error! in <unknown>, line 42!\n".to_vec());
}

#[test]
fn cprint_that_is_malformed_is_illegal() {
    let mut r = mem();
    let mut out = Vec::new();
    let mut cprint = mailbox_rs::mb_std::mb_rpcs::c_print::MBCPrint::new(MBNoFloat);
    let mut e = cprint_entry(&mut r, b"%d\n\0", &[1]);
    e.words = 2;
    let illegal = Err(MBAsyncRPCError::Illegal(MBAction::CPRINT));
    assert_eq!(ready(cprint.poll_cmd(b"ch0", &mut r, &e, &mut out)).map(|_| ()), illegal);
    let mut e = cprint_entry(&mut r, b"%d %d %d %d %d %d\n\0", &[1, 2, 3, 4, 5, 6]);
    e.args[7] = 0x4fc;
    assert_eq!(ready(cprint.poll_cmd(b"ch0", &mut r, &e, &mut out)).map(|_| ()), illegal);
    e.words = 0xffff_ffff;
    assert_eq!(ready(cprint.poll_cmd(b"ch0", &mut r, &e, &mut out)).map(|_| ()), illegal);
    assert!(out.is_empty());
}

struct TestFloat;

impl MBFloatFormat for TestFloat {
    fn format_float(&self, bits: u64, _double: bool, spec: &ConversionSpecifier) -> Result<Vec<u8>, PrintfError> {
        let p = match spec.precision {
            NumericParam::Literal(p) if p >= 0 => p as usize,
            _ => 6,
        };
        Ok(format!("{:.*}", p, f32::from_bits(bits as u32)).into_bytes())
    }
}

#[test]
fn cprint_leaves_floating_point_to_the_platform() {
    let mut r = mem();
    let mut out = Vec::new();
    let mut cprint = mailbox_rs::mb_std::mb_rpcs::c_print::MBCPrint::new(TestFloat);
    let e = cprint_entry(&mut r, b"%f %.2f %d\n\0", &[1.2345f32.to_bits(), 2.5f32.to_bits(), 7]);
    assert!(ready(cprint.poll_cmd(b"ch0", &mut r, &e, &mut out)).is_err());
    assert_eq!(out, b"[ch0] 1.234500 2.50 7\n".to_vec());
}

#[test]
fn words_of_reads_little_endian_words() {
    assert_eq!(words_of(&[1, 0, 0, 0, 0x78, 0x56, 0x34, 0x12, 9]), vec![1, 0x1234_5678]);
    assert_eq!(words_of(&[1, 2, 3]), Vec::<u32>::new());
}

#[test]
fn cprint_failure_reports() {
    let e = MBCFmtError { e: MBCParseError::ParseError(PrintfError::WrongType), file: b"a.c".to_vec(), pos: 0 };
    assert_eq!(e.message(), b"format error! in a.c, line 0!\n".to_vec());
    let e = MBCFmtError {
        e: MBCParseError::IOError(mailbox_rs::mb_std::mb_ptr_resolver::MBPtrError::Overrun),
        file: b"<unknown>".to_vec(),
        pos: 4294967295,
    };
    assert_eq!(e.message(), b"I/O error! in <unknown>, line 4294967295!\n".to_vec());
}

struct Host {
    calls: Vec<(Vec<u8>, Vec<u8>, Vec<MBPtrT>)>,
    answer: (MBPtrT, u32),
}

impl MBCallHook for Host {
    fn call(&mut self, ch_name: &[u8], method: &[u8], args: &[MBPtrT]) -> (MBPtrT, u32) {
        self.calls.push((ch_name.to_vec(), method.to_vec(), args.to_vec()));
        self.answer
    }
}

#[test]
fn call_hands_name_method_and_arguments_to_the_host() {
    let mut r = mem();
    r.write_slice(0x200, b"add\0").unwrap();
    let mut out = Vec::new();
    let mut cmd = MBCallCmd::new(Host { calls: vec![], answer: (30, 0) });
    let e = entry(&MBCall::new(), &MBCallArgs { len: 2, method: 0x200, args: [10, 20, 0, 0, 0, 0, 0] });
    let res = ready(cmd.poll_cmd(b"ch0", &mut r, &e, &mut out)).unwrap();
    assert_eq!((res.words, res.rets), (1, 30));
    assert_eq!(cmd.hook.calls, vec![(b"ch0".to_vec(), b"add".to_vec(), vec![10, 20])]);
    cmd.hook.answer = (0, 1);
    assert!(matches!(cmd.poll_cmd(b"ch0", &mut r, &e, &mut out), MBPoll::Pending));
    cmd.hook.answer = (0, 2);
    let illegal = Err(MBAsyncRPCError::Illegal(MBAction::CALL));
    assert_eq!(ready(cmd.poll_cmd(b"ch0", &mut r, &e, &mut out)).map(|_| ()), illegal);
    assert_eq!(cmd.hook.calls.len(), 3);
    let mut bad = e;
    bad.words = 0;
    assert_eq!(ready(cmd.poll_cmd(b"ch0", &mut r, &bad, &mut out)).map(|_| ()), illegal);
    bad.words = 9;
    assert_eq!(ready(cmd.poll_cmd(b"ch0", &mut r, &bad, &mut out)).map(|_| ()), illegal);
    bad.words = 1;
    bad.args[0] = 0x500;
    assert_eq!(ready(cmd.poll_cmd(b"ch0", &mut r, &bad, &mut out)).map(|_| ()), illegal);
    assert_eq!(cmd.hook.calls.len(), 3);
    assert!(out.is_empty());
}

#[test]
fn call_outcome_by_status() {
    assert!(matches!(call_outcome(5, 0), MBPoll::Ready(Ok(MBRespEntry { words: 1, rets: 5 }))));
    assert!(matches!(call_outcome(5, 1), MBPoll::Pending));
    assert!(matches!(call_outcome(5, 2), MBPoll::Ready(Err(MBAsyncRPCError::Illegal(MBAction::CALL)))));
    let mut none = MBNoCall;
    assert_eq!(none.call(b"a", b"b", &[]), (0, u32::MAX));
}

#[test]
fn exit_and_stop_server_stop() {
    let mut r = mem();
    let mut out = Vec::new();
    let mut exit = MBExit;
    let e = entry(&MBExit, 3);
    assert_eq!(ready(exit.poll_cmd(b"ch0", &mut r, &e, &mut out)).map(|_| ()), Err(MBAsyncRPCError::Stop));
    let mut stop = MBStopServer;
    let e = entry(&MBStopServer, ());
    assert_eq!(ready(stop.poll_cmd(b"ch0", &mut r, &e, &mut out)).map(|_| ()), Err(MBAsyncRPCError::Stop));
    assert!(out.is_empty());
}

fn bare(t: ConversionType) -> ConversionSpecifier {
    ConversionSpecifier {
        long: false,
        long_long: false,
        alt_form: false,
        zero_pad: false,
        left_adj: false,
        space_sign: false,
        force_sign: false,
        width: NumericParam::Literal(0),
        precision: NumericParam::Literal(NO_PRECISION),
        conversion_type: t,
    }
}

#[test]
fn an_argument_is_read_as_its_conversion_asks() {
    let mut r = mem();
    r.write_slice(0x200, b"text\0").unwrap();
    let float = MBNoFloat;
    let word = CPrintArg::new(0xffff_ff41, &r, &float);
    assert_eq!(word.format(&bare(ConversionType::DecInt)).unwrap(), b"-191".to_vec());
    assert_eq!(word.format(&bare(ConversionType::DecUInt)).unwrap(), b"4294967105".to_vec());
    assert_eq!(word.format(&bare(ConversionType::HexIntUpper)).unwrap(), b"FFFFFF41".to_vec());
    assert_eq!(word.format(&bare(ConversionType::OctInt)).unwrap(), b"37777777501".to_vec());
    assert_eq!(word.format(&bare(ConversionType::Char)).unwrap(), b"A".to_vec());
    assert_eq!(word.format(&bare(ConversionType::PercentSign)).unwrap_err(), PrintfError::WrongType);
    assert_eq!(word.format(&bare(ConversionType::String)).unwrap_err(), PrintfError::Other(PrintfOther::Io));
    assert_eq!(word.as_int(&bare(ConversionType::DecInt)), Some(-191));
    assert_eq!(word.as_int(&bare(ConversionType::HexIntLower)), Some(-191));
    assert_eq!(word.as_int(&bare(ConversionType::String)), None);
    assert_eq!(word.as_int(&bare(ConversionType::DecFloatLower)), None);
    let text = CPrintArg::new(0x200, &r, &float);
    assert_eq!(text.format(&bare(ConversionType::String)).unwrap(), b"text".to_vec());
    let mut long_long = bare(ConversionType::DecInt);
    long_long.long_long = true;
    assert_eq!(word.format(&long_long).unwrap_err(), PrintfError::Other(PrintfOther::LongLongInt));
    let mut f = bare(ConversionType::SciFloatLower);
    assert_eq!(word.format(&f).unwrap_err(), PrintfError::Other(PrintfOther::Float));
    f.long = true;
    assert_eq!(word.format(&f).unwrap_err(), PrintfError::Other(PrintfOther::Double));
    f.long_long = true;
    assert_eq!(word.format(&f).unwrap_err(), PrintfError::Other(PrintfOther::LongDouble));
    let given = CPrintArg::new(2.5f32.to_bits(), &r, &TestFloat);
    assert_eq!(given.format(&bare(ConversionType::DecFloatLower)).unwrap(), b"2.500000".to_vec());
}

#[test]
fn a_format_of_the_client_is_read_and_rendered() {
    let mut r = mem();
    r.write_slice(0x200, b"main.c\0%d-%s\0").unwrap();
    let float = MBNoFloat;
    let p = MBCStringFmtParser::new(0x207, 0x200, 7, vec![5, 0x200], &r, &float).unwrap();
    assert_eq!(p.fmt_str, b"%d-%s".to_vec());
    assert_eq!(p.file, b"main.c".to_vec());
    assert_eq!(p.pos, 7);
    assert_eq!(p.parse().unwrap(), b"5-main.c".to_vec());
    let p = MBCStringFmtParser::new(0x207, 0x200, 7, vec![5], &r, &float).unwrap();
    let e = p.parse().unwrap_err();
    assert_eq!(e.e, MBCParseError::ParseError(PrintfError::NotEnoughArgs));
    assert_eq!(e.file, b"main.c".to_vec());
    assert_eq!(e.pos, 7);
    let e = MBCStringFmtParser::new(0x500, 0x200, 7, vec![], &r, &float).err().unwrap();
    assert_eq!(e.e, MBCParseError::IOError(mailbox_rs::mb_std::mb_ptr_resolver::MBPtrError::OutOfRange));
    assert_eq!(e.file, b"main.c".to_vec());
    let e = MBCStringFmtParser::new(0x207, 0x500, 7, vec![], &r, &float).err().unwrap();
    assert_eq!(e.file, b"<unknown>".to_vec());
}

#[test]
fn a_peer_of_another_major_or_minor_version_is_refused() {
    let own = mb_version();
    assert_eq!(own, MBVersion { major: 0, minor: 1, patch: 0 });
    assert_eq!(check_version(own, own), Ok(()));
    assert_eq!(check_version(own, MBVersion { patch: 7, ..own }), Ok(()));
    let newer = MBVersion { minor: 2, ..own };
    assert_eq!(check_version(own, newer), Err(MBVersionMismatch { own, peer: newer }));
    let other = MBVersion { major: 1, ..own };
    assert_eq!(check_version(own, other), Err(MBVersionMismatch { own, peer: other }));
    assert_eq!(check_version(other, own), Err(MBVersionMismatch { own: other, peer: own }));
}
