use mailbox_rs::mb_channel::MBReqEntry;
use mailbox_rs::mb_rpcs::MBAction;
use mailbox_rs::mb_rpcs::MBFClose;
use mailbox_rs::mb_rpcs::MBFOpen;
use mailbox_rs::mb_rpcs::MBFOpenArgs;
use mailbox_rs::mb_rpcs::MBFRead;
use mailbox_rs::mb_rpcs::MBFReadArgs;
use mailbox_rs::mb_rpcs::MBFSeek;
use mailbox_rs::mb_rpcs::MBFSeekArgs;
use mailbox_rs::mb_rpcs::MBFWrite;
use mailbox_rs::mb_rpcs::MBFWriteArgs;
use mailbox_rs::mb_rpcs::MBRpc;
use mailbox_rs::mb_rpcs::MB_FILE_READ;
use mailbox_rs::mb_rpcs::MB_FILE_WRITE;
use mailbox_rs::mb_std::mb_fs::bytes_eq;
use mailbox_rs::mb_std::mb_fs::extension;
use mailbox_rs::mb_std::mb_fs::into_io_error;
use mailbox_rs::mb_std::mb_fs::io_error;
use mailbox_rs::mb_std::mb_fs::join_path;
use mailbox_rs::mb_std::mb_fs::lookup;
use mailbox_rs::mb_std::mb_fs::path_rejected;
use mailbox_rs::mb_std::mb_fs::path_virtual;
use mailbox_rs::mb_std::mb_fs::starts_with;
use mailbox_rs::mb_std::mb_fs::MBFile;
use mailbox_rs::mb_std::mb_fs::MBFileOpener;
use mailbox_rs::mb_std::mb_fs::MBFs;
use mailbox_rs::mb_std::mb_fs::MBFsInner;
use mailbox_rs::mb_std::mb_fs::MBIoError;
use mailbox_rs::mb_std::mb_fs::MBIoErrorKind;
use mailbox_rs::mb_std::mb_fs::MBOpenerChoice;
use mailbox_rs::mb_std::mb_fs::MB_FIRST_FD;
use mailbox_rs::mb_std::mb_ptr_resolver::MBPtrReader;
use mailbox_rs::mb_std::mb_ptr_resolver::MBPtrWriter;
use mailbox_rs::mb_std::mb_ptr_resolver::MBSMPtrResolver;
use mailbox_rs::mb_std::mb_rpcs::file_access::file_outcome;
use mailbox_rs::mb_std::mb_rpcs::file_access::low_word;
use mailbox_rs::mb_std::mb_rpcs::file_access::MB_FILE_ERR;
use mailbox_rs::mb_std::mb_rpcs::MBAsyncRPC;
use mailbox_rs::mb_std::mb_rpcs::MBAsyncRPCError;
use mailbox_rs::mb_std::mb_rpcs::MBPoll;
use mailbox_rs::mb_std::mb_share_mem::share_mem::MBBufferMem;
use mailbox_rs::mb_std::mb_share_mem::share_mem::MBShareMemSpace;
use std::cell::RefCell;
use std::collections::HashMap;
use std::rc::Rc;

type Disk = Rc<RefCell<HashMap<Vec<u8>, Vec<u8>>>>;

/// A file of a disk that lives in memory; as text of hexadecimal words,
/// one to a line, where `tg` holds.
struct TestFile {
    disk: Disk,
    path: Vec<u8>,
    pos: usize,
    tg: bool,
    block: bool,
}

impl MBFile for TestFile {
    fn read(&mut self, len: usize) -> Result<Vec<u8>, MBIoError> {
        if self.block {
            return Err(io_error(MBIoErrorKind::WouldBlock));
        }
        let disk = self.disk.borrow();
        let content = disk.get(&self.path).unwrap();
        if self.tg {
            let text = String::from_utf8(content[self.pos..].to_vec()).unwrap();
            let mut out = Vec::new();
            let mut used = 0;
            for line in text.split_inclusive('\n').take(len / 4) {
                let hex = line.trim().strip_prefix("0x").ok_or(io_error(MBIoErrorKind::InvalidData))?;
                let v = u32::from_str_radix(hex, 16).map_err(|_| io_error(MBIoErrorKind::InvalidData))?;
                out.extend_from_slice(&v.to_le_bytes());
                used += line.len();
            }
            drop(disk);
            self.pos += used;
            return Ok(out);
        }
        let n = len.min(content.len() - self.pos);
        let out = content[self.pos..self.pos + n].to_vec();
        drop(disk);
        self.pos += n;
        Ok(out)
    }

    fn read_to_end(&mut self) -> Result<Vec<u8>, MBIoError> {
        let disk = self.disk.borrow();
        let content = disk.get(&self.path).unwrap();
        let out = content[self.pos..].to_vec();
        drop(disk);
        self.pos += out.len();
        Ok(out)
    }

    fn write(&mut self, data: &[u8]) -> Result<usize, MBIoError> {
        let mut disk = self.disk.borrow_mut();
        let content = disk.get_mut(&self.path).unwrap();
        if self.tg {
            for w in data.chunks_exact(4) {
                let v = u32::from_le_bytes([w[0], w[1], w[2], w[3]]);
                content.extend_from_slice(format!("{:#x}\n", v).as_bytes());
            }
            return Ok(data.len() / 4 * 4);
        }
        content.truncate(self.pos);
        content.extend_from_slice(data);
        self.pos += data.len();
        Ok(data.len())
    }

    fn seek(&mut self, pos: u64) -> Result<u64, MBIoError> {
        if self.tg {
            return Err(into_io_error(MBIoErrorKind::PermissionDenied, b"not support seek!"));
        }
        let len = self.disk.borrow().get(&self.path).unwrap().len();
        self.pos = (pos as usize).min(len);
        Ok(self.pos as u64)
    }
}

#[derive(Clone)]
struct TestOpener {
    disk: Disk,
    tg: bool,
    opened: Rc<RefCell<Vec<Vec<u8>>>>,
}

impl MBFileOpener for TestOpener {
    type File = TestFile;

    fn open(&self, path: &[u8], flags: u32) -> Result<TestFile, MBIoError> {
        self.opened.borrow_mut().push(path.to_vec());
        let mut disk = self.disk.borrow_mut();
        if flags & MB_FILE_WRITE != 0 {
            if self.tg {
                disk.insert(path.to_vec(), Vec::new());
            } else {
                disk.entry(path.to_vec()).or_default();
            }
        }
        if !disk.contains_key(path) {
            return Err(io_error(MBIoErrorKind::NotFound));
        }
        let block = path.ends_with(b"blocked");
        Ok(TestFile { disk: self.disk.clone(), path: path.to_vec(), pos: 0, tg: self.tg, block })
    }
}

fn opener(tg: bool) -> TestOpener {
    TestOpener { disk: Rc::new(RefCell::new(HashMap::new())), tg, opened: Rc::new(RefCell::new(Vec::new())) }
}

type Mem = MBSMPtrResolver<MBShareMemSpace<MBBufferMem>>;

fn mem() -> Mem {
    let mut s = MBShareMemSpace::new();
    s.add_mem(MBBufferMem::new(0x100, 0x400).unwrap()).unwrap();
    MBSMPtrResolver::new(s)
}

#[test]
fn mb_fs_basic_test() {
    let mut fs = MBFs::new(b"resources".to_vec(), opener(false));
    let fd = fs.open(b"test", MB_FILE_WRITE | MB_FILE_READ).unwrap();
    let mut resolver = mem();
    let data = b"Hello World!";
    resolver.write_slice(0x200, data).unwrap();
    let wlen = fs.write(&resolver, fd, 0x200, data.len()).unwrap();
    assert_eq!(wlen, data.len());
    let pos = fs.seek(fd, 0).unwrap();
    assert_eq!(pos, 0);
    let rlen = fs.read(&mut resolver, fd, 0x300, wlen).unwrap();
    fs.close(fd).unwrap();
    assert_eq!(rlen, wlen);
    let buf = resolver.read_slice(0x300, wlen).unwrap();
    assert_eq!(data[..], buf[..]);
}

#[test]
fn mb_fs_special_file_test() {
    let mut fs = MBFs::new(b"resources".to_vec(), opener(false));
    let tg = opener(true);
    assert!(fs.with_special(b"tg".to_vec(), tg.clone()).is_ok());
    assert_eq!(fs.with_special(b"tg".to_vec(), tg.clone()).unwrap_err().kind, MBIoErrorKind::AlreadyExists);
    let fd = fs.open(b"test.tg", MB_FILE_WRITE).unwrap();
    let mut resolver = mem();
    let data: Vec<u32> = vec![0x12345678, 0x5a5a5a5a, 0xa5a5a5a5, 0xdeadbeef];
    for (i, d) in data.iter().enumerate() {
        resolver.write_u32(0x200 + 4 * i as u32, *d).unwrap();
    }
    let wlen = fs.write(&resolver, fd, 0x200, data.len() * 4).unwrap();
    assert_eq!(wlen, data.len() * 4);
    let data2: Vec<u32> = vec![0x87654321];
    resolver.write_u32(0x240, data2[0]).unwrap();
    let wlen = fs.write(&resolver, fd, 0x240, data2.len() * 4).unwrap();
    assert_eq!(wlen, data2.len() * 4);
    fs.close(fd).unwrap();
    let fd = fs.open(b"test.tg", MB_FILE_READ).unwrap();
    for d in data.iter() {
        let rlen = fs.read(&mut resolver, fd, 0x300, 4).unwrap();
        assert_eq!(rlen, 4);
        assert_eq!(resolver.read_u32(0x300).unwrap(), *d);
    }
    let rlen = fs.read(&mut resolver, fd, 0x300, 4).unwrap();
    assert_eq!(rlen, 4);
    assert_eq!(resolver.read_u32(0x300).unwrap(), data2[0]);
    let _ = fs.read(&mut resolver, fd, 0x300, 4).unwrap();
    let rlen = fs.read(&mut resolver, fd, 0x300, 4).unwrap();
    assert_eq!(rlen, 0);
    fs.close(fd).unwrap();
    assert_eq!(tg.opened.borrow()[0], b"resources/test.tg".to_vec());
}

#[test]
fn mb_fs_virtual_test() {
    let mut fs = MBFs::new(b"resources".to_vec(), opener(false));
    let virt = opener(false);
    assert!(fs.with_virtual(b"virt/virt".to_vec(), virt.clone()).is_ok());
    assert_eq!(
        fs.with_virtual(b"virt/virt".to_vec(), virt.clone()).unwrap_err().kind,
        MBIoErrorKind::AlreadyExists
    );
    let fd = fs.open(b"virtual/virt/virt", MB_FILE_WRITE | MB_FILE_READ).unwrap();
    let mut resolver = mem();
    let data = b"Hello World!";
    resolver.write_slice(0x200, data).unwrap();
    let wlen = fs.write(&resolver, fd, 0x200, data.len()).unwrap();
    assert_eq!(wlen, data.len());
    let pos = fs.seek(fd, 0).unwrap();
    assert_eq!(pos, 0);
    let rlen = fs.read(&mut resolver, fd, 0x300, wlen).unwrap();
    fs.close(fd).unwrap();
    assert_eq!(rlen, wlen);
    assert_eq!(resolver.read_slice(0x300, wlen).unwrap(), data.to_vec());
    assert_eq!(virt.opened.borrow()[0], b"resources/virtual/virt/virt".to_vec());
    assert_eq!(fs.open(b"virtual/other", MB_FILE_READ).unwrap_err().kind, MBIoErrorKind::NotFound);
    assert_eq!(fs.open(b"virtual", MB_FILE_READ).unwrap_err().kind, MBIoErrorKind::NotFound);
}

#[test]
fn descriptors_start_at_ten_and_count_up() {
    assert_eq!(MB_FIRST_FD, 10);
    let mut fs = MBFs::new(b"root".to_vec(), opener(false));
    assert_eq!(fs.open(b"a", MB_FILE_WRITE).unwrap(), 10);
    assert_eq!(fs.open(b"b", MB_FILE_WRITE).unwrap(), 11);
    fs.close(10).unwrap();
    assert_eq!(fs.open(b"c", MB_FILE_WRITE).unwrap(), 12);
    assert_eq!(fs.close(10).unwrap_err().kind, MBIoErrorKind::NotFound);
    assert_eq!(fs.seek(10, 0).unwrap_err().kind, MBIoErrorKind::NotFound);
    let mut r = mem();
    assert_eq!(fs.read(&mut r, 10, 0x200, 4).unwrap_err().kind, MBIoErrorKind::NotFound);
    assert_eq!(fs.write(&r, 10, 0x200, 4).unwrap_err().kind, MBIoErrorKind::NotFound);
    assert_eq!(fs.open(b"missing", MB_FILE_READ).unwrap_err().kind, MBIoErrorKind::NotFound);
    assert_eq!(fs.open(b"d", MB_FILE_WRITE).unwrap(), 13);
}

#[test]
fn descriptors_wrap_and_a_descriptor_in_use_is_refused() {
    let mut t: MBFsInner<TestFile> = MBFsInner::new();
    let o = opener(false);
    let file = |name: &[u8]| o.open(name, MB_FILE_WRITE).unwrap();
    t.file_fd_cnt = 0xffff_ffff;
    assert_eq!(t.insert(file(b"a")).unwrap(), 0xffff_ffff);
    assert_eq!(t.file_fd_cnt, 0);
    assert_eq!(t.insert(file(b"b")).unwrap(), 0);
    t.file_fd_cnt = 0xffff_ffff;
    assert_eq!(t.insert(file(b"c")).unwrap_err().kind, MBIoErrorKind::AlreadyExists);
    assert_eq!(t.file_fd_cnt, 0xffff_ffff);
    assert_eq!(t.fds, vec![0xffff_ffff, 0]);
    t.remove(0xffff_ffff).unwrap();
    assert_eq!(t.insert(file(b"c")).unwrap(), 0xffff_ffff);
    assert_eq!(t.fds, vec![0, 0xffff_ffff]);
}

#[test]
fn paths_that_may_leave_the_root_are_refused() {
    for p in [&b"/etc/passwd"[..], b"/", b"..", b"../x", b"../../x"] {
        assert!(path_rejected(p));
    }
    for p in [&b"x"[..], b"", b"a/../b", b"...", b"..x", b".", b"./x", b"a/"] {
        assert!(!path_rejected(p));
    }
    let mut fs = MBFs::new(b"root".to_vec(), opener(false));
    assert_eq!(fs.open(b"/etc/passwd", MB_FILE_WRITE).unwrap_err().kind, MBIoErrorKind::PermissionDenied);
    assert_eq!(fs.open(b"../x", MB_FILE_WRITE).unwrap_err().kind, MBIoErrorKind::PermissionDenied);
    assert_eq!(fs.open_expanded(b"..", MB_FILE_WRITE).unwrap_err().kind, MBIoErrorKind::PermissionDenied);
    assert!(fs.open_file(b"/x", MB_FILE_WRITE).is_err());
    assert_eq!(fs.open(b"ok", MB_FILE_WRITE).unwrap(), 10);
}

#[test]
fn a_path_with_a_variable_that_is_not_set_is_not_found() {
    let mut fs = MBFs::new(b"root".to_vec(), opener(false));
    let e = fs.open(b"$MB_NO_SUCH_VARIABLE_IN_ANY_SHELL/x", MB_FILE_WRITE).unwrap_err();
    assert_eq!(e.kind, MBIoErrorKind::NotFound);
    assert_eq!(fs.open_expanded(b"$MB_NO_SUCH_VARIABLE_IN_ANY_SHELL/x", MB_FILE_WRITE).unwrap(), 10);
}

#[test]
fn paths_that_are_not_text_are_refused() {
    let mut fs = MBFs::new(b"root".to_vec(), opener(false));
    assert_eq!(fs.open(&[0x66, 0xff, 0x66], MB_FILE_WRITE).unwrap_err().kind, MBIoErrorKind::InvalidData);
    assert_eq!(fs.open(&[0xc3], MB_FILE_WRITE).unwrap_err().kind, MBIoErrorKind::InvalidData);
    assert_eq!(fs.open("é".as_bytes(), MB_FILE_WRITE).unwrap(), 10);
}

#[test]
fn virtual_names_extensions_and_joins() {
    assert_eq!(path_virtual(b"virtual/a/b"), Some(b"a/b".to_vec()));
    assert_eq!(path_virtual(b"virtual/"), Some(b"".to_vec()));
    assert_eq!(path_virtual(b"virtual"), Some(b"".to_vec()));
    assert_eq!(path_virtual(b"virtualx"), None);
    assert_eq!(path_virtual(b"a/virtual/b"), None);
    assert_eq!(extension(b"a/b.tg"), Some(b"tg".to_vec()));
    assert_eq!(extension(b"a.b/c.d.e"), Some(b"e".to_vec()));
    assert_eq!(extension(b"a.b/c"), None);
    assert_eq!(extension(b"a/.hidden"), None);
    assert_eq!(extension(b".hidden.x"), Some(b"x".to_vec()));
    assert_eq!(extension(b"a/.."), None);
    assert_eq!(extension(b"a."), Some(b"".to_vec()));
    assert_eq!(extension(b""), None);
    assert_eq!(join_path(b"root", b"a/b"), b"root/a/b".to_vec());
    assert!(starts_with(b"abc", b"ab"));
    assert!(starts_with(b"abc", b""));
    assert!(!starts_with(b"ab", b"abc"));
    assert!(bytes_eq(b"", b""));
    assert!(!bytes_eq(b"a", b"b"));
    let names = vec![b"x".to_vec(), b"y".to_vec(), b"x".to_vec()];
    assert_eq!(lookup(&names, b"x"), Some(0));
    assert_eq!(lookup(&names, b"y"), Some(1));
    assert_eq!(lookup(&names, b"z"), None);
}

#[test]
fn errors_carry_kind_and_message() {
    let e = into_io_error(MBIoErrorKind::NotFound, b"invalid fd 3!");
    assert_eq!(e.kind, MBIoErrorKind::NotFound);
    assert_eq!(e.msg, b"invalid fd 3!".to_vec());
    let e = io_error(MBIoErrorKind::Other);
    assert_eq!(e.kind, MBIoErrorKind::Other);
    assert!(e.msg.is_empty());
}

#[test]
fn read_of_length_zero_reads_to_the_end() {
    let mut fs = MBFs::new(b"root".to_vec(), opener(false));
    let mut r = mem();
    let fd = fs.open(b"f", MB_FILE_WRITE | MB_FILE_READ).unwrap();
    r.write_slice(0x200, b"0123456789").unwrap();
    assert_eq!(fs.write(&r, fd, 0x200, 10).unwrap(), 10);
    assert_eq!(fs.seek(fd, 4).unwrap(), 4);
    assert_eq!(fs.read(&mut r, fd, 0x300, 0).unwrap(), 6);
    assert_eq!(r.read_slice(0x300, 7).unwrap(), b"456789\0".to_vec());
    assert_eq!(fs.seek(fd, 0).unwrap(), 0);
    assert_eq!(fs.read(&mut r, fd, 0x4fc, 10).unwrap_err().kind, MBIoErrorKind::Other);
    assert_eq!(fs.write(&r, fd, 0x4fc, 10).unwrap(), 0);
}

fn entry<RPC: MBRpc>(rpc: &RPC, req: RPC::REQ) -> MBReqEntry {
    let mut e = MBReqEntry::default();
    rpc.put_req(req, &mut e);
    e
}

fn word(p: MBPoll<Result<mailbox_rs::mb_channel::MBRespEntry, MBAsyncRPCError>>) -> u32 {
    match p {
        MBPoll::Ready(Ok(resp)) => {
            assert_eq!(resp.words, 1);
            resp.rets
        }
        _ => panic!("no response"),
    }
}

#[test]
fn file_access_round_trip() {
    let mut fs = MBFs::new(b"root".to_vec(), opener(false));
    let mut r = mem();
    let mut out = Vec::new();
    r.write_slice(0x200, b"test\0").unwrap();
    r.write_slice(0x210, b"Hello World!").unwrap();
    let e = entry(&MBFOpen::new(), &MBFOpenArgs { path: 0x200, flags: MB_FILE_READ | MB_FILE_WRITE });
    let fd = word(fs.poll_cmd(b"ch0", &mut r, &e, &mut out));
    assert_eq!(fd, 10);
    let e = entry(&MBFWrite::new(), &MBFWriteArgs { fd, ptr: 0x210, len: 12 });
    assert_eq!(word(fs.poll_cmd(b"ch0", &mut r, &e, &mut out)), 12);
    let e = entry(&MBFSeek::new(), &MBFSeekArgs { fd, pos: 0 });
    assert_eq!(word(fs.poll_cmd(b"ch0", &mut r, &e, &mut out)), 0);
    let e = entry(&MBFRead::new(), &MBFReadArgs { fd, ptr: 0x300, len: 12 });
    assert_eq!(word(fs.poll_cmd(b"ch0", &mut r, &e, &mut out)), 12);
    assert_eq!(r.read_slice(0x300, 12).unwrap(), b"Hello World!".to_vec());
    let e = entry(&MBFClose, fd);
    assert!(matches!(fs.poll_cmd(b"ch0", &mut r, &e, &mut out), MBPoll::Ready(Err(MBAsyncRPCError::NoResp))));
    assert!(out.is_empty());
}

#[test]
fn file_access_failures_come_back_as_the_error_word() {
    let mut fs = MBFs::new(b"root".to_vec(), opener(false));
    let mut r = mem();
    let mut out = Vec::new();
    r.write_slice(0x200, b"../x\0missing\0blocked\0").unwrap();
    assert_eq!(MB_FILE_ERR, 0xffff_ffff);
    let e = entry(&MBFOpen::new(), &MBFOpenArgs { path: 0x200, flags: MB_FILE_WRITE });
    assert_eq!(word(fs.poll_cmd(b"ch0", &mut r, &e, &mut out)), MB_FILE_ERR);
    let e = entry(&MBFOpen::new(), &MBFOpenArgs { path: 0x205, flags: MB_FILE_READ });
    assert_eq!(word(fs.poll_cmd(b"ch0", &mut r, &e, &mut out)), MB_FILE_ERR);
    let e = entry(&MBFOpen::new(), &MBFOpenArgs { path: 0x500, flags: MB_FILE_READ });
    assert_eq!(word(fs.poll_cmd(b"ch0", &mut r, &e, &mut out)), MB_FILE_ERR);
    let e = entry(&MBFRead::new(), &MBFReadArgs { fd: 10, ptr: 0x300, len: 4 });
    assert_eq!(word(fs.poll_cmd(b"ch0", &mut r, &e, &mut out)), MB_FILE_ERR);
    let e = entry(&MBFWrite::new(), &MBFWriteArgs { fd: 10, ptr: 0x300, len: 4 });
    assert_eq!(word(fs.poll_cmd(b"ch0", &mut r, &e, &mut out)), MB_FILE_ERR);
    let e = entry(&MBFSeek::new(), &MBFSeekArgs { fd: 10, pos: 4 });
    assert_eq!(word(fs.poll_cmd(b"ch0", &mut r, &e, &mut out)), MB_FILE_ERR);
    let e = entry(&MBFClose, 10);
    assert!(matches!(fs.poll_cmd(b"ch0", &mut r, &e, &mut out), MBPoll::Ready(Err(MBAsyncRPCError::NoResp))));
    let mut e = entry(&MBFClose, 10);
    e.args[0] = 5;
    assert!(matches!(
        fs.poll_cmd(b"ch0", &mut r, &e, &mut out),
        MBPoll::Ready(Err(MBAsyncRPCError::Illegal(MBAction::FILEACCESS)))
    ));
    let e = entry(&MBFOpen::new(), &MBFOpenArgs { path: 0x20d, flags: MB_FILE_WRITE });
    let fd = word(fs.poll_cmd(b"ch0", &mut r, &e, &mut out));
    assert_eq!(fd, 10);
    let e = entry(&MBFRead::new(), &MBFReadArgs { fd, ptr: 0x300, len: 4 });
    assert!(matches!(fs.poll_cmd(b"ch0", &mut r, &e, &mut out), MBPoll::Pending));
}

#[test]
fn file_outcome_by_result() {
    assert!(matches!(file_outcome(Ok(12)), MBPoll::Ready(Ok(r)) if r.words == 1 && r.rets == 12));
    assert!(matches!(file_outcome(Ok(0x1_0000_0005)), MBPoll::Ready(Ok(r)) if r.rets == 5));
    assert!(matches!(file_outcome(Err(io_error(MBIoErrorKind::WouldBlock))), MBPoll::Pending));
    for k in [
        MBIoErrorKind::NotFound,
        MBIoErrorKind::PermissionDenied,
        MBIoErrorKind::AlreadyExists,
        MBIoErrorKind::InvalidData,
        MBIoErrorKind::Other,
    ] {
        assert!(matches!(file_outcome(Err(io_error(k))), MBPoll::Ready(Ok(r)) if r.rets == MB_FILE_ERR));
    }
    assert_eq!(low_word(0xffff_ffff_0000_0001), 1);
}

#[test]
fn paths_select_their_opener() {
    let mut fs = MBFs::new(b"root.d".to_vec(), opener(false));
    fs.with_special(b"tg".to_vec(), opener(true)).unwrap();
    fs.with_special(b"bin".to_vec(), opener(true)).unwrap();
    fs.with_virtual(b"a".to_vec(), opener(false)).unwrap();
    fs.with_virtual(b"b/c".to_vec(), opener(false)).unwrap();
    assert_eq!(fs.choose_opener(b"x.tg").unwrap(), MBOpenerChoice::Special(0));
    assert_eq!(fs.choose_opener(b"d/x.bin").unwrap(), MBOpenerChoice::Special(1));
    assert_eq!(fs.choose_opener(b"x.txt").unwrap(), MBOpenerChoice::Normal);
    assert_eq!(fs.choose_opener(b"x").unwrap(), MBOpenerChoice::Normal);
    assert_eq!(fs.choose_opener(b"tg").unwrap(), MBOpenerChoice::Normal);
    assert_eq!(fs.choose_opener(b".tg").unwrap(), MBOpenerChoice::Normal);
    assert_eq!(fs.choose_opener(b"").unwrap(), MBOpenerChoice::Normal);
    assert_eq!(fs.choose_opener(b"virtual/a").unwrap(), MBOpenerChoice::Virtual(0));
    assert_eq!(fs.choose_opener(b"virtual/b/c").unwrap(), MBOpenerChoice::Virtual(1));
    assert_eq!(fs.choose_opener(b"virtual/a.tg").unwrap_err().kind, MBIoErrorKind::NotFound);
    assert_eq!(fs.choose_opener(b"virtual").unwrap_err().kind, MBIoErrorKind::NotFound);
    assert_eq!(fs.choose_opener(b"virtuals/a.tg").unwrap(), MBOpenerChoice::Special(0));
    assert_eq!(fs.choose_opener(b"../x.tg").unwrap_err().kind, MBIoErrorKind::PermissionDenied);
    assert_eq!(fs.choose_opener(b"/virtual/a").unwrap_err().kind, MBIoErrorKind::PermissionDenied);
}
