//! The files that a client can reach: a table of open files by descriptor,
//! the rules on paths, and the openers that stand behind them.

use vstd::prelude::*;
use vstd::slice::slice_subrange;
use vstd::string::StringSliceAdditionalSpecFns;
use vstd::utf8::valid_utf8;
use crate::mb_rpcs::MBPtrT;
use crate::mb_std::mb_ptr_resolver::MBPtrResolver;
use crate::mb_std::mb_share_mem::share_mem::read_bytes;
use crate::mb_std::mb_rpcs::c_print::sprintf::parser::copy_range;
use crate::mb_std::mb_rpcs::c_print::sprintf::parser::has_at;

verus! {

/// The kinds of failure of a file operation.
#[derive(Debug, Clone, Copy, PartialEq, Eq, Structural)]
pub enum MBIoErrorKind {
    NotFound,
    PermissionDenied,
    AlreadyExists,
    InvalidData,
    WouldBlock,
    Other,
}

/// A failed file operation: its kind and a message.
#[derive(Debug)]
pub struct MBIoError {
    pub kind: MBIoErrorKind,
    pub msg: Vec<u8>,
}

/// An error of the given kind with the given message.
pub fn into_io_error(kind: MBIoErrorKind, e: &[u8]) -> (err: MBIoError)
    ensures
        err.kind == kind,
        err.msg@ == e@,
{
    MBIoError { kind, msg: copy_range(e, 0, e.len()) }
}

/// An error of the given kind without message.
pub fn io_error(kind: MBIoErrorKind) -> (err: MBIoError)
    ensures
        err.kind == kind,
        err.msg@.len() == 0,
{
    MBIoError { kind, msg: Vec::new() }
}

/// An open file.
pub trait MBFile {
    /// Reads up to `len` bytes from the position of the file.
    fn read(&mut self, len: usize) -> Result<Vec<u8>, MBIoError>;

    /// Reads from the position of the file to its end.
    fn read_to_end(&mut self) -> Result<Vec<u8>, MBIoError>;

    /// Writes `data` at the position of the file; returns the number of
    /// bytes written.
    fn write(&mut self, data: &[u8]) -> Result<usize, MBIoError>;

    /// Moves the position of the file to `pos` bytes from its start;
    /// returns the new position.
    fn seek(&mut self, pos: u64) -> Result<u64, MBIoError>;
}

/// Opens files of one kind.
pub trait MBFileOpener {
    type File: MBFile;

    fn open(&self, path: &[u8], flags: u32) -> Result<Self::File, MBIoError>;
}

/// The descriptor that the first open file gets.
pub const MB_FIRST_FD: u32 = 10;

/// What was asked of an opener or of an open file.
pub enum MBFsOp {
    /// The opener `choice` was asked to open `path` with `flags`.
    Open { choice: MBOpenerChoice, path: Seq<u8>, flags: u32 },
    /// The file of `fd` was asked for up to `len` bytes, or, where `len`
    /// is 0, for all up to its end.
    Read { fd: u32, len: usize },
    /// The file of `fd` was asked to take `data`.
    Write { fd: u32, data: Seq<u8> },
    /// The file of `fd` was asked to move to `pos`.
    Seek { fd: u32, pos: u64 },
}

/// The open files by descriptor, and the descriptor that the next open
/// file gets. `asked` records, in order, what was asked of the openers
/// and of the open files.
pub struct MBFsInner<F: MBFile> {
    pub file_fd_cnt: u32,
    pub fds: Vec<u32>,
    pub files: Vec<F>,
    pub asked: Ghost<Seq<MBFsOp>>,
}

impl<F: MBFile> MBFsInner<F> {
    /// Every descriptor stands for one file, and none occurs twice.
    pub open spec fn inv(&self) -> bool {
        &&& self.fds@.len() == self.files@.len()
        &&& self.fds@.no_duplicates()
    }

    /// Whether `fd` stands for an open file.
    pub open spec fn is_open(&self, fd: u32) -> bool {
        self.fds@.contains(fd)
    }

    /// What is asked of the openers and the files once `op` was asked of
    /// the file of `fd`: `op` as well where `fd` stands for an open file,
    /// and no more than before where it stands for none.
    pub open spec fn spec_asked_after(&self, fd: u32, op: MBFsOp) -> Seq<MBFsOp> {
        if self.is_open(fd) {
            self.asked@.push(op)
        } else {
            self.asked@
        }
    }

    /// A table without open files.
    pub fn new() -> (t: MBFsInner<F>)
        ensures
            t.inv(),
            t.file_fd_cnt == MB_FIRST_FD,
            t.fds@.len() == 0,
            t.asked@.len() == 0,
    {
        MBFsInner {
            file_fd_cnt: MB_FIRST_FD,
            fds: Vec::new(),
            files: Vec::new(),
            asked: Ghost(Seq::empty()),
        }
    }

    /// Where in the table `fd` stands.
    fn find(&self, fd: u32) -> (r: Option<usize>)
        requires
            self.inv(),
        ensures
            r is Some <==> self.is_open(fd),
            r matches Some(i) ==> i < self.fds@.len() && self.fds@[i as int] == fd,
    {
        let mut k: usize = 0;
        while k < self.fds.len()
            invariant
                k <= self.fds.len(),
                forall|i: int| 0 <= i < k ==> self.fds@[i] != fd,
            decreases self.fds.len() - k,
        {
            if self.fds[k] == fd {
                return Some(k);
            }
            k = k + 1;
        }
        None
    }

    /// Enters an open file under the next descriptor and returns it; the
    /// descriptor after it is one more, modulo 2^32. Fails with
    /// `AlreadyExists`, and leaves the table as it is, where the
    /// descriptor still stands for an open file.
    pub fn insert(&mut self, file: F) -> (r: Result<u32, MBIoError>)
        requires
            old(self).inv(),
        ensures
            final(self).inv(),
            final(self).asked@ == old(self).asked@,
            r is Ok <==> !old(self).is_open(old(self).file_fd_cnt),
            r matches Ok(fd) ==> fd == old(self).file_fd_cnt
                && final(self).fds@ == old(self).fds@.push(fd)
                && final(self).files@ == old(self).files@.push(file)
                && final(self).file_fd_cnt == crate::mb_channel::ring_next(fd),
            r matches Err(e) ==> e.kind == MBIoErrorKind::AlreadyExists
                && final(self).fds@ == old(self).fds@ && final(self).files@ == old(self).files@
                && final(self).file_fd_cnt == old(self).file_fd_cnt,
    {
        let fd = self.file_fd_cnt;
        if self.find(fd).is_some() {
            return Err(io_error(MBIoErrorKind::AlreadyExists));
        }
        self.fds.push(fd);
        self.files.push(file);
        self.file_fd_cnt = fd.wrapping_add(1);
        Ok(fd)
    }

    /// Takes the file of `fd` out of the table. Fails with `NotFound`
    /// where `fd` stands for no open file.
    pub fn remove(&mut self, fd: u32) -> (r: Result<(), MBIoError>)
        requires
            old(self).inv(),
        ensures
            final(self).inv(),
            final(self).file_fd_cnt == old(self).file_fd_cnt,
            final(self).asked@ == old(self).asked@,
            r is Ok <==> old(self).is_open(fd),
            r is Ok ==> !final(self).is_open(fd) && forall|other: u32|
                other != fd ==> final(self).is_open(other) == old(self).is_open(other),
            r matches Err(e) ==> e.kind == MBIoErrorKind::NotFound
                && final(self).fds@ == old(self).fds@ && final(self).files@ == old(self).files@,
    {
        match self.find(fd) {
            Some(i) => {
                let _ = self.fds.remove(i);
                let _ = self.files.remove(i);
                proof {
                    let before = old(self).fds@;
                    let after = self.fds@;
                    assert forall|other: u32| other != fd implies after.contains(other)
                        == before.contains(other) by {
                        if before.contains(other) {
                            let b = choose|b: int| 0 <= b < before.len() && before[b] == other;
                            let b1 = if b < i {
                                b
                            } else {
                                b - 1
                            };
                            assert(after[b1] == other);
                        }
                    }
                }
                Ok(())
            },
            None => Err(io_error(MBIoErrorKind::NotFound)),
        }
    }

    /// Reads from the file of `fd`: up to `len` bytes, or, where `len` is
    /// 0, all up to the end of the file. Fails with `NotFound` where `fd`
    /// stands for no open file; else the file decides.
    pub fn read(&mut self, fd: u32, len: usize) -> (r: Result<Vec<u8>, MBIoError>)
        requires
            old(self).inv(),
        ensures
            final(self).inv(),
            final(self).fds@ == old(self).fds@,
            final(self).file_fd_cnt == old(self).file_fd_cnt,
            !old(self).is_open(fd) ==> (r matches Err(e) && e.kind == MBIoErrorKind::NotFound),
            final(self).asked@ == old(self).spec_asked_after(fd, MBFsOp::Read { fd, len }),
            r matches Ok(v) ==> len == 0 || v@.len() <= len,
    {
        match self.find(fd) {
            Some(i) => {
                let mut f = self.files.remove(i);
                proof {
                    self.asked@ = self.asked@.push(MBFsOp::Read { fd, len });
                }
                let r = if len == 0 {
                    f.read_to_end()
                } else {
                    f.read(len)
                };
                self.files.insert(i, f);
                match r {
                    Ok(mut v) => {
                        if len > 0 && v.len() > len {
                            v.truncate(len);
                        }
                        Ok(v)
                    },
                    Err(e) => Err(e),
                }
            },
            None => Err(io_error(MBIoErrorKind::NotFound)),
        }
    }

    /// Writes `data` to the file of `fd`. Fails with `NotFound` where `fd`
    /// stands for no open file; else the file decides.
    pub fn write(&mut self, fd: u32, data: &[u8]) -> (r: Result<usize, MBIoError>)
        requires
            old(self).inv(),
        ensures
            final(self).inv(),
            final(self).fds@ == old(self).fds@,
            final(self).file_fd_cnt == old(self).file_fd_cnt,
            !old(self).is_open(fd) ==> (r matches Err(e) && e.kind == MBIoErrorKind::NotFound),
            final(self).asked@ == old(self).spec_asked_after(
                fd,
                MBFsOp::Write { fd, data: data@ },
            ),
    {
        match self.find(fd) {
            Some(i) => {
                let mut f = self.files.remove(i);
                proof {
                    self.asked@ = self.asked@.push(MBFsOp::Write { fd, data: data@ });
                }
                let r = f.write(data);
                self.files.insert(i, f);
                r
            },
            None => Err(io_error(MBIoErrorKind::NotFound)),
        }
    }

    /// Moves the position of the file of `fd` to `pos` bytes from its
    /// start. Fails with `NotFound` where `fd` stands for no open file;
    /// else the file decides.
    pub fn seek(&mut self, fd: u32, pos: u64) -> (r: Result<u64, MBIoError>)
        requires
            old(self).inv(),
        ensures
            final(self).inv(),
            final(self).fds@ == old(self).fds@,
            final(self).file_fd_cnt == old(self).file_fd_cnt,
            !old(self).is_open(fd) ==> (r matches Err(e) && e.kind == MBIoErrorKind::NotFound),
            final(self).asked@ == old(self).spec_asked_after(fd, MBFsOp::Seek { fd, pos }),
    {
        match self.find(fd) {
            Some(i) => {
                let mut f = self.files.remove(i);
                proof {
                    self.asked@ = self.asked@.push(MBFsOp::Seek { fd, pos });
                }
                let r = f.seek(pos);
                self.files.insert(i, f);
                r
            },
            None => Err(io_error(MBIoErrorKind::NotFound)),
        }
    }
}

/// Whether two byte strings are the same.
pub fn bytes_eq(a: &[u8], b: &[u8]) -> (r: bool)
    ensures
        r == (a@ == b@),
{
    if a.len() != b.len() {
        return false;
    }
    let mut k: usize = 0;
    while k < a.len()
        invariant
            k <= a.len(),
            a.len() == b.len(),
            forall|i: int| 0 <= i < k ==> a@[i] == b@[i],
        decreases a.len() - k,
    {
        if a[k] != b[k] {
            return false;
        }
        k = k + 1;
    }
    assert(a@ =~= b@);
    true
}

/// Whether `pat` stands at the start of `s`.
pub fn starts_with(s: &[u8], pat: &[u8]) -> (r: bool)
    ensures
        r == has_at(s@, 0, pat@),
{
    if pat.len() > s.len() {
        return false;
    }
    bytes_eq(slice_subrange(s, 0, pat.len()), pat)
}

/// `..`
pub open spec fn spec_dot_dot() -> Seq<u8> {
    seq![0x2eu8, 0x2eu8]
}

/// `../`
pub open spec fn spec_dot_dot_slash() -> Seq<u8> {
    seq![0x2eu8, 0x2eu8, 0x2fu8]
}

/// `virtual`
pub open spec fn spec_virtual() -> Seq<u8> {
    seq![0x76u8, 0x69u8, 0x72u8, 0x74u8, 0x75u8, 0x61u8, 0x6cu8]
}

/// `virtual/`
pub open spec fn spec_virtual_slash() -> Seq<u8> {
    seq![0x76u8, 0x69u8, 0x72u8, 0x74u8, 0x75u8, 0x61u8, 0x6cu8, 0x2fu8]
}

/// Whether a path may lead out of the root: it starts at the root of the
/// file system, or its first component is `..`.
pub open spec fn spec_path_rejected(p: Seq<u8>) -> bool {
    (p.len() > 0 && p[0] == 0x2f) || p == spec_dot_dot() || has_at(p, 0, spec_dot_dot_slash())
}

/// Whether a path names a virtual file: its first component is `virtual`.
pub open spec fn spec_path_virtual(p: Seq<u8>) -> bool {
    p == spec_virtual() || has_at(p, 0, spec_virtual_slash())
}

/// The name of a virtual file: what follows `virtual/`.
pub open spec fn spec_virtual_name(p: Seq<u8>) -> Seq<u8> {
    if has_at(p, 0, spec_virtual_slash()) {
        p.subrange(8, p.len() as int)
    } else {
        Seq::<u8>::empty()
    }
}

/// The last place in front of `to`, and not in front of `from`, at which
/// the byte `c` stands in `p`; -1 where it stands at none.
pub open spec fn spec_last_index(p: Seq<u8>, c: u8, from: int, to: int) -> int
    decreases to - from,
{
    if to <= from || to > p.len() || from < 0 {
        -1
    } else if p[to - 1] == c {
        to - 1
    } else {
        spec_last_index(p, c, from, to - 1)
    }
}

/// The extension of the file that a path names: what follows the last `.`
/// of the last component, unless that component starts with this `.`, has
/// none or is `..`.
pub open spec fn spec_extension(p: Seq<u8>) -> Option<Seq<u8>> {
    let start = spec_last_index(p, 0x2f, 0, p.len() as int) + 1;
    let dot = spec_last_index(p, 0x2e, start, p.len() as int);
    if dot <= start || p.subrange(start, p.len() as int) == spec_dot_dot() {
        None
    } else {
        Some(p.subrange(dot + 1, p.len() as int))
    }
}

/// A path below the root: the root, `/`, the path.
pub open spec fn spec_join_path(root: Seq<u8>, p: Seq<u8>) -> Seq<u8> {
    root + seq![0x2fu8] + p
}

fn dot_dot() -> (v: Vec<u8>)
    ensures
        v@ == spec_dot_dot(),
{
    let mut v: Vec<u8> = Vec::new();
    v.push(0x2e);
    v.push(0x2e);
    v
}

fn virtual_word() -> (v: Vec<u8>)
    ensures
        v@ == spec_virtual(),
{
    let mut v: Vec<u8> = Vec::new();
    v.push(0x76);
    v.push(0x69);
    v.push(0x72);
    v.push(0x74);
    v.push(0x75);
    v.push(0x61);
    v.push(0x6c);
    v
}

/// Whether a path may lead out of the root.
pub fn path_rejected(p: &[u8]) -> (r: bool)
    ensures
        r == spec_path_rejected(p@),
{
    if p.len() > 0 && p[0] == 0x2f {
        return true;
    }
    let dd = dot_dot();
    if bytes_eq(p, dd.as_slice()) {
        return true;
    }
    let mut dds = dd;
    dds.push(0x2f);
    assert(dds@ =~= spec_dot_dot_slash());
    starts_with(p, dds.as_slice())
}

/// The name of the virtual file that a path names, where it names one.
pub fn path_virtual(p: &[u8]) -> (r: Option<Vec<u8>>)
    ensures
        r is Some <==> spec_path_virtual(p@),
        r matches Some(name) ==> name@ == spec_virtual_name(p@),
{
    let v = virtual_word();
    let whole = bytes_eq(p, v.as_slice());
    let mut vs = v;
    vs.push(0x2f);
    assert(vs@ =~= spec_virtual_slash());
    if starts_with(p, vs.as_slice()) {
        Some(copy_range(p, 8, p.len()))
    } else if whole {
        Some(Vec::new())
    } else {
        None
    }
}

/// The last place in front of `to`, and not in front of `from`, at which
/// `c` stands in `p`.
fn last_index(p: &[u8], c: u8, from: usize, to: usize) -> (r: Option<usize>)
    requires
        from <= to <= p.len(),
    ensures
        r is None <==> spec_last_index(p@, c, from as int, to as int) == -1,
        r matches Some(k) ==> k == spec_last_index(p@, c, from as int, to as int) && from <= k < to,
{
    let mut k: usize = to;
    while k > from
        invariant
            from <= k <= to <= p.len(),
            spec_last_index(p@, c, from as int, to as int) == spec_last_index(
                p@,
                c,
                from as int,
                k as int,
            ),
        decreases k,
    {
        if p[k - 1] == c {
            return Some(k - 1);
        }
        k = k - 1;
    }
    None
}

/// The extension of the file that a path names.
pub fn extension(p: &[u8]) -> (r: Option<Vec<u8>>)
    ensures
        r is Some <==> spec_extension(p@) is Some,
        r matches Some(e) ==> Some(e@) == spec_extension(p@),
{
    let start: usize = match last_index(p, 0x2f, 0, p.len()) {
        Some(k) => k + 1,
        None => 0,
    };
    let dd = dot_dot();
    if bytes_eq(slice_subrange(p, start, p.len()), dd.as_slice()) {
        return None;
    }
    match last_index(p, 0x2e, start, p.len()) {
        Some(dot) => {
            if dot <= start {
                None
            } else {
                Some(copy_range(p, dot + 1, p.len()))
            }
        },
        None => None,
    }
}

/// The root, `/`, the path.
pub fn join_path(root: &[u8], p: &[u8]) -> (v: Vec<u8>)
    ensures
        v@ == spec_join_path(root@, p@),
{
    let mut v: Vec<u8> = Vec::new();
    v.extend_from_slice(root);
    v.push(0x2f);
    v.extend_from_slice(p);
    v
}

/// Whether `key` stands in `names` at `i`, and nowhere in front of it.
pub open spec fn spec_first_at(names: Seq<Vec<u8>>, key: Seq<u8>, i: int) -> bool {
    &&& 0 <= i < names.len()
    &&& names[i]@ == key
    &&& forall|j: int| 0 <= j < i ==> #[trigger] names[j]@ != key
}

/// The first place at which `key` stands in `names`.
pub open spec fn spec_lookup(names: Seq<Vec<u8>>, key: Seq<u8>) -> Option<int> {
    if exists|i: int| spec_first_at(names, key, i) {
        Some(choose|i: int| spec_first_at(names, key, i))
    } else {
        None
    }
}

/// The first place at which `key` stands in `names`.
pub fn lookup(names: &Vec<Vec<u8>>, key: &[u8]) -> (r: Option<usize>)
    ensures
        r is Some <==> exists|i: int| 0 <= i < names@.len() && #[trigger] names@[i]@ == key@,
        r matches Some(k) ==> k < names@.len() && names@[k as int]@ == key@ && spec_lookup(
            names@,
            key@,
        ) == Some(k as int),
        r is None ==> spec_lookup(names@, key@) is None,
{
    let mut k: usize = 0;
    while k < names.len()
        invariant
            k <= names.len(),
            forall|i: int| 0 <= i < k ==> #[trigger] names@[i]@ != key@,
        decreases names.len() - k,
    {
        if bytes_eq(names[k].as_slice(), key) {
            proof {
                assert(spec_first_at(names@, key@, k as int));
            }
            return Some(k);
        }
        k = k + 1;
    }
    None
}

/// The bytes as a string, where they are valid UTF-8. Wraps
/// `core::str::from_utf8`, which checks the bytes and hands them back as a
/// string slice.
#[verifier::external_body]
fn utf8_str(bytes: &[u8]) -> (r: Option<&str>)
    ensures
        r is Some <==> valid_utf8(bytes@),
        r matches Some(s) ==> s.spec_bytes() == bytes@,
{
    core::str::from_utf8(bytes).ok()
}

/// The path with `~` and the variables of the environment expanded.
/// Wraps `shellexpand::full`; what comes back depends on the environment
/// of the process, so nothing is said of it.
#[verifier::external_body]
fn shell_expand(path: &str) -> (r: Option<String>) {
    shellexpand::full(path).ok().map(|c| c.into_owned())
}

/// The bytes of the client's memory that a write hands to a file: the
/// `len` bytes at `ptr`, or none where the memory does not cover them.
pub open spec fn spec_client_bytes<R: MBPtrResolver>(r: &R, ptr: MBPtrT, len: usize) -> Seq<u8> {
    if len > 0 && r.covers(ptr as int, len as int) {
        read_bytes(r.mem(), ptr as int, len as int)
    } else {
        Seq::empty()
    }
}

/// The opener that a path selects.
#[derive(Debug, Clone, Copy, PartialEq, Eq, Structural)]
pub enum MBOpenerChoice {
    /// The opener of a virtual file, by its place among them.
    Virtual(usize),
    /// The opener of an extension, by its place among them.
    Special(usize),
    /// The opener of the files of the file system.
    Normal,
}

/// The files below a root directory. Paths that may lead out of the root
/// are refused. Below `virtual/` the name selects the opener; else the
/// extension does, where an opener is entered for it; else the files are
/// those of the file system.
pub struct MBFs<O: MBFileOpener> {
    pub root: Vec<u8>,
    pub virtual_names: Vec<Vec<u8>>,
    pub virtual_openers: Vec<O>,
    pub special_exts: Vec<Vec<u8>>,
    pub special_openers: Vec<O>,
    pub normal_opener: O,
    pub inner: MBFsInner<O::File>,
}

impl<O: MBFileOpener> MBFs<O> {
    pub open spec fn inv(&self) -> bool {
        &&& self.virtual_names@.len() == self.virtual_openers@.len()
        &&& self.special_exts@.len() == self.special_openers@.len()
        &&& self.inner.inv()
    }

    /// Whether a virtual file of this name can be opened.
    pub open spec fn has_virtual(&self, name: Seq<u8>) -> bool {
        exists|i: int| 0 <= i < self.virtual_names@.len()
            && #[trigger] self.virtual_names@[i]@ == name
    }

    /// Whether files of this extension have an opener of their own.
    pub open spec fn has_special(&self, ext: Seq<u8>) -> bool {
        exists|i: int| 0 <= i < self.special_exts@.len() && #[trigger] self.special_exts@[i]@ == ext
    }

    /// The files below `root`, which is a directory, with the opener for
    /// the files of the file system.
    pub fn new(root: Vec<u8>, normal_opener: O) -> (fs: MBFs<O>)
        ensures
            fs.inv(),
            fs.root == root,
            fs.virtual_names@.len() == 0,
            fs.special_exts@.len() == 0,
            fs.inner.fds@.len() == 0,
            fs.inner.file_fd_cnt == MB_FIRST_FD,
            fs.inner.asked@.len() == 0,
    {
        MBFs {
            root,
            virtual_names: Vec::new(),
            virtual_openers: Vec::new(),
            special_exts: Vec::new(),
            special_openers: Vec::new(),
            normal_opener,
            inner: MBFsInner::new(),
        }
    }

    /// Enters an opener for the files of extension `ext`. Fails with
    /// `AlreadyExists` where the extension has one.
    pub fn with_special(&mut self, ext: Vec<u8>, opener: O) -> (r: Result<(), MBIoError>)
        requires
            old(self).inv(),
        ensures
            final(self).inv(),
            final(self).inner == old(self).inner,
            final(self).virtual_names == old(self).virtual_names,
            r is Ok <==> !old(self).has_special(ext@),
            r is Ok ==> final(self).special_exts@ == old(self).special_exts@.push(ext),
            r matches Err(e) ==> e.kind == MBIoErrorKind::AlreadyExists
                && final(self).special_exts@ == old(self).special_exts@,
    {
        if lookup(&self.special_exts, ext.as_slice()).is_some() {
            return Err(io_error(MBIoErrorKind::AlreadyExists));
        }
        self.special_exts.push(ext);
        self.special_openers.push(opener);
        Ok(())
    }

    /// Enters an opener for the virtual file `name`. Fails with
    /// `AlreadyExists` where the name has one.
    pub fn with_virtual(&mut self, name: Vec<u8>, opener: O) -> (r: Result<(), MBIoError>)
        requires
            old(self).inv(),
        ensures
            final(self).inv(),
            final(self).inner == old(self).inner,
            final(self).special_exts == old(self).special_exts,
            r is Ok <==> !old(self).has_virtual(name@),
            r is Ok ==> final(self).virtual_names@ == old(self).virtual_names@.push(name),
            r matches Err(e) ==> e.kind == MBIoErrorKind::AlreadyExists
                && final(self).virtual_names@ == old(self).virtual_names@,
    {
        if lookup(&self.virtual_names, name.as_slice()).is_some() {
            return Err(io_error(MBIoErrorKind::AlreadyExists));
        }
        self.virtual_names.push(name);
        self.virtual_openers.push(opener);
        Ok(())
    }

    /// The opener that `path` selects. A path that may lead out of the
    /// root is refused with `PermissionDenied`. A path below `virtual/`
    /// selects the opener of the virtual file of that name, and fails with
    /// `NotFound` where there is none. Any other path selects the opener
    /// of its extension, where one is entered, and the opener of the file
    /// system else.
    pub open spec fn spec_choose_opener(&self, path: Seq<u8>) -> Result<
        MBOpenerChoice,
        MBIoErrorKind,
    > {
        if spec_path_rejected(path) {
            Err(MBIoErrorKind::PermissionDenied)
        } else if spec_path_virtual(path) {
            match spec_lookup(self.virtual_names@, spec_virtual_name(path)) {
                Some(i) => Ok(MBOpenerChoice::Virtual(i as usize)),
                None => Err(MBIoErrorKind::NotFound),
            }
        } else {
            match spec_extension(spec_join_path(self.root@, path)) {
                Some(ext) => match spec_lookup(self.special_exts@, ext) {
                    Some(i) => Ok(MBOpenerChoice::Special(i as usize)),
                    None => Ok(MBOpenerChoice::Normal),
                },
                None => Ok(MBOpenerChoice::Normal),
            }
        }
    }

    /// The opener that `path` selects.
    pub fn choose_opener(&self, path: &[u8]) -> (r: Result<MBOpenerChoice, MBIoError>)
        requires
            self.inv(),
        ensures
            r matches Ok(c) ==> self.spec_choose_opener(path@) == Ok::<_, MBIoErrorKind>(c) && (
            c matches MBOpenerChoice::Virtual(i) ==> i < self.virtual_openers@.len()) && (
            c matches MBOpenerChoice::Special(i) ==> i < self.special_openers@.len()),
            r matches Err(e) ==> self.spec_choose_opener(path@) == Err::<MBOpenerChoice, _>(e.kind),
    {
        if path_rejected(path) {
            return Err(io_error(MBIoErrorKind::PermissionDenied));
        }
        if let Some(name) = path_virtual(path) {
            return match lookup(&self.virtual_names, name.as_slice()) {
                Some(i) => Ok(MBOpenerChoice::Virtual(i)),
                None => Err(io_error(MBIoErrorKind::NotFound)),
            };
        }
        let file_path = join_path(self.root.as_slice(), path);
        if let Some(ext) = extension(file_path.as_slice()) {
            if let Some(i) = lookup(&self.special_exts, ext.as_slice()) {
                return Ok(MBOpenerChoice::Special(i));
            }
        }
        Ok(MBOpenerChoice::Normal)
    }

    /// What is asked of the openers and the files once `path` was opened
    /// with `flags`: the opener that the path selects is asked for the
    /// path below the root; no opener is asked where the path selects
    /// none.
    pub open spec fn spec_asked_after_open(&self, path: Seq<u8>, flags: u32) -> Seq<MBFsOp> {
        match self.spec_choose_opener(path) {
            Ok(choice) => self.inner.asked@.push(
                MBFsOp::Open { choice, path: spec_join_path(self.root@, path), flags },
            ),
            Err(_) => self.inner.asked@,
        }
    }

    /// Opens the file that `path` names, through the opener that the path
    /// selects and under the path below the root. Fails as the choice of
    /// the opener fails; else the opener decides.
    pub fn open_file(&mut self, path: &[u8], flags: u32) -> (r: Result<O::File, MBIoError>)
        requires
            old(self).inv(),
        ensures
            final(self).inv(),
            final(self).root == old(self).root,
            final(self).virtual_names == old(self).virtual_names,
            final(self).special_exts == old(self).special_exts,
            final(self).inner.fds == old(self).inner.fds,
            final(self).inner.files == old(self).inner.files,
            final(self).inner.file_fd_cnt == old(self).inner.file_fd_cnt,
            final(self).inner.asked@ == old(self).spec_asked_after_open(path@, flags),
            old(self).spec_choose_opener(path@) matches Err(kind) ==> (r matches Err(e) && e.kind
                == kind),
    {
        let choice = match self.choose_opener(path) {
            Ok(c) => c,
            Err(e) => {
                return Err(e);
            },
        };
        let file_path = join_path(self.root.as_slice(), path);
        proof {
            self.inner.asked@ = self.inner.asked@.push(
                MBFsOp::Open { choice, path: file_path@, flags },
            );
        }
        match choice {
            MBOpenerChoice::Virtual(i) => self.virtual_openers[i].open(file_path.as_slice(), flags),
            MBOpenerChoice::Special(i) => self.special_openers[i].open(file_path.as_slice(), flags),
            MBOpenerChoice::Normal => self.normal_opener.open(file_path.as_slice(), flags),
        }
    }

    /// Opens the file that the expanded path names and enters it into the
    /// table of open files. Returns its descriptor.
    pub fn open_expanded(&mut self, path: &[u8], flags: u32) -> (r: Result<u32, MBIoError>)
        requires
            old(self).inv(),
        ensures
            final(self).inv(),
            final(self).virtual_names == old(self).virtual_names,
            final(self).special_exts == old(self).special_exts,
            final(self).root == old(self).root,
            final(self).inner.asked@ == old(self).spec_asked_after_open(path@, flags),
            old(self).spec_choose_opener(path@) matches Err(kind) ==> (r matches Err(e) && e.kind
                == kind),
            r matches Ok(fd) ==> fd == old(self).inner.file_fd_cnt && final(self).inner.fds@
                == old(self).inner.fds@.push(fd) && final(self).inner.file_fd_cnt
                == crate::mb_channel::ring_next(fd),
            r is Err ==> final(self).inner.fds@ == old(self).inner.fds@
                && final(self).inner.file_fd_cnt == old(self).inner.file_fd_cnt,
    {
        let file = match self.open_file(path, flags) {
            Ok(f) => f,
            Err(e) => {
                return Err(e);
            },
        };
        self.inner.insert(file)
    }

    /// Opens the file that `path` names, `~` and the variables of the
    /// environment in it expanded, and returns its descriptor. Fails with
    /// `InvalidData`, and asks no opener, where the path is not valid
    /// UTF-8. Else no opener is asked, or one is asked as the opening of
    /// some path asks: the path as it was expanded.
    pub fn open(&mut self, path: &[u8], flags: u32) -> (r: Result<u32, MBIoError>)
        requires
            old(self).inv(),
        ensures
            final(self).inv(),
            final(self).virtual_names == old(self).virtual_names,
            final(self).special_exts == old(self).special_exts,
            final(self).root == old(self).root,
            !valid_utf8(path@) ==> (r matches Err(e) && e.kind == MBIoErrorKind::InvalidData)
                && final(self).inner.asked@ == old(self).inner.asked@,
            final(self).inner.asked@ == old(self).inner.asked@ || exists|p: Seq<u8>|
                final(self).inner.asked@ == #[trigger] old(self).spec_asked_after_open(p, flags),
            r matches Ok(fd) ==> fd == old(self).inner.file_fd_cnt && final(self).inner.fds@
                == old(self).inner.fds@.push(fd) && final(self).inner.file_fd_cnt
                == crate::mb_channel::ring_next(fd),
            r is Err ==> final(self).inner.fds@ == old(self).inner.fds@
                && final(self).inner.file_fd_cnt == old(self).inner.file_fd_cnt,
    {
        let s = match utf8_str(path) {
            Some(s) => s,
            None => {
                return Err(io_error(MBIoErrorKind::InvalidData));
            },
        };
        let expanded = match shell_expand(s) {
            Some(e) => e,
            None => {
                return Err(io_error(MBIoErrorKind::NotFound));
            },
        };
        self.open_expanded(expanded.as_str().as_bytes(), flags)
    }

    /// Closes the file of `fd`. Fails with `NotFound` where `fd` stands
    /// for no open file.
    pub fn close(&mut self, fd: u32) -> (r: Result<(), MBIoError>)
        requires
            old(self).inv(),
        ensures
            final(self).inv(),
            final(self).inner.file_fd_cnt == old(self).inner.file_fd_cnt,
            final(self).inner.asked@ == old(self).inner.asked@,
            r is Ok <==> old(self).inner.is_open(fd),
            r is Ok ==> !final(self).inner.is_open(fd) && forall|other: u32|
                other != fd ==> final(self).inner.is_open(other) == old(self).inner.is_open(other),
            r matches Err(e) ==> e.kind == MBIoErrorKind::NotFound && final(self).inner.fds@
                == old(self).inner.fds@,
    {
        self.inner.remove(fd)
    }

    /// Reads from the file of `fd` into the client's memory at `ptr`: up
    /// to `len` bytes, or, where `len` is 0, all up to the end of the
    /// file. Returns the number of bytes read, which are then in the
    /// client's memory. Fails with `NotFound` where `fd` stands for no
    /// open file, and with `Other`, the client's memory as it was, where
    /// that memory does not cover the bytes; else the file decides.
    pub fn read<R: MBPtrResolver>(&mut self, r: &mut R, fd: u32, ptr: MBPtrT, len: usize) -> (res:
        Result<usize, MBIoError>)
        requires
            old(self).inv(),
            old(r).inv(),
        ensures
            final(self).inv(),
            final(r).inv(),
            forall|a: int, l: int| final(r).covers(a, l) == old(r).covers(a, l),
            final(self).inner.fds@ == old(self).inner.fds@,
            final(self).inner.file_fd_cnt == old(self).inner.file_fd_cnt,
            final(self).inner.asked@ == old(self).inner.spec_asked_after(
                fd,
                MBFsOp::Read { fd, len },
            ),
            !old(self).inner.is_open(fd) ==> (res matches Err(e) && e.kind
                == MBIoErrorKind::NotFound),
            res matches Ok(n) ==> (len == 0 || n <= len) && (n == 0 || old(r).covers(
                ptr as int,
                n as int,
            )) && exists|data: Seq<u8>|
                data.len() == n && final(r).mem()
                    == crate::mb_std::mb_share_mem::share_mem::write_bytes(
                    old(r).mem(),
                    ptr as int,
                    data,
                ),
            res is Err ==> final(r).mem() == old(r).mem(),
    {
        let buf = match self.inner.read(fd, len) {
            Ok(b) => b,
            Err(e) => {
                return Err(e);
            },
        };
        match r.write_slice(ptr, buf.as_slice()) {
            Ok(()) => Ok(buf.len()),
            Err(_) => Err(io_error(MBIoErrorKind::Other)),
        }
    }

    /// Writes `len` bytes of the client's memory at `ptr` to the file of
    /// `fd`; no bytes where the memory does not cover them. Returns the
    /// number of bytes written. Fails with `NotFound` where `fd` stands
    /// for no open file; else the file decides.
    pub fn write<R: MBPtrResolver>(&mut self, r: &R, fd: u32, ptr: MBPtrT, len: usize) -> (res:
        Result<usize, MBIoError>)
        requires
            old(self).inv(),
            r.inv(),
        ensures
            final(self).inv(),
            final(self).inner.fds@ == old(self).inner.fds@,
            final(self).inner.file_fd_cnt == old(self).inner.file_fd_cnt,
            final(self).inner.asked@ == old(self).inner.spec_asked_after(
                fd,
                MBFsOp::Write { fd, data: spec_client_bytes(r, ptr, len) },
            ),
            !old(self).inner.is_open(fd) ==> (res matches Err(e) && e.kind
                == MBIoErrorKind::NotFound),
    {
        let buf = r.try_read_slice(ptr, len);
        assert(buf@ =~= spec_client_bytes(r, ptr, len));
        self.inner.write(fd, buf.as_slice())
    }

    /// Moves the position of the file of `fd` to `pos` bytes from its
    /// start. Fails with `NotFound` where `fd` stands for no open file;
    /// else the file decides.
    pub fn seek(&mut self, fd: u32, pos: u64) -> (r: Result<u64, MBIoError>)
        requires
            old(self).inv(),
        ensures
            final(self).inv(),
            final(self).inner.fds@ == old(self).inner.fds@,
            final(self).inner.file_fd_cnt == old(self).inner.file_fd_cnt,
            final(self).inner.asked@ == old(self).inner.spec_asked_after(
                fd,
                MBFsOp::Seek { fd, pos },
            ),
            !old(self).inner.is_open(fd) ==> (r matches Err(e) && e.kind
                == MBIoErrorKind::NotFound),
    {
        self.inner.seek(fd, pos)
    }
}

} // verus!
