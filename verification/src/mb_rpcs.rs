//! The catalogue of remote calls: how each request is laid out in a request
//! entry and how its answer is read from a response entry.

use vstd::prelude::*;
use crate::mb_channel::MBReqEntry;
use crate::mb_channel::MBReqView;
use crate::mb_channel::MBRespEntry;

verus! {

/// An address or a machine word of the client, as the protocol carries it.
pub type MBPtrT = u32;

/// What a request asks the server to do.
#[derive(Debug, Copy, Clone, PartialEq, Eq, Structural)]
pub enum MBAction {
    IDLE,
    EXIT,
    PRINT,
    CPRINT,
    MEMMOVE,
    MEMSET,
    MEMCMP,
    CALL,
    FILEACCESS,
    STOPSERVER,
    OTHER,
}

impl MBAction {
    /// The 32-bit code that stands for the action in a request entry.
    pub open spec fn spec_code(self) -> u32 {
        match self {
            MBAction::IDLE => 0,
            MBAction::EXIT => 1,
            MBAction::PRINT => 2,
            MBAction::CPRINT => 3,
            MBAction::MEMMOVE => 4,
            MBAction::MEMSET => 5,
            MBAction::MEMCMP => 6,
            MBAction::CALL => 7,
            MBAction::FILEACCESS => 8,
            MBAction::STOPSERVER => 9,
            MBAction::OTHER => 0x8000_0000,
        }
    }

    /// The action that a code selects; every code without an action of its
    /// own selects `OTHER`.
    pub open spec fn spec_from_code(v: u32) -> MBAction {
        if v == 0 {
            MBAction::IDLE
        } else if v == 1 {
            MBAction::EXIT
        } else if v == 2 {
            MBAction::PRINT
        } else if v == 3 {
            MBAction::CPRINT
        } else if v == 4 {
            MBAction::MEMMOVE
        } else if v == 5 {
            MBAction::MEMSET
        } else if v == 6 {
            MBAction::MEMCMP
        } else if v == 7 {
            MBAction::CALL
        } else if v == 8 {
            MBAction::FILEACCESS
        } else if v == 9 {
            MBAction::STOPSERVER
        } else {
            MBAction::OTHER
        }
    }

    #[verifier::when_used_as_spec(spec_code)]
    pub fn code(self) -> (v: u32)
        ensures
            v == self.spec_code(),
    {
        match self {
            MBAction::IDLE => 0,
            MBAction::EXIT => 1,
            MBAction::PRINT => 2,
            MBAction::CPRINT => 3,
            MBAction::MEMMOVE => 4,
            MBAction::MEMSET => 5,
            MBAction::MEMCMP => 6,
            MBAction::CALL => 7,
            MBAction::FILEACCESS => 8,
            MBAction::STOPSERVER => 9,
            MBAction::OTHER => 0x8000_0000,
        }
    }

    #[verifier::when_used_as_spec(spec_from_code)]
    pub fn from_code(v: u32) -> (a: MBAction)
        ensures
            a == MBAction::spec_from_code(v),
    {
        match v {
            0 => MBAction::IDLE,
            1 => MBAction::EXIT,
            2 => MBAction::PRINT,
            3 => MBAction::CPRINT,
            4 => MBAction::MEMMOVE,
            5 => MBAction::MEMSET,
            6 => MBAction::MEMCMP,
            7 => MBAction::CALL,
            8 => MBAction::FILEACCESS,
            9 => MBAction::STOPSERVER,
            _ => MBAction::OTHER,
        }
    }

    /// Decoding the code of an action gives the action back.
    pub proof fn lemma_code_round_trip(a: MBAction)
        ensures
            MBAction::spec_from_code(a.spec_code()) == a,
    {
    }
}

impl Default for MBAction {
    fn default() -> (a: MBAction)
        ensures
            a == MBAction::IDLE,
    {
        MBAction::IDLE
    }
}

impl From<u32> for MBAction {
    fn from(v: u32) -> (a: MBAction) {
        MBAction::from_code(v)
    }
}

impl vstd::std_specs::convert::FromSpecImpl<u32> for MBAction {
    open spec fn obeys_from_spec() -> bool {
        true
    }

    open spec fn from_spec(v: u32) -> MBAction {
        MBAction::spec_from_code(v)
    }
}

/// A remote call: how its request is written into a request entry, and how
/// its answer is read from a response entry.
pub trait MBRpc {
    type REQ;

    type RESP;

    /// The requests that fit into one entry.
    spec fn req_valid(&self, req: Self::REQ) -> bool;

    /// The entry after the request was written over `entry`.
    spec fn spec_put_req(&self, req: Self::REQ, entry: MBReqView) -> MBReqView;

    /// The answer that `entry` carries.
    spec fn spec_get_resp(&self, entry: MBRespEntry) -> Self::RESP;

    fn put_req(&self, req: Self::REQ, entry: &mut MBReqEntry)
        requires
            self.req_valid(req),
        ensures
            final(entry)@ == self.spec_put_req(req, old(entry)@),
    ;

    fn get_resp(&self, entry: &MBRespEntry) -> (resp: Self::RESP)
        ensures
            resp == self.spec_get_resp(*entry),
    ;
}

/// The entry with action, word count and the leading argument slots set;
/// the slots behind `args` keep what they held.
pub open spec fn encode_entry(action: MBAction, args: Seq<MBPtrT>, entry: MBReqView) -> MBReqView {
    MBReqView {
        action,
        words: args.len() as u32,
        args: Seq::new(
            entry.args.len(),
            |i: int|
                if i < args.len() {
                    args[i]
                } else {
                    entry.args[i]
                },
        ),
    }
}

/// `EXIT(code)`: one word.
pub struct MBExit;

impl MBRpc for MBExit {
    type REQ = u32;

    type RESP = ();

    open spec fn req_valid(&self, req: u32) -> bool {
        true
    }

    open spec fn spec_put_req(&self, req: u32, entry: MBReqView) -> MBReqView {
        encode_entry(MBAction::EXIT, seq![req], entry)
    }

    open spec fn spec_get_resp(&self, entry: MBRespEntry) -> () {
        ()
    }

    fn put_req(&self, req: u32, entry: &mut MBReqEntry) {
        entry.set_words(1);
        entry.set_action(MBAction::EXIT);
        entry.set_args(0, req);
    }

    fn get_resp(&self, _entry: &MBRespEntry) -> (resp: ()) {
    }
}

/// `MEMMOVE(dest, src, len)`.
#[derive(Default, Debug)]
pub struct MBMemMoveArgs {
    pub dest: MBPtrT,
    pub src: MBPtrT,
    pub len: MBPtrT,
}

pub struct MBMemMove<'a> {
    _marker: core::marker::PhantomData<&'a u8>,
}

impl<'a> MBMemMove<'a> {
    pub fn new() -> MBMemMove<'a> {
        MBMemMove { _marker: core::marker::PhantomData }
    }
}

impl<'a> MBRpc for MBMemMove<'a> {
    type REQ = &'a MBMemMoveArgs;

    type RESP = ();

    open spec fn req_valid(&self, req: &'a MBMemMoveArgs) -> bool {
        true
    }

    open spec fn spec_put_req(&self, req: &'a MBMemMoveArgs, entry: MBReqView) -> MBReqView {
        encode_entry(MBAction::MEMMOVE, seq![req.dest, req.src, req.len], entry)
    }

    open spec fn spec_get_resp(&self, entry: MBRespEntry) -> () {
        ()
    }

    fn put_req(&self, req: &'a MBMemMoveArgs, entry: &mut MBReqEntry) {
        entry.set_words(3);
        entry.set_action(MBAction::MEMMOVE);
        entry.set_args(0, req.dest);
        entry.set_args(1, req.src);
        entry.set_args(2, req.len);
    }

    fn get_resp(&self, _entry: &MBRespEntry) -> (resp: ()) {
    }
}

/// A word of the protocol read as a signed 32-bit number.
pub open spec fn spec_ptr_to_i32(v: MBPtrT) -> i32 {
    if v < 0x8000_0000 {
        v as i32
    } else {
        (v - 0x1_0000_0000) as i32
    }
}

/// A signed 32-bit number as the word of the protocol that carries it.
pub open spec fn spec_i32_to_ptr(v: i32) -> MBPtrT {
    if v >= 0 {
        v as MBPtrT
    } else {
        (v + 0x1_0000_0000) as MBPtrT
    }
}

#[verifier::when_used_as_spec(spec_ptr_to_i32)]
pub fn ptr_to_i32(v: MBPtrT) -> (r: i32)
    ensures
        r == spec_ptr_to_i32(v),
{
    if v < 0x8000_0000 {
        v as i32
    } else {
        let low: u32 = v - 0x8000_0000;
        (low as i32) + i32::MIN
    }
}

#[verifier::when_used_as_spec(spec_i32_to_ptr)]
pub fn i32_to_ptr(v: i32) -> (r: MBPtrT)
    ensures
        r == spec_i32_to_ptr(v),
{
    if v >= 0 {
        v as MBPtrT
    } else {
        let up: i32 = v - i32::MIN;
        (up as MBPtrT) + 0x8000_0000
    }
}

/// A signed number survives the way through a word of the protocol.
pub proof fn lemma_i32_round_trip(v: i32)
    ensures
        spec_ptr_to_i32(spec_i32_to_ptr(v)) == v,
{
}

/// The low eight bits of a word.
pub open spec fn spec_low_byte(v: MBPtrT) -> u8 {
    (v % 256) as u8
}

#[verifier::when_used_as_spec(spec_low_byte)]
pub fn low_byte(v: MBPtrT) -> (b: u8)
    ensures
        b == spec_low_byte(v),
{
    assert(v & 0xff == v % 256) by (bit_vector);
    (v & 0xff) as u8
}

/// Copies the first `n` values of `src` into the slots of `entry` from
/// `start` on.
pub fn put_args(entry: &mut MBReqEntry, start: usize, src: &[MBPtrT], n: usize)
    requires
        n <= src.len(),
        start + n <= crate::mb_channel::MB_MAX_ARGS,
    ensures
        final(entry)@ == (MBReqView {
            args: Seq::new(
                old(entry)@.args.len(),
                |i: int|
                    if start <= i < start + n {
                        src@[i - start]
                    } else {
                        old(entry)@.args[i]
                    },
            ),
            ..old(entry)@
        }),
{
    let mut k: usize = 0;
    while k < n
        invariant
            k <= n,
            n <= src.len(),
            start + n <= crate::mb_channel::MB_MAX_ARGS,
            entry@ == (MBReqView {
                args: Seq::new(
                    old(entry)@.args.len(),
                    |i: int|
                        if start <= i < start + k {
                            src@[i - start]
                        } else {
                            old(entry)@.args[i]
                        },
                ),
                ..old(entry)@
            }),
        decreases n - k,
    {
        entry.set_args(start + k, src[k]);
        k = k + 1;
    }
}

/// `STOPSERVER`: no words.
pub struct MBStopServer;

impl MBRpc for MBStopServer {
    type REQ = ();

    type RESP = ();

    open spec fn req_valid(&self, req: ()) -> bool {
        true
    }

    open spec fn spec_put_req(&self, req: (), entry: MBReqView) -> MBReqView {
        encode_entry(MBAction::STOPSERVER, seq![], entry)
    }

    open spec fn spec_get_resp(&self, entry: MBRespEntry) -> () {
        ()
    }

    fn put_req(&self, _req: (), entry: &mut MBReqEntry) {
        entry.set_words(0);
        entry.set_action(MBAction::STOPSERVER);
    }

    fn get_resp(&self, _entry: &MBRespEntry) -> (resp: ()) {
    }
}

/// A string by length and address.
#[derive(Default)]
pub struct MBStringArgs {
    pub len: u32,
    pub ptr: MBPtrT,
}

/// The entry of `PRINT(len, ptr)`.
pub open spec fn spec_print_entry(req: &MBStringArgs, entry: MBReqView) -> MBReqView {
    encode_entry(MBAction::PRINT, seq![req.len, req.ptr], entry)
}

/// Arguments that travel in the entry of a `CPRINT` when they all fit.
pub const MB_CPRINT_ARGS: usize = 5;

/// Arguments that travel in the entry of a `CPRINT` when the others are left
/// in the client's memory.
pub const MB_CPRINT_DIRECT: usize = 3;

/// The slot of a `CPRINT` entry that points to the arguments left in the
/// client's memory.
pub const MB_CPRINT_REST_SLOT: usize = 7;

/// A formatted print: the format, the place in the source that prints, and
/// the arguments. `len` counts the three leading words and every argument;
/// `args` holds the arguments that travel in the entry, `rest_args` is the
/// address, in the client's memory, of those that do not.
#[derive(Default, Debug)]
pub struct MBCStringArgs {
    pub len: u32,
    pub fmt_str: MBPtrT,
    pub file: MBPtrT,
    pub pos: MBPtrT,
    pub args: [MBPtrT; MB_CPRINT_ARGS],
    pub rest_args: MBPtrT,
}

impl MBCStringArgs {
    pub open spec fn spec_args_len(&self) -> usize {
        (self.len - 3) as usize
    }

    pub open spec fn spec_dir_args_len(&self) -> usize {
        if self.len - 3 <= MB_CPRINT_ARGS {
            (self.len - 3) as usize
        } else {
            MB_CPRINT_DIRECT
        }
    }

    pub open spec fn spec_rest_args_len(&self) -> usize {
        (self.len - 3 - self.spec_dir_args_len()) as usize
    }

    /// The number of arguments behind the three leading words.
    #[verifier::when_used_as_spec(spec_args_len)]
    pub fn args_len(&self) -> (n: usize)
        requires
            self.len >= 3,
        ensures
            n == self.spec_args_len(),
            n == self.len - 3,
    {
        (self.len - 3) as usize
    }

    /// The number of arguments that travel in the entry.
    #[verifier::when_used_as_spec(spec_dir_args_len)]
    pub fn dir_args_len(&self) -> (n: usize)
        requires
            self.len >= 3,
        ensures
            n == self.spec_dir_args_len(),
            n <= MB_CPRINT_ARGS,
    {
        let n = self.args_len();
        if n <= MB_CPRINT_ARGS {
            n
        } else {
            MB_CPRINT_DIRECT
        }
    }

    /// The number of arguments left in the client's memory.
    #[verifier::when_used_as_spec(spec_rest_args_len)]
    pub fn rest_args_len(&self) -> (n: usize)
        requires
            self.len >= 3,
        ensures
            n == self.spec_rest_args_len(),
            n == 0 <==> self.len - 3 <= MB_CPRINT_ARGS,
    {
        self.args_len() - self.dir_args_len()
    }
}

/// The entry of a `CPRINT`: the three leading words, the arguments that
/// travel in the entry and, where some are left behind, their address in the
/// last slot.
pub open spec fn spec_cprint_entry(req: &MBCStringArgs, entry: MBReqView) -> MBReqView {
    MBReqView {
        action: MBAction::CPRINT,
        words: req.len,
        args: Seq::new(
            entry.args.len(),
            |i: int|
                if i == 0 {
                    req.fmt_str
                } else if i == 1 {
                    req.file
                } else if i == 2 {
                    req.pos
                } else if i < 3 + req.spec_dir_args_len() {
                    req.args@[i - 3]
                } else if i == MB_CPRINT_REST_SLOT && req.spec_rest_args_len() > 0 {
                    req.rest_args
                } else {
                    entry.args[i]
                },
        ),
    }
}

/// Writes a `CPRINT` request into `entry`.
pub fn put_cprint_req(req: &MBCStringArgs, entry: &mut MBReqEntry)
    requires
        req.len >= 3,
    ensures
        final(entry)@ == spec_cprint_entry(req, old(entry)@),
{
    entry.set_words(req.len);
    entry.set_action(MBAction::CPRINT);
    entry.set_args(0, req.fmt_str);
    entry.set_args(1, req.file);
    entry.set_args(2, req.pos);
    put_args(entry, 3, req.args.as_slice(), req.dir_args_len());
    if req.rest_args_len() > 0 {
        entry.set_args(MB_CPRINT_REST_SLOT, req.rest_args);
    }
}

/// `MEMSET(dest, data, len)`; only the low eight bits of `data` are used.
#[derive(Default, Debug)]
pub struct MBMemSetArgs {
    pub dest: MBPtrT,
    pub data: MBPtrT,
    pub len: MBPtrT,
}

pub struct MBMemSet<'a> {
    _marker: core::marker::PhantomData<&'a u8>,
}

impl<'a> MBMemSet<'a> {
    pub fn new() -> MBMemSet<'a> {
        MBMemSet { _marker: core::marker::PhantomData }
    }
}

impl<'a> MBRpc for MBMemSet<'a> {
    type REQ = &'a MBMemSetArgs;

    type RESP = ();

    open spec fn req_valid(&self, req: &'a MBMemSetArgs) -> bool {
        true
    }

    open spec fn spec_put_req(&self, req: &'a MBMemSetArgs, entry: MBReqView) -> MBReqView {
        encode_entry(MBAction::MEMSET, seq![req.dest, req.data, req.len], entry)
    }

    open spec fn spec_get_resp(&self, entry: MBRespEntry) -> () {
        ()
    }

    fn put_req(&self, req: &'a MBMemSetArgs, entry: &mut MBReqEntry) {
        entry.set_words(3);
        entry.set_action(MBAction::MEMSET);
        entry.set_args(0, req.dest);
        entry.set_args(1, req.data);
        entry.set_args(2, req.len);
    }

    fn get_resp(&self, _entry: &MBRespEntry) -> (resp: ()) {
    }
}

/// `MEMCMP(s1, s2, len)`, answered by the signed difference of the first
/// pair of bytes that differ.
#[derive(Default, Debug)]
pub struct MBMemCmpArgs {
    pub s1: MBPtrT,
    pub s2: MBPtrT,
    pub len: MBPtrT,
}

pub struct MBMemCmp<'a> {
    _marker: core::marker::PhantomData<&'a u8>,
}

impl<'a> MBMemCmp<'a> {
    pub fn new() -> MBMemCmp<'a> {
        MBMemCmp { _marker: core::marker::PhantomData }
    }
}

impl<'a> MBRpc for MBMemCmp<'a> {
    type REQ = &'a MBMemCmpArgs;

    type RESP = i32;

    open spec fn req_valid(&self, req: &'a MBMemCmpArgs) -> bool {
        true
    }

    open spec fn spec_put_req(&self, req: &'a MBMemCmpArgs, entry: MBReqView) -> MBReqView {
        encode_entry(MBAction::MEMCMP, seq![req.s1, req.s2, req.len], entry)
    }

    open spec fn spec_get_resp(&self, entry: MBRespEntry) -> i32 {
        spec_ptr_to_i32(entry.rets)
    }

    fn put_req(&self, req: &'a MBMemCmpArgs, entry: &mut MBReqEntry) {
        entry.set_words(3);
        entry.set_action(MBAction::MEMCMP);
        entry.set_args(0, req.s1);
        entry.set_args(1, req.s2);
        entry.set_args(2, req.len);
    }

    fn get_resp(&self, entry: &MBRespEntry) -> (resp: i32) {
        ptr_to_i32(entry.get_rets())
    }
}

/// What a host function reports besides its value.
#[derive(Debug, Copy, Clone, PartialEq, Eq, Structural)]
pub enum MBCallStatus {
    Ready,
    Pending,
}

impl MBCallStatus {
    pub open spec fn spec_from_code(v: u32) -> Option<MBCallStatus> {
        if v == 0 {
            Some(MBCallStatus::Ready)
        } else if v == 1 {
            Some(MBCallStatus::Pending)
        } else {
            None
        }
    }

    /// The status that a code stands for: 0 is `Ready`, 1 is `Pending`.
    #[verifier::when_used_as_spec(spec_from_code)]
    pub fn from_code(v: u32) -> (s: Option<MBCallStatus>)
        ensures
            s == MBCallStatus::spec_from_code(v),
    {
        if v == 0 {
            Some(MBCallStatus::Ready)
        } else if v == 1 {
            Some(MBCallStatus::Pending)
        } else {
            None
        }
    }
}

/// Arguments that a `CALL` can carry besides the method.
pub const MB_CALL_ARGS: usize = 7;

/// `CALL(method, args..)`: the name of a host function and `len` arguments.
#[derive(Default, Debug)]
pub struct MBCallArgs {
    pub len: u32,
    pub method: MBPtrT,
    pub args: [MBPtrT; MB_CALL_ARGS],
}

pub struct MBCall<'a> {
    _marker: core::marker::PhantomData<&'a u8>,
}

impl<'a> MBCall<'a> {
    pub fn new() -> MBCall<'a> {
        MBCall { _marker: core::marker::PhantomData }
    }
}

impl<'a> MBRpc for MBCall<'a> {
    type REQ = &'a MBCallArgs;

    type RESP = MBPtrT;

    open spec fn req_valid(&self, req: &'a MBCallArgs) -> bool {
        req.len <= MB_CALL_ARGS
    }

    open spec fn spec_put_req(&self, req: &'a MBCallArgs, entry: MBReqView) -> MBReqView {
        encode_entry(
            MBAction::CALL,
            seq![req.method] + req.args@.subrange(0, req.len as int),
            entry,
        )
    }

    open spec fn spec_get_resp(&self, entry: MBRespEntry) -> MBPtrT {
        entry.rets
    }

    fn put_req(&self, req: &'a MBCallArgs, entry: &mut MBReqEntry) {
        entry.set_words(req.len + 1);
        entry.set_action(MBAction::CALL);
        entry.set_args(0, req.method);
        put_args(entry, 1, req.args.as_slice(), req.len as usize);
    }

    fn get_resp(&self, entry: &MBRespEntry) -> (resp: MBPtrT) {
        entry.get_rets()
    }
}

pub const MB_FILE_READ: u32 = 0x1;

pub const MB_FILE_WRITE: u32 = 0x2;

pub const MB_FILE_APPEND: u32 = 0x4;

pub const MB_FILE_TRUNC: u32 = 0x8;

/// What a `FILEACCESS` request asks for; it travels in the first slot.
#[derive(Debug, Copy, Clone, PartialEq, Eq, Structural)]
pub enum MBFileAction {
    OPEN,
    CLOSE,
    READ,
    WRITE,
    SEEK,
}

impl MBFileAction {
    pub open spec fn spec_code(self) -> u32 {
        match self {
            MBFileAction::OPEN => 0,
            MBFileAction::CLOSE => 1,
            MBFileAction::READ => 2,
            MBFileAction::WRITE => 3,
            MBFileAction::SEEK => 4,
        }
    }

    pub open spec fn spec_from_code(v: u32) -> Option<MBFileAction> {
        if v == 0 {
            Some(MBFileAction::OPEN)
        } else if v == 1 {
            Some(MBFileAction::CLOSE)
        } else if v == 2 {
            Some(MBFileAction::READ)
        } else if v == 3 {
            Some(MBFileAction::WRITE)
        } else if v == 4 {
            Some(MBFileAction::SEEK)
        } else {
            None
        }
    }

    #[verifier::when_used_as_spec(spec_code)]
    pub fn code(self) -> (v: u32)
        ensures
            v == self.spec_code(),
    {
        match self {
            MBFileAction::OPEN => 0,
            MBFileAction::CLOSE => 1,
            MBFileAction::READ => 2,
            MBFileAction::WRITE => 3,
            MBFileAction::SEEK => 4,
        }
    }

    #[verifier::when_used_as_spec(spec_from_code)]
    pub fn from_code(v: u32) -> (a: Option<MBFileAction>)
        ensures
            a == MBFileAction::spec_from_code(v),
    {
        match v {
            0 => Some(MBFileAction::OPEN),
            1 => Some(MBFileAction::CLOSE),
            2 => Some(MBFileAction::READ),
            3 => Some(MBFileAction::WRITE),
            4 => Some(MBFileAction::SEEK),
            _ => None,
        }
    }
}

/// `OPEN(path, flags)`, answered by a file descriptor.
#[derive(Default, Debug)]
pub struct MBFOpenArgs {
    pub path: MBPtrT,
    pub flags: u32,
}

pub struct MBFOpen<'a> {
    _marker: core::marker::PhantomData<&'a u8>,
}

impl<'a> MBFOpen<'a> {
    pub fn new() -> MBFOpen<'a> {
        MBFOpen { _marker: core::marker::PhantomData }
    }
}

impl<'a> MBRpc for MBFOpen<'a> {
    type REQ = &'a MBFOpenArgs;

    type RESP = u32;

    open spec fn req_valid(&self, req: &'a MBFOpenArgs) -> bool {
        true
    }

    open spec fn spec_put_req(&self, req: &'a MBFOpenArgs, entry: MBReqView) -> MBReqView {
        encode_entry(
            MBAction::FILEACCESS,
            seq![MBFileAction::OPEN.spec_code(), req.path, req.flags],
            entry,
        )
    }

    open spec fn spec_get_resp(&self, entry: MBRespEntry) -> u32 {
        entry.rets
    }

    fn put_req(&self, req: &'a MBFOpenArgs, entry: &mut MBReqEntry) {
        entry.set_words(3);
        entry.set_action(MBAction::FILEACCESS);
        entry.set_args(0, MBFileAction::OPEN.code());
        entry.set_args(1, req.path);
        entry.set_args(2, req.flags);
    }

    fn get_resp(&self, entry: &MBRespEntry) -> (resp: u32) {
        entry.get_rets()
    }
}

/// `CLOSE(fd)`.
pub struct MBFClose;

impl MBRpc for MBFClose {
    type REQ = u32;

    type RESP = ();

    open spec fn req_valid(&self, req: u32) -> bool {
        true
    }

    open spec fn spec_put_req(&self, req: u32, entry: MBReqView) -> MBReqView {
        encode_entry(MBAction::FILEACCESS, seq![MBFileAction::CLOSE.spec_code(), req], entry)
    }

    open spec fn spec_get_resp(&self, entry: MBRespEntry) -> () {
        ()
    }

    fn put_req(&self, req: u32, entry: &mut MBReqEntry) {
        entry.set_words(2);
        entry.set_action(MBAction::FILEACCESS);
        entry.set_args(0, MBFileAction::CLOSE.code());
        entry.set_args(1, req);
    }

    fn get_resp(&self, _entry: &MBRespEntry) -> (resp: ()) {
    }
}

/// `READ(fd, ptr, len)`, answered by the number of bytes read; a `len` of
/// zero asks for everything up to the end of the file.
#[derive(Default, Debug)]
pub struct MBFReadArgs {
    pub fd: u32,
    pub ptr: MBPtrT,
    pub len: MBPtrT,
}

pub struct MBFRead<'a> {
    _marker: core::marker::PhantomData<&'a u8>,
}

impl<'a> MBFRead<'a> {
    pub fn new() -> MBFRead<'a> {
        MBFRead { _marker: core::marker::PhantomData }
    }
}

impl<'a> MBRpc for MBFRead<'a> {
    type REQ = &'a MBFReadArgs;

    type RESP = usize;

    open spec fn req_valid(&self, req: &'a MBFReadArgs) -> bool {
        true
    }

    open spec fn spec_put_req(&self, req: &'a MBFReadArgs, entry: MBReqView) -> MBReqView {
        encode_entry(
            MBAction::FILEACCESS,
            seq![MBFileAction::READ.spec_code(), req.fd, req.ptr, req.len],
            entry,
        )
    }

    open spec fn spec_get_resp(&self, entry: MBRespEntry) -> usize {
        entry.rets as usize
    }

    fn put_req(&self, req: &'a MBFReadArgs, entry: &mut MBReqEntry) {
        entry.set_words(4);
        entry.set_action(MBAction::FILEACCESS);
        entry.set_args(0, MBFileAction::READ.code());
        entry.set_args(1, req.fd);
        entry.set_args(2, req.ptr);
        entry.set_args(3, req.len);
    }

    fn get_resp(&self, entry: &MBRespEntry) -> (resp: usize) {
        entry.get_rets() as usize
    }
}

/// `WRITE(fd, ptr, len)`, answered by the number of bytes written.
#[derive(Default, Debug)]
pub struct MBFWriteArgs {
    pub fd: u32,
    pub ptr: MBPtrT,
    pub len: MBPtrT,
}

pub struct MBFWrite<'a> {
    _marker: core::marker::PhantomData<&'a u8>,
}

impl<'a> MBFWrite<'a> {
    pub fn new() -> MBFWrite<'a> {
        MBFWrite { _marker: core::marker::PhantomData }
    }
}

impl<'a> MBRpc for MBFWrite<'a> {
    type REQ = &'a MBFWriteArgs;

    type RESP = usize;

    open spec fn req_valid(&self, req: &'a MBFWriteArgs) -> bool {
        true
    }

    open spec fn spec_put_req(&self, req: &'a MBFWriteArgs, entry: MBReqView) -> MBReqView {
        encode_entry(
            MBAction::FILEACCESS,
            seq![MBFileAction::WRITE.spec_code(), req.fd, req.ptr, req.len],
            entry,
        )
    }

    open spec fn spec_get_resp(&self, entry: MBRespEntry) -> usize {
        entry.rets as usize
    }

    fn put_req(&self, req: &'a MBFWriteArgs, entry: &mut MBReqEntry) {
        entry.set_words(4);
        entry.set_action(MBAction::FILEACCESS);
        entry.set_args(0, MBFileAction::WRITE.code());
        entry.set_args(1, req.fd);
        entry.set_args(2, req.ptr);
        entry.set_args(3, req.len);
    }

    fn get_resp(&self, entry: &MBRespEntry) -> (resp: usize) {
        entry.get_rets() as usize
    }
}

/// `SEEK(fd, pos)`, from the start of the file; answered by the new
/// position.
#[derive(Default, Debug)]
pub struct MBFSeekArgs {
    pub fd: u32,
    pub pos: MBPtrT,
}

pub struct MBFSeek<'a> {
    _marker: core::marker::PhantomData<&'a u8>,
}

impl<'a> MBFSeek<'a> {
    pub fn new() -> MBFSeek<'a> {
        MBFSeek { _marker: core::marker::PhantomData }
    }
}

impl<'a> MBRpc for MBFSeek<'a> {
    type REQ = &'a MBFSeekArgs;

    type RESP = MBPtrT;

    open spec fn req_valid(&self, req: &'a MBFSeekArgs) -> bool {
        true
    }

    open spec fn spec_put_req(&self, req: &'a MBFSeekArgs, entry: MBReqView) -> MBReqView {
        encode_entry(
            MBAction::FILEACCESS,
            seq![MBFileAction::SEEK.spec_code(), req.fd, req.pos],
            entry,
        )
    }

    open spec fn spec_get_resp(&self, entry: MBRespEntry) -> MBPtrT {
        entry.rets
    }

    fn put_req(&self, req: &'a MBFSeekArgs, entry: &mut MBReqEntry) {
        entry.set_words(3);
        entry.set_action(MBAction::FILEACCESS);
        entry.set_args(0, MBFileAction::SEEK.code());
        entry.set_args(1, req.fd);
        entry.set_args(2, req.pos);
    }

    fn get_resp(&self, entry: &MBRespEntry) -> (resp: MBPtrT) {
        entry.get_rets()
    }
}

/// The difference of two bytes.
pub open spec fn spec_byte_diff(a: u8, b: u8) -> int {
    a - b
}

/// A word as a number.
pub open spec fn spec_word(v: MBPtrT) -> int {
    v as int
}

/// A number between -2^31 and 2^31 as the word of the protocol that
/// carries it.
pub open spec fn spec_int_to_ptr(d: int) -> MBPtrT {
    if d >= 0 {
        d as MBPtrT
    } else {
        (d + 0x1_0000_0000) as MBPtrT
    }
}

pub fn byte_diff(a: u8, b: u8) -> (d: i32)
    ensures
        d == spec_byte_diff(a, b),
{
    a as i32 - b as i32
}

/// A request of action `OTHER`: the code that selects the handler of the
/// deployment, and `len` arguments.
#[derive(Default, Debug)]
pub struct MBOtherArgs {
    pub code: u32,
    pub len: u32,
    pub args: [MBPtrT; MB_CALL_ARGS],
}

/// `OTHER(code, args..)`, answered by one word.
pub struct MBOther<'a> {
    _marker: core::marker::PhantomData<&'a u8>,
}

impl<'a> MBOther<'a> {
    pub fn new() -> MBOther<'a> {
        MBOther { _marker: core::marker::PhantomData }
    }
}

impl<'a> MBRpc for MBOther<'a> {
    type REQ = &'a MBOtherArgs;

    type RESP = MBPtrT;

    open spec fn req_valid(&self, req: &'a MBOtherArgs) -> bool {
        req.len <= MB_CALL_ARGS
    }

    open spec fn spec_put_req(&self, req: &'a MBOtherArgs, entry: MBReqView) -> MBReqView {
        encode_entry(
            MBAction::OTHER,
            seq![req.code] + req.args@.subrange(0, req.len as int),
            entry,
        )
    }

    open spec fn spec_get_resp(&self, entry: MBRespEntry) -> MBPtrT {
        entry.rets
    }

    fn put_req(&self, req: &'a MBOtherArgs, entry: &mut MBReqEntry) {
        entry.set_words(req.len + 1);
        entry.set_action(MBAction::OTHER);
        entry.set_args(0, req.code);
        put_args(entry, 1, req.args.as_slice(), req.len as usize);
    }

    fn get_resp(&self, entry: &MBRespEntry) -> (resp: MBPtrT) {
        entry.get_rets()
    }
}

} // verus!
