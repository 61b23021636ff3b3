use vstd::prelude::*;
use vstd::utf8::{valid_utf8, decode_utf8, encode_utf8};
use std::collections::BTreeMap;
use crate::vm::{ScriptVm, VmState, REGISTER_COUNT, lemma_encode_utf8_nonzero, lemma_string_bytes_suffix};
use crate::text::{decimal, decimal_chars, push_str, push_chars, string_from_chars, concat_chars, string_chars, str_to_uppercase, str_to_lowercase, unicode_to_upper, unicode_to_lower};

verus! {

/// The system calls (opcode `SysCall`).
#[derive(Debug, Clone, Copy, PartialEq, Eq, Structural)]
pub enum SysCallCommand {
    FileRead,
    FileWrite,
    GetTimestamp,
    GetEnv,
    StringConcat,
    StringLength,
    StringSlice,
    StringToUpper,
    StringToLower,
    Unknown,
}

impl SysCallCommand {
    pub open spec fn spec_from_u32(val: u32) -> SysCallCommand {
        if val == 1 {
            SysCallCommand::FileRead
        } else if val == 2 {
            SysCallCommand::FileWrite
        } else if val == 3 {
            SysCallCommand::GetTimestamp
        } else if val == 4 {
            SysCallCommand::GetEnv
        } else if val == 5 {
            SysCallCommand::StringConcat
        } else if val == 6 {
            SysCallCommand::StringLength
        } else if val == 7 {
            SysCallCommand::StringSlice
        } else if val == 8 {
            SysCallCommand::StringToUpper
        } else if val == 9 {
            SysCallCommand::StringToLower
        } else {
            SysCallCommand::Unknown
        }
    }

    /// The command with number `val` (1 to 9), or `Unknown`.
    pub fn from_u32(val: u32) -> (r: Self)
        ensures
            r == Self::spec_from_u32(val),
    {
        match val {
            1 => SysCallCommand::FileRead,
            2 => SysCallCommand::FileWrite,
            3 => SysCallCommand::GetTimestamp,
            4 => SysCallCommand::GetEnv,
            5 => SysCallCommand::StringConcat,
            6 => SysCallCommand::StringLength,
            7 => SysCallCommand::StringSlice,
            8 => SysCallCommand::StringToUpper,
            9 => SysCallCommand::StringToLower,
            _ => SysCallCommand::Unknown,
        }
    }

    /// The command's number: 1 to 9, and 255 for `Unknown`.
    pub open spec fn spec_code(self) -> u32 {
        match self {
            SysCallCommand::FileRead => 1,
            SysCallCommand::FileWrite => 2,
            SysCallCommand::GetTimestamp => 3,
            SysCallCommand::GetEnv => 4,
            SysCallCommand::StringConcat => 5,
            SysCallCommand::StringLength => 6,
            SysCallCommand::StringSlice => 7,
            SysCallCommand::StringToUpper => 8,
            SysCallCommand::StringToLower => 9,
            SysCallCommand::Unknown => 255,
        }
    }

    /// The command's number: 1 to 9, and 255 for `Unknown`; `from_u32` gives
    /// the command back.
    #[verifier::when_used_as_spec(spec_code)]
    pub fn code(self) -> (r: u32)
        ensures
            r == self.spec_code(),
            Self::spec_from_u32(r) == self,
    {
        match self {
            SysCallCommand::FileRead => 1,
            SysCallCommand::FileWrite => 2,
            SysCallCommand::GetTimestamp => 3,
            SysCallCommand::GetEnv => 4,
            SysCallCommand::StringConcat => 5,
            SysCallCommand::StringLength => 6,
            SysCallCommand::StringSlice => 7,
            SysCallCommand::StringToUpper => 8,
            SysCallCommand::StringToLower => 9,
            SysCallCommand::Unknown => 255,
        }
    }
}

/// The hardware calls (opcode `HardwareCall`).
#[derive(Debug, Clone, Copy, PartialEq, Eq, Structural)]
pub enum HardwareCallCommand {
    HttpGet,
    HttpPost,
    SocketConnect,
    SocketSend,
    SocketRecv,
    NetworkStatus,
    Unknown,
}

impl HardwareCallCommand {
    pub open spec fn spec_from_u32(val: u32) -> HardwareCallCommand {
        if val == 1 {
            HardwareCallCommand::HttpGet
        } else if val == 2 {
            HardwareCallCommand::HttpPost
        } else if val == 3 {
            HardwareCallCommand::SocketConnect
        } else if val == 4 {
            HardwareCallCommand::SocketSend
        } else if val == 5 {
            HardwareCallCommand::SocketRecv
        } else if val == 6 {
            HardwareCallCommand::NetworkStatus
        } else {
            HardwareCallCommand::Unknown
        }
    }

    /// The command with number `val` (1 to 6), or `Unknown`.
    pub fn from_u32(val: u32) -> (r: Self)
        ensures
            r == Self::spec_from_u32(val),
    {
        match val {
            1 => HardwareCallCommand::HttpGet,
            2 => HardwareCallCommand::HttpPost,
            3 => HardwareCallCommand::SocketConnect,
            4 => HardwareCallCommand::SocketSend,
            5 => HardwareCallCommand::SocketRecv,
            6 => HardwareCallCommand::NetworkStatus,
            _ => HardwareCallCommand::Unknown,
        }
    }

    /// The command's number: 1 to 6, and 255 for `Unknown`.
    pub open spec fn spec_code(self) -> u32 {
        match self {
            HardwareCallCommand::HttpGet => 1,
            HardwareCallCommand::HttpPost => 2,
            HardwareCallCommand::SocketConnect => 3,
            HardwareCallCommand::SocketSend => 4,
            HardwareCallCommand::SocketRecv => 5,
            HardwareCallCommand::NetworkStatus => 6,
            HardwareCallCommand::Unknown => 255,
        }
    }

    /// The command's number: 1 to 6, and 255 for `Unknown`; `from_u32` gives
    /// the command back.
    #[verifier::when_used_as_spec(spec_code)]
    pub fn code(self) -> (r: u32)
        ensures
            r == self.spec_code(),
            Self::spec_from_u32(r) == self,
    {
        match self {
            HardwareCallCommand::HttpGet => 1,
            HardwareCallCommand::HttpPost => 2,
            HardwareCallCommand::SocketConnect => 3,
            HardwareCallCommand::SocketSend => 4,
            HardwareCallCommand::SocketRecv => 5,
            HardwareCallCommand::NetworkStatus => 6,
            HardwareCallCommand::Unknown => 255,
        }
    }
}

/// A simulated network socket.
#[derive(Debug, Clone, Default)]
pub struct HostSocket {
    pub socket_id: u32,
    pub address: String,
    pub is_connected: bool,
    pub send_buffer: Vec<u8>,
    pub receive_buffer: Vec<u8>,
}

#[verifier::ext_equal]
pub struct SocketV {
    pub socket_id: u32,
    pub address: Seq<char>,
    pub is_connected: bool,
    pub send_buffer: Seq<u8>,
    pub receive_buffer: Seq<u8>,
}

impl View for HostSocket {
    type V = SocketV;

    open spec fn view(&self) -> SocketV {
        SocketV {
            socket_id: self.socket_id,
            address: self.address@,
            is_connected: self.is_connected,
            send_buffer: self.send_buffer@,
            receive_buffer: self.receive_buffer@,
        }
    }
}

/// The host state that system and hardware calls use: a virtual file
/// system, environment variables, canned HTTP responses and sockets, each
/// keyed table holding one entry per key.
#[derive(Debug, Clone)]
pub struct HostContext {
    pub virtual_filesystem: Vec<(String, Vec<u8>)>,
    pub environment_variables: Vec<(String, String)>,
    pub http_mock_routes: Vec<(String, String)>,
    pub sockets: BTreeMap<u32, HostSocket>,
    pub next_socket_id: u32,
    pub network_online: bool,
    pub scratch_heap_pointer: usize,
    pub timestamp_counter: u64,
}

/// The mathematical state of a host.
#[verifier::ext_equal]
pub struct HostV {
    pub files: Seq<(Seq<char>, Seq<u8>)>,
    pub env: Seq<(Seq<char>, Seq<char>)>,
    pub routes: Seq<(Seq<char>, Seq<char>)>,
    pub sockets: Map<u32, SocketV>,
    pub next_socket_id: u32,
    pub network_online: bool,
    pub heap: usize,
    pub clock: u64,
}

/// The files of a table, as names and contents.
pub open spec fn files_view(t: Seq<(String, Vec<u8>)>) -> Seq<(Seq<char>, Seq<u8>)> {
    t.map_values(|e: (String, Vec<u8>)| (e.0@, e.1@))
}

/// The entries of a string table.
pub open spec fn pairs_view(t: Seq<(String, String)>) -> Seq<(Seq<char>, Seq<char>)> {
    t.map_values(|e: (String, String)| (e.0@, e.1@))
}

/// The sockets of a table, by id.
pub open spec fn sockets_view(t: Map<u32, HostSocket>) -> Map<u32, SocketV> {
    t.map_values(|s: HostSocket| s@)
}

impl View for HostContext {
    type V = HostV;

    open spec fn view(&self) -> HostV {
        HostV {
            files: files_view(self.virtual_filesystem@),
            env: pairs_view(self.environment_variables@),
            routes: pairs_view(self.http_mock_routes@),
            sockets: sockets_view(self.sockets@),
            next_socket_id: self.next_socket_id,
            network_online: self.network_online,
            heap: self.scratch_heap_pointer,
            clock: self.timestamp_counter,
        }
    }
}

/// The index of the first entry with key `k`.
pub open spec fn key_index<V>(l: Seq<(Seq<char>, V)>, k: Seq<char>) -> Option<int>
    decreases l.len(),
{
    if l.len() == 0 {
        None
    } else if l[0].0 == k {
        Some(0)
    } else {
        match key_index(l.subrange(1, l.len() as int), k) {
            Some(i) => Some(i + 1),
            None => None,
        }
    }
}

/// The value of the first entry with key `k`.
pub open spec fn lookup<V>(l: Seq<(Seq<char>, V)>, k: Seq<char>) -> Option<V> {
    match key_index(l, k) {
        Some(i) => Some(l[i].1),
        None => None,
    }
}

/// The table with the value of the first entry with key `k` replaced, or a
/// new entry at the end.
pub open spec fn store<V>(l: Seq<(Seq<char>, V)>, k: Seq<char>, v: V) -> Seq<(Seq<char>, V)> {
    match key_index(l, k) {
        Some(i) => l.update(i, (k, v)),
        None => l.push((k, v)),
    }
}

/// `key_index` finds the first entry with the key, and nothing when no entry
/// has it.
pub proof fn lemma_key_index<V>(l: Seq<(Seq<char>, V)>, k: Seq<char>)
    ensures
        match key_index(l, k) {
            Some(i) => 0 <= i < l.len() && l[i].0 == k && forall|j: int| 0 <= j < i ==> l[j].0 != k,
            None => forall|j: int| 0 <= j < l.len() ==> l[j].0 != k,
        },
    decreases l.len(),
{
    if l.len() > 0 && l[0].0 != k {
        let rest = l.subrange(1, l.len() as int);
        lemma_key_index(rest, k);
        assert forall|j: int| 1 <= j < l.len() implies l[j] == rest[j - 1] by {}
    }
}

pub proof fn lemma_key_index_is<V>(l: Seq<(Seq<char>, V)>, k: Seq<char>, i: int)
    requires
        0 <= i < l.len(),
        l[i].0 == k,
        forall|j: int| 0 <= j < i ==> l[j].0 != k,
    ensures
        key_index(l, k) == Some(i),
{
    lemma_key_index(l, k);
}

pub proof fn lemma_key_index_absent<V>(l: Seq<(Seq<char>, V)>, k: Seq<char>)
    requires
        forall|j: int| 0 <= j < l.len() ==> l[j].0 != k,
    ensures
        key_index(l, k) is None,
{
    lemma_key_index(l, k);
}

/// A read gives back the value of the last store to its key, and a store
/// leaves the other keys alone.
pub proof fn lemma_lookup_store<V>(l: Seq<(Seq<char>, V)>, k: Seq<char>, v: V, other: Seq<char>)
    ensures
        lookup(store(l, k, v), k) == Some(v),
        other != k ==> lookup(store(l, k, v), other) == lookup(l, other),
{
    lemma_key_index(l, k);
    lemma_key_index(l, other);
    let st = store(l, k, v);
    match key_index(l, k) {
        Some(i) => {
            lemma_key_index_is(st, k, i);
            if other != k {
                match key_index(l, other) {
                    Some(j) => {
                        lemma_key_index_is(st, other, j);
                    },
                    None => {
                        lemma_key_index_absent(st, other);
                    },
                }
            }
        },
        None => {
            lemma_key_index_is(st, k, l.len() as int);
            if other != k {
                match key_index(l, other) {
                    Some(j) => {
                        lemma_key_index_is(st, other, j);
                    },
                    None => {
                        lemma_key_index_absent(st, other);
                    },
                }
            }
        },
    }
}

/// The string a read of at most `limit` bytes from `addr` gives (up to a
/// zero byte), when the address is valid and the bytes are UTF-8.
pub open spec fn read_str_limit(s: VmState, addr: usize, limit: usize) -> Option<Seq<char>> {
    let n: int = if limit <= usize::MAX - addr { limit as int } else { usize::MAX - addr };
    let bs = s.string_bytes(addr as int, n);
    if s.region_valid(addr as int, 1) && valid_utf8(bs) {
        Some(decode_utf8(bs))
    } else {
        None
    }
}

/// The string a read from `addr` gives (at most 1024 bytes, up to a zero
/// byte), when the address is valid and the bytes are UTF-8.
pub open spec fn read_str(s: VmState, addr: usize) -> Option<Seq<char>> {
    read_str_limit(s, addr, 1024)
}

/// The bytes a read of `len` bytes (or, for 0, up to a zero byte) from `addr`
/// gives; nothing when it leaves memory.
pub open spec fn read_data(s: VmState, addr: usize, len: usize) -> Seq<u8> {
    if len == 0 {
        match s.bytes_until_null(addr as int) {
            Ok(bs) => bs,
            Err(_) => Seq::empty(),
        }
    } else if s.region_valid(addr as int, len as int) {
        s.bytes_at(addr as int, len as int)
    } else {
        Seq::empty()
    }
}

/// An address argument: the value of register `r`, or the number `r` itself
/// when it names no register.
pub open spec fn addr_arg(s: VmState, r: usize) -> usize {
    if r < 256 { s.reg(r) as usize } else { r }
}

/// A pointer argument: the value of register `r` when it is not zero, else
/// the number `r` itself.
pub open spec fn ptr_arg(s: VmState, r: usize) -> usize {
    if r < 256 && s.reg(r) > 0 { s.reg(r) as usize } else { r }
}

/// The register after `r`, counting modulo 256.
pub open spec fn reg_after(r: usize, k: usize) -> usize {
    ((r + k) % 256) as usize
}

/// A size rounded up to a multiple of four.
pub open spec fn align4(size: usize) -> usize {
    (((size + 3) as usize) & !3usize) as usize
}

/// Whether an allocation of `size` bytes stays within the machine word: the
/// rounding, the end of the block, and after a start-over the end from 512.
pub open spec fn alloc_fits(h: HostV, size: nat) -> bool {
    &&& size + 3 <= usize::MAX
    &&& h.heap + align4(size as usize) <= usize::MAX
    &&& h.heap + align4(size as usize) > 1000 ==> 512 + align4(size as usize) <= usize::MAX
}

/// Allocation from the scratch heap in VM memory (512 to 1000): the heap
/// starts over at 512 when the block would end past 1000.
pub open spec fn allocate(h: HostV, size: usize) -> (HostV, usize) {
    let a = align4(size);
    let base: usize = if h.heap + a > 1000 { 512 } else { h.heap };
    (HostV { heap: (base + a) as usize, ..h }, base)
}

/// An allocation of at most 488 bytes from a heap pointer inside the scratch
/// heap gives a block inside the scratch heap (512 to 1000), at least as long
/// as asked and shorter by less than four bytes than the next multiple of
/// four, and the heap pointer moves to the end of that block, so that the
/// next block that does not start over begins where this one ends.
pub proof fn lemma_allocate_in_scratch_heap(h: HostV, size: usize)
    requires
        alloc_fits(h, size as nat),
        512 <= h.heap <= 1000,
        size <= 488,
    ensures
        ({
            let (h1, at) = allocate(h, size);
            &&& 512 <= at
            &&& at + align4(size) <= 1000
            &&& h1.heap == at + align4(size)
            &&& 512 <= h1.heap <= 1000
            &&& size <= align4(size) < size + 4
            &&& align4(size) % 4 == 0
        }),
{
    assert(size <= 488 ==> (size <= (((size + 3) as usize) & !3usize) && (((size + 3) as usize) & !3usize)
        < size + 4 && (((size + 3) as usize) & !3usize) % 4 == 0)) by (bit_vector);
}

/// Whether a text and its zero byte can be allocated.
pub open spec fn text_fits(h: HostV, text: Seq<char>) -> bool {
    alloc_fits(h, encode_utf8(text).len() + 1)
}

/// Places a text and a zero byte in a fresh heap block and puts its address
/// in register `dest`, or 0 when the block does not fit in memory.
pub open spec fn place_text(h: HostV, s: VmState, dest: usize, text: Seq<char>) -> (HostV, VmState) {
    let bs = encode_utf8(text);
    let (h1, at) = allocate(h, (bs.len() + 1) as usize);
    let data = bs + seq![0u8];
    if s.region_valid(at as int, data.len() as int) {
        (h1, s.with_bytes(at as int, data).with_reg(dest, at as u32))
    } else {
        (h1, s.with_reg(dest, 0))
    }
}

/// `FileRead`: the contents of the file named by the string at the pointer
/// in register `p`, copied to a fresh heap block with a zero byte after it
/// when there is room; the address, or 0.
pub open spec fn file_read_spec(h: HostV, s: VmState, dest: usize, p: usize) -> (HostV, VmState) {
    let addr = addr_arg(s, p);
    match read_str(s, addr) {
        Some(path) => match lookup(h.files, path) {
            Some(content) => {
                let (h1, at) = allocate(h, (content.len() + 1) as usize);
                if s.region_valid(at as int, content.len() as int) {
                    let s1 = s.with_bytes(at as int, content);
                    let s2 = if s1.region_valid(at + content.len(), 1) {
                        s1.with_bytes(at + content.len(), seq![0u8])
                    } else {
                        s1
                    };
                    (h1, s2.with_reg(dest, at as u32))
                } else {
                    (h1, s.with_reg(dest, 0))
                }
            },
            None => (h, s.with_reg(dest, 0)),
        },
        None => (h, s.with_reg(dest, 0)),
    }
}

/// `FileWrite`: stores under the name at the pointer in register `a` the
/// bytes at the pointer in the next register, as many as the register after
/// says (up to a zero byte for 0); the count, or 0.
pub open spec fn file_write_spec(h: HostV, s: VmState, dest: usize, a: usize) -> (HostV, VmState) {
    let path_addr = s.reg(a) as usize;
    let data_addr = s.reg(reg_after(a, 1)) as usize;
    let data_len = s.reg(reg_after(a, 2)) as usize;
    match read_str(s, path_addr) {
        Some(path) => {
            let data = read_data(s, data_addr, data_len);
            (HostV { files: store(h.files, path, data), ..h }, s.with_reg(dest, data.len() as u32))
        },
        None => (h, s.with_reg(dest, 0)),
    }
}

/// `GetTimestamp`: the clock advances by 10; its low 32 bits.
pub open spec fn timestamp_spec(h: HostV, s: VmState, dest: usize) -> (HostV, VmState) {
    let c = (h.clock + 10) as u64;
    (HostV { clock: c, ..h }, s.with_reg(dest, (c & 0xffff_ffff) as u32))
}

/// `GetEnv`: the value of the variable named at the pointer in register
/// `p`, placed in the heap; or 0.
pub open spec fn get_env_spec(h: HostV, s: VmState, dest: usize, p: usize) -> (HostV, VmState) {
    match read_str(s, addr_arg(s, p)) {
        Some(key) => match lookup(h.env, key) {
            Some(v) => place_text(h, s, dest, v),
            None => (h, s.with_reg(dest, 0)),
        },
        None => (h, s.with_reg(dest, 0)),
    }
}

/// The string at a pointer argument, empty when it cannot be read.
pub open spec fn str_or_empty(s: VmState, r: usize) -> Seq<char> {
    match read_str(s, ptr_arg(s, r)) {
        Some(t) => t,
        None => Seq::empty(),
    }
}

/// `StringConcat`: the strings at the pointer arguments `a` and the register
/// after it, joined, placed in the heap.
pub open spec fn concat_spec(h: HostV, s: VmState, dest: usize, a: usize) -> (HostV, VmState) {
    place_text(h, s, dest, str_or_empty(s, a) + str_or_empty(s, reg_after(a, 1)))
}

/// `StringLength`: the number of characters of the string, or 0.
pub open spec fn length_spec(h: HostV, s: VmState, dest: usize, a: usize) -> (HostV, VmState) {
    match read_str(s, ptr_arg(s, a)) {
        Some(t) => (h, s.with_reg(dest, t.len() as u32)),
        None => (h, s.with_reg(dest, 0)),
    }
}

/// `StringSlice`: the characters from the index in the register after `a`
/// up to the index in the one after that, both cut to the string's length,
/// placed in the heap; or 0.
pub open spec fn slice_spec(h: HostV, s: VmState, dest: usize, a: usize) -> (HostV, VmState) {
    match read_str(s, ptr_arg(s, a)) {
        Some(t) => place_text(h, s, dest, slice_of(s, a, t)),
        None => (h, s.with_reg(dest, 0)),
    }
}

/// The characters of `t` from the index in the register after `a` up to the
/// index in the one after that, both cut to the length.
pub open spec fn slice_of(s: VmState, a: usize, t: Seq<char>) -> Seq<char> {
    let start_idx = s.reg(reg_after(a, 1)) as usize;
    let end_idx = s.reg(reg_after(a, 2)) as usize;
    let n = t.len();
    let start = if start_idx < n { start_idx as int } else { n as int };
    let e0 = if end_idx < n { end_idx as int } else { n as int };
    let end = if e0 > start { e0 } else { start };
    t.subrange(start, end)
}

/// `StringToUpper` and `StringToLower`: the string's Unicode case mapping,
/// placed in the heap; or 0.
pub open spec fn case_spec(h: HostV, s: VmState, dest: usize, a: usize, upper: bool) -> (HostV, VmState) {
    match read_str(s, ptr_arg(s, a)) {
        Some(t) => place_text(h, s, dest, case_of(t, upper)),
        None => (h, s.with_reg(dest, 0)),
    }
}

/// The Unicode upper or lower case of a string.
pub open spec fn case_of(t: Seq<char>, upper: bool) -> Seq<char> {
    if upper { unicode_to_upper(t) } else { unicode_to_lower(t) }
}

/// The reply of a route without a canned response.
pub open spec fn mock_response(url: Seq<char>) -> Seq<char> {
    "HTTP/1.1 200 OK\r\nContent-Type: text/plain\r\n\r\nMock Response for "@ + url
}

/// The reply of a POST.
pub open spec fn post_response(url: Seq<char>, body_bytes: nat) -> Seq<char> {
    "HTTP/1.1 200 OK\r\nContent-Type: application/json\r\n\r\n"@ + seq!['{'] + "\"posted_to\":\""@ + url
        + "\",\"bytes_received\":"@ + decimal(body_bytes) + seq!['}']
}

/// `HttpGet`: the canned response of the URL, or a mock reply naming it,
/// placed in the heap; or 0 when the URL cannot be read.
pub open spec fn http_get_spec(h: HostV, s: VmState, dest: usize, a: usize) -> (HostV, VmState) {
    match read_str(s, ptr_arg(s, a)) {
        Some(url) => place_text(h, s, dest, get_response(h, url)),
        None => (h, s.with_reg(dest, 0)),
    }
}

/// The canned response of a URL, or a mock reply naming it.
pub open spec fn get_response(h: HostV, url: Seq<char>) -> Seq<char> {
    match lookup(h.routes, url) {
        Some(r) => r,
        None => mock_response(url),
    }
}

/// `HttpPost`: a JSON reply naming the URL and the byte length of the body,
/// placed in the heap.
pub open spec fn http_post_spec(h: HostV, s: VmState, dest: usize, a: usize) -> (HostV, VmState) {
    let url = str_or_empty(s, a);
    let body = str_or_empty(s, reg_after(a, 1));
    place_text(h, s, dest, post_response(url, encode_utf8(body).len()))
}

/// `SocketConnect`: a new connected socket to the address at the pointer
/// argument (127.0.0.1:8080 when it cannot be read); its id.
pub open spec fn connect_spec(h: HostV, s: VmState, dest: usize, a: usize) -> (HostV, VmState) {
    let target = match read_str(s, ptr_arg(s, a)) {
        Some(t) => t,
        None => "127.0.0.1:8080"@,
    };
    let id = h.next_socket_id;
    let sock = SocketV { socket_id: id, address: target, is_connected: true, send_buffer: Seq::empty(), receive_buffer: Seq::empty() };
    (
        HostV {
            sockets: h.sockets.insert(id, sock),
            next_socket_id: (id + 1) as u32,
            ..h
        },
        s.with_reg(dest, id),
    )
}

/// The socket id argument: the value of register `a`.
pub open spec fn socket_arg(s: VmState, a: usize) -> u32 {
    if a < 256 { s.reg(a) } else { a as u32 }
}

/// `SocketSend`: appends the bytes at the pointer in the register after `a`
/// (as many as the register after that says, up to a zero byte for 0) to
/// the socket's send buffer; their count, or 0 without such a socket.
pub open spec fn send_spec(h: HostV, s: VmState, dest: usize, a: usize) -> (HostV, VmState) {
    let id = socket_arg(s, a);
    let bytes = read_data(s, s.reg(reg_after(a, 1)) as usize, s.reg(reg_after(a, 2)) as usize);
    if h.sockets.contains_key(id) {
        let sock = h.sockets[id];
        (
            HostV { sockets: h.sockets.insert(id, SocketV { send_buffer: sock.send_buffer + bytes, ..sock }), ..h },
            s.with_reg(dest, bytes.len() as u32),
        )
    } else {
        (h, s.with_reg(dest, 0))
    }
}

/// `SocketRecv`: copies the socket's received bytes to the pointer in the
/// register after `a` (when they fit in memory) and empties the buffer; their
/// count, or 0 when there are none.
pub open spec fn recv_spec(h: HostV, s: VmState, dest: usize, a: usize) -> (HostV, VmState) {
    let id = socket_arg(s, a);
    let to = s.reg(reg_after(a, 1)) as usize;
    if h.sockets.contains_key(id) && h.sockets[id].receive_buffer.len() > 0 {
        let sock = h.sockets[id];
        let s1 = if s.region_valid(to as int, sock.receive_buffer.len() as int) {
            s.with_bytes(to as int, sock.receive_buffer)
        } else {
            s
        };
        (
            HostV { sockets: h.sockets.insert(id, SocketV { receive_buffer: Seq::empty(), ..sock }), ..h },
            s1.with_reg(dest, sock.receive_buffer.len() as u32),
        )
    } else {
        (h, s.with_reg(dest, 0))
    }
}

/// `NetworkStatus`: 1 when online, else 0.
pub open spec fn status_spec(h: HostV, s: VmState, dest: usize) -> (HostV, VmState) {
    (h, s.with_reg(dest, if h.network_online { 1 } else { 0 }))
}

/// The system call that a request names: the number in register `b`, or
/// else the number `b` itself.
pub open spec fn syscall_command(s: VmState, b: usize) -> SysCallCommand {
    match SysCallCommand::spec_from_u32(s.reg(b)) {
        SysCallCommand::Unknown => SysCallCommand::spec_from_u32(b as u32),
        c => c,
    }
}

/// Whether `FileRead` stays within the machine word.
pub open spec fn file_read_fits(h: HostV, s: VmState, p: usize) -> bool {
    match read_str(s, addr_arg(s, p)) {
        Some(path) => match lookup(h.files, path) {
            Some(content) => alloc_fits(h, content.len() + 1),
            None => true,
        },
        None => true,
    }
}

/// Whether `GetEnv` stays within the machine word.
pub open spec fn get_env_fits(h: HostV, s: VmState, p: usize) -> bool {
    match read_str(s, addr_arg(s, p)) {
        Some(key) => match lookup(h.env, key) {
            Some(v) => text_fits(h, v),
            None => true,
        },
        None => true,
    }
}

/// Whether a system call runs without panicking: an operand
/// register beyond the 256 for `FileWrite`, or arithmetic (the clock, an
/// allocation) passing its machine word.
pub open spec fn syscall_ok(h: HostV, s: VmState, b: usize, c: usize) -> bool {
    match syscall_command(s, b) {
        SysCallCommand::FileRead => file_read_fits(h, s, c),
        SysCallCommand::FileWrite => c < 256,
        SysCallCommand::GetTimestamp => h.clock + 10 <= u64::MAX,
        SysCallCommand::GetEnv => get_env_fits(h, s, c),
        SysCallCommand::StringConcat => text_fits(h, str_or_empty(s, c) + str_or_empty(s, reg_after(c, 1))),
        SysCallCommand::StringSlice => match read_str(s, ptr_arg(s, c)) {
            Some(t) => text_fits(h, slice_of(s, c, t)),
            None => true,
        },
        SysCallCommand::StringToUpper => match read_str(s, ptr_arg(s, c)) {
            Some(t) => text_fits(h, case_of(t, true)),
            None => true,
        },
        SysCallCommand::StringToLower => match read_str(s, ptr_arg(s, c)) {
            Some(t) => text_fits(h, case_of(t, false)),
            None => true,
        },
        _ => true,
    }
}

/// What a system call does.
pub open spec fn syscall_spec(h: HostV, s: VmState, dest: usize, b: usize, c: usize) -> (HostV, VmState) {
    match syscall_command(s, b) {
        SysCallCommand::FileRead => file_read_spec(h, s, dest, c),
        SysCallCommand::FileWrite => file_write_spec(h, s, dest, c),
        SysCallCommand::GetTimestamp => timestamp_spec(h, s, dest),
        SysCallCommand::GetEnv => get_env_spec(h, s, dest, c),
        SysCallCommand::StringConcat => concat_spec(h, s, dest, c),
        SysCallCommand::StringLength => length_spec(h, s, dest, c),
        SysCallCommand::StringSlice => slice_spec(h, s, dest, c),
        SysCallCommand::StringToUpper => case_spec(h, s, dest, c, true),
        SysCallCommand::StringToLower => case_spec(h, s, dest, c, false),
        SysCallCommand::Unknown => (h, s.with_reg(dest, 0)),
    }
}

/// The hardware call that a request names: the number in register `b`, else
/// the number `b`, else the number `c`.
pub open spec fn hardware_command(s: VmState, b: usize, c: usize) -> HardwareCallCommand {
    match HardwareCallCommand::spec_from_u32(s.reg(b)) {
        HardwareCallCommand::Unknown => match HardwareCallCommand::spec_from_u32(b as u32) {
            HardwareCallCommand::Unknown => HardwareCallCommand::spec_from_u32(c as u32),
            x => x,
        },
        x => x,
    }
}

/// Whether a hardware call runs without arithmetic (an allocation, the next
/// socket id) passing its machine word, where the call would panic.
pub open spec fn hardware_ok(h: HostV, s: VmState, b: usize, c: usize) -> bool {
    match hardware_command(s, b, c) {
        HardwareCallCommand::HttpGet => match read_str(s, ptr_arg(s, c)) {
            Some(url) => text_fits(h, get_response(h, url)),
            None => true,
        },
        HardwareCallCommand::HttpPost => text_fits(
            h,
            post_response(str_or_empty(s, c), encode_utf8(str_or_empty(s, reg_after(c, 1))).len()),
        ),
        HardwareCallCommand::SocketConnect => h.next_socket_id < u32::MAX,
        _ => true,
    }
}

/// What a hardware call does.
pub open spec fn hardware_spec(h: HostV, s: VmState, dest: usize, b: usize, c: usize) -> (HostV, VmState) {
    match hardware_command(s, b, c) {
        HardwareCallCommand::HttpGet => http_get_spec(h, s, dest, c),
        HardwareCallCommand::HttpPost => http_post_spec(h, s, dest, c),
        HardwareCallCommand::SocketConnect => connect_spec(h, s, dest, c),
        HardwareCallCommand::SocketSend => send_spec(h, s, dest, c),
        HardwareCallCommand::SocketRecv => recv_spec(h, s, dest, c),
        HardwareCallCommand::NetworkStatus => status_spec(h, s, dest),
        HardwareCallCommand::Unknown => (h, s.with_reg(dest, 0)),
    }
}

/// The host state that `HostContext::new` starts from: two environment
/// variables, one file and one canned HTTP response, no sockets, the heap at
/// 512 and the clock at 1700000000000.
pub open spec fn initial_host() -> HostV {
    HostV {
        files: seq![("test.txt"@, encode_utf8("Hello SGL Virtual Filesystem!"@))],
        env: seq![("ENV"@, "production"@), ("USER"@, "sgl_runner"@)],
        routes: seq![("https://api.sgl.internal/status"@, "{\"status\":\"online\",\"service\":\"sgl-runtime\"}"@)],
        sockets: Map::empty(),
        next_socket_id: 1,
        network_online: true,
        heap: 512,
        clock: 1700000000000,
    }
}

/// The bytes of a slice, in a vector.
fn copy_slice(b: &[u8]) -> (r: Vec<u8>)
    ensures
        r@ == b@,
{
    let mut out: Vec<u8> = Vec::new();
    let mut i: usize = 0;
    while i < b.len()
        invariant
            i <= b@.len(),
            out@ == b@.take(i as int),
        decreases b@.len() - i,
    {
        out.push(b[i]);
        i = i + 1;
        proof {
            assert(out@ =~= b@.take(i as int));
        }
    }
    proof {
        assert(b@.take(b@.len() as int) =~= b@);
    }
    out
}

/// The UTF-8 bytes of a string slice.
fn utf8_bytes(s: &str) -> (r: Vec<u8>)
    ensures
        r@ == encode_utf8(s@),
{
    copy_slice(s.as_bytes())
}

/// The index of the first entry of `table` with key `key`.
pub fn find_key<T>(table: &Vec<(String, T)>, key: &String) -> (r: Option<usize>)
    ensures
        match r {
            Some(i) => i < table@.len() && table@[i as int].0@ == key@ && forall|j: int|
                0 <= j < i ==> table@[j].0@ != key@,
            None => forall|j: int| 0 <= j < table@.len() ==> table@[j].0@ != key@,
        },
{
    let mut i: usize = 0;
    while i < table.len()
        invariant
            i <= table@.len(),
            forall|j: int| 0 <= j < i ==> table@[j].0@ != key@,
        decreases table@.len() - i,
    {
        if table[i].0 == *key {
            return Some(i);
        }
        i = i + 1;
    }
    None
}

impl HostContext {
    /// A host with the environment variables `ENV=production` and
    /// `USER=sgl_runner`, the file `test.txt`, one canned HTTP response, no
    /// sockets, the heap at 512 and the clock at 1700000000000.
    pub fn new() -> (r: Self)
        ensures
            r@ =~~= initial_host(),
    {
        let mut files: Vec<(String, Vec<u8>)> = Vec::new();
        files.push((String::from_str("test.txt"), utf8_bytes("Hello SGL Virtual Filesystem!")));
        let mut env: Vec<(String, String)> = Vec::new();
        env.push((String::from_str("ENV"), String::from_str("production")));
        env.push((String::from_str("USER"), String::from_str("sgl_runner")));
        let mut routes: Vec<(String, String)> = Vec::new();
        routes.push(
            (
                String::from_str("https://api.sgl.internal/status"),
                String::from_str("{\"status\":\"online\",\"service\":\"sgl-runtime\"}"),
            ),
        );
        let r = HostContext {
            virtual_filesystem: files,
            environment_variables: env,
            http_mock_routes: routes,
            sockets: BTreeMap::new(),
            next_socket_id: 1,
            network_online: true,
            scratch_heap_pointer: 512,
            timestamp_counter: 1700000000000,
        };
        proof {
            assert(r@.files =~~= initial_host().files);
            assert(r@.env =~~= initial_host().env);
            assert(r@.routes =~~= initial_host().routes);
            assert(r@.sockets =~~= initial_host().sockets);
        }
        r
    }

    /// Takes `size` bytes, rounded up to a multiple of four, from the scratch
    /// heap in VM memory (512 to 1000), starting over at 512 when the block
    /// would end past 1000; returns the block's address.
    pub fn allocate_vm_memory(&mut self, size: usize) -> (r: usize)
        requires
            alloc_fits(old(self)@, size as nat),
        ensures
            (final(self)@, r) =~~= allocate(old(self)@, size),
    {
        let aligned = (size + 3) & !3usize;
        if self.scratch_heap_pointer + aligned > 1000 {
            self.scratch_heap_pointer = 512;
        }
        let address = self.scratch_heap_pointer;
        self.scratch_heap_pointer = self.scratch_heap_pointer + aligned;
        address
    }

    /// Whether an allocation of `len + 1` bytes stays within the machine
    /// word.
    fn fits_after(&self, len: usize) -> (r: bool)
        ensures
            r == alloc_fits(self@, len as nat + 1),
    {
        if len > usize::MAX - 4 {
            return false;
        }
        let aligned = (len + 1 + 3) & !3usize;
        if aligned > usize::MAX - self.scratch_heap_pointer {
            return false;
        }
        if self.scratch_heap_pointer + aligned > 1000 {
            aligned <= usize::MAX - 512
        } else {
            true
        }
    }

    /// Places `text` and a zero byte in a fresh heap block and puts its
    /// address in register `dest`, or 0 when the block does not fit in
    /// memory; nothing when the allocation would pass the machine word.
    fn place_text(&mut self, vm: &mut ScriptVm, dest: usize, text: &str) -> (ok: bool)
        requires
            old(vm).wf(),
            dest < REGISTER_COUNT,
        ensures
            final(vm).wf(),
            final(vm).config() == old(vm).config(),
            ok == text_fits(old(self)@, text@),
            ok ==> (final(self)@, final(vm)@) =~~= place_text(old(self)@, old(vm)@, dest, text@),
            !ok ==> final(self)@ =~~= old(self)@ && final(vm)@ == old(vm)@,
    {
        let n = text.as_bytes().len();
        if !self.fits_after(n) {
            return false;
        }
        let at = self.allocate_vm_memory(n + 1);
        match vm.write_string(at, text, true) {
            Ok(_) => vm.put_register(dest, at as u32),
            Err(_) => vm.put_register(dest, 0),
        }
        true
    }
}

/// The register `k` places after `r`, counting modulo 256.
fn next_reg(r: usize, k: usize) -> (n: usize)
    requires
        k < 256,
    ensures
        n == reg_after(r, k),
        n < REGISTER_COUNT,
{
    (r % 256 + k) % 256
}

/// The string at `addr`, or nothing when it cannot be read.
fn read_text(vm: &ScriptVm, addr: usize) -> (r: Option<String>)
    requires
        vm.wf(),
    ensures
        match r {
            Some(t) => read_str(vm@, addr) == Some(t@),
            None => read_str(vm@, addr) is None,
        },
{
    read_text_limit(vm, addr, 1024)
}

/// The string of at most `limit` bytes at `addr`, or nothing when it cannot
/// be read.
pub fn read_text_limit(vm: &ScriptVm, addr: usize, limit: usize) -> (r: Option<String>)
    requires
        vm.wf(),
    ensures
        match r {
            Some(t) => read_str_limit(vm@, addr, limit) == Some(t@),
            None => read_str_limit(vm@, addr, limit) is None,
        },
{
    match vm.read_string(addr, Some(limit)) {
        Ok(t) => Some(t),
        Err(_) => None,
    }
}

/// The string at `addr`, empty when it cannot be read.
fn read_text_or_empty(vm: &ScriptVm, addr: usize) -> (r: String)
    requires
        vm.wf(),
    ensures
        r@ == match read_str(vm@, addr) {
            Some(t) => t,
            None => Seq::empty(),
        },
{
    match vm.read_string(addr, None) {
        Ok(t) => t,
        Err(_) => String::new(),
    }
}

/// The bytes of `len` bytes from `addr`, or up to a zero byte for 0; empty
/// when the read leaves memory.
fn read_data_bytes(vm: &ScriptVm, addr: usize, len: usize) -> (r: Vec<u8>)
    requires
        vm.wf(),
    ensures
        r@ == read_data(vm@, addr, len),
{
    match vm.read_bytes(addr, len, len == 0) {
        Ok(v) => v,
        Err(_) => Vec::new(),
    }
}

/// A pointer argument: the value of register `r` when it is not zero, else
/// the number `r`.
fn pointer_arg(vm: &ScriptVm, r: usize) -> (p: usize)
    requires
        vm.wf(),
    ensures
        p == ptr_arg(vm@, r),
{
    if r < 256 && vm.registers[r] > 0 {
        vm.registers[r] as usize
    } else {
        r
    }
}

impl HostContext {
    fn handle_file_read(&mut self, vm: &mut ScriptVm, dest_reg: usize, path_ptr_reg: usize) -> (ok: bool)
        requires
            old(vm).wf(),
            dest_reg < REGISTER_COUNT,
        ensures
            final(vm).wf(),
            final(vm).config() == old(vm).config(),
            ok == file_read_fits(old(self)@, old(vm)@, path_ptr_reg),
            ok ==> (final(self)@, final(vm)@) =~~= file_read_spec(old(self)@, old(vm)@, dest_reg, path_ptr_reg),
            !ok ==> final(self)@ =~~= old(self)@ && final(vm)@ == old(vm)@,
    {
        let path_address: usize = if path_ptr_reg < 256 {
            vm.registers[path_ptr_reg] as usize
        } else {
            path_ptr_reg
        };
        if let Some(path) = read_text(vm, path_address) {
            if let Some(i) = find_key(&self.virtual_filesystem, &path) {
                proof {
                    let l = self@.files;
                    assert forall|j: int| 0 <= j < i implies l[j].0 != path@ by {
                        assert(l[j].0 == self.virtual_filesystem@[j].0@);
                    }
                    lemma_key_index_is(l, path@, i as int);
                }
                let content = copy_slice(self.virtual_filesystem[i].1.as_slice());
                if !self.fits_after(content.len()) {
                    return false;
                }
                let at = self.allocate_vm_memory(content.len() + 1);
                if vm.write_bytes(at, content.as_slice()).is_ok() {
                    let mut zero: Vec<u8> = Vec::new();
                    zero.push(0);
                    assert(zero@ =~= seq![0u8]);
                    let _ = vm.write_bytes(at + content.len(), zero.as_slice());
                    vm.put_register(dest_reg, at as u32);
                    return true;
                }
                vm.put_register(dest_reg, 0);
                return true;
            } else {
                proof {
                    let l = self@.files;
                    assert forall|j: int| 0 <= j < l.len() implies l[j].0 != path@ by {
                        assert(l[j].0 == self.virtual_filesystem@[j].0@);
                    }
                    lemma_key_index_absent(l, path@);
                }
            }
        }
        vm.put_register(dest_reg, 0);
        true
    }
}

/// Stores `value` under `key`: replaces the contents of the first file with
/// that name, or adds a file at the end.
pub fn store_file(table: &mut Vec<(String, Vec<u8>)>, key: String, value: Vec<u8>)
    ensures
        files_view(final(table)@) =~~= store(files_view(old(table)@), key@, value@),
{
    let ghost l = files_view(table@);
    match find_key(table, &key) {
        Some(i) => {
            proof {
                assert forall|j: int| 0 <= j < i implies l[j].0 != key@ by {
                    assert(l[j].0 == table@[j].0@);
                }
                lemma_key_index_is(l, key@, i as int);
            }
            let ghost kv = key@;
            table.set(i, (key, value));
            proof {
                assert(files_view(table@) =~~= l.update(i as int, (kv, value@)));
            }
        },
        None => {
            proof {
                assert forall|j: int| 0 <= j < l.len() implies l[j].0 != key@ by {
                    assert(l[j].0 == table@[j].0@);
                }
                lemma_key_index_absent(l, key@);
            }
            let ghost kv = key@;
            table.push((key, value));
            proof {
                assert(files_view(table@) =~~= l.push((kv, value@)));
            }
        },
    }
}

/// The value of the first entry of a string table with key `key`.
pub fn lookup_pair(table: &Vec<(String, String)>, key: &String) -> (r: Option<String>)
    ensures
        match r {
            Some(v) => lookup(pairs_view(table@), key@) == Some(v@),
            None => lookup(pairs_view(table@), key@) is None,
        },
{
    let ghost l = pairs_view(table@);
    match find_key(table, key) {
        Some(i) => {
            proof {
                assert forall|j: int| 0 <= j < i implies l[j].0 != key@ by {
                    assert(l[j].0 == table@[j].0@);
                }
                lemma_key_index_is(l, key@, i as int);
            }
            Some(table[i].1.clone())
        },
        None => {
            proof {
                assert forall|j: int| 0 <= j < l.len() implies l[j].0 != key@ by {
                    assert(l[j].0 == table@[j].0@);
                }
                lemma_key_index_absent(l, key@);
            }
            None
        },
    }
}

impl HostContext {
    fn handle_file_write(&mut self, vm: &mut ScriptVm, dest_reg: usize, arg_reg: usize)
        requires
            old(vm).wf(),
            dest_reg < REGISTER_COUNT,
            arg_reg < REGISTER_COUNT,
        ensures
            final(vm).wf(),
            final(vm).config() == old(vm).config(),
            (final(self)@, final(vm)@) =~~= file_write_spec(old(self)@, old(vm)@, dest_reg, arg_reg),
    {
        let path_address = vm.registers[arg_reg] as usize;
        let data_address = vm.registers[next_reg(arg_reg, 1)] as usize;
        let data_length = vm.registers[next_reg(arg_reg, 2)] as usize;
        match read_text(vm, path_address) {
            Some(path) => {
                let data_bytes = read_data_bytes(vm, data_address, data_length);
                let bytes_written = data_bytes.len();
                store_file(&mut self.virtual_filesystem, path, data_bytes);
                vm.put_register(dest_reg, bytes_written as u32);
            },
            None => {
                vm.put_register(dest_reg, 0);
            },
        }
    }

    fn handle_get_timestamp(&mut self, vm: &mut ScriptVm, dest_reg: usize) -> (ok: bool)
        requires
            old(vm).wf(),
            dest_reg < REGISTER_COUNT,
        ensures
            final(vm).wf(),
            final(vm).config() == old(vm).config(),
            ok == (old(self).timestamp_counter + 10 <= u64::MAX),
            ok ==> (final(self)@, final(vm)@) =~~= timestamp_spec(old(self)@, old(vm)@, dest_reg),
            !ok ==> final(self)@ =~~= old(self)@ && final(vm)@ == old(vm)@,
    {
        if self.timestamp_counter > u64::MAX - 10 {
            return false;
        }
        self.timestamp_counter = self.timestamp_counter + 10;
        vm.put_register(dest_reg, (self.timestamp_counter & 0xffff_ffff) as u32);
        true
    }

    fn handle_get_env(&mut self, vm: &mut ScriptVm, dest_reg: usize, key_ptr_reg: usize) -> (ok: bool)
        requires
            old(vm).wf(),
            dest_reg < REGISTER_COUNT,
        ensures
            final(vm).wf(),
            final(vm).config() == old(vm).config(),
            ok == get_env_fits(old(self)@, old(vm)@, key_ptr_reg),
            ok ==> (final(self)@, final(vm)@) =~~= get_env_spec(old(self)@, old(vm)@, dest_reg, key_ptr_reg),
            !ok ==> final(self)@ =~~= old(self)@ && final(vm)@ == old(vm)@,
    {
        let key_address: usize = if key_ptr_reg < 256 {
            vm.registers[key_ptr_reg] as usize
        } else {
            key_ptr_reg
        };
        if let Some(key) = read_text(vm, key_address) {
            if let Some(value) = lookup_pair(&self.environment_variables, &key) {
                return self.place_text(vm, dest_reg, value.as_str());
            }
        }
        vm.put_register(dest_reg, 0);
        true
    }

    fn handle_string_concat(&mut self, vm: &mut ScriptVm, dest_reg: usize, arg_reg: usize) -> (ok: bool)
        requires
            old(vm).wf(),
            dest_reg < REGISTER_COUNT,
        ensures
            final(vm).wf(),
            final(vm).config() == old(vm).config(),
            ok == text_fits(old(self)@, str_or_empty(old(vm)@, arg_reg) + str_or_empty(old(vm)@, reg_after(arg_reg, 1))),
            ok ==> (final(self)@, final(vm)@) =~~= concat_spec(old(self)@, old(vm)@, dest_reg, arg_reg),
            !ok ==> final(self)@ =~~= old(self)@ && final(vm)@ == old(vm)@,
    {
        let str1_addr = pointer_arg(vm, arg_reg);
        let str2_addr = pointer_arg(vm, next_reg(arg_reg, 1));
        let str1 = read_text_or_empty(vm, str1_addr);
        let str2 = read_text_or_empty(vm, str2_addr);
        let joined = string_from_chars(&concat_chars(&string_chars(&str1), &string_chars(&str2)));
        self.place_text(vm, dest_reg, joined.as_str())
    }

    fn handle_string_length(&mut self, vm: &mut ScriptVm, dest_reg: usize, str_ptr_reg: usize)
        requires
            old(vm).wf(),
            dest_reg < REGISTER_COUNT,
        ensures
            final(vm).wf(),
            final(vm).config() == old(vm).config(),
            (final(self)@, final(vm)@) =~~= length_spec(old(self)@, old(vm)@, dest_reg, str_ptr_reg),
    {
        let str_addr = pointer_arg(vm, str_ptr_reg);
        match read_text(vm, str_addr) {
            Some(text) => {
                let n = string_chars(&text).len();
                vm.put_register(dest_reg, n as u32);
            },
            None => {
                vm.put_register(dest_reg, 0);
            },
        }
    }

    fn handle_string_slice(&mut self, vm: &mut ScriptVm, dest_reg: usize, arg_reg: usize) -> (ok: bool)
        requires
            old(vm).wf(),
            dest_reg < REGISTER_COUNT,
        ensures
            final(vm).wf(),
            final(vm).config() == old(vm).config(),
            ok == (read_str(old(vm)@, ptr_arg(old(vm)@, arg_reg)) matches Some(t) ==> text_fits(old(self)@, slice_of(old(vm)@, arg_reg, t))),
            ok ==> (final(self)@, final(vm)@) =~~= slice_spec(old(self)@, old(vm)@, dest_reg, arg_reg),
            !ok ==> final(self)@ =~~= old(self)@ && final(vm)@ == old(vm)@,
    {
        let str_addr = pointer_arg(vm, arg_reg);
        let start_idx = vm.registers[next_reg(arg_reg, 1)] as usize;
        let end_idx = vm.registers[next_reg(arg_reg, 2)] as usize;
        match read_text(vm, str_addr) {
            Some(text) => {
                let char_vec = string_chars(&text);
                let n = char_vec.len();
                let start = if start_idx < n { start_idx } else { n };
                let e0 = if end_idx < n { end_idx } else { n };
                let end = if e0 > start { e0 } else { start };
                let mut part: Vec<char> = Vec::new();
                let mut k: usize = start;
                while k < end
                    invariant
                        start <= k <= end <= char_vec@.len(),
                        part@ == char_vec@.subrange(start as int, k as int),
                    decreases end - k,
                {
                    part.push(char_vec[k]);
                    k = k + 1;
                    proof {
                        assert(part@ =~= char_vec@.subrange(start as int, k as int));
                    }
                }
                let sliced = string_from_chars(&part);
                self.place_text(vm, dest_reg, sliced.as_str())
            },
            None => {
                vm.put_register(dest_reg, 0);
                true
            },
        }
    }

    fn handle_string_case(&mut self, vm: &mut ScriptVm, dest_reg: usize, str_ptr_reg: usize, upper: bool) -> (ok: bool)
        requires
            old(vm).wf(),
            dest_reg < REGISTER_COUNT,
        ensures
            final(vm).wf(),
            final(vm).config() == old(vm).config(),
            ok == (read_str(old(vm)@, ptr_arg(old(vm)@, str_ptr_reg)) matches Some(t) ==> text_fits(old(self)@, case_of(t, upper))),
            ok ==> (final(self)@, final(vm)@) =~~= case_spec(old(self)@, old(vm)@, dest_reg, str_ptr_reg, upper),
            !ok ==> final(self)@ =~~= old(self)@ && final(vm)@ == old(vm)@,
    {
        let str_addr = pointer_arg(vm, str_ptr_reg);
        match read_text(vm, str_addr) {
            Some(text) => {
                let cs = string_chars(&text);
                let mapped = if upper { str_to_uppercase(&cs) } else { str_to_lowercase(&cs) };
                let out = string_from_chars(&mapped);
                self.place_text(vm, dest_reg, out.as_str())
            },
            None => {
                vm.put_register(dest_reg, 0);
                true
            },
        }
    }
}

/// A string read from memory has at most 1024 UTF-8 bytes.
proof fn lemma_read_str_short(s: VmState, addr: usize)
    ensures
        read_str(s, addr) matches Some(t) ==> encode_utf8(t).len() <= 1024,
{
    let n: int = if 1024 <= usize::MAX - addr { 1024 } else { usize::MAX - addr };
    let bs = s.string_bytes(addr as int, n);
    if read_str(s, addr) is Some {
        vstd::utf8::decode_utf8_encode_utf8(bs);
        lemma_string_bytes_len(s, addr as int, n);
    }
}

/// What a string service places, a string read from the address in its
/// destination register gives back: for a text without NUL characters whose
/// encoding and zero byte take at most 488 bytes, placed when the heap pointer
/// lies in the scratch heap and the block fits, the register holds an address
/// in the scratch heap and the read there gives the text.
pub proof fn lemma_placed_text_reads_back(h: HostV, s: VmState, dest: usize, text: Seq<char>)
    requires
        s.wf(),
        dest < REGISTER_COUNT,
        512 <= h.heap <= 1000,
        encode_utf8(text).len() + 1 <= 488,
        text_fits(h, text),
        forall|i: int| 0 <= i < text.len() ==> text[i] != '\0',
    ensures
        ({
            let (h1, s1) = place_text(h, s, dest, text);
            &&& 512 <= s1.reg(dest) < 1000
            &&& read_str(s1, s1.reg(dest) as usize) == Some(text)
        }),
{
    let bs = encode_utf8(text);
    let size = (bs.len() + 1) as usize;
    lemma_allocate_in_scratch_heap(h, size);
    let (h1, at) = allocate(h, size);
    let data = bs + seq![0u8];
    assert(s.region_valid(at as int, data.len() as int));
    let t = s.with_bytes(at as int, data).with_reg(dest, at as u32);
    assert(place_text(h, s, dest, text).1 == t);
    assert(t.reg(dest) == at);
    lemma_encode_utf8_nonzero(text);
    assert forall|i: int| 0 <= i < bs.len() implies t.byte_at(at + i) == bs[i] && bs[i] != 0 by {
        assert(data[i] == bs[i]);
    }
    assert(t.byte_at(at + bs.len()) == data[bs.len() as int]);
    assert(t.region_valid(at as int, bs.len() + 1int));
    lemma_string_bytes_suffix(t, at as int, bs, 1024, 0);
    assert(bs.subrange(0, bs.len() as int) =~= bs);
    vstd::utf8::encode_utf8_valid_utf8(text);
    vstd::utf8::encode_utf8_decode_utf8(text);
}

proof fn lemma_string_bytes_len(s: VmState, addr: int, limit: int)
    ensures
        s.string_bytes(addr, limit).len() <= if limit < 0 { 0 } else { limit },
    decreases limit,
{
    if limit > 0 && addr >= 0 && s.region_valid(addr, 1) && s.byte_at(addr) != 0 {
        lemma_string_bytes_len(s, addr + 1, limit - 1);
    }
}

impl HostContext {
    fn handle_http_get(&mut self, vm: &mut ScriptVm, dest_reg: usize, url_ptr_reg: usize) -> (ok: bool)
        requires
            old(vm).wf(),
            dest_reg < REGISTER_COUNT,
        ensures
            final(vm).wf(),
            final(vm).config() == old(vm).config(),
            ok == (read_str(old(vm)@, ptr_arg(old(vm)@, url_ptr_reg)) matches Some(url) ==> text_fits(old(self)@, get_response(old(self)@, url))),
            ok ==> (final(self)@, final(vm)@) =~~= http_get_spec(old(self)@, old(vm)@, dest_reg, url_ptr_reg),
            !ok ==> final(self)@ =~~= old(self)@ && final(vm)@ == old(vm)@,
    {
        let url_addr = pointer_arg(vm, url_ptr_reg);
        match read_text(vm, url_addr) {
            Some(url) => {
                let response_body = match lookup_pair(&self.http_mock_routes, &url) {
                    Some(route_response) => route_response,
                    None => {
                        let mut cs: Vec<char> = Vec::new();
                        push_str(&mut cs, "HTTP/1.1 200 OK\r\nContent-Type: text/plain\r\n\r\nMock Response for ");
                        push_str(&mut cs, url.as_str());
                        string_from_chars(&cs)
                    },
                };
                self.place_text(vm, dest_reg, response_body.as_str())
            },
            None => {
                vm.put_register(dest_reg, 0);
                true
            },
        }
    }

    fn handle_http_post(&mut self, vm: &mut ScriptVm, dest_reg: usize, arg_reg: usize) -> (ok: bool)
        requires
            old(vm).wf(),
            dest_reg < REGISTER_COUNT,
        ensures
            final(vm).wf(),
            final(vm).config() == old(vm).config(),
            ok == text_fits(old(self)@, post_response(str_or_empty(old(vm)@, arg_reg), encode_utf8(str_or_empty(old(vm)@, reg_after(arg_reg, 1))).len())),
            ok ==> (final(self)@, final(vm)@) =~~= http_post_spec(old(self)@, old(vm)@, dest_reg, arg_reg),
            !ok ==> final(self)@ =~~= old(self)@ && final(vm)@ == old(vm)@,
    {
        let url_addr = pointer_arg(vm, arg_reg);
        let body_addr = pointer_arg(vm, next_reg(arg_reg, 1));
        let url = read_text_or_empty(vm, url_addr);
        let body = read_text_or_empty(vm, body_addr);
        proof {
            lemma_read_str_short(vm@, body_addr);
        }
        let body_len = body.as_str().len();
        let mut cs: Vec<char> = Vec::new();
        push_str(&mut cs, "HTTP/1.1 200 OK\r\nContent-Type: application/json\r\n\r\n");
        cs.push('{');
        push_str(&mut cs, "\"posted_to\":\"");
        push_str(&mut cs, url.as_str());
        push_str(&mut cs, "\",\"bytes_received\":");
        let digits = decimal_chars(body_len);
        push_chars(&mut cs, &digits);
        cs.push('}');
        let response_body = string_from_chars(&cs);
        proof {
            assert(cs@ =~= post_response(url@, encode_utf8(body@).len()));
        }
        self.place_text(vm, dest_reg, response_body.as_str())
    }

    fn handle_socket_connect(&mut self, vm: &mut ScriptVm, dest_reg: usize, addr_reg: usize) -> (ok: bool)
        requires
            old(vm).wf(),
            dest_reg < REGISTER_COUNT,
        ensures
            final(vm).wf(),
            final(vm).config() == old(vm).config(),
            ok == (old(self).next_socket_id < u32::MAX),
            ok ==> (final(self)@, final(vm)@) =~~= connect_spec(old(self)@, old(vm)@, dest_reg, addr_reg),
            !ok ==> final(self)@ =~~= old(self)@ && final(vm)@ == old(vm)@,
    {
        let addr_ptr = pointer_arg(vm, addr_reg);
        let target_address = match read_text(vm, addr_ptr) {
            Some(t) => t,
            None => String::from_str("127.0.0.1:8080"),
        };
        if self.next_socket_id == u32::MAX {
            return false;
        }
        let socket_id = self.next_socket_id;
        self.next_socket_id = self.next_socket_id + 1;
        let host_socket = HostSocket {
            socket_id,
            address: target_address,
            is_connected: true,
            send_buffer: Vec::new(),
            receive_buffer: Vec::new(),
        };
        let ghost before = self.sockets@;
        let ghost sv = host_socket@;
        self.sockets.insert(socket_id, host_socket);
        proof {
            assert(sockets_view(self.sockets@) =~~= sockets_view(before).insert(socket_id, sv));
        }
        vm.put_register(dest_reg, socket_id);
        true
    }

    fn handle_socket_send(&mut self, vm: &mut ScriptVm, dest_reg: usize, arg_reg: usize)
        requires
            old(vm).wf(),
            dest_reg < REGISTER_COUNT,
        ensures
            final(vm).wf(),
            final(vm).config() == old(vm).config(),
            (final(self)@, final(vm)@) =~~= send_spec(old(self)@, old(vm)@, dest_reg, arg_reg),
    {
        let socket_id: u32 = if arg_reg < 256 { vm.registers[arg_reg] } else { arg_reg as u32 };
        let buf_addr = vm.registers[next_reg(arg_reg, 1)] as usize;
        let buf_len = vm.registers[next_reg(arg_reg, 2)] as usize;
        let bytes = read_data_bytes(vm, buf_addr, buf_len);
        let ghost before_map = self.sockets@;
        match self.sockets.remove(&socket_id) {
            Some(mut socket) => {
                let sent_count = bytes.len();
                let ghost before = socket@;
                let mut k: usize = 0;
                while k < bytes.len()
                    invariant
                        k <= bytes@.len(),
                        socket@ == (SocketV { send_buffer: before.send_buffer + bytes@.take(k as int), ..before }),
                    decreases bytes@.len() - k,
                {
                    socket.send_buffer.push(bytes[k]);
                    k = k + 1;
                    proof {
                        assert(socket.send_buffer@ =~= before.send_buffer + bytes@.take(k as int));
                    }
                }
                proof {
                    assert(bytes@.take(bytes@.len() as int) =~= bytes@);
                }
                let ghost sv = socket@;
                self.sockets.insert(socket_id, socket);
                proof {
                    assert(sockets_view(self.sockets@) =~~= sockets_view(before_map).insert(socket_id, sv));
                }
                vm.put_register(dest_reg, sent_count as u32);
            },
            None => {
                proof {
                    assert(self.sockets@ =~= before_map);
                }
                vm.put_register(dest_reg, 0);
            },
        }
    }

    fn handle_socket_recv(&mut self, vm: &mut ScriptVm, dest_reg: usize, arg_reg: usize)
        requires
            old(vm).wf(),
            dest_reg < REGISTER_COUNT,
        ensures
            final(vm).wf(),
            final(vm).config() == old(vm).config(),
            (final(self)@, final(vm)@) =~~= recv_spec(old(self)@, old(vm)@, dest_reg, arg_reg),
    {
        let socket_id: u32 = if arg_reg < 256 { vm.registers[arg_reg] } else { arg_reg as u32 };
        let dest_buf_addr = vm.registers[next_reg(arg_reg, 1)] as usize;
        let ghost before_map = self.sockets@;
        let pending: usize = match self.sockets.get(&socket_id) {
            Some(socket) => socket.receive_buffer.len(),
            None => 0,
        };
        if pending > 0 {
            match self.sockets.remove(&socket_id) {
                Some(mut socket) => {
                    let bytes_to_read = socket.receive_buffer.len();
                    let _ = vm.write_bytes(dest_buf_addr, socket.receive_buffer.as_slice());
                    socket.receive_buffer.clear();
                    let ghost sv = socket@;
                    self.sockets.insert(socket_id, socket);
                    proof {
                        assert(sockets_view(self.sockets@) =~~= sockets_view(before_map).insert(socket_id, sv));
                    }
                    vm.put_register(dest_reg, bytes_to_read as u32);
                    return;
                },
                None => {},
            }
        }
        vm.put_register(dest_reg, 0);
    }

    fn handle_network_status(&mut self, vm: &mut ScriptVm, dest_reg: usize)
        requires
            old(vm).wf(),
            dest_reg < REGISTER_COUNT,
        ensures
            final(vm).wf(),
            final(vm).config() == old(vm).config(),
            (final(self)@, final(vm)@) =~~= status_spec(old(self)@, old(vm)@, dest_reg),
    {
        vm.put_register(dest_reg, if self.network_online { 1 } else { 0 });
    }
}

impl HostContext {
    /// Runs the system call that register `subcommand_or_argument` names (or,
    /// when it names none, the number `subcommand_or_argument` itself) with
    /// the result in register `destination_register`; `false`, with nothing
    /// changed, where the call would panic (`syscall_ok` fails).
    pub fn try_dispatch_syscall(
        &mut self,
        vm: &mut ScriptVm,
        destination_register: usize,
        subcommand_or_argument: usize,
        argument_or_pointer: usize,
    ) -> (ok: bool)
        requires
            old(vm).wf(),
            destination_register < REGISTER_COUNT,
            subcommand_or_argument < REGISTER_COUNT,
        ensures
            final(vm).wf(),
            final(vm).config() == old(vm).config(),
            ok == syscall_ok(old(self)@, old(vm)@, subcommand_or_argument, argument_or_pointer),
            ok ==> (final(self)@, final(vm)@) =~~= syscall_spec(
                old(self)@,
                old(vm)@,
                destination_register,
                subcommand_or_argument,
                argument_or_pointer,
            ),
            !ok ==> final(self)@ =~~= old(self)@ && final(vm)@ == old(vm)@,
    {
        let reg_subcmd = vm.registers[subcommand_or_argument];
        let direct_cmd = subcommand_or_argument as u32;
        let command = match SysCallCommand::from_u32(reg_subcmd) {
            SysCallCommand::Unknown => SysCallCommand::from_u32(direct_cmd),
            cmd => cmd,
        };
        let d = destination_register;
        let c = argument_or_pointer;
        match command {
            SysCallCommand::FileRead => self.handle_file_read(vm, d, c),
            SysCallCommand::FileWrite => {
                if c >= 256 {
                    return false;
                }
                self.handle_file_write(vm, d, c);
                true
            },
            SysCallCommand::GetTimestamp => self.handle_get_timestamp(vm, d),
            SysCallCommand::GetEnv => self.handle_get_env(vm, d, c),
            SysCallCommand::StringConcat => self.handle_string_concat(vm, d, c),
            SysCallCommand::StringLength => {
                self.handle_string_length(vm, d, c);
                true
            },
            SysCallCommand::StringSlice => self.handle_string_slice(vm, d, c),
            SysCallCommand::StringToUpper => self.handle_string_case(vm, d, c, true),
            SysCallCommand::StringToLower => self.handle_string_case(vm, d, c, false),
            SysCallCommand::Unknown => {
                vm.put_register(d, 0);
                true
            },
        }
    }

    /// Runs the system call that register `subcommand_or_argument` names (or,
    /// when it names none, the number `subcommand_or_argument` itself) with
    /// the result in register `destination_register`.
    pub fn dispatch_syscall(
        &mut self,
        vm: &mut ScriptVm,
        destination_register: usize,
        subcommand_or_argument: usize,
        argument_or_pointer: usize,
    )
        requires
            old(vm).wf(),
            destination_register < REGISTER_COUNT,
            subcommand_or_argument < REGISTER_COUNT,
            syscall_ok(old(self)@, old(vm)@, subcommand_or_argument, argument_or_pointer),
        ensures
            final(vm).wf(),
            final(vm).config() == old(vm).config(),
            (final(self)@, final(vm)@) =~~= syscall_spec(
                old(self)@,
                old(vm)@,
                destination_register,
                subcommand_or_argument,
                argument_or_pointer,
            ),
    {
        self.try_dispatch_syscall(vm, destination_register, subcommand_or_argument, argument_or_pointer);
    }

    /// Runs the hardware call that register `subcommand_or_argument` names
    /// (else the number `subcommand_or_argument`, else the number
    /// `argument_or_pointer`) with the result in register
    /// `destination_register`; `false`, with nothing changed, where the call
    /// would panic (`hardware_ok` fails).
    pub fn try_dispatch_hardware_call(
        &mut self,
        vm: &mut ScriptVm,
        destination_register: usize,
        subcommand_or_argument: usize,
        argument_or_pointer: usize,
    ) -> (ok: bool)
        requires
            old(vm).wf(),
            destination_register < REGISTER_COUNT,
            subcommand_or_argument < REGISTER_COUNT,
        ensures
            final(vm).wf(),
            final(vm).config() == old(vm).config(),
            ok == hardware_ok(old(self)@, old(vm)@, subcommand_or_argument, argument_or_pointer),
            ok ==> (final(self)@, final(vm)@) =~~= hardware_spec(
                old(self)@,
                old(vm)@,
                destination_register,
                subcommand_or_argument,
                argument_or_pointer,
            ),
            !ok ==> final(self)@ =~~= old(self)@ && final(vm)@ == old(vm)@,
    {
        let reg_subcmd = vm.registers[subcommand_or_argument];
        let direct_b = subcommand_or_argument as u32;
        let direct_c = argument_or_pointer as u32;
        let command = match HardwareCallCommand::from_u32(reg_subcmd) {
            HardwareCallCommand::Unknown => match HardwareCallCommand::from_u32(direct_b) {
                HardwareCallCommand::Unknown => HardwareCallCommand::from_u32(direct_c),
                cmd => cmd,
            },
            cmd => cmd,
        };
        let d = destination_register;
        let c = argument_or_pointer;
        match command {
            HardwareCallCommand::HttpGet => self.handle_http_get(vm, d, c),
            HardwareCallCommand::HttpPost => self.handle_http_post(vm, d, c),
            HardwareCallCommand::SocketConnect => self.handle_socket_connect(vm, d, c),
            HardwareCallCommand::SocketSend => {
                self.handle_socket_send(vm, d, c);
                true
            },
            HardwareCallCommand::SocketRecv => {
                self.handle_socket_recv(vm, d, c);
                true
            },
            HardwareCallCommand::NetworkStatus => {
                self.handle_network_status(vm, d);
                true
            },
            HardwareCallCommand::Unknown => {
                vm.put_register(d, 0);
                true
            },
        }
    }

    /// Runs the hardware call that register `subcommand_or_argument` names
    /// (else the number `subcommand_or_argument`, else the number
    /// `argument_or_pointer`) with the result in register
    /// `destination_register`.
    pub fn dispatch_hardware_call(
        &mut self,
        vm: &mut ScriptVm,
        destination_register: usize,
        subcommand_or_argument: usize,
        argument_or_pointer: usize,
    )
        requires
            old(vm).wf(),
            destination_register < REGISTER_COUNT,
            subcommand_or_argument < REGISTER_COUNT,
            hardware_ok(old(self)@, old(vm)@, subcommand_or_argument, argument_or_pointer),
        ensures
            final(vm).wf(),
            final(vm).config() == old(vm).config(),
            (final(self)@, final(vm)@) =~~= hardware_spec(
                old(self)@,
                old(vm)@,
                destination_register,
                subcommand_or_argument,
                argument_or_pointer,
            ),
    {
        self.try_dispatch_hardware_call(vm, destination_register, subcommand_or_argument, argument_or_pointer);
    }
}

impl Default for HostContext {
    fn default() -> (r: Self)
        ensures
            r@ =~~= initial_host(),
    {
        Self::new()
    }
}

} // verus!
