use vstd::prelude::*;
use vstd::utf8::encode_utf8;

use crate::host_handlers::{HostContext, HostSocket, HostV, SocketV, lookup, sockets_view, lookup_pair, mock_response, post_response};
use crate::io::{context_view, host_view, text_result};
use crate::text::{decimal_chars, push_str, push_chars, string_from_chars};
use crate::vm::{ScriptVm, VmState};

verus! {

/// What `http_get` answers: 400 for an empty URL, the canned response of the
/// URL, or a mock reply naming it.
pub open spec fn http_get_answer(h: Option<HostV>, url: Seq<char>) -> Result<Seq<char>, u32> {
    if url.len() == 0 {
        Err(400)
    } else {
        match h {
            Some(hv) => match lookup(hv.routes, url) {
                Some(r) => Ok(r),
                None => Ok(mock_response(url)),
            },
            None => Ok(mock_response(url)),
        }
    }
}

/// Command 1: an HTTP GET of `url`.
pub fn http_get(ctx: Option<&HostContext>, url: String) -> (r: Result<String, u32>)
    ensures
        text_result(r) == http_get_answer(host_view(ctx), url@),
{
    if url.as_str().is_empty() {
        return Err(400);
    }
    match ctx {
        Some(c) => match lookup_pair(&c.http_mock_routes, &url) {
            Some(r) => {
                return Ok(r);
            },
            None => {},
        },
        None => {},
    }
    let mut cs: Vec<char> = Vec::new();
    push_str(&mut cs, "HTTP/1.1 200 OK\r\nContent-Type: text/plain\r\n\r\nMock Response for ");
    push_str(&mut cs, url.as_str());
    Ok(string_from_chars(&cs))
}

/// Command 2: an HTTP POST of `body` to `url`; a JSON reply naming the URL
/// and the body's byte length.
pub fn http_post(_vm: &mut ScriptVm, url: String, body: String) -> (r: Result<String, u32>)
    ensures
        text_result(r) == Ok::<Seq<char>, u32>(post_response(url@, encode_utf8(body@).len())),
{
    let body_len = body.as_str().as_bytes().len();
    let mut cs: Vec<char> = Vec::new();
    push_str(&mut cs, "HTTP/1.1 200 OK\r\nContent-Type: application/json\r\n\r\n");
    cs.push('{');
    push_str(&mut cs, "\"posted_to\":\"");
    push_str(&mut cs, url.as_str());
    push_str(&mut cs, "\",\"bytes_received\":");
    let digits = decimal_chars(body_len);
    push_chars(&mut cs, &digits);
    cs.push('}');
    proof {
        assert(cs@ =~= post_response(url@, body_len as nat));
    }
    Ok(string_from_chars(&cs))
}

/// What `socket_connect` does: a new connected socket to the address
/// (127.0.0.1:8080 for an empty one) under the next id, which comes back;
/// without a host, 1.
pub open spec fn connect_answer(h: Option<HostV>, addr: Seq<char>) -> (Option<HostV>, u32) {
    let target = if addr.len() == 0 { "127.0.0.1:8080"@ } else { addr };
    match h {
        Some(hv) => {
            let id = hv.next_socket_id;
            let sock = SocketV {
                socket_id: id,
                address: target,
                is_connected: true,
                send_buffer: Seq::empty(),
                receive_buffer: Seq::empty(),
            };
            (
                Some(HostV {
                    sockets: hv.sockets.insert(id, sock),
                    next_socket_id: (id + 1) as u32,
                    ..hv
                }),
                id,
            )
        },
        None => (None, 1),
    }
}

/// Command 3: connects a socket to `addr`; its id.
pub fn socket_connect(ctx: &mut Option<HostContext>, addr: String) -> (r: u32)
    requires
        context_view(*old(ctx)) matches Some(hv) ==> hv.next_socket_id < u32::MAX,
    ensures
        (context_view(*final(ctx)), r) =~~= connect_answer(context_view(*old(ctx)), addr@),
{
    let target_address = if addr.as_str().is_empty() { String::from_str("127.0.0.1:8080") } else { addr };
    match ctx {
        Some(c) => {
            let socket_id = c.next_socket_id;
            c.next_socket_id = c.next_socket_id + 1;
            let host_socket = HostSocket {
                socket_id,
                address: target_address,
                is_connected: true,
                send_buffer: Vec::new(),
                receive_buffer: Vec::new(),
            };
            let ghost before = c.sockets@;
            let ghost sv = host_socket@;
            c.sockets.insert(socket_id, host_socket);
            proof {
                assert(sockets_view(c.sockets@) =~~= sockets_view(before).insert(socket_id, sv));
            }
            socket_id
        },
        None => 1,
    }
}

/// What `socket_send` does: appends the data to the socket's send buffer
/// and gives its length; 0 without such a socket, the length without a host.
pub open spec fn send_answer(h: Option<HostV>, id: u32, data: Seq<u8>) -> (Option<HostV>, u32) {
    match h {
        Some(hv) => if hv.sockets.contains_key(id) {
            let sock = hv.sockets[id];
            (
                Some(HostV { sockets: hv.sockets.insert(id, SocketV { send_buffer: sock.send_buffer + data, ..sock }), ..hv }),
                data.len() as u32,
            )
        } else {
            (h, 0)
        },
        None => (None, data.len() as u32),
    }
}

/// Command 4: sends `data` over socket `socket_id`.
pub fn socket_send(ctx: &mut Option<HostContext>, socket_id: u32, data: Vec<u8>) -> (r: u32)
    ensures
        (context_view(*final(ctx)), r) =~~= send_answer(context_view(*old(ctx)), socket_id, data@),
{
    let len = data.len();
    match ctx {
        Some(c) => {
            let ghost before_map = c.sockets@;
            match c.sockets.remove(&socket_id) {
                Some(mut socket) => {
                    let ghost before = socket@;
                    let mut k: usize = 0;
                    while k < data.len()
                        invariant
                            k <= data@.len(),
                            socket@ == (SocketV { send_buffer: before.send_buffer + data@.take(k as int), ..before }),
                        decreases data@.len() - k,
                    {
                        socket.send_buffer.push(data[k]);
                        k = k + 1;
                        proof {
                            assert(socket.send_buffer@ =~= before.send_buffer + data@.take(k as int));
                        }
                    }
                    proof {
                        assert(data@.take(data@.len() as int) =~= data@);
                    }
                    let ghost sv = socket@;
                    c.sockets.insert(socket_id, socket);
                    proof {
                        assert(sockets_view(c.sockets@) =~~= sockets_view(before_map).insert(socket_id, sv));
                    }
                    len as u32
                },
                None => {
                    proof {
                        assert(c.sockets@ =~= before_map);
                    }
                    0
                },
            }
        },
        None => len as u32,
    }
}

/// What `socket_recv` does: takes the socket's received bytes (emptying its
/// buffer) and, when there are some, writes them to `buf_addr` (when they fit
/// in memory) and gives their count; else 0.
pub open spec fn recv_answer(h: Option<HostV>, s: VmState, id: u32, buf_addr: u32) -> (Option<HostV>, VmState, u32) {
    match h {
        Some(hv) => if hv.sockets.contains_key(id) {
            let sock = hv.sockets[id];
            let h1 = Some(HostV { sockets: hv.sockets.insert(id, SocketV { receive_buffer: Seq::empty(), ..sock }), ..hv });
            let bytes = sock.receive_buffer;
            if bytes.len() > 0 {
                let s1 = if s.region_valid(buf_addr as int, bytes.len() as int) {
                    s.with_bytes(buf_addr as int, bytes)
                } else {
                    s
                };
                (h1, s1, bytes.len() as u32)
            } else {
                (h1, s, 0)
            }
        } else {
            (h, s, 0)
        },
        None => (None, s, 0),
    }
}

/// Command 5: receives the pending bytes of socket `socket_id` into memory
/// at `buf_addr`; their count.
pub fn socket_recv(vm: &mut ScriptVm, ctx: &mut Option<HostContext>, socket_id: u32, buf_addr: u32) -> (r: u32)
    requires
        old(vm).wf(),
    ensures
        final(vm).wf(),
        final(vm).config() == old(vm).config(),
        (context_view(*final(ctx)), final(vm)@, r) =~~= recv_answer(context_view(*old(ctx)), old(vm)@, socket_id, buf_addr),
{
    let recv_bytes: Option<Vec<u8>> = match ctx {
        Some(c) => {
            let ghost before_map = c.sockets@;
            match c.sockets.remove(&socket_id) {
                Some(mut socket) => {
                    let mut buf: Vec<u8> = Vec::new();
                    std::mem::swap(&mut buf, &mut socket.receive_buffer);
                    let ghost sv = socket@;
                    c.sockets.insert(socket_id, socket);
                    proof {
                        assert(sockets_view(c.sockets@) =~~= sockets_view(before_map).insert(socket_id, sv));
                    }
                    Some(buf)
                },
                None => {
                    proof {
                        assert(c.sockets@ =~= before_map);
                    }
                    None
                },
            }
        },
        None => None,
    };
    match recv_bytes {
        Some(bytes) => {
            let len = bytes.len();
            if len > 0 {
                let _ = vm.write_bytes(buf_addr as usize, bytes.as_slice());
                return len as u32;
            }
            0
        },
        None => 0,
    }
}

/// Command 6: 1 when the network is online (or there is no host), else 0.
pub fn network_status(ctx: Option<&HostContext>) -> (r: u32)
    ensures
        r == match ctx {
            Some(c) => if c.network_online { 1u32 } else { 0u32 },
            None => 1u32,
        },
{
    match ctx {
        Some(c) => if c.network_online { 1 } else { 0 },
        None => 1,
    }
}

/// A socket that `socket_connect` opens takes what `socket_send` sends on it:
/// the send reports the data's length and leaves exactly that data in the
/// socket's send buffer, and the socket stays connected; a receive on it
/// right after the connect finds nothing and leaves memory as it was.
pub proof fn lemma_connect_then_send(hv: HostV, addr: Seq<char>, data: Seq<u8>, s: VmState, buf_addr: u32)
    ensures
        ({
            let (h1, id) = connect_answer(Some(hv), addr);
            let (h2, n) = send_answer(h1, id, data);
            let (h3, s3, got) = recv_answer(h1, s, id, buf_addr);
            &&& n == data.len() as u32
            &&& h2 matches Some(hv2) && hv2.sockets.contains_key(id)
            &&& h2.unwrap().sockets[id].send_buffer =~= data
            &&& h2.unwrap().sockets[id].is_connected
            &&& got == 0
            &&& s3 == s
        }),
{
}

} // verus!
