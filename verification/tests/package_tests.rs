use script_go::cli::{load_program, LoadError};
use script_go::binary::serialize_sgb;
use script_go::host_handlers::HostContext;
use script_go::instruction::{Instruction, OpCode};
use script_go::io::{
    file_read, file_write, get_env, get_timestamp, string_concat, string_length, string_slice, string_to_lower,
    string_to_upper,
};
use script_go::net::{http_get, http_post, network_status, socket_connect, socket_recv, socket_send};
use script_go::vm::ScriptVm;

#[test]
fn io_file_commands() {
    let mut ctx = Some(HostContext::new());
    assert_eq!(file_read(ctx.as_ref(), String::new()), Err(400));
    assert_eq!(file_read(ctx.as_ref(), String::from("nope")), Err(404));
    assert_eq!(file_read(None, String::from("test.txt")), Err(404));
    assert_eq!(
        file_read(ctx.as_ref(), String::from("test.txt")),
        Ok(String::from("Hello SGL Virtual Filesystem!"))
    );
    assert_eq!(file_write(&mut ctx, String::from("bin"), vec![0x66, 0xff, 0x6f]), 3);
    assert_eq!(file_read(ctx.as_ref(), String::from("bin")), Ok(String::from("f\u{FFFD}o")));
    let mut none: Option<HostContext> = None;
    assert_eq!(file_write(&mut none, String::from("x"), vec![1, 2]), 2);
}

#[test]
fn io_timestamp_and_env() {
    let mut ctx = Some(HostContext::new());
    assert_eq!(get_timestamp(&mut ctx), (1700000000010u64 & 0xffff_ffff) as u32);
    let mut none: Option<HostContext> = None;
    assert_eq!(get_timestamp(&mut none), 1700000000);
    assert_eq!(get_env(ctx.as_ref(), String::from("USER")), Ok(String::from("sgl_runner")));
    assert_eq!(get_env(ctx.as_ref(), String::new()), Err(400));
    assert_eq!(get_env(ctx.as_ref(), String::from("HOME")), Err(404));
}

#[test]
fn io_string_commands() {
    let mut vm = ScriptVm::new();
    assert_eq!(string_concat(&mut vm, String::from("ab"), String::from("cd")), "abcd");
    assert_eq!(string_length(&mut vm, String::from("añb")), 3);
    assert_eq!(string_slice(&mut vm, String::from("añbc"), 1, 3), "ñb");
    assert_eq!(string_slice(&mut vm, String::from("abc"), 2, 1), "");
    assert_eq!(string_slice(&mut vm, String::from("abc"), 5, 9), "");
    assert_eq!(string_to_upper(&mut vm, String::from("straße")), "STRASSE");
    assert_eq!(string_to_lower(&mut vm, String::from("ÀB")), "àb");
}

#[test]
fn net_http_commands() {
    let ctx = HostContext::new();
    assert_eq!(http_get(Some(&ctx), String::new()), Err(400));
    assert_eq!(
        http_get(Some(&ctx), String::from("https://api.sgl.internal/status")),
        Ok(String::from("{\"status\":\"online\",\"service\":\"sgl-runtime\"}"))
    );
    assert_eq!(
        http_get(None, String::from("u")),
        Ok(String::from("HTTP/1.1 200 OK\r\nContent-Type: text/plain\r\n\r\nMock Response for u"))
    );
    let mut vm = ScriptVm::new();
    assert_eq!(
        http_post(&mut vm, String::from("u"), String::from("12345")),
        Ok(String::from(
            "HTTP/1.1 200 OK\r\nContent-Type: application/json\r\n\r\n{\"posted_to\":\"u\",\"bytes_received\":5}"
        ))
    );
}

#[test]
fn net_socket_commands() {
    let mut ctx = Some(HostContext::new());
    let mut vm = ScriptVm::new();
    assert_eq!(socket_connect(&mut ctx, String::new()), 1);
    assert_eq!(socket_connect(&mut ctx, String::from("h:1")), 2);
    assert_eq!(ctx.as_ref().unwrap().sockets.get(&1).unwrap().address, "127.0.0.1:8080");
    assert_eq!(socket_send(&mut ctx, 2, vec![1, 2, 3]), 3);
    assert_eq!(socket_send(&mut ctx, 7, vec![1]), 0);
    assert_eq!(ctx.as_ref().unwrap().sockets.get(&2).unwrap().send_buffer, vec![1, 2, 3]);
    ctx.as_mut().unwrap().sockets.get_mut(&2).unwrap().receive_buffer = vec![9, 8];
    assert_eq!(socket_recv(&mut vm, &mut ctx, 2, 40), 2);
    assert_eq!(vm.read_bytes(40, 2, false).unwrap(), vec![9, 8]);
    assert_eq!(socket_recv(&mut vm, &mut ctx, 2, 40), 0);
    assert_eq!(network_status(ctx.as_ref()), 1);
    assert_eq!(network_status(None), 1);
    let mut none: Option<HostContext> = None;
    assert_eq!(socket_connect(&mut none, String::from("a")), 1);
    assert_eq!(socket_send(&mut none, 1, vec![1, 2]), 2);
    assert_eq!(socket_recv(&mut vm, &mut none, 1, 40), 0);
}

#[test]
fn load_program_from_sgb_text_and_garbage() {
    let code = vec![
        Instruction::new(OpCode::LoadImm as u8, 1, 5, 0),
        Instruction::new(OpCode::Halt as u8, 0, 0, 0),
    ];
    let image = serialize_sgb(&code, 100, &[]);
    let loaded = load_program(image).unwrap().unwrap();
    assert_eq!(loaded, code);
    let mut bad = serialize_sgb(&code, 100, &[]);
    bad.truncate(10);
    assert_eq!(load_program(bad), Some(Err(LoadError::Sgb(String::from("Buffer too small")))));
    assert_eq!(load_program(vec![0xff, 0xfe]), Some(Err(LoadError::NotUtf8)));
    let assembled = load_program(b"LOADIMM 1 5\nHALT".to_vec()).unwrap().unwrap();
    assert_eq!(assembled, code);
}

#[test]
fn boxed_machines_start_cleared() {
    let vm = ScriptVm::new_boxed();
    assert_eq!(vm.max_steps, Some(10000));
    assert_eq!(vm.pc, 0);
    let vm2 = ScriptVm::new_boxed_with_max_steps(7);
    assert_eq!(vm2.max_steps, Some(7));
    assert!(vm2.registers.iter().all(|r| *r == 0));
}

#[test]
fn encode_code_writes_words_little_endian() {
    let code = vec![Instruction(0x0403_0201), Instruction(0xAABB_CCDD)];
    assert_eq!(script_go::binary::encode_code(&code), vec![1, 2, 3, 4, 0xDD, 0xCC, 0xBB, 0xAA]);
}

#[test]
fn connected_socket_takes_what_is_sent() {
    let mut vm = ScriptVm::new();
    let mut ctx = Some(HostContext::new());
    let id = socket_connect(&mut ctx, String::from("10.0.0.2:9000"));
    assert_eq!(socket_recv(&mut vm, &mut ctx, id, 64), 0);
    assert_eq!(socket_send(&mut ctx, id, vec![4, 5, 6, 7]), 4);
    let sock = ctx.as_ref().unwrap().sockets.get(&id).unwrap();
    assert!(sock.is_connected);
    assert_eq!(sock.send_buffer, vec![4, 5, 6, 7]);
}
