use script_go::host_handlers::{HardwareCallCommand, HostContext, HostSocket, SysCallCommand};
use script_go::vm::ScriptVm;

fn put_text(vm: &mut ScriptVm, addr: usize, text: &str) {
    vm.write_string(addr, text, true).unwrap();
}

fn text_at(vm: &ScriptVm, addr: u32) -> String {
    vm.read_string(addr as usize, None).unwrap()
}

#[test]
fn syscall_command_numbers() {
    assert_eq!(SysCallCommand::from_u32(1), SysCallCommand::FileRead);
    assert_eq!(SysCallCommand::from_u32(5), SysCallCommand::StringConcat);
    assert_eq!(SysCallCommand::from_u32(9), SysCallCommand::StringToLower);
    assert_eq!(SysCallCommand::from_u32(0), SysCallCommand::Unknown);
    assert_eq!(SysCallCommand::from_u32(10), SysCallCommand::Unknown);
}

#[test]
fn hardware_command_numbers() {
    assert_eq!(HardwareCallCommand::from_u32(1), HardwareCallCommand::HttpGet);
    assert_eq!(HardwareCallCommand::from_u32(6), HardwareCallCommand::NetworkStatus);
    assert_eq!(HardwareCallCommand::from_u32(7), HardwareCallCommand::Unknown);
}

#[test]
fn new_context_defaults() {
    let ctx = HostContext::new();
    assert_eq!(ctx.next_socket_id, 1);
    assert!(ctx.network_online);
    assert_eq!(ctx.scratch_heap_pointer, 512);
    assert_eq!(ctx.timestamp_counter, 1700000000000);
    assert_eq!(ctx.virtual_filesystem.len(), 1);
    assert_eq!(ctx.virtual_filesystem[0].0, "test.txt");
    assert_eq!(ctx.virtual_filesystem[0].1, b"Hello SGL Virtual Filesystem!".to_vec());
    assert_eq!(ctx.environment_variables.len(), 2);
    assert_eq!(ctx.http_mock_routes.len(), 1);
    assert!(ctx.sockets.is_empty());
    let d = HostContext::default();
    assert_eq!(d.scratch_heap_pointer, 512);
}

#[test]
fn allocation_rounds_up_and_wraps_to_512() {
    let mut ctx = HostContext::new();
    assert_eq!(ctx.allocate_vm_memory(5), 512);
    assert_eq!(ctx.scratch_heap_pointer, 520);
    assert_eq!(ctx.allocate_vm_memory(8), 520);
    assert_eq!(ctx.scratch_heap_pointer, 528);
    ctx.scratch_heap_pointer = 990;
    assert_eq!(ctx.allocate_vm_memory(16), 512);
    assert_eq!(ctx.scratch_heap_pointer, 528);
}

#[test]
fn get_env_places_value_in_heap() {
    let mut ctx = HostContext::new();
    let mut vm = ScriptVm::new();
    put_text(&mut vm, 100, "ENV");
    vm.registers[1] = 100;
    vm.registers[2] = 4;
    ctx.dispatch_syscall(&mut vm, 3, 2, 1);
    assert_eq!(vm.registers[3], 512);
    assert_eq!(text_at(&vm, vm.registers[3]), "production");
    assert_eq!(ctx.scratch_heap_pointer, 524);
    put_text(&mut vm, 100, "NOPE");
    ctx.dispatch_syscall(&mut vm, 4, 2, 1);
    assert_eq!(vm.registers[4], 0);
}

#[test]
fn file_write_then_read_gives_the_bytes_back() {
    let mut ctx = HostContext::new();
    let mut vm = ScriptVm::new();
    put_text(&mut vm, 100, "notes.txt");
    put_text(&mut vm, 200, "xyz");
    vm.registers[10] = 100;
    vm.registers[11] = 200;
    vm.registers[12] = 3;
    vm.registers[2] = 2;
    ctx.dispatch_syscall(&mut vm, 3, 2, 10);
    assert_eq!(vm.registers[3], 3);
    vm.registers[2] = 1;
    vm.registers[1] = 100;
    ctx.dispatch_syscall(&mut vm, 4, 2, 1);
    let at = vm.registers[4];
    assert_eq!(at, 512);
    assert_eq!(vm.read_bytes(at as usize, 4, false).unwrap(), b"xyz\0".to_vec());
    vm.registers[12] = 0;
    put_text(&mut vm, 200, "longer text");
    vm.registers[2] = 2;
    ctx.dispatch_syscall(&mut vm, 3, 2, 10);
    assert_eq!(vm.registers[3], 11);
    let stored = ctx.virtual_filesystem.iter().find(|e| e.0 == "notes.txt").unwrap();
    assert_eq!(stored.1, b"longer text".to_vec());
    assert_eq!(ctx.virtual_filesystem.len(), 2);
}

#[test]
fn file_read_of_missing_file_gives_zero() {
    let mut ctx = HostContext::new();
    let mut vm = ScriptVm::new();
    put_text(&mut vm, 100, "missing.txt");
    vm.registers[1] = 100;
    vm.registers[2] = 1;
    vm.registers[3] = 77;
    ctx.dispatch_syscall(&mut vm, 3, 2, 1);
    assert_eq!(vm.registers[3], 0);
    put_text(&mut vm, 100, "test.txt");
    ctx.dispatch_syscall(&mut vm, 3, 2, 1);
    assert_eq!(text_at(&vm, vm.registers[3]), "Hello SGL Virtual Filesystem!");
}

#[test]
fn timestamp_advances_by_ten() {
    let mut ctx = HostContext::new();
    let mut vm = ScriptVm::new();
    vm.registers[2] = 3;
    ctx.dispatch_syscall(&mut vm, 3, 2, 0);
    assert_eq!(ctx.timestamp_counter, 1700000000010);
    assert_eq!(vm.registers[3], (1700000000010u64 & 0xffff_ffff) as u32);
}

#[test]
fn string_syscalls() {
    let mut ctx = HostContext::new();
    let mut vm = ScriptVm::new();
    put_text(&mut vm, 100, "héllo");
    put_text(&mut vm, 150, " world");
    vm.registers[20] = 100;
    vm.registers[21] = 150;
    vm.registers[2] = 5;
    ctx.dispatch_syscall(&mut vm, 3, 2, 20);
    assert_eq!(text_at(&vm, vm.registers[3]), "héllo world");
    vm.registers[2] = 6;
    ctx.dispatch_syscall(&mut vm, 4, 2, 20);
    assert_eq!(vm.registers[4], 5);
    vm.registers[21] = 1;
    vm.registers[22] = 3;
    vm.registers[2] = 7;
    ctx.dispatch_syscall(&mut vm, 5, 2, 20);
    assert_eq!(text_at(&vm, vm.registers[5]), "él");
    vm.registers[22] = 99;
    vm.registers[21] = 50;
    ctx.dispatch_syscall(&mut vm, 5, 2, 20);
    assert_eq!(text_at(&vm, vm.registers[5]), "");
    vm.registers[2] = 8;
    ctx.dispatch_syscall(&mut vm, 6, 2, 20);
    assert_eq!(text_at(&vm, vm.registers[6]), "HÉLLO");
    put_text(&mut vm, 100, "MiXeD");
    vm.registers[2] = 9;
    ctx.dispatch_syscall(&mut vm, 7, 2, 20);
    assert_eq!(text_at(&vm, vm.registers[7]), "mixed");
}

#[test]
fn unknown_syscall_clears_destination() {
    let mut ctx = HostContext::new();
    let mut vm = ScriptVm::new();
    vm.registers[2] = 42;
    vm.registers[3] = 9;
    ctx.dispatch_syscall(&mut vm, 3, 200, 0);
    assert_eq!(vm.registers[3], 0);
}

#[test]
fn syscall_number_from_operand_byte() {
    let mut ctx = HostContext::new();
    let mut vm = ScriptVm::new();
    ctx.dispatch_syscall(&mut vm, 3, 3, 0);
    assert_eq!(ctx.timestamp_counter, 1700000000010);
}

#[test]
fn http_get_route_and_mock() {
    let mut ctx = HostContext::new();
    let mut vm = ScriptVm::new();
    put_text(&mut vm, 100, "https://api.sgl.internal/status");
    vm.registers[1] = 100;
    vm.registers[2] = 1;
    ctx.dispatch_hardware_call(&mut vm, 3, 2, 1);
    assert_eq!(text_at(&vm, vm.registers[3]), "{\"status\":\"online\",\"service\":\"sgl-runtime\"}");
    put_text(&mut vm, 100, "http://x");
    ctx.dispatch_hardware_call(&mut vm, 4, 2, 1);
    assert_eq!(
        text_at(&vm, vm.registers[4]),
        "HTTP/1.1 200 OK\r\nContent-Type: text/plain\r\n\r\nMock Response for http://x"
    );
}

#[test]
fn http_post_reports_body_bytes() {
    let mut ctx = HostContext::new();
    let mut vm = ScriptVm::new();
    put_text(&mut vm, 100, "http://api");
    put_text(&mut vm, 150, "héllo");
    vm.registers[30] = 100;
    vm.registers[31] = 150;
    vm.registers[2] = 2;
    ctx.dispatch_hardware_call(&mut vm, 3, 2, 30);
    assert_eq!(
        text_at(&vm, vm.registers[3]),
        "HTTP/1.1 200 OK\r\nContent-Type: application/json\r\n\r\n{\"posted_to\":\"http://api\",\"bytes_received\":6}"
    );
}

#[test]
fn sockets_connect_send_and_receive() {
    let mut ctx = HostContext::new();
    let mut vm = ScriptVm::new();
    put_text(&mut vm, 100, "10.0.0.1:9000");
    vm.registers[40] = 100;
    vm.registers[2] = 3;
    ctx.dispatch_hardware_call(&mut vm, 3, 2, 40);
    assert_eq!(vm.registers[3], 1);
    assert_eq!(ctx.next_socket_id, 2);
    assert_eq!(ctx.sockets.get(&1).unwrap().address, "10.0.0.1:9000");
    put_text(&mut vm, 200, "abc");
    vm.registers[50] = 1;
    vm.registers[51] = 200;
    vm.registers[52] = 3;
    vm.registers[2] = 4;
    ctx.dispatch_hardware_call(&mut vm, 4, 2, 50);
    assert_eq!(vm.registers[4], 3);
    assert_eq!(ctx.sockets.get(&1).unwrap().send_buffer, b"abc".to_vec());
    ctx.sockets.get_mut(&1).unwrap().receive_buffer = b"pong".to_vec();
    vm.registers[51] = 300;
    vm.registers[2] = 5;
    ctx.dispatch_hardware_call(&mut vm, 5, 2, 50);
    assert_eq!(vm.registers[5], 4);
    assert_eq!(vm.read_bytes(300, 4, false).unwrap(), b"pong".to_vec());
    assert!(ctx.sockets.get(&1).unwrap().receive_buffer.is_empty());
    ctx.dispatch_hardware_call(&mut vm, 5, 2, 50);
    assert_eq!(vm.registers[5], 0);
    vm.registers[50] = 9;
    vm.registers[2] = 4;
    ctx.dispatch_hardware_call(&mut vm, 4, 2, 50);
    assert_eq!(vm.registers[4], 0);
}

#[test]
fn socket_connect_default_address() {
    let mut ctx = HostContext::new();
    let mut vm = ScriptVm::new();
    vm.registers[2] = 3;
    ctx.dispatch_hardware_call(&mut vm, 3, 2, 2000);
    assert_eq!(vm.registers[3], 1);
    let s: &HostSocket = ctx.sockets.get(&1).unwrap();
    assert_eq!(s.address, "127.0.0.1:8080");
    assert!(s.is_connected);
}

#[test]
fn network_status_and_unknown_hardware_call() {
    let mut ctx = HostContext::new();
    let mut vm = ScriptVm::new();
    vm.registers[2] = 6;
    ctx.dispatch_hardware_call(&mut vm, 3, 2, 0);
    assert_eq!(vm.registers[3], 1);
    ctx.network_online = false;
    ctx.dispatch_hardware_call(&mut vm, 3, 2, 0);
    assert_eq!(vm.registers[3], 0);
    vm.registers[2] = 0;
    vm.registers[3] = 5;
    ctx.dispatch_hardware_call(&mut vm, 3, 200, 200);
    assert_eq!(vm.registers[3], 0);
}

#[test]
fn overflowing_calls_are_refused_without_change() {
    let mut ctx = HostContext::new();
    let mut vm = ScriptVm::new();
    ctx.timestamp_counter = u64::MAX - 5;
    vm.registers[2] = 3;
    vm.registers[3] = 7;
    assert!(!ctx.try_dispatch_syscall(&mut vm, 3, 2, 0));
    assert_eq!(ctx.timestamp_counter, u64::MAX - 5);
    assert_eq!(vm.registers[3], 7);

    ctx.scratch_heap_pointer = usize::MAX - 2;
    put_text(&mut vm, 100, "ENV");
    vm.registers[1] = 100;
    vm.registers[2] = 4;
    assert!(!ctx.try_dispatch_syscall(&mut vm, 3, 2, 1));
    assert_eq!(ctx.scratch_heap_pointer, usize::MAX - 2);
    ctx.scratch_heap_pointer = 512;
    assert!(ctx.try_dispatch_syscall(&mut vm, 3, 2, 1));
    assert_eq!(text_at(&vm, vm.registers[3]), "production");

    ctx.next_socket_id = u32::MAX;
    vm.registers[2] = 3;
    assert!(!ctx.try_dispatch_hardware_call(&mut vm, 4, 2, 0));
    assert!(ctx.sockets.is_empty());
    ctx.next_socket_id = 5;
    assert!(ctx.try_dispatch_hardware_call(&mut vm, 4, 2, 0));
    assert_eq!(vm.registers[4], 5);
}

#[test]
fn placed_text_lies_in_scratch_heap_and_reads_back() {
    let mut ctx = HostContext::new();
    let mut vm = ScriptVm::new();
    put_text(&mut vm, 100, "ab");
    put_text(&mut vm, 150, "ç");
    vm.registers[20] = 100;
    vm.registers[21] = 150;
    vm.registers[2] = 5;
    ctx.dispatch_syscall(&mut vm, 3, 2, 20);
    let at = vm.registers[3];
    assert!((512..1000).contains(&at));
    assert_eq!(text_at(&vm, at), "abç");
    assert_eq!(ctx.scratch_heap_pointer as u32, at + 8);
}

#[test]
fn command_numbers_round_trip() {
    assert_eq!(SysCallCommand::FileRead.code(), 1);
    assert_eq!(SysCallCommand::StringToLower.code(), 9);
    assert_eq!(SysCallCommand::Unknown.code(), 255);
    assert_eq!(SysCallCommand::from_u32(SysCallCommand::GetEnv.code()), SysCallCommand::GetEnv);
    assert_eq!(HardwareCallCommand::HttpGet.code(), 1);
    assert_eq!(HardwareCallCommand::NetworkStatus.code(), 6);
    assert_eq!(HardwareCallCommand::Unknown.code(), 255);
    assert_eq!(HardwareCallCommand::from_u32(HardwareCallCommand::SocketSend.code()), HardwareCallCommand::SocketSend);
}
