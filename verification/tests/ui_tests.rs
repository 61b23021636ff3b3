use script_go::ui_engine::{StreamBuffer, UiComponent, UiDispatcher};
use script_go::vm::ScriptVm;

fn put_text(vm: &mut ScriptVm, addr: usize, text: &str) {
    vm.write_string(addr, text, true).unwrap();
}

#[test]
fn component_new_is_mounted_and_empty() {
    let c = UiComponent::new(7, String::from("button"));
    assert_eq!(c.id, 7);
    assert_eq!(c.component_type, "button");
    assert!(c.mounted);
    assert!(c.props.is_empty());
    assert!(c.event_listeners.is_empty());
    assert_eq!(c.sync_count, 0);
}

#[test]
fn stream_buffer_appends_and_assembles() {
    let mut b = StreamBuffer::new();
    assert_eq!(b.chunk_count(), 0);
    b.append_chunk(b"ab");
    b.append_chunk(b"");
    b.append_chunk(b"cde");
    assert_eq!(b.chunk_count(), 3);
    assert_eq!(b.total_bytes, 5);
    assert_eq!(b.assemble(), b"abcde".to_vec());
    b.is_complete = true;
    b.clear();
    assert_eq!(b.chunk_count(), 0);
    assert_eq!(b.total_bytes, 0);
    assert!(!b.is_complete);
    assert!(b.assemble().is_empty());
    let d = StreamBuffer::default();
    assert_eq!(d.total_bytes, 0);
}

#[test]
fn mount_reads_type_or_uses_container() {
    let mut ui = UiDispatcher::new();
    let mut vm = ScriptVm::new();
    put_text(&mut vm, 100, "panel");
    vm.registers[1] = 5;
    vm.registers[2] = 1;
    vm.registers[3] = 100;
    assert!(ui.dispatch(&vm, 1, 2, 3).is_ok());
    assert_eq!(ui.components.get(&5).unwrap().component_type, "panel");
    assert_eq!(ui.mount_count, 1);
    vm.registers[1] = 6;
    vm.registers[3] = 0;
    ui.dispatch(&vm, 1, 2, 0).unwrap();
    assert_eq!(ui.components.get(&6).unwrap().component_type, "container");
    assert_eq!(ui.mount_count, 2);
}

#[test]
fn command_and_component_from_operand_bytes() {
    let mut ui = UiDispatcher::new();
    let vm = ScriptVm::new();
    ui.dispatch(&vm, 0, 0, 0).unwrap();
    assert!(ui.components.get(&1).is_some());
    ui.dispatch(&vm, 9, 4, 0).unwrap();
    assert_eq!(ui.render_count, 1);
    assert_eq!(
        ui.last_rendered_output.as_deref(),
        Some("<ui-root component_id=\"9\" render_count=\"1\">\n</ui-root>")
    );
}

#[test]
fn event_listener_registers_channel_and_queues_signal() {
    let mut ui = UiDispatcher::new();
    let mut vm = ScriptVm::new();
    vm.registers[1] = 3;
    vm.registers[2] = 1;
    ui.dispatch(&vm, 1, 2, 0).unwrap();
    vm.registers[2] = 2;
    ui.dispatch(&vm, 1, 2, 0).unwrap();
    let comp = ui.components.get(&3).unwrap();
    assert_eq!(comp.event_listeners, vec![String::from("tauri://ipc/channel_3")]);
    assert_eq!(ui.event_listeners, vec![(String::from("tauri://ipc/channel_3"), 3)]);
    assert_eq!(ui.event_queue.len(), 1);
    assert_eq!(ui.event_queue[0].event_id, 1);
    assert_eq!(ui.event_queue[0].component_id, 3);
    assert_eq!(ui.event_queue[0].payload, "event_signal_1");
    ui.dispatch(&vm, 1, 2, 0).unwrap();
    let comp = ui.components.get(&3).unwrap();
    assert_eq!(comp.event_listeners.len(), 1);
    assert_eq!(ui.event_listeners.len(), 1);
    assert_eq!(ui.event_queue.len(), 2);
    assert_eq!(ui.event_queue[1].payload, "event_signal_2");
    assert_eq!(ui.event_signal_count, 2);
    put_text(&mut vm, 400, "app://click");
    vm.registers[3] = 400;
    ui.dispatch(&vm, 1, 2, 3).unwrap();
    assert_eq!(ui.components.get(&3).unwrap().event_listeners.len(), 2);
    assert_eq!(ui.event_queue[2].channel, "app://click");
}

#[test]
fn prop_update_sets_sorted_trimmed_props() {
    let mut ui = UiDispatcher::new();
    let mut vm = ScriptVm::new();
    vm.registers[1] = 2;
    vm.registers[2] = 1;
    ui.dispatch(&vm, 1, 2, 0).unwrap();
    put_text(&mut vm, 100, " size = 10 ,color=red,bogus");
    vm.registers[2] = 3;
    vm.registers[3] = 100;
    ui.dispatch(&vm, 1, 2, 3).unwrap();
    let comp = ui.components.get(&2).unwrap();
    assert_eq!(
        comp.props,
        vec![(String::from("color"), String::from("red")), (String::from("size"), String::from("10"))]
    );
    assert_eq!(comp.sync_count, 1);
    put_text(&mut vm, 100, "hello");
    ui.dispatch(&vm, 1, 2, 3).unwrap();
    let comp = ui.components.get(&2).unwrap();
    assert_eq!(comp.props.len(), 3);
    assert_eq!(comp.props[1], (String::from("payload"), String::from("hello")));
    put_text(&mut vm, 100, "color=blue");
    ui.dispatch(&vm, 1, 2, 3).unwrap();
    let comp = ui.components.get(&2).unwrap();
    assert_eq!(comp.props[0], (String::from("color"), String::from("blue")));
    assert_eq!(ui.prop_update_count, 3);
}

#[test]
fn prop_update_without_payload_records_state_sync() {
    let mut ui = UiDispatcher::new();
    let mut vm = ScriptVm::new();
    vm.registers[2] = 1;
    ui.dispatch(&vm, 1, 2, 0).unwrap();
    vm.registers[2] = 3;
    ui.dispatch(&vm, 1, 2, 0).unwrap();
    let comp = ui.components.get(&1).unwrap();
    assert_eq!(comp.props, vec![(String::from("state_sync"), String::from("0"))]);
    ui.dispatch(&vm, 8, 2, 0).unwrap();
    assert_eq!(ui.prop_update_count, 2);
}

#[test]
fn render_lists_props_and_stream() {
    let mut ui = UiDispatcher::new();
    let mut vm = ScriptVm::new();
    put_text(&mut vm, 100, "card");
    vm.registers[1] = 4;
    vm.registers[2] = 1;
    vm.registers[3] = 100;
    ui.dispatch(&vm, 1, 2, 3).unwrap();
    put_text(&mut vm, 100, "b=2,a=1");
    vm.registers[2] = 3;
    ui.dispatch(&vm, 1, 2, 3).unwrap();
    put_text(&mut vm, 200, "chunk");
    vm.registers[3] = 200;
    vm.registers[2] = 4;
    ui.dispatch(&vm, 1, 2, 3).unwrap();
    assert_eq!(ui.stream_buffer.total_bytes, 5);
    assert_eq!(
        ui.last_rendered_output.as_deref(),
        Some(
            "<ui-root component_id=\"4\" render_count=\"1\">\n  <card\n    a=\"1\"\n    b=\"2\"\n  />\n  <stream-buffer total_bytes=\"5\" chunk_count=\"1\"/>\n</ui-root>"
        )
    );
    vm.registers[0] = 3;
    ui.dispatch(&vm, 1, 2, 3).unwrap();
    assert_eq!(ui.stream_buffer.assemble(), b"chunkchu".to_vec());
    assert_eq!(ui.render_count, 2);
}

#[test]
fn reset_forgets_everything() {
    let mut ui = UiDispatcher::new();
    let vm = ScriptVm::new();
    ui.dispatch(&vm, 1, 1, 0).unwrap();
    ui.dispatch(&vm, 1, 2, 0).unwrap();
    ui.dispatch(&vm, 1, 4, 0).unwrap();
    ui.reset();
    assert!(ui.components.is_empty());
    assert!(ui.event_listeners.is_empty());
    assert!(ui.event_queue.is_empty());
    assert_eq!(ui.stream_buffer.chunk_count(), 0);
    assert_eq!(ui.mount_count, 0);
    assert_eq!(ui.render_count, 0);
    assert_eq!(ui.next_event_id, 0);
    assert!(ui.last_rendered_output.is_none());
    let d = UiDispatcher::default();
    assert!(d.components.is_empty());
}

#[test]
fn overflowing_ui_calls_are_refused_without_change() {
    let mut ui = UiDispatcher::new();
    let vm = ScriptVm::new();
    ui.mount_count = u32::MAX;
    assert!(ui.try_dispatch(&vm, 1, 1, 0).is_none());
    assert!(ui.components.is_empty());
    ui.mount_count = 0;
    assert_eq!(ui.try_dispatch(&vm, 1, 1, 0), Some(Ok(())));
    assert_eq!(ui.mount_count, 1);
    ui.render_count = u32::MAX;
    assert!(ui.try_dispatch(&vm, 1, 4, 0).is_none());
    assert!(ui.last_rendered_output.is_none());
}
