use vstd::prelude::*;
use std::collections::BTreeMap;
use crate::vm::{ScriptVm, VmState, VmError};
use crate::text::{decimal, decimal_chars, push_str, push_chars, string_from_chars, string_chars, split_on, split_once, trim, str_lt, find_char, split_chars, trim_chars, chars_lt, chars_between, lemma_first_index, lemma_str_lt_transitive, lemma_str_lt_total};
use crate::host_handlers::{store, lemma_key_index_is, lemma_key_index_absent, find_key, read_str_limit, read_text_limit};

verus! {

/// A UI component mounted by a script.
#[derive(Debug, Clone, PartialEq, Eq)]
pub struct UiComponent {
    pub id: u32,
    pub component_type: String,
    pub mounted: bool,
    /// The properties, one entry per key, in increasing key order.
    pub props: Vec<(String, String)>,
    pub event_listeners: Vec<String>,
    pub sync_count: u32,
}

/// The mathematical value of a component.
#[verifier::ext_equal]
pub struct ComponentV {
    pub id: u32,
    pub component_type: Seq<char>,
    pub mounted: bool,
    pub props: Seq<(Seq<char>, Seq<char>)>,
    pub event_listeners: Seq<Seq<char>>,
    pub sync_count: u32,
}

/// The entries of a string table.
pub open spec fn props_view(t: Seq<(String, String)>) -> Seq<(Seq<char>, Seq<char>)> {
    t.map_values(|e: (String, String)| (e.0@, e.1@))
}

/// The strings of a list.
pub open spec fn strings_view(t: Seq<String>) -> Seq<Seq<char>> {
    t.map_values(|e: String| e@)
}

impl View for UiComponent {
    type V = ComponentV;

    open spec fn view(&self) -> ComponentV {
        ComponentV {
            id: self.id,
            component_type: self.component_type@,
            mounted: self.mounted,
            props: props_view(self.props@),
            event_listeners: strings_view(self.event_listeners@),
            sync_count: self.sync_count,
        }
    }
}

/// A freshly mounted component.
pub open spec fn new_component(id: u32, component_type: Seq<char>) -> ComponentV {
    ComponentV {
        id,
        component_type,
        mounted: true,
        props: Seq::empty(),
        event_listeners: Seq::empty(),
        sync_count: 0,
    }
}

impl UiComponent {
    /// A mounted component of the given type, without properties or
    /// listeners.
    pub fn new(id: u32, component_type: String) -> (r: Self)
        ensures
            r@ =~~= new_component(id, component_type@),
    {
        UiComponent {
            id,
            component_type,
            mounted: true,
            props: Vec::new(),
            event_listeners: Vec::new(),
            sync_count: 0,
        }
    }
}

/// An event signal sent to the UI.
#[derive(Debug, Clone, PartialEq, Eq)]
pub struct UiEvent {
    pub event_id: u32,
    pub component_id: u32,
    pub channel: String,
    pub payload: String,
}

/// The mathematical value of an event.
#[verifier::ext_equal]
pub struct EventV {
    pub event_id: u32,
    pub component_id: u32,
    pub channel: Seq<char>,
    pub payload: Seq<char>,
}

impl View for UiEvent {
    type V = EventV;

    open spec fn view(&self) -> EventV {
        EventV {
            event_id: self.event_id,
            component_id: self.component_id,
            channel: self.channel@,
            payload: self.payload@,
        }
    }
}

/// A buffer of streamed chunks.
#[derive(Debug, Clone)]
pub struct StreamBuffer {
    pub chunks: Vec<Vec<u8>>,
    pub total_bytes: usize,
    pub is_complete: bool,
}

/// The mathematical value of a stream buffer.
#[verifier::ext_equal]
pub struct StreamV {
    pub chunks: Seq<Seq<u8>>,
    pub total_bytes: usize,
    pub is_complete: bool,
}

/// The chunks of a buffer.
pub open spec fn chunks_view(t: Seq<Vec<u8>>) -> Seq<Seq<u8>> {
    t.map_values(|c: Vec<u8>| c@)
}

impl View for StreamBuffer {
    type V = StreamV;

    open spec fn view(&self) -> StreamV {
        StreamV { chunks: chunks_view(self.chunks@), total_bytes: self.total_bytes, is_complete: self.is_complete }
    }
}

/// The bytes of all chunks, in order.
pub open spec fn flatten(chunks: Seq<Seq<u8>>) -> Seq<u8>
    decreases chunks.len(),
{
    if chunks.len() == 0 {
        Seq::empty()
    } else {
        flatten(chunks.drop_last()) + chunks.last()
    }
}

/// The empty buffer.
pub open spec fn empty_stream() -> StreamV {
    StreamV { chunks: Seq::empty(), total_bytes: 0, is_complete: false }
}

/// The buffer after appending a chunk.
pub open spec fn appended(b: StreamV, chunk: Seq<u8>) -> StreamV {
    StreamV { chunks: b.chunks.push(chunk), total_bytes: (b.total_bytes + chunk.len()) as usize, ..b }
}

impl StreamBuffer {
    /// An empty, incomplete buffer.
    pub fn new() -> (r: Self)
        ensures
            r@ =~~= empty_stream(),
    {
        StreamBuffer { chunks: Vec::new(), total_bytes: 0, is_complete: false }
    }

    /// Adds a copy of `chunk` at the end and counts its bytes.
    pub fn append_chunk(&mut self, chunk: &[u8])
        requires
            old(self).total_bytes + chunk@.len() <= usize::MAX,
        ensures
            final(self)@ =~~= appended(old(self)@, chunk@),
    {
        self.total_bytes = self.total_bytes + chunk.len();
        let mut copy: Vec<u8> = Vec::new();
        let mut i: usize = 0;
        while i < chunk.len()
            invariant
                i <= chunk@.len(),
                copy@ == chunk@.take(i as int),
            decreases chunk@.len() - i,
        {
            copy.push(chunk[i]);
            i = i + 1;
            proof {
                assert(copy@ =~= chunk@.take(i as int));
            }
        }
        proof {
            assert(chunk@.take(chunk@.len() as int) =~= chunk@);
        }
        let ghost before = self.chunks@;
        self.chunks.push(copy);
        proof {
            assert(chunks_view(self.chunks@) =~~= chunks_view(before).push(chunk@));
        }
    }

    /// The number of chunks.
    pub fn chunk_count(&self) -> (r: usize)
        ensures
            r == self@.chunks.len(),
    {
        self.chunks.len()
    }

    /// Empties the buffer and marks it incomplete.
    pub fn clear(&mut self)
        ensures
            final(self)@ =~~= empty_stream(),
    {
        self.chunks.clear();
        self.total_bytes = 0;
        self.is_complete = false;
    }

    /// The bytes of all chunks, in order.
    pub fn assemble(&self) -> (r: Vec<u8>)
        ensures
            r@ == flatten(self@.chunks),
    {
        let mut buffer: Vec<u8> = Vec::new();
        let mut k: usize = 0;
        while k < self.chunks.len()
            invariant
                k <= self.chunks@.len(),
                buffer@ == flatten(self@.chunks.take(k as int)),
            decreases self.chunks@.len() - k,
        {
            let chunk = &self.chunks[k];
            let ghost before = buffer@;
            let mut i: usize = 0;
            while i < chunk.len()
                invariant
                    i <= chunk@.len(),
                    buffer@ == before + chunk@.take(i as int),
                decreases chunk@.len() - i,
            {
                buffer.push(chunk[i]);
                i = i + 1;
                proof {
                    assert(buffer@ =~= before + chunk@.take(i as int));
                }
            }
            proof {
                assert(chunk@.take(chunk@.len() as int) =~= chunk@);
                assert(self@.chunks.take(k + 1).drop_last() =~= self@.chunks.take(k as int));
            }
            k = k + 1;
        }
        proof {
            assert(self@.chunks.take(self@.chunks.len() as int) =~= self@.chunks);
        }
        buffer
    }
}

impl Default for StreamBuffer {
    fn default() -> (r: Self)
        ensures
            r@ =~~= empty_stream(),
    {
        StreamBuffer::new()
    }
}

/// The UI engine's state, driven by `UiCall`.
#[derive(Debug, Clone)]
pub struct UiDispatcher {
    pub components: BTreeMap<u32, UiComponent>,
    /// The component of each channel, one entry per channel.
    pub event_listeners: Vec<(String, u32)>,
    pub event_queue: Vec<UiEvent>,
    pub stream_buffer: StreamBuffer,
    pub mount_count: u32,
    pub event_signal_count: u32,
    pub prop_update_count: u32,
    pub render_count: u32,
    pub next_event_id: u32,
    pub last_rendered_output: Option<String>,
}

/// The mathematical state of the UI engine.
#[verifier::ext_equal]
pub struct UiV {
    pub components: Map<u32, ComponentV>,
    pub listeners: Seq<(Seq<char>, u32)>,
    pub queue: Seq<EventV>,
    pub stream: StreamV,
    pub mount_count: u32,
    pub event_signal_count: u32,
    pub prop_update_count: u32,
    pub render_count: u32,
    pub next_event_id: u32,
    pub last_output: Option<Seq<char>>,
}

pub open spec fn components_view(m: Map<u32, UiComponent>) -> Map<u32, ComponentV> {
    m.map_values(|c: UiComponent| c@)
}

pub open spec fn listeners_view(t: Seq<(String, u32)>) -> Seq<(Seq<char>, u32)> {
    t.map_values(|e: (String, u32)| (e.0@, e.1))
}

pub open spec fn events_view(t: Seq<UiEvent>) -> Seq<EventV> {
    t.map_values(|e: UiEvent| e@)
}

pub open spec fn output_view(o: Option<String>) -> Option<Seq<char>> {
    match o {
        Some(t) => Some(t@),
        None => None,
    }
}

impl View for UiDispatcher {
    type V = UiV;

    open spec fn view(&self) -> UiV {
        UiV {
            components: components_view(self.components@),
            listeners: listeners_view(self.event_listeners@),
            queue: events_view(self.event_queue@),
            stream: self.stream_buffer@,
            mount_count: self.mount_count,
            event_signal_count: self.event_signal_count,
            prop_update_count: self.prop_update_count,
            render_count: self.render_count,
            next_event_id: self.next_event_id,
            last_output: output_view(self.last_rendered_output),
        }
    }
}

/// The engine with nothing mounted, queued or rendered.
pub open spec fn empty_ui() -> UiV {
    UiV {
        components: Map::empty(),
        listeners: Seq::empty(),
        queue: Seq::empty(),
        stream: empty_stream(),
        mount_count: 0,
        event_signal_count: 0,
        prop_update_count: 0,
        render_count: 0,
        next_event_id: 0,
        last_output: None,
    }
}

/// A counter after one more event.
pub open spec fn bump(n: u32) -> u32 {
    (n + 1) as u32
}

/// `Mount`: a new component of the type named at the payload address (at
/// most 64 bytes; `container` when there is none or it is empty).
pub open spec fn mount_spec(u: UiV, s: VmState, id: u32, payload: usize) -> UiV {
    let type_string = if payload != 0 {
        match read_str_limit(s, payload, 64) {
            Some(t) => t,
            None => "container"@,
        }
    } else {
        "container"@
    };
    let component_type = if type_string.len() == 0 { "container"@ } else { type_string };
    UiV {
        components: u.components.insert(id, new_component(id, component_type)),
        mount_count: bump(u.mount_count),
        ..u
    }
}

/// The default channel of a component.
pub open spec fn default_channel(id: u32) -> Seq<char> {
    "tauri://ipc/channel_"@ + decimal(id as nat)
}

/// `EventListener`: registers the channel named at the payload address (at
/// most 128 bytes; the component's default channel when there is none or it
/// is empty) for the component, and queues an event signal.
pub open spec fn listener_spec(u: UiV, s: VmState, id: u32, payload: usize) -> UiV {
    let channel_name = if payload != 0 {
        match read_str_limit(s, payload, 128) {
            Some(t) => t,
            None => default_channel(id),
        }
    } else {
        default_channel(id)
    };
    let channel = if channel_name.len() == 0 { default_channel(id) } else { channel_name };
    let components = if u.components.contains_key(id) && !u.components[id].event_listeners.contains(channel) {
        let c = u.components[id];
        u.components.insert(id, ComponentV { event_listeners: c.event_listeners.push(channel), ..c })
    } else {
        u.components
    };
    let eid = bump(u.next_event_id);
    let event = EventV {
        event_id: eid,
        component_id: id,
        channel,
        payload: "event_signal_"@ + decimal(eid as nat),
    };
    UiV {
        components,
        listeners: store(u.listeners, channel, id),
        next_event_id: eid,
        queue: u.queue.push(event),
        event_signal_count: bump(u.event_signal_count),
        ..u
    }
}

/// The properties with `v` under `k`: the value of an existing key replaced,
/// or a new entry at its place in key order.
pub open spec fn sorted_insert(props: Seq<(Seq<char>, Seq<char>)>, k: Seq<char>, v: Seq<char>) -> Seq<(Seq<char>, Seq<char>)>
    decreases props.len(),
{
    if props.len() == 0 {
        seq![(k, v)]
    } else if props[0].0 == k {
        props.update(0, (k, v))
    } else if str_lt(k, props[0].0) {
        seq![(k, v)] + props
    } else {
        seq![props[0]] + sorted_insert(props.drop_first(), k, v)
    }
}

/// The properties after one `key=value` piece (pieces without `=` change
/// nothing); key and value are trimmed.
pub open spec fn apply_part(props: Seq<(Seq<char>, Seq<char>)>, part: Seq<char>) -> Seq<(Seq<char>, Seq<char>)> {
    match split_once(part, '=') {
        Some((k, v)) => sorted_insert(props, trim(k), trim(v)),
        None => props,
    }
}

/// The properties after each piece in turn.
pub open spec fn apply_parts(props: Seq<(Seq<char>, Seq<char>)>, parts: Seq<Seq<char>>) -> Seq<(Seq<char>, Seq<char>)>
    decreases parts.len(),
{
    if parts.len() == 0 {
        props
    } else {
        apply_part(apply_parts(props, parts.drop_last()), parts.last())
    }
}

/// The properties after a property update text: comma-separated
/// `key=value` pieces when it holds a `=`, else the whole text under
/// `payload`.
pub open spec fn updated_props(props: Seq<(Seq<char>, Seq<char>)>, text: Seq<char>) -> Seq<(Seq<char>, Seq<char>)> {
    if text.contains('=') {
        apply_parts(props, split_on(text, ','))
    } else {
        sorted_insert(props, "payload"@, text)
    }
}

/// The text of a property update that reads none from memory.
pub open spec fn state_sync(payload: usize) -> Seq<char> {
    "state_sync="@ + decimal(payload as nat)
}

/// `PropUpdate`: applies the text at the payload address (at most 256
/// bytes) to the component's properties and counts a sync.
pub open spec fn prop_spec(u: UiV, s: VmState, id: u32, payload: usize) -> UiV {
    let text = if payload != 0 {
        match read_str_limit(s, payload, 256) {
            Some(t) => t,
            None => state_sync(payload),
        }
    } else {
        state_sync(payload)
    };
    let components = if u.components.contains_key(id) {
        let c = u.components[id];
        u.components.insert(id, ComponentV { sync_count: bump(c.sync_count), props: updated_props(c.props, text), ..c })
    } else {
        u.components
    };
    UiV { components, prop_update_count: bump(u.prop_update_count), ..u }
}

/// The chunk that a render appends to the stream: the `R0` bytes at the
/// payload address when `R0` is not zero, else the bytes up to a zero byte.
pub open spec fn render_chunk(s: VmState, payload: usize) -> Option<Seq<u8>> {
    let len: usize = if s.reg(0) > 0 { s.reg(0) as usize } else { 0 };
    if payload != 0 && len > 0 {
        if s.region_valid(payload as int, len as int) {
            Some(s.bytes_at(payload as int, len as int))
        } else {
            None
        }
    } else if payload != 0 {
        match s.bytes_until_null(payload as int) {
            Ok(bs) => if bs.len() > 0 { Some(bs) } else { None },
            Err(_) => None,
        }
    } else {
        None
    }
}

/// One rendered property line.
pub open spec fn prop_line(kv: (Seq<char>, Seq<char>)) -> Seq<char> {
    "    "@ + kv.0 + "=\""@ + kv.1 + "\"\n"@
}

/// The rendered property lines, in order.
pub open spec fn props_text(props: Seq<(Seq<char>, Seq<char>)>) -> Seq<char>
    decreases props.len(),
{
    if props.len() == 0 {
        Seq::empty()
    } else {
        props_text(props.drop_last()) + prop_line(props.last())
    }
}

/// The markup of a render.
pub open spec fn render_text(components: Map<u32, ComponentV>, id: u32, count: u32, stream: StreamV) -> Seq<char> {
    let head = "<ui-root component_id=\""@ + decimal(id as nat) + "\" render_count=\""@ + decimal(count as nat) + "\">\n"@;
    let body = if components.contains_key(id) {
        let c = components[id];
        "  <"@ + c.component_type + "\n"@ + props_text(c.props) + "  />\n"@
    } else {
        Seq::empty()
    };
    let tail = if stream.total_bytes > 0 {
        "  <stream-buffer total_bytes=\""@ + decimal(stream.total_bytes as nat) + "\" chunk_count=\""@ + decimal(
            stream.chunks.len(),
        ) + "\"/>\n"@
    } else {
        Seq::empty()
    };
    head + body + tail + "</ui-root>"@
}

/// `Render`: appends the payload chunk to the stream and renders the
/// component.
pub open spec fn render_spec(u: UiV, s: VmState, id: u32, payload: usize) -> UiV {
    let stream = match render_chunk(s, payload) {
        Some(bs) => appended(u.stream, bs),
        None => u.stream,
    };
    let count = bump(u.render_count);
    UiV { stream, render_count: count, last_output: Some(render_text(u.components, id, count, stream)), ..u }
}

/// The command of a `UiCall`: the value of register `b` when it is 1 to 4,
/// else the number `b` when it is, else 1 (mount).
pub open spec fn ui_command(s: VmState, b: usize) -> u32 {
    let vb: u32 = if b < 256 { s.reg(b) } else { 0 };
    if 1 <= vb <= 4 {
        vb
    } else if 1 <= (b as u32) <= 4 {
        b as u32
    } else {
        1
    }
}

/// The component of a `UiCall`: the value of register `a`, else the number
/// `a`, else 1.
pub open spec fn ui_component(s: VmState, a: usize) -> u32 {
    let va: u32 = if a < 256 { s.reg(a) } else { 0 };
    if va != 0 {
        va
    } else if a != 0 {
        a as u32
    } else {
        1
    }
}

/// The payload address of a `UiCall`: the value of register `c`, else the
/// number `c`.
pub open spec fn ui_payload(s: VmState, c: usize) -> usize {
    let vc: u32 = if c < 256 { s.reg(c) } else { 0 };
    if vc != 0 { vc as usize } else { c }
}

/// Whether a `UiCall` runs without a counter passing its machine word, where
/// it would panic: the count of the command's events, a component's sync
/// count, and the stream's byte count.
pub open spec fn dispatch_ok(u: UiV, s: VmState, a: usize, b: usize, c: usize) -> bool {
    let id = ui_component(s, a);
    let payload = ui_payload(s, c);
    let cmd = ui_command(s, b);
    if cmd == 1 {
        u.mount_count < u32::MAX
    } else if cmd == 2 {
        u.next_event_id < u32::MAX && u.event_signal_count < u32::MAX
    } else if cmd == 3 {
        u.prop_update_count < u32::MAX && (u.components.contains_key(id) ==> u.components[id].sync_count < u32::MAX)
    } else {
        u.render_count < u32::MAX && (render_chunk(s, payload) matches Some(bs) ==> u.stream.total_bytes + bs.len()
            <= usize::MAX)
    }
}

/// What a `UiCall` does to the engine.
pub open spec fn dispatch_spec(u: UiV, s: VmState, a: usize, b: usize, c: usize) -> UiV {
    let id = ui_component(s, a);
    let payload = ui_payload(s, c);
    let cmd = ui_command(s, b);
    if cmd == 1 {
        mount_spec(u, s, id, payload)
    } else if cmd == 2 {
        listener_spec(u, s, id, payload)
    } else if cmd == 3 {
        prop_spec(u, s, id, payload)
    } else {
        render_spec(u, s, id, payload)
    }
}

/// Inserting keeps the entries before the insertion point.
proof fn lemma_sorted_insert_prefix(props: Seq<(Seq<char>, Seq<char>)>, k: Seq<char>, v: Seq<char>, i: int)
    requires
        0 <= i <= props.len(),
        forall|j: int| 0 <= j < i ==> props[j].0 != k && !str_lt(k, props[j].0),
    ensures
        sorted_insert(props, k, v) == props.take(i) + sorted_insert(props.skip(i), k, v),
    decreases i,
{
    if i == 0 {
        assert(props.take(0) + sorted_insert(props.skip(0), k, v) =~= sorted_insert(props, k, v)) by {
            assert(props.skip(0) =~= props);
        }
    } else {
        let df = props.drop_first();
        assert forall|j: int| 0 <= j < i - 1 implies df[j].0 != k && !str_lt(k, df[j].0) by {
            assert(df[j] == props[j + 1]);
        }
        lemma_sorted_insert_prefix(df, k, v, i - 1);
        assert(df.skip(i - 1) =~= props.skip(i));
        assert(seq![props[0]] + df.take(i - 1) =~= props.take(i));
    }
}

/// Sets `v` under `k` in a property list kept in key order.
fn props_insert(props: &mut Vec<(String, String)>, k: String, v: String)
    ensures
        props_view(final(props)@) =~~= sorted_insert(props_view(old(props)@), k@, v@),
{
    let ghost l = props_view(props@);
    let kc = string_chars(&k);
    let mut i: usize = 0;
    while i < props.len()
        invariant
            i <= props@.len(),
            l == props_view(props@),
            kc@ == k@,
            forall|j: int| 0 <= j < i ==> l[j].0 != k@ && !str_lt(k@, l[j].0),
        ensures
            i <= props@.len(),
            l == props_view(props@),
            forall|j: int| 0 <= j < i ==> l[j].0 != k@ && !str_lt(k@, l[j].0),
            i < props@.len() ==> (l[i as int].0 == k@ || str_lt(k@, l[i as int].0)),
        decreases props@.len() - i,
    {
        if props[i].0 == k {
            break;
        }
        let pc = string_chars(&props[i].0);
        if chars_lt(&kc, &pc) {
            break;
        }
        i = i + 1;
    }
    proof {
        lemma_sorted_insert_prefix(l, k@, v@, i as int);
    }
    let ghost kv = (k@, v@);
    if i < props.len() && props[i].0 == k {
        proof {
            assert(l.skip(i as int)[0] == l[i as int]);
            assert(sorted_insert(l.skip(i as int), k@, v@) =~= l.skip(i as int).update(0, kv));
        }
        props.set(i, (k, v));
        proof {
            assert(props_view(props@) =~~= l.take(i as int) + l.skip(i as int).update(0, kv));
        }
    } else {
        proof {
            if i < l.len() {
                assert(l.skip(i as int)[0] == l[i as int]);
                assert(sorted_insert(l.skip(i as int), k@, v@) =~= seq![kv] + l.skip(i as int));
            } else {
                assert(l.skip(i as int) =~= Seq::<(Seq<char>, Seq<char>)>::empty());
            }
        }
        props.insert(i, (k, v));
        proof {
            assert(props_view(props@) =~~= l.take(i as int) + (seq![kv] + l.skip(i as int)));
        }
    }
}

/// Sets the component of `channel`: replaces the first entry for it, or adds
/// one.
fn store_listener(table: &mut Vec<(String, u32)>, channel: String, id: u32)
    ensures
        listeners_view(final(table)@) =~~= store(listeners_view(old(table)@), channel@, id),
{
    let ghost l = listeners_view(table@);
    match find_key(table, &channel) {
        Some(i) => {
            proof {
                assert forall|j: int| 0 <= j < i implies l[j].0 != channel@ by {
                    assert(l[j].0 == table@[j].0@);
                }
                lemma_key_index_is(l, channel@, i as int);
            }
            let ghost cv = channel@;
            table.set(i, (channel, id));
            proof {
                assert(listeners_view(table@) =~~= l.update(i as int, (cv, id)));
            }
        },
        None => {
            proof {
                assert forall|j: int| 0 <= j < l.len() implies l[j].0 != channel@ by {
                    assert(l[j].0 == table@[j].0@);
                }
                lemma_key_index_absent(l, channel@);
            }
            let ghost cv = channel@;
            table.push((channel, id));
            proof {
                assert(listeners_view(table@) =~~= l.push((cv, id)));
            }
        },
    }
}

/// Whether `list` holds `s`.
fn contains_string(list: &Vec<String>, s: &String) -> (r: bool)
    ensures
        r == strings_view(list@).contains(s@),
{
    let ghost l = strings_view(list@);
    let mut i: usize = 0;
    while i < list.len()
        invariant
            i <= list@.len(),
            l == strings_view(list@),
            forall|j: int| 0 <= j < i ==> l[j] != s@,
        decreases list@.len() - i,
    {
        if list[i] == *s {
            assert(l[i as int] == s@);
            return true;
        }
        i = i + 1;
    }
    false
}

/// A string of the text, then the decimal digits of `n`.
fn text_and_number(prefix: &str, n: usize) -> (r: String)
    ensures
        r@ == prefix@ + decimal(n as nat),
{
    let mut cs: Vec<char> = Vec::new();
    push_str(&mut cs, prefix);
    let digits = decimal_chars(n);
    push_chars(&mut cs, &digits);
    string_from_chars(&cs)
}

impl UiDispatcher {
    /// An engine with nothing mounted, queued or rendered.
    pub fn new() -> (r: Self)
        ensures
            r@ =~~= empty_ui(),
    {
        UiDispatcher {
            components: BTreeMap::new(),
            event_listeners: Vec::new(),
            event_queue: Vec::new(),
            stream_buffer: StreamBuffer::new(),
            mount_count: 0,
            event_signal_count: 0,
            prop_update_count: 0,
            render_count: 0,
            next_event_id: 0,
            last_rendered_output: None,
        }
    }

    /// Forgets every component, listener, event, chunk and count.
    pub fn reset(&mut self)
        ensures
            final(self)@ =~~= empty_ui(),
    {
        self.components.clear();
        self.event_listeners.clear();
        self.event_queue.clear();
        self.stream_buffer.clear();
        self.mount_count = 0;
        self.event_signal_count = 0;
        self.prop_update_count = 0;
        self.render_count = 0;
        self.next_event_id = 0;
        self.last_rendered_output = None;
    }

    fn handle_mount(&mut self, vm: &ScriptVm, component_id: u32, payload_address: usize)
        requires
            vm.wf(),
            old(self).mount_count < u32::MAX,
        ensures
            final(self)@ =~~= mount_spec(old(self)@, vm@, component_id, payload_address),
    {
        let type_string = if payload_address != 0 {
            match read_text_limit(vm, payload_address, 64) {
                Some(t) => t,
                None => String::from_str("container"),
            }
        } else {
            String::from_str("container")
        };
        let component_type = if type_string.as_str().is_empty() {
            String::from_str("container")
        } else {
            type_string
        };
        let component = UiComponent::new(component_id, component_type);
        let ghost cv = component@;
        let ghost before = self.components@;
        self.components.insert(component_id, component);
        self.mount_count = self.mount_count + 1;
        proof {
            assert(components_view(self.components@) =~~= components_view(before).insert(component_id, cv));
        }
    }

    fn handle_event_listener(&mut self, vm: &ScriptVm, component_id: u32, payload_address: usize)
        requires
            vm.wf(),
            old(self).next_event_id < u32::MAX,
            old(self).event_signal_count < u32::MAX,
        ensures
            final(self)@ =~~= listener_spec(old(self)@, vm@, component_id, payload_address),
    {
        let channel_name = if payload_address != 0 {
            match read_text_limit(vm, payload_address, 128) {
                Some(t) => t,
                None => text_and_number("tauri://ipc/channel_", component_id as usize),
            }
        } else {
            text_and_number("tauri://ipc/channel_", component_id as usize)
        };
        let channel = if channel_name.as_str().is_empty() {
            text_and_number("tauri://ipc/channel_", component_id as usize)
        } else {
            channel_name
        };
        let ghost before = self.components@;
        match self.components.remove(&component_id) {
            Some(mut comp) => {
                let ghost c0 = comp@;
                if !contains_string(&comp.event_listeners, &channel) {
                    let ghost ls = comp.event_listeners@;
                    comp.event_listeners.push(channel.clone());
                    proof {
                        assert(strings_view(comp.event_listeners@) =~~= strings_view(ls).push(channel@));
                    }
                }
                let ghost c1 = comp@;
                self.components.insert(component_id, comp);
                proof {
                    assert(components_view(self.components@) =~~= components_view(before).insert(component_id, c1));
                    if c0.event_listeners.contains(channel@) {
                        assert(c1 =~~= c0);
                        assert(components_view(before).insert(component_id, c0) =~~= components_view(before));
                    }
                }
            },
            None => {
                proof {
                    assert(self.components@ =~= before);
                }
            },
        }
        store_listener(&mut self.event_listeners, channel.clone(), component_id);
        self.next_event_id = self.next_event_id + 1;
        let event = UiEvent {
            event_id: self.next_event_id,
            component_id,
            channel,
            payload: text_and_number("event_signal_", self.next_event_id as usize),
        };
        let ghost q = self.event_queue@;
        let ghost ev = event@;
        self.event_queue.push(event);
        proof {
            assert(events_view(self.event_queue@) =~~= events_view(q).push(ev));
        }
        self.event_signal_count = self.event_signal_count + 1;
    }
}

/// Applies a property update text to a property list.
fn update_props(props: &mut Vec<(String, String)>, text: String)
    ensures
        props_view(final(props)@) =~~= updated_props(props_view(old(props)@), text@),
{
    let cs = string_chars(&text);
    let found = find_char(&cs, '=');
    proof {
        lemma_first_index(cs@, '=');
        if found is None {
            assert(!text@.contains('='));
        } else {
            assert(text@.contains('='));
        }
    }
    if found.is_some() {
        let parts = split_chars(&cs, ',');
        let ghost pv = parts@.map_values(|p: Vec<char>| p@);
        let ghost orig = props_view(props@);
        let mut k: usize = 0;
        while k < parts.len()
            invariant
                k <= parts@.len(),
                pv == parts@.map_values(|p: Vec<char>| p@),
                pv == split_on(cs@, ','),
                cs@ == text@,
                props_view(props@) == apply_parts(orig, pv.take(k as int)),
            decreases parts@.len() - k,
        {
            let part = &parts[k];
            let ghost before = props_view(props@);
            match find_char(part, '=') {
                Some(i) => {
                    proof {
                        lemma_first_index(part@, '=');
                    }
                    let n = part.len();
                    let key = trim_chars(&chars_between(part, 0, i));
                    let val = trim_chars(&chars_between(part, i + 1, n));
                    proof {
                        assert(part@.subrange(0, i as int) =~= part@.take(i as int));
                        assert(part@.subrange(i + 1, n as int) =~= part@.skip(i + 1));
                    }
                    props_insert(props, string_from_chars(&key), string_from_chars(&val));
                },
                None => {},
            }
            proof {
                assert(pv[k as int] == part@);
                assert(pv.take(k + 1).drop_last() =~= pv.take(k as int));
            }
            k = k + 1;
        }
        proof {
            assert(pv.take(parts@.len() as int) =~= pv);
        }
    } else {
        props_insert(props, String::from_str("payload"), text);
    }
}

/// The chunk that a render appends to the stream, if any.
fn read_render_chunk(vm: &ScriptVm, payload_address: usize) -> (r: Option<Vec<u8>>)
    requires
        vm.wf(),
    ensures
        match r {
            Some(bs) => render_chunk(vm@, payload_address) == Some(bs@),
            None => render_chunk(vm@, payload_address) is None,
        },
{
    let payload_length: usize = if vm.registers[0] > 0 { vm.registers[0] as usize } else { 0 };
    if payload_address != 0 && payload_length > 0 {
        match vm.read_bytes(payload_address, payload_length, false) {
            Ok(bytes) => Some(bytes),
            Err(_) => None,
        }
    } else if payload_address != 0 {
        match vm.read_bytes(payload_address, 1024, true) {
            Ok(bytes) => {
                if bytes.len() > 0 {
                    Some(bytes)
                } else {
                    None
                }
            },
            Err(_) => None,
        }
    } else {
        None
    }
}

/// Adds the rendered property lines to `out`.
fn push_props(out: &mut Vec<char>, props: &Vec<(String, String)>)
    ensures
        final(out)@ == old(out)@ + props_text(props_view(props@)),
{
    let ghost pv = props_view(props@);
    let mut k: usize = 0;
    assert(pv.take(0) =~= Seq::<(Seq<char>, Seq<char>)>::empty());
    while k < props.len()
        invariant
            k <= props@.len(),
            pv == props_view(props@),
            out@ == old(out)@ + props_text(pv.take(k as int)),
        decreases props@.len() - k,
    {
        push_str(out, "    ");
        push_chars(out, &string_chars(&props[k].0));
        push_str(out, "=\"");
        push_chars(out, &string_chars(&props[k].1));
        push_str(out, "\"\n");
        proof {
            assert(pv.take(k + 1).drop_last() =~= pv.take(k as int));
            assert(pv.take(k + 1).last() == pv[k as int]);
            assert(out@ =~= old(out)@ + props_text(pv.take(k as int)) + prop_line(pv[k as int]));
        }
        k = k + 1;
    }
    proof {
        assert(pv.take(props@.len() as int) =~= pv);
    }
}

/// The markup of a render of component `id`.
fn render_markup(components: &BTreeMap<u32, UiComponent>, id: u32, count: u32, stream: &StreamBuffer) -> (r: String)
    ensures
        r@ == render_text(components_view(components@), id, count, stream@),
{
    let mut out: Vec<char> = Vec::new();
    push_str(&mut out, "<ui-root component_id=\"");
    push_chars(&mut out, &decimal_chars(id as usize));
    push_str(&mut out, "\" render_count=\"");
    push_chars(&mut out, &decimal_chars(count as usize));
    push_str(&mut out, "\">\n");
    let ghost head = out@;
    match components.get(&id) {
        Some(comp) => {
            push_str(&mut out, "  <");
            push_chars(&mut out, &string_chars(&comp.component_type));
            push_str(&mut out, "\n");
            push_props(&mut out, &comp.props);
            push_str(&mut out, "  />\n");
        },
        None => {},
    }
    let ghost mid = out@;
    if stream.total_bytes > 0 {
        push_str(&mut out, "  <stream-buffer total_bytes=\"");
        push_chars(&mut out, &decimal_chars(stream.total_bytes));
        push_str(&mut out, "\" chunk_count=\"");
        push_chars(&mut out, &decimal_chars(stream.chunk_count()));
        push_str(&mut out, "\"/>\n");
    }
    push_str(&mut out, "</ui-root>");
    proof {
        assert(out@ =~= render_text(components_view(components@), id, count, stream@));
    }
    string_from_chars(&out)
}

impl UiDispatcher {
    fn handle_prop_update(&mut self, vm: &ScriptVm, component_id: u32, payload_address: usize)
        requires
            vm.wf(),
            old(self).prop_update_count < u32::MAX,
            old(self)@.components.contains_key(component_id) ==> old(self)@.components[component_id].sync_count
                < u32::MAX,
        ensures
            final(self)@ =~~= prop_spec(old(self)@, vm@, component_id, payload_address),
    {
        let text = if payload_address != 0 {
            match read_text_limit(vm, payload_address, 256) {
                Some(t) => t,
                None => text_and_number("state_sync=", payload_address),
            }
        } else {
            text_and_number("state_sync=", payload_address)
        };
        let ghost before = self.components@;
        match self.components.remove(&component_id) {
            Some(mut comp) => {
                comp.sync_count = comp.sync_count + 1;
                update_props(&mut comp.props, text);
                let ghost c1 = comp@;
                self.components.insert(component_id, comp);
                proof {
                    assert(components_view(self.components@) =~~= components_view(before).insert(component_id, c1));
                }
            },
            None => {
                proof {
                    assert(self.components@ =~= before);
                }
            },
        }
        self.prop_update_count = self.prop_update_count + 1;
    }

    fn handle_render_stream(&mut self, vm: &ScriptVm, component_id: u32, payload_address: usize)
        requires
            vm.wf(),
            old(self).render_count < u32::MAX,
            render_chunk(vm@, payload_address) matches Some(bs) ==> old(self).stream_buffer.total_bytes + bs.len()
                <= usize::MAX,
        ensures
            final(self)@ =~~= render_spec(old(self)@, vm@, component_id, payload_address),
    {
        match read_render_chunk(vm, payload_address) {
            Some(bytes) => self.stream_buffer.append_chunk(bytes.as_slice()),
            None => {},
        }
        self.render_count = self.render_count + 1;
        let rendered = render_markup(&self.components, component_id, self.render_count, &self.stream_buffer);
        self.last_rendered_output = Some(rendered);
    }

    /// Runs a `UiCall` with operand bytes `reg_a` (the component), `reg_b`
    /// (the command: 1 mount, 2 event listener, 3 property update, 4 render)
    /// and `reg_c` (the payload address); it always succeeds.
    pub fn dispatch(&mut self, vm: &ScriptVm, reg_a: usize, reg_b: usize, reg_c: usize) -> (r: Result<(), VmError>)
        requires
            vm.wf(),
            dispatch_ok(old(self)@, vm@, reg_a, reg_b, reg_c),
        ensures
            r == Ok::<(), VmError>(()),
            final(self)@ =~~= dispatch_spec(old(self)@, vm@, reg_a, reg_b, reg_c),
    {
        let (command, component_id, payload_address) = call_operands(vm, reg_a, reg_b, reg_c);
        if command == 1 {
            self.handle_mount(vm, component_id, payload_address);
        } else if command == 2 {
            self.handle_event_listener(vm, component_id, payload_address);
        } else if command == 3 {
            self.handle_prop_update(vm, component_id, payload_address);
        } else {
            self.handle_render_stream(vm, component_id, payload_address);
        }
        Ok(())
    }
}

/// The command, component and payload address of a `UiCall`.
fn call_operands(vm: &ScriptVm, reg_a: usize, reg_b: usize, reg_c: usize) -> (r: (u32, u32, usize))
    requires
        vm.wf(),
    ensures
        r == (ui_command(vm@, reg_b), ui_component(vm@, reg_a), ui_payload(vm@, reg_c)),
{
    let val_a: u32 = if reg_a < 256 { vm.registers[reg_a] } else { 0 };
    let val_b: u32 = if reg_b < 256 { vm.registers[reg_b] } else { 0 };
    let val_c: u32 = if reg_c < 256 { vm.registers[reg_c] } else { 0 };
    let command: u32 = if 1 <= val_b && val_b <= 4 {
        val_b
    } else if 1 <= (reg_b as u32) && (reg_b as u32) <= 4 {
        reg_b as u32
    } else {
        1
    };
    let component_id: u32 = if val_a != 0 {
        val_a
    } else if reg_a != 0 {
        reg_a as u32
    } else {
        1
    };
    let payload_address: usize = if val_c != 0 { val_c as usize } else { reg_c };
    (command, component_id, payload_address)
}

impl UiDispatcher {
    /// Whether a `UiCall` runs without a counter passing its machine word.
    pub fn dispatch_fits(&self, vm: &ScriptVm, reg_a: usize, reg_b: usize, reg_c: usize) -> (r: bool)
        requires
            vm.wf(),
        ensures
            r == dispatch_ok(self@, vm@, reg_a, reg_b, reg_c),
    {
        let (command, component_id, payload_address) = call_operands(vm, reg_a, reg_b, reg_c);
        if command == 1 {
            self.mount_count < u32::MAX
        } else if command == 2 {
            self.next_event_id < u32::MAX && self.event_signal_count < u32::MAX
        } else if command == 3 {
            let sync_fits = match self.components.get(&component_id) {
                Some(c) => c.sync_count < u32::MAX,
                None => true,
            };
            self.prop_update_count < u32::MAX && sync_fits
        } else {
            let chunk_fits = match read_render_chunk(vm, payload_address) {
                Some(bs) => bs.len() <= usize::MAX - self.stream_buffer.total_bytes,
                None => true,
            };
            self.render_count < u32::MAX && chunk_fits
        }
    }

    /// Runs a `UiCall` when no counter would pass its machine word; `None`,
    /// with nothing changed, where the call would panic.
    pub fn try_dispatch(&mut self, vm: &ScriptVm, reg_a: usize, reg_b: usize, reg_c: usize) -> (r: Option<
        Result<(), VmError>,
    >)
        requires
            vm.wf(),
        ensures
            dispatch_ok(old(self)@, vm@, reg_a, reg_b, reg_c) ==> r == Some(Ok::<(), VmError>(()))
                && final(self)@ =~~= dispatch_spec(old(self)@, vm@, reg_a, reg_b, reg_c),
            !dispatch_ok(old(self)@, vm@, reg_a, reg_b, reg_c) ==> r is None && final(self)@ =~~= old(self)@,
    {
        if self.dispatch_fits(vm, reg_a, reg_b, reg_c) {
            Some(self.dispatch(vm, reg_a, reg_b, reg_c))
        } else {
            None
        }
    }
}

impl Default for UiDispatcher {
    fn default() -> (r: Self)
        ensures
            r@ =~~= empty_ui(),
    {
        UiDispatcher::new()
    }
}

/// Whether the properties are in strictly increasing key order (so each key
/// occurs once), as a `BTreeMap` holds them.
pub open spec fn props_sorted(props: Seq<(Seq<char>, Seq<char>)>) -> bool {
    forall|i: int, j: int| 0 <= i < j < props.len() ==> str_lt(#[trigger] props[i].0, #[trigger] props[j].0)
}

/// Setting a property gives a list with the new entry, every entry of the
/// old list under another key, and nothing else.
pub proof fn lemma_sorted_insert_entries(props: Seq<(Seq<char>, Seq<char>)>, k: Seq<char>, v: Seq<char>)
    ensures
        sorted_insert(props, k, v).contains((k, v)),
        forall|e: (Seq<char>, Seq<char>)| #[trigger] props.contains(e) && e.0 != k ==> sorted_insert(props, k, v).contains(e),
        forall|e: (Seq<char>, Seq<char>)| #[trigger] sorted_insert(props, k, v).contains(e) ==> e == (k, v) || props.contains(e),
    decreases props.len(),
{
    let r = sorted_insert(props, k, v);
    if props.len() == 0 {
        assert(r[0] == (k, v));
    } else if props[0].0 == k {
        assert(r[0] == (k, v));
        assert forall|e: (Seq<char>, Seq<char>)| props.contains(e) && e.0 != k implies r.contains(e) by {
            let i = choose|i: int| 0 <= i < props.len() && props[i] == e;
            assert(i != 0);
            assert(r[i] == e);
        }
        assert forall|e: (Seq<char>, Seq<char>)| r.contains(e) implies e == (k, v) || props.contains(e) by {
            let i = choose|i: int| 0 <= i < r.len() && r[i] == e;
            if i != 0 {
                assert(props[i] == e);
            }
        }
    } else if str_lt(k, props[0].0) {
        assert(r[0] == (k, v));
        assert forall|e: (Seq<char>, Seq<char>)| props.contains(e) && e.0 != k implies r.contains(e) by {
            let i = choose|i: int| 0 <= i < props.len() && props[i] == e;
            assert(r[i + 1] == e);
        }
        assert forall|e: (Seq<char>, Seq<char>)| r.contains(e) implies e == (k, v) || props.contains(e) by {
            let i = choose|i: int| 0 <= i < r.len() && r[i] == e;
            if i != 0 {
                assert(props[i - 1] == e);
            }
        }
    } else {
        let rest = props.drop_first();
        lemma_sorted_insert_entries(rest, k, v);
        let rr = sorted_insert(rest, k, v);
        assert(r =~= seq![props[0]] + rr);
        let j = choose|j: int| 0 <= j < rr.len() && rr[j] == (k, v);
        assert(r[j + 1] == (k, v));
        assert forall|e: (Seq<char>, Seq<char>)| props.contains(e) && e.0 != k implies r.contains(e) by {
            let i = choose|i: int| 0 <= i < props.len() && props[i] == e;
            if i == 0 {
                assert(r[0] == e);
            } else {
                assert(rest[i - 1] == e);
                assert(rest.contains(e));
                assert(rr.contains(e));
                let m = choose|m: int| 0 <= m < rr.len() && rr[m] == e;
                assert(r[m + 1] == e);
            }
        }
        assert forall|e: (Seq<char>, Seq<char>)| r.contains(e) implies e == (k, v) || props.contains(e) by {
            let i = choose|i: int| 0 <= i < r.len() && r[i] == e;
            if i == 0 {
                assert(props[0] == e);
            } else {
                assert(rr[i - 1] == e);
                assert(rr.contains(e));
                if rest.contains(e) {
                    let m = choose|m: int| 0 <= m < rest.len() && rest[m] == e;
                    assert(props[m + 1] == e);
                }
            }
        }
    }
}

/// Setting a property keeps the properties in increasing key order.
pub proof fn lemma_sorted_insert_sorted(props: Seq<(Seq<char>, Seq<char>)>, k: Seq<char>, v: Seq<char>)
    requires
        props_sorted(props),
    ensures
        props_sorted(sorted_insert(props, k, v)),
    decreases props.len(),
{
    let r = sorted_insert(props, k, v);
    if props.len() == 0 {
    } else if props[0].0 == k {
        assert forall|i: int, j: int| 0 <= i < j < r.len() implies str_lt(#[trigger] r[i].0, #[trigger] r[j].0) by {
            assert(r[i].0 == props[i].0);
            assert(r[j].0 == props[j].0);
        }
    } else if str_lt(k, props[0].0) {
        assert forall|i: int, j: int| 0 <= i < j < r.len() implies str_lt(#[trigger] r[i].0, #[trigger] r[j].0) by {
            if i == 0 {
                if j > 1 {
                    assert(str_lt(props[0].0, props[j - 1].0));
                    lemma_str_lt_transitive(k, props[0].0, props[j - 1].0);
                }
            } else {
                assert(str_lt(props[i - 1].0, props[j - 1].0));
            }
        }
    } else {
        let rest = props.drop_first();
        assert(props_sorted(rest)) by {
            assert forall|i: int, j: int| 0 <= i < j < rest.len() implies str_lt(#[trigger] rest[i].0, #[trigger] rest[j].0) by {
                assert(str_lt(props[i + 1].0, props[j + 1].0));
            }
        }
        lemma_sorted_insert_sorted(rest, k, v);
        lemma_sorted_insert_entries(rest, k, v);
        lemma_str_lt_total(k, props[0].0);
        let rr = sorted_insert(rest, k, v);
        assert(r =~= seq![props[0]] + rr);
        assert forall|i: int, j: int| 0 <= i < j < r.len() implies str_lt(#[trigger] r[i].0, #[trigger] r[j].0) by {
            if i == 0 {
                let e = rr[j - 1];
                assert(rr.contains(e));
                if e != (k, v) {
                    let m = choose|m: int| 0 <= m < rest.len() && rest[m] == e;
                    assert(str_lt(props[0].0, props[m + 1].0));
                }
            } else {
                assert(str_lt(rr[i - 1].0, rr[j - 1].0));
            }
        }
    }
}

/// The chunks' bytes add up to the byte count, and appending a chunk keeps
/// that.
pub proof fn lemma_appended_total(b: StreamV, chunk: Seq<u8>)
    requires
        b.total_bytes == flatten(b.chunks).len(),
        b.total_bytes + chunk.len() <= usize::MAX,
    ensures
        appended(b, chunk).total_bytes == flatten(appended(b, chunk).chunks).len(),
        flatten(appended(b, chunk).chunks) == flatten(b.chunks) + chunk,
{
    assert(appended(b, chunk).chunks.drop_last() =~= b.chunks);
}

/// Applying property pieces keeps the properties in key order.
pub proof fn lemma_apply_parts_sorted(props: Seq<(Seq<char>, Seq<char>)>, parts: Seq<Seq<char>>)
    requires
        props_sorted(props),
    ensures
        props_sorted(apply_parts(props, parts)),
    decreases parts.len(),
{
    if parts.len() > 0 {
        lemma_apply_parts_sorted(props, parts.drop_last());
        let before = apply_parts(props, parts.drop_last());
        match split_once(parts.last(), '=') {
            Some((k, v)) => lemma_sorted_insert_sorted(before, trim(k), trim(v)),
            None => {},
        }
    }
}

/// Whether every component's properties are in key order.
pub open spec fn all_props_sorted(u: UiV) -> bool {
    forall|id: u32| #[trigger] u.components.contains_key(id) ==> props_sorted(u.components[id].props)
}

/// Every `UiCall` keeps each component's properties in increasing key
/// order, so a render lists them in key order.
pub proof fn lemma_dispatch_keeps_props_sorted(u: UiV, s: VmState, a: usize, b: usize, c: usize)
    requires
        all_props_sorted(u),
    ensures
        all_props_sorted(dispatch_spec(u, s, a, b, c)),
{
    let id = ui_component(s, a);
    let payload = ui_payload(s, c);
    let cmd = ui_command(s, b);
    let r = dispatch_spec(u, s, a, b, c);
    if cmd == 3 && u.components.contains_key(id) {
        let text = if payload != 0 {
            match read_str_limit(s, payload, 256) {
                Some(t) => t,
                None => state_sync(payload),
            }
        } else {
            state_sync(payload)
        };
        let p = u.components[id].props;
        if text.contains('=') {
            lemma_apply_parts_sorted(p, split_on(text, ','));
        } else {
            lemma_sorted_insert_sorted(p, "payload"@, text);
        }
    }
    assert forall|x: u32| #[trigger] r.components.contains_key(x) implies props_sorted(r.components[x].props) by {
        if x != id {
            assert(u.components.contains_key(x));
        }
    }
}

} // verus!
