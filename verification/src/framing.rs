//! Framing: how buffers split into messages, what the proxy builds is whole
//! messages, and scanning in pieces and in counted steps.
use vstd::prelude::*;
use crate::events::{configure_rewrite, decoration_configure, event_step, surface_configures};
use crate::message::{OperationView, Stream, forwarded};
use crate::laws::lemma_one_message_one_step;
use crate::requests::{destroy_rewrite, layer_surface_messages, popup_rewrite, request_step};
use crate::scan::{lemma_prefixed_twice, prefixed, scan, step};
use crate::state::{LayerSettings, StateView};
use crate::wire::{bind_message, header, le_u16, le_u32, u16_at, u32_at};

verus! {

/// `s` is a whole number of messages: each header gives a size of at least
/// eight bytes that ends within `s`, and the next message starts there.
pub open spec fn is_framed(s: Seq<u8>) -> bool
    decreases s.len(),
{
    if s.len() == 0 {
        true
    } else if s.len() < 8 {
        false
    } else {
        let size = u16_at(s, 6);
        8 <= size <= s.len() && is_framed(s.skip(size as int))
    }
}

/// `s` is a whole number of messages as [`scan`] reads them: at each start
/// there is a header, whose size is at least one byte and ends within `s`.
pub open spec fn whole_messages(s: Seq<u8>) -> bool
    decreases s.len(),
{
    if s.len() == 0 {
        true
    } else if s.len() < 8 {
        false
    } else {
        let size = u16_at(s, 6);
        1 <= size <= s.len() && whole_messages(s.skip(size as int))
    }
}

/// The number of messages [`scan`] finds in `b`: it stops at the end, at a
/// tail shorter than a header, and at a size of zero or beyond the end.
pub open spec fn message_count(b: Seq<u8>) -> nat
    decreases b.len(),
{
    if b.len() < 8 {
        0
    } else {
        let size = u16_at(b, 6);
        if size == 0 || size > b.len() {
            0
        } else {
            1 + message_count(b.skip(size as int))
        }
    }
}

/// The number of times [`scan`] of `b` from `st` consults [`step`].
pub open spec fn scan_steps(stream: Stream, b: Seq<u8>, st: StateView) -> nat
    decreases b.len(),
{
    if b.len() < 8 {
        0
    } else {
        let size = u16_at(b, 6);
        if size == 0 || size > b.len() {
            0
        } else {
            match step(stream, b, st) {
                None => 1,
                Some((_, next)) => 1 + scan_steps(stream, b.skip(size as int), next),
            }
        }
    }
}

/// Every size that [`scan`] reads in `b` is at least eight, whatever tail
/// follows the last of them.
pub open spec fn sizes_at_least_eight(b: Seq<u8>) -> bool
    decreases b.len(),
{
    if b.len() < 8 {
        true
    } else {
        let size = u16_at(b, 6);
        if size == 0 || size > b.len() {
            true
        } else {
            size >= 8 && sizes_at_least_eight(b.skip(size as int))
        }
    }
}

/// A scan consults [`step`] at most once per message of the buffer, so at
/// most once per byte, and at most once per eight bytes where every size it
/// reads is at least eight (a framed buffer, or one followed by a short or
/// oversized tail).
pub proof fn lemma_scan_steps_bounded(stream: Stream, b: Seq<u8>, st: StateView)
    ensures
        scan_steps(stream, b, st) <= message_count(b),
        message_count(b) <= b.len(),
        sizes_at_least_eight(b) ==> 8 * message_count(b) <= b.len(),
        is_framed(b) ==> sizes_at_least_eight(b),
    decreases b.len(),
{
    if b.len() >= 8 {
        let size = u16_at(b, 6);
        if size != 0 && size <= b.len() {
            lemma_scan_steps_bounded(stream, b.skip(size as int), st);
            if let Some((_, next)) = step(stream, b, st) {
                lemma_scan_steps_bounded(stream, b.skip(size as int), next);
            }
        }
    }
}

/// A framed buffer is whole messages.
pub proof fn lemma_framed_whole(s: Seq<u8>)
    requires
        is_framed(s),
    ensures
        whole_messages(s),
    decreases s.len(),
{
    if s.len() > 0 {
        lemma_framed_whole(s.skip(u16_at(s, 6) as int));
    }
}

/// Encoding a `u32` little-endian and reading it back gives it back.
pub proof fn lemma_u32_roundtrip(x: u32)
    ensures
        le_u32(x).len() == 4,
        u32_at(le_u32(x), 0) == x,
{
    assert(x == x % 256 + 256 * ((x / 256) % 256) + 65536 * ((x / 65536) % 256) + 16777216 * (x
        / 16777216)) by (nonlinear_arith);
}

/// Encoding a `u16` little-endian and reading it back gives it back.
pub proof fn lemma_u16_roundtrip(x: u16)
    ensures
        le_u16(x).len() == 2,
        u16_at(le_u16(x), 0) == x,
{
    assert(x == x % 256 + 256 * (x / 256)) by (nonlinear_arith);
}

/// A header built by `message_header` reads back as its object id, opcode and size.
pub proof fn lemma_header_roundtrip(object_id: u32, opcode: u16, size: u16)
    ensures
        header(object_id, opcode, size).len() == 8,
        u32_at(header(object_id, opcode, size), 0) == object_id,
        u16_at(header(object_id, opcode, size), 4) == opcode,
        u16_at(header(object_id, opcode, size), 6) == size,
{
    lemma_u32_roundtrip(object_id);
    lemma_u16_roundtrip(opcode);
    lemma_u16_roundtrip(size);
    let h = header(object_id, opcode, size);
    assert(h.subrange(0, 4) =~= le_u32(object_id));
    assert(h.subrange(4, 6) =~= le_u16(opcode));
    assert(h.subrange(6, 8) =~= le_u16(size));
}

proof fn lemma_whole_message_framed(s: Seq<u8>)
    requires
        8 <= s.len(),
        u16_at(s, 6) == s.len(),
    ensures
        is_framed(s),
{
    assert(s.skip(s.len() as int) =~= Seq::<u8>::empty());
    assert(is_framed(s.skip(s.len() as int)));
}

proof fn lemma_one_message_framed(object_id: u32, opcode: u16, size: u16, s: Seq<u8>)
    requires
        8 <= size,
        s.len() == size as int,
        s.subrange(0, 8) == header(object_id, opcode, size),
    ensures
        is_framed(s),
{
    lemma_header_roundtrip(object_id, opcode, size);
    assert(s[6] == header(object_id, opcode, size)[6]);
    assert(s[7] == header(object_id, opcode, size)[7]);
    lemma_whole_message_framed(s);
}

/// Two framed buffers one after the other are framed.
pub proof fn lemma_framed_concat(a: Seq<u8>, b: Seq<u8>)
    requires
        is_framed(a),
        is_framed(b),
    ensures
        is_framed(a + b),
    decreases a.len(),
{
    if a.len() == 0 {
        assert(a + b =~= b);
    } else {
        let size = u16_at(a, 6);
        assert((a + b)[6] == a[6]);
        assert((a + b)[7] == a[7]);
        assert((a + b).skip(size as int) =~= a.skip(size as int) + b);
        lemma_framed_concat(a.skip(size as int), b);
    }
}

/// The `wl_registry::bind` the proxy sends for the layer shell is one whole message.
pub proof fn lemma_bind_message_framed(registry_id: u32, global_name: u32, new_id: u32)
    ensures
        is_framed(bind_message(registry_id, global_name, new_id)),
{
    let m = bind_message(registry_id, global_name, new_id);
    assert(m.subrange(0, 8) =~= header(registry_id, 0, 44));
    lemma_one_message_framed(registry_id, 0, 44, m);
}

proof fn lemma_concat_assoc(a: Seq<u8>, b: Seq<u8>, c: Seq<u8>)
    ensures
        (a + b) + c == a + (b + c),
{
    assert((a + b) + c =~= a + (b + c));
}

/// The requests that create the layer surface are whole messages.
pub proof fn lemma_layer_surface_messages_framed(
    shell_id: u32,
    new_id: u32,
    surface_id: u32,
    s: LayerSettings,
)
    ensures
        is_framed(layer_surface_messages(shell_id, new_id, surface_id, s)),
{
    let m1 = header(shell_id, 0, 68) + le_u32(new_id) + le_u32(surface_id) + le_u32(0) + le_u32(
        s.layer,
    ) + crate::wire::layershellify_string();
    let h2 = header(new_id, 1, 12);
    let m2 = h2 + le_u32(s.anchor);
    let h3 = header(new_id, 0, 16);
    let m3 = h3 + le_u32(s.width) + le_u32(s.height);
    let h4 = header(new_id, 3, 24);
    let e8 = le_u32(s.margin);
    let m4 = h4 + e8 + e8 + e8 + e8;
    let h5 = header(new_id, 4, 12);
    let m5 = h5 + le_u32(2);
    assert(m1.subrange(0, 8) =~= header(shell_id, 0, 68));
    assert(m2.subrange(0, 8) =~= h2);
    assert(m3.subrange(0, 8) =~= h3);
    assert(m4.subrange(0, 8) =~= h4);
    assert(m5.subrange(0, 8) =~= h5);
    lemma_one_message_framed(shell_id, 0, 68, m1);
    lemma_one_message_framed(new_id, 1, 12, m2);
    lemma_one_message_framed(new_id, 0, 16, m3);
    lemma_one_message_framed(new_id, 3, 24, m4);
    lemma_one_message_framed(new_id, 4, 12, m5);
    lemma_concat_assoc(m1, h2, le_u32(s.anchor));
    let p2 = m1 + m2;
    lemma_concat_assoc(p2, h3, le_u32(s.width));
    lemma_concat_assoc(p2, h3 + le_u32(s.width), le_u32(s.height));
    let p3 = p2 + m3;
    lemma_concat_assoc(p3, h4, e8);
    lemma_concat_assoc(p3, h4 + e8, e8);
    lemma_concat_assoc(p3, h4 + e8 + e8, e8);
    lemma_concat_assoc(p3, h4 + e8 + e8 + e8, e8);
    let p4 = p3 + m4;
    lemma_concat_assoc(p4, h5, le_u32(2));
    assert(layer_surface_messages(shell_id, new_id, surface_id, s) == p4 + m5);
    lemma_framed_concat(m1, m2);
    lemma_framed_concat(p2, m3);
    lemma_framed_concat(p3, m4);
    lemma_framed_concat(p4, m5);
}

/// Every request the proxy sends in place of one is a whole number of
/// messages, provided a `destroy` it rewrites carries its protocol size of
/// eight bytes and a `get_popup` its size of twenty.
pub proof fn lemma_request_replacements_framed(b: Seq<u8>, st: StateView)
    requires
        b.len() >= 8,
        u16_at(b, 4) == 0 && st.layer_surface_id == Some(u32_at(b, 0)) ==> u16_at(b, 6) == 8,
        u16_at(b, 4) == 2 && st.xdg_surfaces.contains(u32_at(b, 0)) ==> u16_at(b, 6) == 20,
    ensures
        request_step(b, st) matches Some((OperationView::Replace(m), _)) ==> is_framed(m),
{
    let obj = u32_at(b, 0);
    let opcode = u16_at(b, 4);
    if let Some((OperationView::Replace(m), _)) = request_step(b, st) {
        if st.client_blacklist_ids.contains(obj) {
        } else if st.registry_id == Some(obj) && opcode == 0 {
            lemma_bind_message_framed(obj, st.advertised_layer_shell_name.unwrap(), u32_at(b, 32));
        } else if obj == 1 && opcode == 1 {
        } else if st.layer_surface_id == Some(obj) && opcode == 0 {
            let d = destroy_rewrite(b);
            assert(u16_at(d, 6) == u16_at(b, 6));
            lemma_whole_message_framed(d);
        } else if st.layer_surface_id == Some(obj) || st.xdg_decoration_id == Some(obj) {
            lemma_bind_message_framed(
                st.registry_id.unwrap(),
                st.advertised_layer_shell_name.unwrap(),
                u32_at(b, 8),
            );
        } else if st.layer_shell_id == Some(obj) && opcode == 2 {
            lemma_layer_surface_messages_framed(obj, u32_at(b, 8), u32_at(b, 12), st.settings);
        } else {
            let parent = u32_at(b, 12);
            let p1 = b.subrange(0, 12) + le_u32(0) + b.subrange(16, 20);
            let h = header(parent, 5, 12);
            let p2 = h + le_u32(u32_at(b, 8));
            assert(p1[6] == b[6] && p1[7] == b[7]);
            lemma_whole_message_framed(p1);
            assert(p2.subrange(0, 8) =~= h);
            lemma_one_message_framed(parent, 5, 12, p2);
            lemma_concat_assoc(p1, h, le_u32(u32_at(b, 8)));
            assert(popup_rewrite(b, parent) == p1 + p2);
            lemma_framed_concat(p1, p2);
        }
    }
}

/// The toplevel decoration's `configure` is a whole message, or nothing.
pub proof fn lemma_decoration_configure_framed(st: StateView)
    ensures
        is_framed(decoration_configure(st)),
{
    match st.xdg_toplevel_decoration_id {
        None => {
            assert(is_framed(Seq::<u8>::empty()));
        },
        Some(d) => {
            let h = header(d, 0, 12);
            let m = decoration_configure(st);
            assert(m.subrange(0, 8) =~= h);
            lemma_one_message_framed(d, 0, 12, m);
        },
    }
}

/// Every event the proxy sends in place of one from the layer surface is a
/// whole number of messages, provided that event carries its protocol size:
/// twenty bytes for `configure`, eight for `closed`.
pub proof fn lemma_event_replacements_framed(b: Seq<u8>, st: StateView)
    requires
        b.len() >= 8,
        st.layer_surface_id == Some(u32_at(b, 0)) && u16_at(b, 4) == 0 ==> u16_at(b, 6) == 20,
        st.layer_surface_id == Some(u32_at(b, 0)) && u16_at(b, 4) == 1 ==> u16_at(b, 6) == 8,
    ensures
        event_step(b, st) matches Some((OperationView::Replace(m), _)) ==> is_framed(m),
{
    if let Some((OperationView::Replace(m), _)) = event_step(b, st) {
        if u16_at(b, 4) == 0 {
            let c = b.subrange(0, 12).update(6, 12u8);
            assert(b[7] == 0);
            assert(u16_at(c, 6) == 12);
            lemma_whole_message_framed(c);
            match st.xdg_toplevel_id {
                None => {},
                Some(t) => {
                    let rest = le_u32(t) + le_u16(0) + le_u16(20) + b.subrange(12, 16) + b.subrange(
                        16,
                        20,
                    ) + le_u32(0);
                    lemma_u16_roundtrip(20);
                    assert(rest.subrange(6, 8) =~= le_u16(20));
                    assert(rest[6] == le_u16(20)[0] && rest[7] == le_u16(20)[1]);
                    lemma_whole_message_framed(rest);
                    lemma_framed_concat(c, rest);
                    assert(surface_configures(b, st.xdg_toplevel_id) == c + rest);
                },
            }
            lemma_decoration_configure_framed(st);
            lemma_framed_concat(decoration_configure(st), surface_configures(b, st.xdg_toplevel_id));
        } else {
            let t = st.xdg_toplevel_id.unwrap();
            let c = le_u32(t) + b.subrange(4, 8);
            assert(c[6] == b[6] && c[7] == b[7]);
            lemma_whole_message_framed(c);
        }
    }
}

proof fn lemma_reads_extend(b: Seq<u8>, c: Seq<u8>)
    requires
        b.len() >= 8,
    ensures
        u32_at(b + c, 0) == u32_at(b, 0),
        u16_at(b + c, 4) == u16_at(b, 4),
        u16_at(b + c, 6) == u16_at(b, 6),
        (b + c).subrange(0, 8) == b.subrange(0, 8),
        b.len() >= 12 ==> u32_at(b + c, 8) == u32_at(b, 8),
        b.len() >= 12 ==> (b + c).subrange(0, 12) == b.subrange(0, 12),
        b.len() >= 16 ==> u32_at(b + c, 12) == u32_at(b, 12),
        b.len() >= 20 ==> (b + c).subrange(12, 16) == b.subrange(12, 16),
        b.len() >= 20 ==> (b + c).subrange(16, 20) == b.subrange(16, 20),
        b.len() >= 28 ==> (b + c).subrange(16, 28) == b.subrange(16, 28),
        b.len() >= 36 ==> (b + c).subrange(16, 36) == b.subrange(16, 36),
        b.len() >= 36 ==> u32_at(b + c, 32) == u32_at(b, 32),
        b.len() >= 43 ==> (b + c).subrange(16, 43) == b.subrange(16, 43),
        b.len() >= 52 ==> u32_at(b + c, 48) == u32_at(b, 48),
        (b + c).subrange(4, 8) == b.subrange(4, 8),
{
    let bc = b + c;
    assert(bc.subrange(0, 8) =~= b.subrange(0, 8));
    assert(bc.subrange(4, 8) =~= b.subrange(4, 8));
    if b.len() >= 12 {
        assert(bc.subrange(0, 12) =~= b.subrange(0, 12));
    }
    if b.len() >= 20 {
        assert(bc.subrange(12, 16) =~= b.subrange(12, 16));
        assert(bc.subrange(16, 20) =~= b.subrange(16, 20));
    }
    if b.len() >= 28 {
        assert(bc.subrange(16, 28) =~= b.subrange(16, 28));
    }
    if b.len() >= 36 {
        assert(bc.subrange(16, 36) =~= b.subrange(16, 36));
    }
    if b.len() >= 43 {
        assert(bc.subrange(16, 43) =~= b.subrange(16, 43));
    }
}

proof fn lemma_request_step_extends(b: Seq<u8>, c: Seq<u8>, st: StateView)
    requires
        b.len() >= 8,
        u16_at(b, 6) <= b.len(),
        request_step(b, st) is Some,
    ensures
        request_step(b + c, st) == request_step(b, st),
{
    lemma_reads_extend(b, c);
    let bc = b + c;
    assert(destroy_rewrite(bc) == destroy_rewrite(b));
    if b.len() >= 20 {
        assert(popup_rewrite(bc, u32_at(b, 12)) == popup_rewrite(b, u32_at(b, 12)));
    }
}

proof fn lemma_event_step_extends(b: Seq<u8>, c: Seq<u8>, st: StateView)
    requires
        b.len() >= 8,
        event_step(b, st) is Some,
    ensures
        event_step(b + c, st) == event_step(b, st),
{
    lemma_reads_extend(b, c);
    let bc = b + c;
    if b.len() >= 20 {
        assert(configure_rewrite(bc, st) == configure_rewrite(b, st));
    }
    if b.len() >= 12 {
        assert(surface_configures(bc, None) == surface_configures(b, None));
        assert(configure_rewrite(bc, st) == configure_rewrite(b, st) || st.xdg_toplevel_id is Some);
    }
}

/// A step that succeeds on a buffer whose first message ends within it
/// decides the same when more bytes follow.
proof fn lemma_step_extends(stream: Stream, b: Seq<u8>, c: Seq<u8>, st: StateView)
    requires
        b.len() >= 8,
        u16_at(b, 6) <= b.len(),
        step(stream, b, st) is Some,
    ensures
        step(stream, b + c, st) == step(stream, b, st),
{
    reveal(step);
    match stream {
        Stream::Requests => lemma_request_step_extends(b, c, st),
        Stream::Events => lemma_event_step_extends(b, c, st),
    }
}

/// Scanning whole messages followed by more bytes is scanning the messages,
/// then the rest from the state they leave: a stream cut at message
/// boundaries can be scanned piece by piece.
pub proof fn lemma_scan_in_pieces(stream: Stream, a: Seq<u8>, c: Seq<u8>, st: StateView)
    requires
        whole_messages(a),
        scan(stream, a, st) is Some,
    ensures
        scan(stream, a + c, st) == prefixed(
            scan(stream, a, st).unwrap().0,
            scan(stream, c, scan(stream, a, st).unwrap().1),
        ),
        scan(stream, c, scan(stream, a, st).unwrap().1) matches Some((r2, s2)) ==> scan(
            stream,
            a + c,
            st,
        ) == Some((scan(stream, a, st).unwrap().0 + r2, s2)),
    decreases a.len(),
{
    if a.len() == 0 {
        assert(a + c =~= c);
        if let Some((bytes, last)) = scan(stream, c, st) {
            assert(Seq::<u8>::empty() + bytes =~= bytes);
        }
    } else {
        let size = u16_at(a, 6);
        let ac = a + c;
        lemma_reads_extend(a, c);
        lemma_step_extends(stream, a, c, st);
        let (op, next) = step(stream, a, st).unwrap();
        assert(ac.take(size as int) =~= a.take(size as int));
        assert(ac.skip(size as int) =~= a.skip(size as int) + c);
        lemma_scan_in_pieces(stream, a.skip(size as int), c, next);
        let (r1, s1) = scan(stream, a.skip(size as int), next).unwrap();
        lemma_prefixed_twice(
            crate::message::forwarded(op, a.take(size as int)),
            r1,
            scan(stream, c, s1),
        );
    }
}

/// A buffer that is one message, a header of size `size` followed by
/// `size - 8` bytes, is handled by exactly one step, given that message
/// with its object id and opcode; a kept message is sent on unchanged.
pub proof fn lemma_header_message_one_step(
    stream: Stream,
    object_id: u32,
    opcode: u16,
    size: u16,
    payload: Seq<u8>,
    st: StateView,
)
    requires
        size == 8 + payload.len(),
    ensures
        u32_at(header(object_id, opcode, size) + payload, 0) == object_id,
        u16_at(header(object_id, opcode, size) + payload, 4) == opcode,
        scan_steps(stream, header(object_id, opcode, size) + payload, st) == 1,
        scan(stream, header(object_id, opcode, size) + payload, st) == match step(
            stream,
            header(object_id, opcode, size) + payload,
            st,
        ) {
            None => None,
            Some((op, next)) => Some((forwarded(op, header(object_id, opcode, size) + payload), next)),
        },
        step(stream, header(object_id, opcode, size) + payload, st) == Some((OperationView::Keep, st))
            ==> scan(stream, header(object_id, opcode, size) + payload, st) == Some(
            (header(object_id, opcode, size) + payload, st),
        ),
{
    let h = header(object_id, opcode, size);
    let b = h + payload;
    lemma_header_roundtrip(object_id, opcode, size);
    assert(b[0] == h[0] && b[1] == h[1] && b[2] == h[2] && b[3] == h[3]);
    assert(b[4] == h[4] && b[5] == h[5] && b[6] == h[6] && b[7] == h[7]);
    lemma_one_message_one_step(stream, b, st);
    assert(b.skip(size as int) =~= Seq::<u8>::empty());
    if let Some((_, next)) = step(stream, b, st) {
        assert(scan_steps(stream, b.skip(size as int), next) == 0);
    }
}

} // verus!
