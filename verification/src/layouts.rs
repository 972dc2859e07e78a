//! Field by field, what the messages the proxy sends in place of others
//! hold, read back with the same readers the proxy parses messages with.
use vstd::prelude::*;
use crate::events::{decoration_configure, event_step, surface_configures};
use crate::framing::{lemma_header_roundtrip, lemma_u16_roundtrip, lemma_u32_roundtrip};
use crate::message::OperationView;
use crate::requests::{layer_surface_messages, popup_rewrite, request_step};
use crate::state::{LayerSettings, StateView};
use crate::wire::{
    bind_message, header, layer_shell_bind_template, layer_shell_interface, le_u16, le_u32, u16_at,
    u32_at, xdg_wm_base_interface,
};

verus! {

proof fn lemma_u32_read(s: Seq<u8>, i: int, x: u32)
    requires
        0 <= i,
        i + 4 <= s.len(),
        s.subrange(i, i + 4) == le_u32(x),
    ensures
        u32_at(s, i) == x,
{
    lemma_u32_roundtrip(x);
    assert(s[i] == s.subrange(i, i + 4)[0]);
    assert(s[i + 1] == s.subrange(i, i + 4)[1]);
    assert(s[i + 2] == s.subrange(i, i + 4)[2]);
    assert(s[i + 3] == s.subrange(i, i + 4)[3]);
}

proof fn lemma_header_read(s: Seq<u8>, i: int, object_id: u32, opcode: u16, size: u16)
    requires
        0 <= i,
        i + 8 <= s.len(),
        s.subrange(i, i + 8) == header(object_id, opcode, size),
    ensures
        u32_at(s, i) == object_id,
        u16_at(s, i + 4) == opcode,
        u16_at(s, i + 6) == size,
{
    lemma_header_roundtrip(object_id, opcode, size);
    let h = header(object_id, opcode, size);
    assert forall|k: int| 0 <= k < 8 implies s[i + k] == h[k] by {
        assert(s[i + k] == s.subrange(i, i + 8)[k]);
    }
}

/// The bind the proxy sends for the layer shell: 44 bytes on the registry,
/// opcode 0, with the global's name, the interface "zwlr_layer_shell_v1"
/// (20 bytes with its terminator), version 5 and the new id.
pub proof fn lemma_bind_message_fields(registry_id: u32, global_name: u32, new_id: u32)
    ensures
        bind_message(registry_id, global_name, new_id).len() == 44,
        u32_at(bind_message(registry_id, global_name, new_id), 0) == registry_id,
        u16_at(bind_message(registry_id, global_name, new_id), 4) == 0,
        u16_at(bind_message(registry_id, global_name, new_id), 6) == 44,
        u32_at(bind_message(registry_id, global_name, new_id), 8) == global_name,
        u32_at(bind_message(registry_id, global_name, new_id), 12) == 20,
        bind_message(registry_id, global_name, new_id).subrange(16, 36) == layer_shell_interface(),
        u32_at(bind_message(registry_id, global_name, new_id), 36) == 5,
        u32_at(bind_message(registry_id, global_name, new_id), 40) == new_id,
{
    let m = bind_message(registry_id, global_name, new_id);
    let t = layer_shell_bind_template();
    assert(m.subrange(0, 8) =~= header(registry_id, 0, 44));
    lemma_header_read(m, 0, registry_id, 0, 44);
    assert(m.subrange(8, 12) =~= le_u32(global_name));
    lemma_u32_read(m, 8, global_name);
    assert(m.subrange(12, 16) =~= le_u32(20));
    lemma_u32_read(m, 12, 20);
    assert(m.subrange(16, 36) =~= layer_shell_interface());
    assert(m.subrange(36, 40) =~= le_u32(5));
    lemma_u32_read(m, 36, 5);
    assert(m.subrange(40, 44) =~= le_u32(new_id));
    lemma_u32_read(m, 40, new_id);
}

/// The requests that create the layer surface, for layer shell `shell_id`,
/// new id `new_id`, client surface `surface_id` and settings `s`:
/// `get_layer_surface` (68 bytes: new id, surface, null output, layer `s.layer`,
/// namespace), then on the new surface `set_anchor` (opcode 1, `s.anchor`),
/// `set_size` (opcode 0, `s.width`, `s.height`), `set_margin` (opcode 3,
/// `s.margin` on all four sides) and `set_keyboard_interactivity` (opcode 4,
/// on demand: 2), 132 bytes in all.
pub proof fn lemma_layer_surface_message_fields(
    shell_id: u32,
    new_id: u32,
    surface_id: u32,
    s: LayerSettings,
)
    ensures
        layer_surface_messages(shell_id, new_id, surface_id, s).len() == 132,
        u32_at(layer_surface_messages(shell_id, new_id, surface_id, s), 0) == shell_id,
        u16_at(layer_surface_messages(shell_id, new_id, surface_id, s), 4) == 0,
        u16_at(layer_surface_messages(shell_id, new_id, surface_id, s), 6) == 68,
        u32_at(layer_surface_messages(shell_id, new_id, surface_id, s), 8) == new_id,
        u32_at(layer_surface_messages(shell_id, new_id, surface_id, s), 12) == surface_id,
        u32_at(layer_surface_messages(shell_id, new_id, surface_id, s), 16) == 0,
        u32_at(layer_surface_messages(shell_id, new_id, surface_id, s), 20) == s.layer,
        u32_at(layer_surface_messages(shell_id, new_id, surface_id, s), 68) == new_id,
        u16_at(layer_surface_messages(shell_id, new_id, surface_id, s), 72) == 1,
        u16_at(layer_surface_messages(shell_id, new_id, surface_id, s), 74) == 12,
        u32_at(layer_surface_messages(shell_id, new_id, surface_id, s), 76) == s.anchor,
        u32_at(layer_surface_messages(shell_id, new_id, surface_id, s), 80) == new_id,
        u16_at(layer_surface_messages(shell_id, new_id, surface_id, s), 84) == 0,
        u16_at(layer_surface_messages(shell_id, new_id, surface_id, s), 86) == 16,
        u32_at(layer_surface_messages(shell_id, new_id, surface_id, s), 88) == s.width,
        u32_at(layer_surface_messages(shell_id, new_id, surface_id, s), 92) == s.height,
        u32_at(layer_surface_messages(shell_id, new_id, surface_id, s), 96) == new_id,
        u16_at(layer_surface_messages(shell_id, new_id, surface_id, s), 100) == 3,
        u16_at(layer_surface_messages(shell_id, new_id, surface_id, s), 102) == 24,
        u32_at(layer_surface_messages(shell_id, new_id, surface_id, s), 104) == s.margin,
        u32_at(layer_surface_messages(shell_id, new_id, surface_id, s), 108) == s.margin,
        u32_at(layer_surface_messages(shell_id, new_id, surface_id, s), 112) == s.margin,
        u32_at(layer_surface_messages(shell_id, new_id, surface_id, s), 116) == s.margin,
        u32_at(layer_surface_messages(shell_id, new_id, surface_id, s), 120) == new_id,
        u16_at(layer_surface_messages(shell_id, new_id, surface_id, s), 124) == 4,
        u16_at(layer_surface_messages(shell_id, new_id, surface_id, s), 126) == 12,
        u32_at(layer_surface_messages(shell_id, new_id, surface_id, s), 128) == 2,
{
    let m = layer_surface_messages(shell_id, new_id, surface_id, s);
    assert(m.len() == 132);
    assert(m.subrange(0, 8) =~= header(shell_id, 0, 68));
    lemma_header_read(m, 0, shell_id, 0, 68);
    assert(m.subrange(8, 12) =~= le_u32(new_id));
    lemma_u32_read(m, 8, new_id);
    assert(m.subrange(12, 16) =~= le_u32(surface_id));
    lemma_u32_read(m, 12, surface_id);
    assert(m.subrange(16, 20) =~= le_u32(0));
    lemma_u32_read(m, 16, 0);
    assert(m.subrange(20, 24) =~= le_u32(s.layer));
    lemma_u32_read(m, 20, s.layer);
    assert(m.subrange(68, 76) =~= header(new_id, 1, 12));
    lemma_header_read(m, 68, new_id, 1, 12);
    assert(m.subrange(76, 80) =~= le_u32(s.anchor));
    lemma_u32_read(m, 76, s.anchor);
    assert(m.subrange(80, 88) =~= header(new_id, 0, 16));
    lemma_header_read(m, 80, new_id, 0, 16);
    assert(m.subrange(88, 92) =~= le_u32(s.width));
    lemma_u32_read(m, 88, s.width);
    assert(m.subrange(92, 96) =~= le_u32(s.height));
    lemma_u32_read(m, 92, s.height);
    assert(m.subrange(96, 104) =~= header(new_id, 3, 24));
    lemma_header_read(m, 96, new_id, 3, 24);
    assert(m.subrange(104, 108) =~= le_u32(s.margin));
    lemma_u32_read(m, 104, s.margin);
    assert(m.subrange(108, 112) =~= le_u32(s.margin));
    lemma_u32_read(m, 108, s.margin);
    assert(m.subrange(112, 116) =~= le_u32(s.margin));
    lemma_u32_read(m, 112, s.margin);
    assert(m.subrange(116, 120) =~= le_u32(s.margin));
    lemma_u32_read(m, 116, s.margin);
    assert(m.subrange(120, 128) =~= header(new_id, 4, 12));
    lemma_header_read(m, 120, new_id, 4, 12);
    assert(m.subrange(128, 132) =~= le_u32(2));
    lemma_u32_read(m, 128, 2);
}

/// The popup request the proxy sends in place of a `get_popup` whose parent
/// is the layer surface: the first twelve bytes (object, opcode, size, new
/// popup id) as they were, a null parent, the same positioner, then the
/// layer surface's `get_popup` (opcode 5, 12 bytes) for the same popup id.
pub proof fn lemma_popup_rewrite_fields(b: Seq<u8>, layer_surface: u32)
    requires
        b.len() >= 20,
    ensures
        popup_rewrite(b, layer_surface).len() == 32,
        popup_rewrite(b, layer_surface).subrange(0, 12) == b.subrange(0, 12),
        u32_at(popup_rewrite(b, layer_surface), 12) == 0,
        popup_rewrite(b, layer_surface).subrange(16, 20) == b.subrange(16, 20),
        u32_at(popup_rewrite(b, layer_surface), 20) == layer_surface,
        u16_at(popup_rewrite(b, layer_surface), 24) == 5,
        u16_at(popup_rewrite(b, layer_surface), 26) == 12,
        u32_at(popup_rewrite(b, layer_surface), 28) == u32_at(b, 8),
{
    let m = popup_rewrite(b, layer_surface);
    assert(m.subrange(0, 12) =~= b.subrange(0, 12));
    assert(m.subrange(12, 16) =~= le_u32(0));
    lemma_u32_read(m, 12, 0);
    assert(m.subrange(16, 20) =~= b.subrange(16, 20));
    assert(m.subrange(20, 28) =~= header(layer_surface, 5, 12));
    lemma_header_read(m, 20, layer_surface, 5, 12);
    assert(m.subrange(28, 32) =~= le_u32(u32_at(b, 8)));
    lemma_u32_read(m, 28, u32_at(b, 8));
}

/// The events the proxy sends for the layer surface's `configure` (serial,
/// width, height), after any decoration configure: `xdg_surface::configure`
/// on the same object (opcode 0, 12 bytes) with the same serial, and, where
/// the client has a toplevel, `xdg_toplevel::configure` on it (opcode 0, 20
/// bytes) with the same width and height and an empty list of states.
pub proof fn lemma_configure_fields(b: Seq<u8>, toplevel: Option<u32>)
    requires
        b.len() >= 20,
        u16_at(b, 4) == 0,
        u16_at(b, 6) == 20,
    ensures
        surface_configures(b, toplevel).len() == (if toplevel is Some { 32int } else { 12 }),
        u32_at(surface_configures(b, toplevel), 0) == u32_at(b, 0),
        u16_at(surface_configures(b, toplevel), 4) == 0,
        u16_at(surface_configures(b, toplevel), 6) == 12,
        u32_at(surface_configures(b, toplevel), 8) == u32_at(b, 8),
        toplevel matches Some(t) ==> {
            &&& u32_at(surface_configures(b, toplevel), 12) == t
            &&& u16_at(surface_configures(b, toplevel), 16) == 0
            &&& u16_at(surface_configures(b, toplevel), 18) == 20
            &&& u32_at(surface_configures(b, toplevel), 20) == u32_at(b, 12)
            &&& u32_at(surface_configures(b, toplevel), 24) == u32_at(b, 16)
            &&& u32_at(surface_configures(b, toplevel), 28) == 0
        },
{
    let m = surface_configures(b, toplevel);
    assert(b[7] == 0 && b[6] == 20);
    assert(b[4] == 0 && b[5] == 0);
    match toplevel {
        None => {},
        Some(t) => {
            assert(m.subrange(12, 16) =~= le_u32(t));
            lemma_u32_read(m, 12, t);
            lemma_u16_roundtrip(0);
            lemma_u16_roundtrip(20);
            assert(m.subrange(16, 18) =~= le_u16(0));
            assert(m.subrange(18, 20) =~= le_u16(20));
            assert(m[16] == le_u16(0)[0] && m[17] == le_u16(0)[1]);
            assert(m[18] == le_u16(20)[0] && m[19] == le_u16(20)[1]);
            assert(m.subrange(28, 32) =~= le_u32(0));
            lemma_u32_read(m, 28, 0);
        },
    }
}

/// The layer surface's `closed` is sent as `xdg_toplevel::close` on the
/// client's toplevel (same opcode and size), or dropped where there is none.
pub proof fn lemma_closed_event(b: Seq<u8>, st: StateView)
    requires
        b.len() >= 8,
        st.layer_surface_id == Some(u32_at(b, 0)),
        st.registry_id != Some(u32_at(b, 0)),
        u16_at(b, 4) == 1,
    ensures
        st.xdg_toplevel_id is None ==> event_step(b, st) == Some((OperationView::Drop, st)),
        st.xdg_toplevel_id matches Some(t) ==> (event_step(b, st) matches Some(
            (OperationView::Replace(m), next),
        ) && next == st && m.len() == 8 && u32_at(m, 0) == t && u16_at(m, 4) == 1 && u16_at(m, 6)
            == u16_at(b, 6)),
{
    if let Some(t) = st.xdg_toplevel_id {
        let m = le_u32(t) + b.subrange(4, 8);
        assert(m.subrange(0, 4) =~= le_u32(t));
        lemma_u32_read(m, 0, t);
        assert(m[4] == b[4] && m[5] == b[5] && m[6] == b[6] && m[7] == b[7]);
    }
}

/// `wl_display::get_registry` is sent on unchanged, and the new registry is
/// recorded; nothing else changes.
pub proof fn lemma_get_registry_recorded(b: Seq<u8>, st: StateView)
    requires
        b.len() >= 12,
        u32_at(b, 0) == 1,
        u16_at(b, 4) == 1,
        !st.client_blacklist_ids.contains(1),
    ensures
        request_step(b, st) == Some(
            (OperationView::Keep, StateView { registry_id: Some(u32_at(b, 8)), ..st }),
        ),
{
}

/// The first bind of `xdg_wm_base`, once the layer shell was advertised,
/// becomes the layer shell bind for the same new id (see
/// [`lemma_bind_message_fields`]), which the proxy records as its layer shell.
pub proof fn lemma_first_wm_base_bind(b: Seq<u8>, st: StateView)
    requires
        b.len() >= 36,
        st.registry_id == Some(u32_at(b, 0)),
        u16_at(b, 4) == 0,
        !st.client_blacklist_ids.contains(u32_at(b, 0)),
        st.layer_shell_id is None,
        st.advertised_layer_shell_name is Some,
        u32_at(b, 12) == 12,
        b.subrange(16, 28) == xdg_wm_base_interface(),
    ensures
        request_step(b, st) == Some(
            (
                OperationView::Replace(
                    bind_message(
                        u32_at(b, 0),
                        st.advertised_layer_shell_name.unwrap(),
                        u32_at(b, 32),
                    ),
                ),
                StateView { layer_shell_id: Some(u32_at(b, 32)), ..st },
            ),
        ),
{
}

/// A layer shell global on the client's registry is sent on unchanged, and
/// its name is recorded; any other global is sent on unchanged and changes
/// nothing.
pub proof fn lemma_registry_globals(b: Seq<u8>, st: StateView)
    requires
        b.len() >= 36,
        st.registry_id == Some(u32_at(b, 0)),
        u16_at(b, 4) == 0,
    ensures
        u32_at(b, 12) == 20 && b.subrange(16, 36) == layer_shell_interface() ==> event_step(b, st)
            == Some(
            (
                OperationView::Keep,
                StateView { advertised_layer_shell_name: Some(u32_at(b, 8)), ..st },
            ),
        ),
        !(u32_at(b, 12) == 20 && b.subrange(16, 36) == layer_shell_interface()) ==> event_step(
            b,
            st,
        ) == Some((OperationView::Keep, st)),
{
}

/// The layer surface's `configure` is replaced by the decoration's
/// configure (twelve bytes where the client has a toplevel decoration,
/// nothing otherwise) followed by the configures of
/// [`lemma_configure_fields`], and changes no state.
pub proof fn lemma_configure_event(b: Seq<u8>, st: StateView)
    requires
        b.len() >= 20,
        st.layer_surface_id == Some(u32_at(b, 0)),
        st.registry_id != Some(u32_at(b, 0)),
        u16_at(b, 4) == 0,
    ensures
        event_step(b, st) matches Some((OperationView::Replace(m), next)) && next == st && m
            == decoration_configure(st) + surface_configures(b, st.xdg_toplevel_id),
        decoration_configure(st).len() == (if st.xdg_toplevel_decoration_id is Some {
            12int
        } else {
            0
        }),
{
}

} // verus!
