//! Rewriting of the client's requests: the client's `xdg_wm_base` is bound
//! to the layer shell, its first `xdg_surface` becomes a layer surface, and
//! requests the layer shell has no counterpart for are dropped or replaced.
use vstd::prelude::*;
use vstd::slice::{slice_subrange, slice_to_vec};
use crate::message::{MessageOperation, OperationView};
use crate::state::{LayerSettings, ProxyState, StateView, contains_id, create_useless_object};
use crate::wire::{
    LAYERSHELLIFY_STRING, XDG_WM_BASE_STRING, ZXDG_DECORATION_MANAGER_STRING, bind_layer_shell,
    bind_message, bytes_match_at, decoration_manager_interface, header, layershellify_string,
    le_u32, lemma_constant_views, message_header, push_bytes, push_u32, read_u16, read_u32, u16_at,
    u32_at,
    xdg_wm_base_interface,
};

verus! {

/// The messages that create a layer surface `new_id` for the client's
/// `wl_surface` `surface_id` through the layer shell `shell_id`: the
/// `get_layer_surface` request (layer `s.layer`, no output), then
/// `set_anchor` with the anchor bits, `set_size` with the width and height,
/// `set_margin` with the margin on all four sides, and
/// `set_keyboard_interactivity` on demand.
pub open spec fn layer_surface_messages(
    shell_id: u32,
    new_id: u32,
    surface_id: u32,
    s: LayerSettings,
) -> Seq<u8> {
    header(shell_id, 0, 68) + le_u32(new_id) + le_u32(surface_id) + le_u32(0) + le_u32(s.layer)
        + layershellify_string()
        + header(new_id, 1, 12) + le_u32(s.anchor)
        + header(new_id, 0, 16) + le_u32(s.width) + le_u32(s.height)
        + header(new_id, 3, 24) + le_u32(s.margin) + le_u32(s.margin) + le_u32(s.margin) + le_u32(
        s.margin)
        + header(new_id, 4, 12) + le_u32(2)
}

/// An `xdg_surface::get_popup` in `b` whose parent is the layer surface
/// `layer_surface`: the same request with a null parent, then
/// `zwlr_layer_surface_v1::get_popup` for the new popup on the layer surface.
pub open spec fn popup_rewrite(b: Seq<u8>, layer_surface: u32) -> Seq<u8> {
    b.subrange(0, 12) + le_u32(0) + b.subrange(16, 20) + header(layer_surface, 5, 12) + le_u32(
        u32_at(b, 8),
    )
}

/// An `xdg_surface::destroy` (opcode 0) in `b` on the layer surface, as
/// `zwlr_layer_surface_v1::destroy` (opcode 7): its first eight bytes with
/// the opcode set to 7.
pub open spec fn destroy_rewrite(b: Seq<u8>) -> Seq<u8> {
    b.subrange(0, 8).update(4, 7u8)
}

/// `wl_registry::bind` from the client, in `b`, on its registry `registry`.
/// The first bind of `xdg_wm_base` binds the layer shell instead; later ones
/// are kept, and their ids recorded. `None` where the message is too short
/// for the fields read, or where the client binds `xdg_wm_base` first before
/// the layer shell global was advertised.
pub open spec fn registry_bind_step(b: Seq<u8>, st: StateView, registry: u32) -> Option<
    (OperationView, StateView),
> {
    if b.len() < 16 {
        None
    } else {
        let str_size = u32_at(b, 12);
        let wm_base_first = str_size == 12 && st.layer_shell_id is None;
        if wm_base_first && b.len() < 28 {
            None
        } else if wm_base_first && b.subrange(16, 28) == xdg_wm_base_interface() {
            if b.len() < 36 {
                None
            } else {
                match st.advertised_layer_shell_name {
                    None => None,
                    Some(name) => {
                        let wm_id = u32_at(b, 32);
                        Some(
                            (
                                OperationView::Replace(bind_message(registry, name, wm_id)),
                                StateView { layer_shell_id: Some(wm_id), ..st },
                            ),
                        )
                    },
                }
            }
        } else if str_size == 12 && u16_at(b, 6) >= 36 && b.len() >= 36 && b.subrange(16, 28)
            == xdg_wm_base_interface() {
            Some(
                (
                    OperationView::Keep,
                    StateView { xdg_wm_bases: st.xdg_wm_bases.push(u32_at(b, 32)), ..st },
                ),
            )
        } else if str_size == 27 && b.len() < 43 {
            None
        } else if str_size == 27 && b.subrange(16, 43) == decoration_manager_interface() {
            if b.len() < 52 {
                None
            } else {
                Some((OperationView::Keep, StateView { xdg_decoration_id: Some(u32_at(b, 48)), ..st }))
            }
        } else {
            Some((OperationView::Keep, st))
        }
    }
}

/// A request on the layer surface that stands for the client's first `xdg_surface`.
pub open spec fn layer_surface_request_step(b: Seq<u8>, st: StateView, opcode: u16) -> Option<
    (OperationView, StateView),
> {
    if opcode == 0 {
        Some((OperationView::Replace(destroy_rewrite(b)), st))
    } else if opcode == 1 {
        if b.len() < 12 || st.registry_id is None || st.advertised_layer_shell_name is None {
            None
        } else {
            let new_id = u32_at(b, 8);
            Some(
                (
                    OperationView::Replace(
                        bind_message(
                            st.registry_id.unwrap(),
                            st.advertised_layer_shell_name.unwrap(),
                            new_id,
                        ),
                    ),
                    StateView {
                        xdg_toplevel_id: Some(new_id),
                        client_blacklist_ids: st.client_blacklist_ids.push(new_id),
                        ..st
                    },
                ),
            )
        }
    } else if opcode == 2 {
        Some((OperationView::Keep, st))
    } else {
        Some((OperationView::Drop, st))
    }
}

/// A request on the client's `zxdg_decoration_manager_v1`.
pub open spec fn decoration_request_step(b: Seq<u8>, st: StateView, opcode: u16) -> Option<
    (OperationView, StateView),
> {
    if opcode == 0 {
        Some((OperationView::Keep, st))
    } else if opcode == 1 {
        if b.len() < 12 || st.registry_id is None || st.advertised_layer_shell_name is None {
            None
        } else {
            let new_id = u32_at(b, 8);
            Some(
                (
                    OperationView::Replace(
                        bind_message(
                            st.registry_id.unwrap(),
                            st.advertised_layer_shell_name.unwrap(),
                            new_id,
                        ),
                    ),
                    StateView {
                        xdg_toplevel_decoration_id: Some(new_id),
                        client_blacklist_ids: st.client_blacklist_ids.push(new_id),
                        ..st
                    },
                ),
            )
        }
    } else {
        Some((OperationView::Drop, st))
    }
}

/// What the proxy does with the request at the start of `b` (the rest of the
/// buffer from that request on), and the state after it:
/// - requests to blacklisted objects are dropped;
/// - `wl_display::get_registry` and the binds of `zxdg_decoration_manager_v1`
///   are recorded; the first bind of `xdg_wm_base` binds the layer shell,
///   later binds are kept and recorded;
/// - the first `get_xdg_surface` creates a layer surface placed by the
///   settings ([`layer_surface_messages`]); later ones, on the first or on a
///   later `xdg_wm_base`, are kept and their surfaces recorded;
/// - a `get_popup` on a recorded surface whose parent is the layer surface
///   is sent with a null parent and followed by the layer surface's
///   `get_popup` ([`popup_rewrite`]);
/// - on the layer surface, `destroy` becomes the layer surface's `destroy`,
///   `get_toplevel` is replaced and its toplevel blacklisted, `get_popup` is
///   kept and the rest dropped; on the decoration manager, `destroy` is
///   kept, `get_toplevel_decoration` is replaced and blacklisted, and the
///   rest dropped.
///
/// `None` where the request cannot be handled: it is too short for the fields
/// read, or it needs a registry or a layer shell global that the proxy has
/// not seen.
pub open spec fn request_step(b: Seq<u8>, st: StateView) -> Option<(OperationView, StateView)> {
    let obj = u32_at(b, 0);
    let opcode = u16_at(b, 4);
    if st.client_blacklist_ids.contains(obj) {
        Some((OperationView::Drop, st))
    } else if st.registry_id == Some(obj) && opcode == 0 {
        registry_bind_step(b, st, obj)
    } else if obj == 1 && opcode == 1 {
        if b.len() < 12 {
            None
        } else {
            Some((OperationView::Keep, StateView { registry_id: Some(u32_at(b, 8)), ..st }))
        }
    } else if st.layer_surface_id == Some(obj) {
        layer_surface_request_step(b, st, opcode)
    } else if st.xdg_decoration_id == Some(obj) {
        decoration_request_step(b, st, opcode)
    } else if st.layer_shell_id == Some(obj) && opcode == 2 && st.layer_surface_id is None {
        if b.len() < 16 {
            None
        } else {
            let new_id = u32_at(b, 8);
            Some(
                (
                    OperationView::Replace(
                        layer_surface_messages(obj, new_id, u32_at(b, 12), st.settings),
                    ),
                    StateView { layer_surface_id: Some(new_id), ..st },
                ),
            )
        }
    } else if (st.layer_shell_id == Some(obj) || st.xdg_wm_bases.contains(obj)) && opcode == 2 {
        if u16_at(b, 6) < 12 || b.len() < 12 {
            Some((OperationView::Keep, st))
        } else {
            Some(
                (
                    OperationView::Keep,
                    StateView { xdg_surfaces: st.xdg_surfaces.push(u32_at(b, 8)), ..st },
                ),
            )
        }
    } else if st.xdg_surfaces.contains(obj) && opcode == 2 && st.layer_surface_id is Some {
        if u16_at(b, 6) < 20 || b.len() < 20 {
            Some((OperationView::Keep, st))
        } else if u32_at(b, 12) == st.layer_surface_id.unwrap() {
            Some((OperationView::Replace(popup_rewrite(b, u32_at(b, 12))), st))
        } else {
            Some((OperationView::Keep, st))
        }
    } else {
        Some((OperationView::Keep, st))
    }
}

/// Builds the messages of [`layer_surface_messages`].
pub fn layer_surface_creation(
    shell_id: u32,
    new_id: u32,
    surface_id: u32,
    settings: LayerSettings,
) -> (v: Vec<u8>)
    ensures
        v@ == layer_surface_messages(shell_id, new_id, surface_id, settings),
{
    proof { lemma_constant_views(); }
    let mut message = message_header(shell_id, 0, 68);
    push_u32(&mut message, new_id);
    push_u32(&mut message, surface_id);
    push_u32(&mut message, 0);
    push_u32(&mut message, settings.layer);
    push_bytes(&mut message, &LAYERSHELLIFY_STRING);
    let anchors = message_header(new_id, 1, 12);
    push_bytes(&mut message, anchors.as_slice());
    push_u32(&mut message, settings.anchor);
    let size = message_header(new_id, 0, 16);
    push_bytes(&mut message, size.as_slice());
    push_u32(&mut message, settings.width);
    push_u32(&mut message, settings.height);
    let margin = message_header(new_id, 3, 24);
    push_bytes(&mut message, margin.as_slice());
    push_u32(&mut message, settings.margin);
    push_u32(&mut message, settings.margin);
    push_u32(&mut message, settings.margin);
    push_u32(&mut message, settings.margin);
    let keyboard = message_header(new_id, 4, 12);
    push_bytes(&mut message, keyboard.as_slice());
    push_u32(&mut message, 2);
    message
}

/// Builds the messages of [`popup_rewrite`].
fn popup_with_layer_parent(bytes: &[u8], layer_surface: u32) -> (v: Vec<u8>)
    requires
        bytes@.len() >= 20,
    ensures
        v@ == popup_rewrite(bytes@, layer_surface),
{
    let mut v = slice_to_vec(slice_subrange(bytes, 0, 12));
    push_u32(&mut v, 0);
    push_bytes(&mut v, slice_subrange(bytes, 16, 20));
    let h = message_header(layer_surface, 5, 12);
    push_bytes(&mut v, h.as_slice());
    let popup = read_u32(bytes, 8);
    push_u32(&mut v, popup);
    v
}

fn destroy_message(bytes: &[u8]) -> (v: Vec<u8>)
    requires
        bytes@.len() >= 8,
    ensures
        v@ == destroy_rewrite(bytes@),
{
    let mut v = slice_to_vec(slice_subrange(bytes, 0, 8));
    v.set(4, 7);
    v
}

fn registry_bind(bytes: &[u8], state: &mut ProxyState, registry: u32) -> (r: Option<MessageOperation>)
    ensures
        match registry_bind_step(bytes@, old(state)@, registry) {
            None => r is None && final(state)@ == old(state)@,
            Some((op, st)) => r matches Some(o) && o@ == op && final(state)@ == st,
        },
{
    proof { lemma_constant_views(); }
    let len = bytes.len();
    if len < 16 {
        return None;
    }
    let str_size = read_u32(bytes, 12);
    let wm_base_first = str_size == 12 && state.layer_shell_id.is_none();
    if wm_base_first && len < 28 {
        None
    } else if wm_base_first && bytes_match_at(bytes, 16, &XDG_WM_BASE_STRING) {
        if len < 36 {
            return None;
        }
        match state.advertised_layer_shell_name {
            None => None,
            Some(name) => {
                let wm_id = read_u32(bytes, 32);
                let message = bind_layer_shell(registry, name, wm_id);
                state.layer_shell_id = Some(wm_id);
                assert(state@ =~= StateView { layer_shell_id: Some(wm_id), ..old(state)@ });
                Some(MessageOperation::Replace(message))
            },
        }
    } else if str_size == 12 && read_u16(bytes, 6) >= 36 && len >= 36 && bytes_match_at(
        bytes,
        16,
        &XDG_WM_BASE_STRING,
    ) {
        let wm_id = read_u32(bytes, 32);
        state.xdg_wm_bases.push(wm_id);
        assert(state@ =~= StateView {
            xdg_wm_bases: old(state)@.xdg_wm_bases.push(wm_id),
            ..old(state)@
        });
        Some(MessageOperation::Keep)
    } else if str_size == 27 && len < 43 {
        None
    } else if str_size == 27 && bytes_match_at(bytes, 16, &ZXDG_DECORATION_MANAGER_STRING) {
        if len < 52 {
            return None;
        }
        let id = read_u32(bytes, 48);
        state.xdg_decoration_id = Some(id);
        assert(state@ =~= StateView { xdg_decoration_id: Some(id), ..old(state)@ });
        Some(MessageOperation::Keep)
    } else {
        Some(MessageOperation::Keep)
    }
}

fn layer_surface_request(bytes: &[u8], state: &mut ProxyState, opcode: u16) -> (r: Option<
    MessageOperation,
>)
    requires
        old(state)@.layer_surface_id is Some,
        bytes@.len() >= 8,
    ensures
        match layer_surface_request_step(bytes@, old(state)@, opcode) {
            None => r is None && final(state)@ == old(state)@,
            Some((op, st)) => r matches Some(o) && o@ == op && final(state)@ == st,
        },
{
    if opcode == 0 {
        Some(MessageOperation::Replace(destroy_message(bytes)))
    } else if opcode == 1 {
        if bytes.len() < 12 || state.registry_id.is_none()
            || state.advertised_layer_shell_name.is_none() {
            return None;
        }
        let new_id = read_u32(bytes, 8);
        state.xdg_toplevel_id = Some(new_id);
        state.client_blacklist_ids.push(new_id);
        let message = create_useless_object(new_id, state);
        assert(state@ =~= StateView {
            xdg_toplevel_id: Some(new_id),
            client_blacklist_ids: old(state)@.client_blacklist_ids.push(new_id),
            ..old(state)@
        });
        Some(MessageOperation::Replace(message))
    } else if opcode == 2 {
        Some(MessageOperation::Keep)
    } else {
        Some(MessageOperation::Drop)
    }
}

fn decoration_request(bytes: &[u8], state: &mut ProxyState, opcode: u16) -> (r: Option<
    MessageOperation,
>)
    requires
        bytes@.len() >= 8,
    ensures
        match decoration_request_step(bytes@, old(state)@, opcode) {
            None => r is None && final(state)@ == old(state)@,
            Some((op, st)) => r matches Some(o) && o@ == op && final(state)@ == st,
        },
{
    if opcode == 0 {
        Some(MessageOperation::Keep)
    } else if opcode == 1 {
        if bytes.len() < 12 || state.registry_id.is_none()
            || state.advertised_layer_shell_name.is_none() {
            return None;
        }
        let new_id = read_u32(bytes, 8);
        state.xdg_toplevel_decoration_id = Some(new_id);
        state.client_blacklist_ids.push(new_id);
        let message = create_useless_object(new_id, state);
        assert(state@ =~= StateView {
            xdg_toplevel_decoration_id: Some(new_id),
            client_blacklist_ids: old(state)@.client_blacklist_ids.push(new_id),
            ..old(state)@
        });
        Some(MessageOperation::Replace(message))
    } else {
        Some(MessageOperation::Drop)
    }
}

/// Decides what to do with the client request at the start of `bytes`, whose
/// object id and opcode are `obj_id` and `opcode`, and updates `state`.
/// Returns `None`, with `state` unchanged, where the request cannot be handled
/// (see [`request_step`]).
pub fn request_operation(bytes: &[u8], state: &mut ProxyState, obj_id: u32, opcode: u16) -> (r:
    Option<MessageOperation>)
    requires
        bytes@.len() >= 8,
        obj_id == u32_at(bytes@, 0),
        opcode == u16_at(bytes@, 4),
    ensures
        match request_step(bytes@, old(state)@) {
            None => r is None && final(state)@ == old(state)@,
            Some((op, st)) => r matches Some(o) && o@ == op && final(state)@ == st,
        },
{
    if contains_id(&state.client_blacklist_ids, obj_id) {
        return Some(MessageOperation::Drop);
    }
    if state.registry_id == Some(obj_id) && opcode == 0 {
        return registry_bind(bytes, state, obj_id);
    }
    if obj_id == 1 && opcode == 1 {
        if bytes.len() < 12 {
            return None;
        }
        let new_reg_id = read_u32(bytes, 8);
        state.registry_id = Some(new_reg_id);
        assert(state@ =~= StateView { registry_id: Some(new_reg_id), ..old(state)@ });
        return Some(MessageOperation::Keep);
    }
    if state.layer_surface_id == Some(obj_id) {
        return layer_surface_request(bytes, state, opcode);
    }
    if state.xdg_decoration_id == Some(obj_id) {
        return decoration_request(bytes, state, opcode);
    }
    if state.layer_shell_id == Some(obj_id) && opcode == 2 && state.layer_surface_id.is_none() {
        if bytes.len() < 16 {
            return None;
        }
        let new_id = read_u32(bytes, 8);
        let surface_id = read_u32(bytes, 12);
        let message = layer_surface_creation(obj_id, new_id, surface_id, state.settings);
        state.layer_surface_id = Some(new_id);
        assert(state@ =~= StateView { layer_surface_id: Some(new_id), ..old(state)@ });
        return Some(MessageOperation::Replace(message));
    }
    if opcode == 2 && (state.layer_shell_id == Some(obj_id) || contains_id(
        &state.xdg_wm_bases,
        obj_id,
    )) {
        if read_u16(bytes, 6) < 12 || bytes.len() < 12 {
            return Some(MessageOperation::Keep);
        }
        let new_id = read_u32(bytes, 8);
        state.xdg_surfaces.push(new_id);
        assert(state@ =~= StateView {
            xdg_surfaces: old(state)@.xdg_surfaces.push(new_id),
            ..old(state)@
        });
        return Some(MessageOperation::Keep);
    }
    if opcode == 2 && state.layer_surface_id.is_some() && contains_id(&state.xdg_surfaces, obj_id) {
        if read_u16(bytes, 6) < 20 || bytes.len() < 20 {
            return Some(MessageOperation::Keep);
        }
        let parent = read_u32(bytes, 12);
        if Some(parent) == state.layer_surface_id {
            return Some(MessageOperation::Replace(popup_with_layer_parent(bytes, parent)));
        }
        return Some(MessageOperation::Keep);
    }
    Some(MessageOperation::Keep)
}

} // verus!
