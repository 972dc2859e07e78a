//! Rewriting of the compositor's events: the layer shell global is noted as
//! it is advertised, and the events of the layer surface are turned into the
//! `xdg_surface` and `xdg_toplevel` events the client expects.
use vstd::prelude::*;
use vstd::slice::{slice_subrange, slice_to_vec};
use crate::message::{MessageOperation, OperationView};
use crate::state::{ProxyState, StateView};
use crate::wire::{
    header, message_header, LAYER_SHELL_BIND_TEMPLATE, LAYER_SHELL_STRING_LEN, bytes_match_at, layer_shell_interface,
    le_u16, le_u32, lemma_constant_views, push_bytes, push_u16, push_u32, read_u32, u16_at,
    u32_at,
};

verus! {

/// The mode a toplevel decoration is configured with: server side (2),
/// which keeps the client from drawing decorations, unless client-side
/// decorations are allowed, then client side (1).
pub open spec fn decoration_mode(needs_no_csd: bool) -> u32 {
    if needs_no_csd { 2 } else { 1 }
}

/// `zxdg_toplevel_decoration_v1::configure` for the client's toplevel
/// decoration, where it has one.
pub open spec fn decoration_configure(st: StateView) -> Seq<u8> {
    match st.xdg_toplevel_decoration_id {
        None => Seq::empty(),
        Some(d) => header(d, 0, 12) + le_u32(decoration_mode(st.needs_no_csd)),
    }
}

/// A layer surface `configure` (serial, width, height) in `b`, as the
/// decoration's configure (see [`decoration_configure`]), then an
/// `xdg_surface::configure` with the same serial, followed, where the
/// client has an `xdg_toplevel`, by an `xdg_toplevel::configure` with the
/// width, height and no states.
pub open spec fn configure_rewrite(b: Seq<u8>, st: StateView) -> Seq<u8> {
    decoration_configure(st) + surface_configures(b, st.xdg_toplevel_id)
}

/// The `xdg_surface::configure` and `xdg_toplevel::configure` of [`configure_rewrite`].
pub open spec fn surface_configures(b: Seq<u8>, toplevel: Option<u32>) -> Seq<u8> {
    let surface_configure = b.subrange(0, 12).update(6, 12u8);
    match toplevel {
        None => surface_configure,
        Some(t) => surface_configure + le_u32(t) + le_u16(0) + le_u16(20) + b.subrange(12, 16)
            + b.subrange(16, 20) + le_u32(0),
    }
}

/// What the proxy does with the event at the start of `b` (the rest of the
/// buffer from that event on), and the state after it. `None` where the event
/// is too short for the fields read.
pub open spec fn event_step(b: Seq<u8>, st: StateView) -> Option<(OperationView, StateView)> {
    let obj = u32_at(b, 0);
    let opcode = u16_at(b, 4);
    if st.registry_id == Some(obj) && opcode == 0 {
        if b.len() < 16 {
            None
        } else if u32_at(b, 12) == 20 {
            if b.len() < 36 {
                None
            } else if b.subrange(16, 36) == layer_shell_interface() {
                Some(
                    (
                        OperationView::Keep,
                        StateView { advertised_layer_shell_name: Some(u32_at(b, 8)), ..st },
                    ),
                )
            } else {
                Some((OperationView::Keep, st))
            }
        } else {
            Some((OperationView::Keep, st))
        }
    } else if st.layer_surface_id == Some(obj) {
        if opcode == 0 {
            if b.len() < 12 || (st.xdg_toplevel_id is Some && b.len() < 20) {
                None
            } else {
                Some((OperationView::Replace(configure_rewrite(b, st)), st))
            }
        } else if opcode == 1 {
            match st.xdg_toplevel_id {
                Some(t) => Some((OperationView::Replace(le_u32(t) + b.subrange(4, 8)), st)),
                None => Some((OperationView::Drop, st)),
            }
        } else {
            Some((OperationView::Drop, st))
        }
    } else {
        Some((OperationView::Keep, st))
    }
}

fn registry_global(bytes: &[u8], state: &mut ProxyState) -> (r: Option<MessageOperation>)
    requires
        bytes@.len() >= 8,
        old(state)@.registry_id == Some(u32_at(bytes@, 0)),
        u16_at(bytes@, 4) == 0,
    ensures
        match event_step(bytes@, old(state)@) {
            None => r is None && final(state)@ == old(state)@,
            Some((op, st)) => r matches Some(o) && o@ == op && final(state)@ == st,
        },
{
    proof { lemma_constant_views(); }
    if bytes.len() < 16 {
        return None;
    }
    let str_len = read_u32(bytes, 12);
    if str_len == LAYER_SHELL_STRING_LEN {
        if bytes.len() < 36 {
            return None;
        }
        let interface = slice_subrange(&LAYER_SHELL_BIND_TEMPLATE, 4, 24);
        if bytes_match_at(bytes, 16, interface) {
            let name = read_u32(bytes, 8);
            state.advertised_layer_shell_name = Some(name);
            assert(state@ =~= StateView { advertised_layer_shell_name: Some(name), ..old(state)@ });
        }
    }
    Some(MessageOperation::Keep)
}

fn layer_surface_event(bytes: &[u8], state: &ProxyState, opcode: u16) -> (r: Option<
    MessageOperation,
>)
    requires
        bytes@.len() >= 8,
        state@.layer_surface_id == Some(u32_at(bytes@, 0)),
        state@.registry_id != Some(u32_at(bytes@, 0)) || u16_at(bytes@, 4) != 0,
        opcode == u16_at(bytes@, 4),
    ensures
        match event_step(bytes@, state@) {
            None => r is None,
            Some((op, st)) => r matches Some(o) && o@ == op && st == state@,
        },
{
    if opcode == 0 {
        if bytes.len() < 12 || (state.xdg_toplevel_id.is_some() && bytes.len() < 20) {
            return None;
        }
        let mut out: Vec<u8> = match state.xdg_toplevel_decoration_id {
            None => Vec::new(),
            Some(decoration) => {
                let mut d = message_header(decoration, 0, 12);
                push_u32(&mut d, if state.needs_no_csd { 2 } else { 1 });
                d
            },
        };
        assert(out@ == decoration_configure(state@));
        let mut new_msgs = slice_to_vec(slice_subrange(bytes, 0, 12));
        new_msgs.set(6, 12);
        match state.xdg_toplevel_id {
            None => {},
            Some(toplevel_id) => {
                push_u32(&mut new_msgs, toplevel_id);
                push_u16(&mut new_msgs, 0);
                push_u16(&mut new_msgs, 20);
                push_bytes(&mut new_msgs, slice_subrange(bytes, 12, 16));
                push_bytes(&mut new_msgs, slice_subrange(bytes, 16, 20));
                push_u32(&mut new_msgs, 0);
            },
        }
        push_bytes(&mut out, new_msgs.as_slice());
        Some(MessageOperation::Replace(out))
    } else if opcode == 1 {
        match state.xdg_toplevel_id {
            Some(id) => {
                let mut new_msg: Vec<u8> = Vec::new();
                push_u32(&mut new_msg, id);
                push_bytes(&mut new_msg, slice_subrange(bytes, 4, 8));
                assert(new_msg@ =~= le_u32(id) + bytes@.subrange(4, 8));
                Some(MessageOperation::Replace(new_msg))
            },
            None => Some(MessageOperation::Drop),
        }
    } else {
        Some(MessageOperation::Drop)
    }
}

/// Decides what to do with the compositor event at the start of `bytes`,
/// whose object id and opcode are `obj_id` and `opcode`, and updates `state`.
/// Returns `None`, with `state` unchanged, where the event cannot be handled
/// (see [`event_step`]).
pub fn event_operation(bytes: &[u8], state: &mut ProxyState, obj_id: u32, opcode: u16) -> (r:
    Option<MessageOperation>)
    requires
        bytes@.len() >= 8,
        obj_id == u32_at(bytes@, 0),
        opcode == u16_at(bytes@, 4),
    ensures
        match event_step(bytes@, old(state)@) {
            None => r is None && final(state)@ == old(state)@,
            Some((op, st)) => r matches Some(o) && o@ == op && final(state)@ == st,
        },
{
    if state.registry_id == Some(obj_id) && opcode == 0 {
        return registry_global(bytes, state);
    }
    if state.layer_surface_id == Some(obj_id) {
        return layer_surface_event(bytes, state, opcode);
    }
    Some(MessageOperation::Keep)
}

} // verus!
