//! Properties of the proxy's decisions that hold across messages and calls.
use vstd::prelude::*;
use crate::events::{decoration_configure, event_step, surface_configures};
use crate::framing::lemma_u32_roundtrip;
use crate::message::{OperationView, Stream, forwarded};
use crate::requests::{layer_surface_messages, layer_surface_request_step, popup_rewrite, request_step};
use crate::scan::{scan, step};
use crate::state::{Cli, StateView, settings_of};
use crate::wire::{
    bind_message, decoration_manager_interface, header, layer_shell_interface, le_u32, u16_at, u32_at,
    xdg_wm_base_interface,
};

verus! {

/// What a scan may change of the state: the blacklist, the further
/// surfaces and the further `xdg_wm_base` objects only grow, the layer shell and the layer surface, once known,
/// stay, and the settings stay.
pub open spec fn evolves(before: StateView, after: StateView) -> bool {
    &&& before.client_blacklist_ids.is_prefix_of(after.client_blacklist_ids)
    &&& before.xdg_surfaces.is_prefix_of(after.xdg_surfaces)
    &&& before.xdg_wm_bases.is_prefix_of(after.xdg_wm_bases)
    &&& (before.layer_shell_id is Some ==> after.layer_shell_id == before.layer_shell_id)
    &&& (before.layer_surface_id is Some ==> after.layer_surface_id == before.layer_surface_id)
    &&& after.needs_no_csd == before.needs_no_csd
    &&& after.settings == before.settings
}

/// What requests leave alone: what the compositor advertised, and the settings.
pub open spec fn keeps_knowledge(before: StateView, after: StateView) -> bool {
    &&& after.advertised_layer_shell_name == before.advertised_layer_shell_name
    &&& after.advertised_xdg_wm_base_name == before.advertised_xdg_wm_base_name
    &&& after.needs_no_csd == before.needs_no_csd
    &&& after.settings == before.settings
}

/// Every message that [`scan`] hands to [`step`] in `b` is kept and leaves
/// the state as it is.
pub open spec fn keeps_all(stream: Stream, b: Seq<u8>, st: StateView) -> bool
    decreases b.len(),
{
    if b.len() < 8 {
        true
    } else {
        let size = u16_at(b, 6);
        if size == 0 || size > b.len() {
            true
        } else {
            step(stream, b, st) == Some((OperationView::Keep, st)) && keeps_all(
                stream,
                b.skip(size as int),
                st,
            )
        }
    }
}

/// A request sent by the client to an object on the blacklist is dropped,
/// and the state stays as it is.
pub proof fn lemma_blacklisted_request_dropped(b: Seq<u8>, st: StateView)
    requires
        st.client_blacklist_ids.contains(u32_at(b, 0)),
    ensures
        request_step(b, st) == Some((OperationView::Drop, st)),
{
}

/// A request to an object the proxy does not track, other than
/// `wl_display::get_registry`, is sent on unchanged and the state stays as it is.
pub proof fn lemma_untracked_request_kept(b: Seq<u8>, st: StateView)
    requires
        !st.client_blacklist_ids.contains(u32_at(b, 0)),
        st.registry_id != Some(u32_at(b, 0)),
        !(u32_at(b, 0) == 1 && u16_at(b, 4) == 1),
        st.layer_surface_id != Some(u32_at(b, 0)),
        st.xdg_decoration_id != Some(u32_at(b, 0)),
        st.layer_shell_id != Some(u32_at(b, 0)),
        !st.xdg_surfaces.contains(u32_at(b, 0)),
        !st.xdg_wm_bases.contains(u32_at(b, 0)),
    ensures
        request_step(b, st) == Some((OperationView::Keep, st)),
{
}

/// The first `get_xdg_surface` request on the client's `xdg_wm_base` (bound
/// to the layer shell) is replaced by the creation of a layer surface with
/// the client's new id, placed by the settings; the proxy records the id.
pub proof fn lemma_first_surface_becomes_layer_surface(b: Seq<u8>, st: StateView)
    requires
        b.len() >= 16,
        st.layer_shell_id == Some(u32_at(b, 0)),
        u16_at(b, 4) == 2,
        st.layer_surface_id is None,
        !st.client_blacklist_ids.contains(u32_at(b, 0)),
        st.registry_id != Some(u32_at(b, 0)),
        st.xdg_decoration_id != Some(u32_at(b, 0)),
    ensures
        request_step(b, st) == Some(
            (
                OperationView::Replace(
                    layer_surface_messages(u32_at(b, 0), u32_at(b, 8), u32_at(b, 12), st.settings),
                ),
                StateView { layer_surface_id: Some(u32_at(b, 8)), ..st },
            ),
        ),
{
}

/// Binding `xdg_wm_base` again, once the layer shell is bound, is sent on
/// unchanged, and the new `xdg_wm_base` is recorded.
pub proof fn lemma_later_wm_base_recorded(b: Seq<u8>, st: StateView)
    requires
        b.len() >= 36,
        u16_at(b, 6) >= 36,
        st.registry_id == Some(u32_at(b, 0)),
        u16_at(b, 4) == 0,
        !st.client_blacklist_ids.contains(u32_at(b, 0)),
        st.layer_shell_id is Some,
        u32_at(b, 12) == 12,
        b.subrange(16, 28) == xdg_wm_base_interface(),
    ensures
        request_step(b, st) == Some(
            (
                OperationView::Keep,
                StateView { xdg_wm_bases: st.xdg_wm_bases.push(u32_at(b, 32)), ..st },
            ),
        ),
{
}

/// Once the first surface has become a layer surface, further
/// `get_xdg_surface` requests, on the first or on any later `xdg_wm_base`,
/// are sent on unchanged, and their surfaces are recorded.
pub proof fn lemma_later_surfaces_pass_through(b: Seq<u8>, st: StateView)
    requires
        b.len() >= 12,
        u16_at(b, 6) >= 12,
        st.layer_shell_id == Some(u32_at(b, 0)) || st.xdg_wm_bases.contains(u32_at(b, 0)),
        u16_at(b, 4) == 2,
        st.layer_surface_id is Some,
        st.layer_surface_id != Some(u32_at(b, 0)),
        !st.client_blacklist_ids.contains(u32_at(b, 0)),
        st.registry_id != Some(u32_at(b, 0)),
        st.xdg_decoration_id != Some(u32_at(b, 0)),
    ensures
        request_step(b, st) == Some(
            (
                OperationView::Keep,
                StateView { xdg_surfaces: st.xdg_surfaces.push(u32_at(b, 8)), ..st },
            ),
        ),
{
}

/// An `xdg_surface::get_popup` on any recorded surface (made on the first
/// or on any later `xdg_wm_base`) whose parent is the layer surface is sent
/// with a null parent and followed by the layer surface's own `get_popup`
/// for the new popup; a popup with any other parent is sent on unchanged.
pub proof fn lemma_popups_of_layer_surface(b: Seq<u8>, st: StateView)
    requires
        b.len() >= 20,
        u16_at(b, 6) >= 20,
        st.xdg_surfaces.contains(u32_at(b, 0)),
        u16_at(b, 4) == 2,
        st.layer_surface_id is Some,
        st.layer_surface_id != Some(u32_at(b, 0)),
        st.layer_shell_id != Some(u32_at(b, 0)),
        !st.xdg_wm_bases.contains(u32_at(b, 0)),
        !st.client_blacklist_ids.contains(u32_at(b, 0)),
        st.registry_id != Some(u32_at(b, 0)),
        st.xdg_decoration_id != Some(u32_at(b, 0)),
    ensures
        st.layer_surface_id == Some(u32_at(b, 12)) ==> request_step(b, st) == Some(
            (OperationView::Replace(popup_rewrite(b, u32_at(b, 12))), st),
        ),
        st.layer_surface_id != Some(u32_at(b, 12)) ==> request_step(b, st) == Some(
            (OperationView::Keep, st),
        ),
        popup_rewrite(b, u32_at(b, 12)).subrange(12, 16) == seq![0u8, 0, 0, 0],
{
    assert(popup_rewrite(b, u32_at(b, 12)).subrange(12, 16) =~= seq![0u8, 0, 0, 0]);
}

proof fn lemma_prefix_push(s: Seq<u32>, x: u32)
    ensures
        s.is_prefix_of(s.push(x)),
        s.is_prefix_of(s),
{
}

proof fn lemma_step_evolves(stream: Stream, b: Seq<u8>, st: StateView)
    ensures
        step(stream, b, st) matches Some((_, next)) ==> evolves(st, next),
        stream == Stream::Requests ==> (step(stream, b, st) matches Some((_, next))
            ==> keeps_knowledge(st, next)),
        stream == Stream::Events ==> (step(stream, b, st) matches Some((_, next)) ==> next
            == StateView { advertised_layer_shell_name: next.advertised_layer_shell_name, ..st }),
{
    reveal(step);
    lemma_prefix_push(st.client_blacklist_ids, u32_at(b, 8));
    lemma_prefix_push(st.xdg_surfaces, u32_at(b, 8));
    lemma_prefix_push(st.xdg_wm_bases, u32_at(b, 32));
}

proof fn lemma_evolves_transitive(a: StateView, b: StateView, c: StateView)
    requires
        evolves(a, b),
        evolves(b, c),
    ensures
        evolves(a, c),
{
    assert forall|i: int| 0 <= i < a.client_blacklist_ids.len() implies a.client_blacklist_ids[i]
        == c.client_blacklist_ids[i] by {
        assert(a.client_blacklist_ids[i] == b.client_blacklist_ids[i]);
    }
    assert forall|i: int| 0 <= i < a.xdg_surfaces.len() implies a.xdg_surfaces[i]
        == c.xdg_surfaces[i] by {
        assert(a.xdg_surfaces[i] == b.xdg_surfaces[i]);
    }
    assert forall|i: int| 0 <= i < a.xdg_wm_bases.len() implies a.xdg_wm_bases[i]
        == c.xdg_wm_bases[i] by {
        assert(a.xdg_wm_bases[i] == b.xdg_wm_bases[i]);
    }
}

/// Scanning a buffer only adds to the blacklist and to the further
/// surfaces, never forgets the layer shell or the layer surface once known,
/// and keeps the settings. Requests leave what the compositor advertised as
/// it is; events change nothing but the advertised layer shell name.
pub proof fn lemma_scan_evolves(stream: Stream, b: Seq<u8>, st: StateView)
    ensures
        scan(stream, b, st) matches Some((_, last)) ==> evolves(st, last),
        stream == Stream::Requests ==> (scan(stream, b, st) matches Some((_, last))
            ==> keeps_knowledge(st, last)),
        stream == Stream::Events ==> (scan(stream, b, st) matches Some((_, last)) ==> last
            == StateView { advertised_layer_shell_name: last.advertised_layer_shell_name, ..st }),
    decreases b.len(),
{
    lemma_prefix_push(st.client_blacklist_ids, 0);
    lemma_prefix_push(st.xdg_surfaces, 0);
    lemma_prefix_push(st.xdg_wm_bases, 0);
    if b.len() >= 8 {
        let size = u16_at(b, 6);
        if size != 0 && size <= b.len() {
            lemma_step_evolves(stream, b, st);
            if let Some((_, next)) = step(stream, b, st) {
                lemma_scan_evolves(stream, b.skip(size as int), next);
                if let Some((_, last)) = scan(stream, b.skip(size as int), next) {
                    lemma_evolves_transitive(st, next, last);
                }
            }
        }
    }
}

/// A buffer all of whose messages are kept, with the state unchanged, is
/// sent on unchanged, and the state stays as it is.
pub proof fn lemma_all_kept_forwarded_unchanged(stream: Stream, b: Seq<u8>, st: StateView)
    requires
        keeps_all(stream, b, st),
    ensures
        scan(stream, b, st) == Some((b, st)),
    decreases b.len(),
{
    if b.len() >= 8 {
        let size = u16_at(b, 6);
        if size != 0 && size <= b.len() {
            lemma_all_kept_forwarded_unchanged(stream, b.skip(size as int), st);
            assert(b.take(size as int) + b.skip(size as int) =~= b);
        }
    }
}

/// Where the proxy tracks neither a registry nor a layer surface, events are
/// sent on unchanged and the state stays as it is.
pub proof fn lemma_untracked_events_pass_through(b: Seq<u8>, st: StateView)
    requires
        st.registry_id is None,
        st.layer_surface_id is None,
    ensures
        scan(Stream::Events, b, st) == Some((b, st)),
    decreases b.len(),
{
    reveal(step);
    if b.len() >= 8 {
        let size = u16_at(b, 6);
        if size != 0 && size <= b.len() {
            lemma_untracked_events_pass_through(b.skip(size as int), st);
            assert(b.take(size as int) + b.skip(size as int) =~= b);
        }
    }
}

/// A buffer that is one whole message is handled by exactly one step.
pub proof fn lemma_one_message_one_step(stream: Stream, b: Seq<u8>, st: StateView)
    requires
        b.len() >= 8,
        u16_at(b, 6) == b.len(),
    ensures
        scan(stream, b, st) == match step(stream, b, st) {
            None => None,
            Some((op, next)) => Some((forwarded(op, b), next)),
        },
        step(stream, b, st) matches Some((OperationView::Drop, next)) ==> scan(stream, b, st)
            == Some((Seq::<u8>::empty(), next)),
        step(stream, b, st) matches Some((OperationView::Keep, next)) ==> scan(stream, b, st)
            == Some((b, next)),
        step(stream, b, st) matches Some((OperationView::Replace(m), next)) ==> scan(stream, b, st)
            == Some((m, next)),
        step(stream, b, st) is None ==> scan(stream, b, st) is None,
{
    assert(b.skip(b.len() as int) =~= Seq::<u8>::empty());
    assert(b.take(b.len() as int) =~= b);
    if let Some((op, next)) = step(stream, b, st) {
        assert(scan(stream, b.skip(b.len() as int), next) == Some((Seq::<u8>::empty(), next)));
        assert(forwarded(op, b) + Seq::<u8>::empty() =~= forwarded(op, b));
    }
}

/// The compositor's `configure` of the layer surface starts with a
/// `configure` of the client's toplevel decoration: server side (2), so
/// the client draws no decorations, unless client-side decorations are
/// allowed, then client side (1).
pub proof fn lemma_configure_sets_decoration_mode(b: Seq<u8>, st: StateView, decoration: u32)
    requires
        b.len() >= 20,
        st.layer_surface_id == Some(u32_at(b, 0)),
        st.registry_id != Some(u32_at(b, 0)),
        u16_at(b, 4) == 0,
        st.xdg_toplevel_decoration_id == Some(decoration),
    ensures
        event_step(b, st) matches Some((OperationView::Replace(m), next)) && next == st
            && m.subrange(0, 8) == header(decoration, 0, 12) && u32_at(m, 8) == (if st.needs_no_csd {
            2u32
        } else {
            1u32
        }),
{
    let mode: u32 = if st.needs_no_csd { 2 } else { 1 };
    let d = decoration_configure(st);
    let m = d + surface_configures(b, st.xdg_toplevel_id);
    lemma_u32_roundtrip(mode);
    assert(m.subrange(0, 8) =~= header(decoration, 0, 12));
    assert(m.subrange(8, 12) =~= le_u32(mode));
    assert(m[8] == le_u32(mode)[0] && m[9] == le_u32(mode)[1] && m[10] == le_u32(mode)[2] && m[11]
        == le_u32(mode)[3]);
}

/// At offset `i` of `b` stands a `wl_registry::global` on `registry`
/// advertising `zwlr_layer_shell_v1` under the name `name`.
pub open spec fn layer_shell_global_at(b: Seq<u8>, i: int, registry: u32, name: u32) -> bool {
    &&& 0 <= i
    &&& i + 36 <= b.len()
    &&& u32_at(b, i) == registry
    &&& u16_at(b, i + 4) == 0
    &&& u32_at(b, i + 12) == 20
    &&& b.subrange(i + 16, i + 36) == layer_shell_interface()
    &&& u32_at(b, i + 8) == name
}

/// A layer shell name that scanning events records was advertised in the
/// buffer: there is a layer shell global with that name on the client's
/// registry in it.
pub proof fn lemma_advertised_name_from_buffer(b: Seq<u8>, st: StateView)
    ensures
        scan(Stream::Events, b, st) matches Some((_, last)) ==> (last.advertised_layer_shell_name
            == st.advertised_layer_shell_name || (st.registry_id is Some
            && last.advertised_layer_shell_name is Some && exists|i: int|
            layer_shell_global_at(
                b,
                i,
                st.registry_id.unwrap(),
                last.advertised_layer_shell_name.unwrap(),
            ))),
    decreases b.len(),
{
    if b.len() >= 8 {
        let size = u16_at(b, 6);
        if size != 0 && size <= b.len() {
            lemma_step_evolves(Stream::Events, b, st);
            if let Some((_, next)) = step(Stream::Events, b, st) {
                let rest = b.skip(size as int);
                lemma_advertised_name_from_buffer(rest, next);
                if let Some((_, last)) = scan(Stream::Events, rest, next) {
                    assert(next.registry_id == st.registry_id);
                    if last.advertised_layer_shell_name != next.advertised_layer_shell_name {
                        let i = choose|i: int|
                            layer_shell_global_at(
                                rest,
                                i,
                                next.registry_id.unwrap(),
                                last.advertised_layer_shell_name.unwrap(),
                            );
                        let j = size + i;
                        assert(b.subrange(j + 16, j + 36) =~= rest.subrange(i + 16, i + 36));
                        assert(b[j] == rest[i] && b[j + 1] == rest[i + 1] && b[j + 2] == rest[i + 2]
                            && b[j + 3] == rest[i + 3]);
                        assert(b[j + 4] == rest[i + 4] && b[j + 5] == rest[i + 5]);
                        assert(b[j + 8] == rest[i + 8] && b[j + 9] == rest[i + 9] && b[j + 10]
                            == rest[i + 10] && b[j + 11] == rest[i + 11]);
                        assert(b[j + 12] == rest[i + 12] && b[j + 13] == rest[i + 13] && b[j + 14]
                            == rest[i + 14] && b[j + 15] == rest[i + 15]);
                        assert(layer_shell_global_at(
                            b,
                            j,
                            st.registry_id.unwrap(),
                            last.advertised_layer_shell_name.unwrap(),
                        ));
                    } else if next.advertised_layer_shell_name != st.advertised_layer_shell_name {
                        reveal(step);
                        assert(layer_shell_global_at(
                            b,
                            0,
                            st.registry_id.unwrap(),
                            last.advertised_layer_shell_name.unwrap(),
                        ));
                    }
                }
            }
        }
    }
}

/// Requests on the layer surface: `destroy` (0) is sent as eight bytes on
/// the same object with opcode 7 and the same size; `get_toplevel` (1) is
/// replaced by a bind on the registry for the new id, which is blacklisted
/// and recorded as the toplevel; `get_popup` (2) is kept; every other
/// request is dropped. Only `get_toplevel` changes the state.
pub proof fn lemma_layer_surface_requests(b: Seq<u8>, st: StateView)
    requires
        b.len() >= 8,
        st.layer_surface_id == Some(u32_at(b, 0)),
        st.registry_id != Some(u32_at(b, 0)),
        u32_at(b, 0) != 1,
        !st.client_blacklist_ids.contains(u32_at(b, 0)),
    ensures
        u16_at(b, 4) > 2 ==> request_step(b, st) == Some((OperationView::Drop, st)),
        u16_at(b, 4) == 2 ==> request_step(b, st) == Some((OperationView::Keep, st)),
        u16_at(b, 4) == 0 ==> (request_step(b, st) matches Some((OperationView::Replace(m), next))
            && next == st && m.len() == 8 && u32_at(m, 0) == u32_at(b, 0) && u16_at(m, 4) == 7
            && u16_at(m, 6) == u16_at(b, 6)),
        u16_at(b, 4) == 1 && b.len() >= 12 && st.registry_id is Some
            && st.advertised_layer_shell_name is Some ==> request_step(b, st) == Some(
            (
                OperationView::Replace(
                    bind_message(
                        st.registry_id.unwrap(),
                        st.advertised_layer_shell_name.unwrap(),
                        u32_at(b, 8),
                    ),
                ),
                StateView {
                    xdg_toplevel_id: Some(u32_at(b, 8)),
                    client_blacklist_ids: st.client_blacklist_ids.push(u32_at(b, 8)),
                    ..st
                },
            ),
        ),
{
    assert(request_step(b, st) == layer_surface_request_step(b, st, u16_at(b, 4)));
    if u16_at(b, 4) == 0 {
        let m = b.subrange(0, 8).update(4, 7u8);
        assert(m[0] == b[0] && m[1] == b[1] && m[2] == b[2] && m[3] == b[3]);
        assert(m[5] == b[5] && m[6] == b[6] && m[7] == b[7]);
        assert(b[4] + 256 * b[5] == 0);
    }
}

/// Every request on a later surface other than `get_popup` is sent on
/// unchanged and leaves the state as it is: later windows are created and
/// run as the client asks.
pub proof fn lemma_later_surface_requests_kept(b: Seq<u8>, st: StateView)
    requires
        st.xdg_surfaces.contains(u32_at(b, 0)),
        u16_at(b, 4) != 2,
        !st.client_blacklist_ids.contains(u32_at(b, 0)),
        st.registry_id != Some(u32_at(b, 0)),
        u32_at(b, 0) != 1,
        st.layer_surface_id != Some(u32_at(b, 0)),
        st.xdg_decoration_id != Some(u32_at(b, 0)),
        st.layer_shell_id != Some(u32_at(b, 0)),
        !st.xdg_wm_bases.contains(u32_at(b, 0)),
    ensures
        request_step(b, st) == Some((OperationView::Keep, st)),
{
}

/// Every event other than a global on the client's registry and the layer
/// surface's own events is sent on unchanged and leaves the state as it
/// is, whatever the proxy tracks.
pub proof fn lemma_other_events_kept(b: Seq<u8>, st: StateView)
    requires
        !(st.registry_id == Some(u32_at(b, 0)) && u16_at(b, 4) == 0),
        st.layer_surface_id != Some(u32_at(b, 0)),
    ensures
        event_step(b, st) == Some((OperationView::Keep, st)),
{
}

/// A bind on the client's registry of any global other than `xdg_wm_base`
/// and `zxdg_decoration_manager_v1`, whose interface name lies within the
/// buffer, is sent on unchanged and leaves the state as it is.
pub proof fn lemma_other_binds_kept(b: Seq<u8>, st: StateView)
    requires
        b.len() >= 16,
        b.len() >= 16 + u32_at(b, 12),
        st.registry_id == Some(u32_at(b, 0)),
        u16_at(b, 4) == 0,
        !st.client_blacklist_ids.contains(u32_at(b, 0)),
        !(u32_at(b, 12) == 12 && b.subrange(16, 28) == xdg_wm_base_interface()),
        !(u32_at(b, 12) == 27 && b.subrange(16, 43) == decoration_manager_interface()),
    ensures
        request_step(b, st) == Some((OperationView::Keep, st)),
{
}

/// The anchor a command line gives the layer surface has bit 1 exactly when
/// it anchors to the top, bit 2 to the bottom, bit 4 to the left and bit 8
/// to the right, and no other bits; the layer, size and margins are those
/// of the command line.
pub proof fn lemma_command_line_settings(cli: Cli)
    ensures
        settings_of(&cli).anchor < 16,
        settings_of(&cli).anchor % 2 == 1 <==> cli.anchor_top,
        (settings_of(&cli).anchor / 2) % 2 == 1 <==> cli.anchor_bottom,
        (settings_of(&cli).anchor / 4) % 2 == 1 <==> cli.anchor_left,
        (settings_of(&cli).anchor / 8) % 2 == 1 <==> cli.anchor_right,
        settings_of(&cli).layer == cli.layer,
        settings_of(&cli).width == cli.width,
        settings_of(&cli).height == cli.height,
        settings_of(&cli).margin == cli.margins,
{
}

/// A buffer shorter than a header, or whose first header gives a size of
/// zero or one beyond its end, is sent on as it is, and the state stays.
pub proof fn lemma_malformed_forwarded(stream: Stream, b: Seq<u8>, st: StateView)
    requires
        b.len() < 8 || u16_at(b, 6) == 0 || u16_at(b, 6) > b.len(),
    ensures
        scan(stream, b, st) == Some((b, st)),
{
    if b.len() == 0 {
        assert(b =~= Seq::<u8>::empty());
    }
}

/// A buffer cut short in the middle of a message is sent on as far as its
/// whole messages go, then the cut message as it is.
pub proof fn lemma_cut_message_forwarded(stream: Stream, a: Seq<u8>, c: Seq<u8>, st: StateView)
    requires
        crate::framing::whole_messages(a),
        scan(stream, a, st) is Some,
        c.len() < 8 || u16_at(c, 6) == 0 || u16_at(c, 6) > c.len(),
    ensures
        scan(stream, a + c, st) == Some(
            (scan(stream, a, st).unwrap().0 + c, scan(stream, a, st).unwrap().1),
        ),
{
    crate::framing::lemma_scan_in_pieces(stream, a, c, st);
    lemma_malformed_forwarded(stream, c, scan(stream, a, st).unwrap().1);
}

/// Requests on the decoration manager: `destroy` (0) is sent on unchanged;
/// `get_toplevel_decoration` (1) is replaced by a bind on the registry for
/// the new id, which is blacklisted and recorded as the toplevel decoration;
/// every other request is dropped.
pub proof fn lemma_decoration_manager_requests(b: Seq<u8>, st: StateView)
    requires
        b.len() >= 8,
        st.xdg_decoration_id == Some(u32_at(b, 0)),
        st.layer_surface_id != Some(u32_at(b, 0)),
        st.registry_id != Some(u32_at(b, 0)),
        u32_at(b, 0) != 1,
        !st.client_blacklist_ids.contains(u32_at(b, 0)),
    ensures
        u16_at(b, 4) == 0 ==> request_step(b, st) == Some((OperationView::Keep, st)),
        u16_at(b, 4) > 1 ==> request_step(b, st) == Some((OperationView::Drop, st)),
        u16_at(b, 4) == 1 && b.len() >= 12 && st.registry_id is Some
            && st.advertised_layer_shell_name is Some ==> request_step(b, st) == Some(
            (
                OperationView::Replace(
                    bind_message(
                        st.registry_id.unwrap(),
                        st.advertised_layer_shell_name.unwrap(),
                        u32_at(b, 8),
                    ),
                ),
                StateView {
                    xdg_toplevel_decoration_id: Some(u32_at(b, 8)),
                    client_blacklist_ids: st.client_blacklist_ids.push(u32_at(b, 8)),
                    ..st
                },
            ),
        ),
{
}

/// A bind of `zxdg_decoration_manager_v1` on the client's registry is sent
/// on unchanged, and the new id is recorded as the decoration manager.
pub proof fn lemma_decoration_manager_bind(b: Seq<u8>, st: StateView)
    requires
        b.len() >= 52,
        st.registry_id == Some(u32_at(b, 0)),
        u16_at(b, 4) == 0,
        !st.client_blacklist_ids.contains(u32_at(b, 0)),
        u32_at(b, 12) == 27,
        b.subrange(16, 43) == decoration_manager_interface(),
    ensures
        request_step(b, st) == Some(
            (OperationView::Keep, StateView { xdg_decoration_id: Some(u32_at(b, 48)), ..st }),
        ),
{
}

/// At start-up the proxy knows of no object of the client, and forces
/// client-side decorations off unless they are allowed.
pub proof fn lemma_initial_state(cli: Cli)
    ensures
        crate::state::initial_state(!cli.allow_csd, settings_of(&cli)).registry_id is None,
        crate::state::initial_state(!cli.allow_csd, settings_of(&cli)).advertised_layer_shell_name
            is None,
        crate::state::initial_state(!cli.allow_csd, settings_of(&cli)).layer_shell_id is None,
        crate::state::initial_state(!cli.allow_csd, settings_of(&cli)).layer_surface_id is None,
        crate::state::initial_state(!cli.allow_csd, settings_of(&cli)).xdg_toplevel_id is None,
        crate::state::initial_state(!cli.allow_csd, settings_of(&cli)).xdg_decoration_id is None,
        crate::state::initial_state(
            !cli.allow_csd,
            settings_of(&cli),
        ).xdg_toplevel_decoration_id is None,
        crate::state::initial_state(!cli.allow_csd, settings_of(&cli)).client_blacklist_ids.len()
            == 0,
        crate::state::initial_state(!cli.allow_csd, settings_of(&cli)).xdg_surfaces.len() == 0,
        crate::state::initial_state(!cli.allow_csd, settings_of(&cli)).xdg_wm_bases.len() == 0,
        crate::state::initial_state(!cli.allow_csd, settings_of(&cli)).needs_no_csd
            <==> !cli.allow_csd,
{
}

} // verus!
