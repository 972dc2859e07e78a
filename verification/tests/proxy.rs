use layershellify::message::{MessageOperation, Stream};
use layershellify::requests::{layer_surface_creation, request_operation};
use layershellify::scan::{
    scan_events, scan_messages, scan_requests, try_scan_events, try_scan_requests,
};
use layershellify::state::{create_useless_object, Cli, LayerSettings, ProxyState};
use layershellify::wire::{bind_layer_shell, message_header};

fn le(x: u32) -> Vec<u8> {
    x.to_le_bytes().to_vec()
}

fn msg(obj: u32, opcode: u16, args: &[u8]) -> Vec<u8> {
    let mut m = message_header(obj, opcode, (8 + args.len()) as u16);
    m.extend_from_slice(args);
    m
}

fn cli(allow_csd: bool) -> Cli {
    Cli {
        anchor_left: false,
        anchor_right: false,
        anchor_top: true,
        anchor_bottom: false,
        width: 400,
        height: 400,
        allow_csd,
        margins: 0,
        layer: 3,
        execute_command: vec!["foot".to_string()],
    }
}

fn fresh() -> ProxyState {
    ProxyState::new(&cli(false))
}

const REGISTRY: u32 = 2;
const LAYER_SHELL_NAME: u32 = 5;
const WM_BASE: u32 = 3;
const SURFACE: u32 = 10;
const TOPLEVEL: u32 = 11;

/// wl_registry::global advertising an interface as the compositor sends it.
fn global(name: u32, interface: &[u8], version: u32) -> Vec<u8> {
    let mut args = le(name);
    args.extend(le(interface.len() as u32));
    args.extend_from_slice(interface);
    while args.len() % 4 != 0 {
        args.push(0);
    }
    args.extend(le(version));
    msg(REGISTRY, 0, &args)
}

/// wl_registry::bind with an interface, as clients send it.
fn bind(name: u32, interface: &[u8], version: u32, new_id: u32) -> Vec<u8> {
    let mut args = le(name);
    args.extend(le(interface.len() as u32));
    args.extend_from_slice(interface);
    while args.len() % 4 != 0 {
        args.push(0);
    }
    args.extend(le(version));
    args.extend(le(new_id));
    msg(REGISTRY, 0, &args)
}

fn get_registry() -> Vec<u8> {
    msg(1, 1, &le(REGISTRY))
}

/// A state after the registry was created and the layer shell advertised.
fn with_registry() -> ProxyState {
    let mut st = fresh();
    assert_eq!(scan_requests(&get_registry(), &mut st), get_registry());
    let g = global(LAYER_SHELL_NAME, b"zwlr_layer_shell_v1\0", 4);
    assert_eq!(scan_events(&g, &mut st), g);
    st
}

/// A state where the client's first surface became the layer surface.
fn with_layer_surface() -> ProxyState {
    let mut st = with_registry();
    scan_requests(&bind(9, b"xdg_wm_base\0", 5, WM_BASE), &mut st);
    let mut args = le(SURFACE);
    args.extend(le(8));
    scan_requests(&msg(WM_BASE, 2, &args), &mut st);
    st
}

#[test]
fn new_state_knows_nothing() {
    let st = fresh();
    assert_eq!(st.registry_id, None);
    assert_eq!(st.layer_shell_id, None);
    assert_eq!(st.layer_surface_id, None);
    assert!(st.client_blacklist_ids.is_empty());
    assert!(st.needs_no_csd);
    assert!(!ProxyState::new(&cli(true)).needs_no_csd);
}

#[test]
fn get_registry_is_kept_and_recorded() {
    let mut st = fresh();
    let m = msg(1, 1, &[1, 2, 3, 4]);
    assert_eq!(scan_requests(&m, &mut st), m);
    assert_eq!(st.registry_id, Some(0x0403_0201));
}

#[test]
fn layer_shell_advertisement_is_recorded() {
    let st = with_registry();
    assert_eq!(st.advertised_layer_shell_name, Some(LAYER_SHELL_NAME));
}

#[test]
fn other_globals_are_not_recorded() {
    let mut st = fresh();
    scan_requests(&get_registry(), &mut st);
    let g = global(7, b"wl_compositor\0", 4);
    assert_eq!(scan_events(&g, &mut st), g);
    assert_eq!(st.advertised_layer_shell_name, None);
}

#[test]
fn xdg_wm_base_bind_becomes_layer_shell_bind() {
    let mut st = with_registry();
    let out = scan_requests(&bind(9, b"xdg_wm_base\0", 5, WM_BASE), &mut st);
    assert_eq!(out, bind_layer_shell(REGISTRY, LAYER_SHELL_NAME, WM_BASE));
    assert_eq!(st.layer_shell_id, Some(WM_BASE));
}

#[test]
fn xdg_wm_base_bind_before_advertisement_is_refused() {
    let mut st = fresh();
    scan_requests(&get_registry(), &mut st);
    let b = bind(9, b"xdg_wm_base\0", 5, WM_BASE);
    assert_eq!(try_scan_requests(&b, &mut st), None);
    assert_eq!(st.layer_shell_id, None);
    assert_eq!(st.registry_id, Some(REGISTRY));
}

#[test]
fn second_xdg_wm_base_bind_is_kept() {
    let mut st = with_registry();
    scan_requests(&bind(9, b"xdg_wm_base\0", 5, WM_BASE), &mut st);
    let again = bind(9, b"xdg_wm_base\0", 5, 20);
    assert_eq!(scan_requests(&again, &mut st), again);
    assert_eq!(st.layer_shell_id, Some(WM_BASE));
}

#[test]
fn decoration_manager_bind_is_recorded() {
    let mut st = with_registry();
    let b = bind(8, b"zxdg_decoration_manager_v1\0", 1, 30);
    assert_eq!(b.len(), 52);
    assert_eq!(scan_requests(&b, &mut st), b);
    assert_eq!(st.xdg_decoration_id, Some(30));
}

#[test]
fn first_surface_becomes_layer_surface() {
    let mut st = with_registry();
    scan_requests(&bind(9, b"xdg_wm_base\0", 5, WM_BASE), &mut st);
    let mut args = le(SURFACE);
    args.extend(le(8));
    let out = scan_requests(&msg(WM_BASE, 2, &args), &mut st);
    assert_eq!(out, layer_surface_creation(WM_BASE, SURFACE, 8, st.settings));
    assert_eq!(st.layer_surface_id, Some(SURFACE));
}

#[test]
fn later_surfaces_pass_through() {
    let mut st = with_layer_surface();
    let mut args = le(40);
    args.extend(le(41));
    let m = msg(WM_BASE, 2, &args);
    assert_eq!(scan_requests(&m, &mut st), m);
    assert_eq!(st.layer_surface_id, Some(SURFACE));
    assert_eq!(st.xdg_surfaces, vec![40]);
}

fn get_popup(surface: u32, popup: u32, parent: u32, positioner: u32) -> Vec<u8> {
    let mut args = le(popup);
    args.extend(le(parent));
    args.extend(le(positioner));
    msg(surface, 2, &args)
}

#[test]
fn popup_of_layer_surface_is_reparented() {
    let mut st = with_layer_surface();
    let mut args = le(40);
    args.extend(le(41));
    scan_requests(&msg(WM_BASE, 2, &args), &mut st);
    let out = scan_requests(&get_popup(40, 50, SURFACE, 60), &mut st);
    let mut expected = get_popup(40, 50, 0, 60);
    expected.extend(message_header(SURFACE, 5, 12));
    expected.extend(le(50));
    assert_eq!(out, expected);
}

#[test]
fn popup_of_other_parent_is_kept() {
    let mut st = with_layer_surface();
    let mut args = le(40);
    args.extend(le(41));
    scan_requests(&msg(WM_BASE, 2, &args), &mut st);
    let m = get_popup(40, 50, 40, 60);
    assert_eq!(scan_requests(&m, &mut st), m);
    // a surface the proxy does not know of
    let unknown = get_popup(70, 51, SURFACE, 60);
    assert_eq!(scan_requests(&unknown, &mut st), unknown);
}

#[test]
fn settings_reach_the_layer_surface() {
    let mut c = cli(false);
    c.layer = 0;
    c.anchor_top = false;
    c.anchor_left = true;
    c.anchor_bottom = true;
    c.width = 800;
    c.height = 600;
    c.margins = 5;
    assert_eq!(c.anchor(), 2 | 4);
    let mut st = ProxyState::new(&c);
    assert_eq!(
        st.settings,
        LayerSettings { layer: 0, anchor: 6, width: 800, height: 600, margin: 5 }
    );
    scan_requests(&get_registry(), &mut st);
    scan_events(&global(LAYER_SHELL_NAME, b"zwlr_layer_shell_v1\0", 4), &mut st);
    scan_requests(&bind(9, b"xdg_wm_base\0", 5, WM_BASE), &mut st);
    let mut args = le(SURFACE);
    args.extend(le(8));
    let out = scan_requests(&msg(WM_BASE, 2, &args), &mut st);
    assert_eq!(&out[20..24], &le(0)[..]);
    assert_eq!(&out[76..80], &le(6)[..]);
    assert_eq!(&out[88..96], &[le(800), le(600)].concat()[..]);
    assert_eq!(&out[104..120], &[le(5), le(5), le(5), le(5)].concat()[..]);
}

#[test]
fn anchors_and_layer_are_checked() {
    let mut c = cli(false);
    assert!(c.is_valid());
    c.anchor_top = false;
    assert_eq!(c.anchor(), 0);
    assert!(!c.is_valid());
    c.anchor_right = true;
    assert_eq!(c.anchor(), 8);
    assert!(c.is_valid());
    c.layer = 4;
    assert!(!c.is_valid());
}

#[test]
fn decoration_configure_follows_allow_csd() {
    for (allow_csd, mode) in [(false, 2u32), (true, 1u32)] {
        let mut st = ProxyState::new(&cli(allow_csd));
        scan_requests(&get_registry(), &mut st);
        scan_events(&global(LAYER_SHELL_NAME, b"zwlr_layer_shell_v1\0", 4), &mut st);
        scan_requests(&bind(9, b"xdg_wm_base\0", 5, WM_BASE), &mut st);
        scan_requests(&bind(8, b"zxdg_decoration_manager_v1\0", 1, 30), &mut st);
        let mut args = le(SURFACE);
        args.extend(le(8));
        scan_requests(&msg(WM_BASE, 2, &args), &mut st);
        scan_requests(&msg(SURFACE, 1, &le(TOPLEVEL)), &mut st);
        let mut dargs = le(31);
        dargs.extend(le(TOPLEVEL));
        scan_requests(&msg(30, 1, &dargs), &mut st);
        assert_eq!(st.xdg_toplevel_decoration_id, Some(31));
        let mut cargs = le(77);
        cargs.extend(le(300));
        cargs.extend(le(200));
        let out = scan_events(&msg(SURFACE, 0, &cargs), &mut st);
        let mut expected = message_header(31, 0, 12);
        expected.extend(le(mode));
        expected.extend(vec![10, 0, 0, 0, 0, 0, 12, 0, 77, 0, 0, 0]);
        expected.extend(vec![11, 0, 0, 0, 0, 0, 20, 0]);
        expected.extend(le(300));
        expected.extend(le(200));
        expected.extend(le(0));
        assert_eq!(out, expected);
    }
}

#[test]
fn all_kept_buffer_is_forwarded_unchanged() {
    let mut st = with_layer_surface();
    let before = st.client_blacklist_ids.clone();
    let mut buf = msg(77, 5, &[9, 8, 7, 6]);
    buf.extend(msg(78, 1, &[]));
    buf.extend(msg(WM_BASE, 7, &[]));
    buf.extend_from_slice(&[1, 2, 3]);
    assert_eq!(scan_requests(&buf, &mut st), buf);
    assert_eq!(st.client_blacklist_ids, before);
}

#[test]
fn get_toplevel_is_replaced_and_blacklisted() {
    let mut st = with_layer_surface();
    let out = scan_requests(&msg(SURFACE, 1, &le(TOPLEVEL)), &mut st);
    assert_eq!(out, bind_layer_shell(REGISTRY, LAYER_SHELL_NAME, TOPLEVEL));
    assert_eq!(st.xdg_toplevel_id, Some(TOPLEVEL));
    assert_eq!(st.client_blacklist_ids, vec![TOPLEVEL]);
    assert_eq!(create_useless_object(TOPLEVEL, &st), out);
}

#[test]
fn requests_to_blacklisted_objects_are_dropped() {
    let mut st = with_layer_surface();
    scan_requests(&msg(SURFACE, 1, &le(TOPLEVEL)), &mut st);
    let set_title = msg(TOPLEVEL, 2, &[4, 0, 0, 0, b'a', b'b', b'c', 0]);
    assert_eq!(scan_requests(&set_title, &mut st), Vec::<u8>::new());
}

#[test]
fn xdg_surface_destroy_becomes_layer_surface_destroy() {
    let mut st = with_layer_surface();
    let out = scan_requests(&msg(SURFACE, 0, &[]), &mut st);
    assert_eq!(out, vec![10, 0, 0, 0, 7, 0, 8, 0]);
}

#[test]
fn layer_surface_get_popup_is_kept_and_others_dropped() {
    let mut st = with_layer_surface();
    let popup = msg(SURFACE, 2, &[50, 0, 0, 0, 0, 0, 0, 0, 60, 0, 0, 0]);
    assert_eq!(scan_requests(&popup, &mut st), popup);
    let geometry = msg(SURFACE, 3, &[0; 16]);
    assert_eq!(scan_requests(&geometry, &mut st), Vec::<u8>::new());
}

#[test]
fn toplevel_decoration_is_replaced_and_blacklisted() {
    let mut st = with_registry();
    scan_requests(&bind(8, b"zxdg_decoration_manager_v1\0", 1, 30), &mut st);
    let mut args = le(31);
    args.extend(le(TOPLEVEL));
    let out = scan_requests(&msg(30, 1, &args), &mut st);
    assert_eq!(out, bind_layer_shell(REGISTRY, LAYER_SHELL_NAME, 31));
    assert_eq!(st.client_blacklist_ids, vec![31]);
    assert_eq!(scan_requests(&msg(30, 0, &[]), &mut st), msg(30, 0, &[]));
    assert_eq!(scan_requests(&msg(30, 5, &[]), &mut st), Vec::<u8>::new());
}

#[test]
fn configure_becomes_xdg_configures() {
    let mut st = with_layer_surface();
    scan_requests(&msg(SURFACE, 1, &le(TOPLEVEL)), &mut st);
    let mut args = le(77);
    args.extend(le(300));
    args.extend(le(200));
    let out = scan_events(&msg(SURFACE, 0, &args), &mut st);
    let mut expected = vec![10, 0, 0, 0, 0, 0, 12, 0, 77, 0, 0, 0];
    expected.extend(vec![11, 0, 0, 0, 0, 0, 20, 0]);
    expected.extend(le(300));
    expected.extend(le(200));
    expected.extend(le(0));
    assert_eq!(out, expected);
}

#[test]
fn configure_without_toplevel_is_surface_configure_only() {
    let mut st = with_layer_surface();
    let mut args = le(77);
    args.extend(le(300));
    args.extend(le(200));
    let out = scan_events(&msg(SURFACE, 0, &args), &mut st);
    assert_eq!(out, vec![10, 0, 0, 0, 0, 0, 12, 0, 77, 0, 0, 0]);
}

#[test]
fn closed_goes_to_toplevel_or_is_dropped() {
    let mut st = with_layer_surface();
    assert_eq!(scan_events(&msg(SURFACE, 1, &[]), &mut st), Vec::<u8>::new());
    scan_requests(&msg(SURFACE, 1, &le(TOPLEVEL)), &mut st);
    assert_eq!(
        scan_events(&msg(SURFACE, 1, &[]), &mut st),
        vec![11, 0, 0, 0, 1, 0, 8, 0]
    );
    assert_eq!(scan_events(&msg(SURFACE, 7, &[]), &mut st), Vec::<u8>::new());
}

#[test]
fn several_messages_in_one_buffer() {
    let mut st = with_layer_surface();
    let other = msg(99, 3, &[1, 2, 3, 4]);
    let mut buf = other.clone();
    buf.extend(msg(SURFACE, 1, &le(TOPLEVEL)));
    buf.extend(msg(TOPLEVEL, 0, &[]));
    buf.extend(other.clone());
    let out = scan_requests(&buf, &mut st);
    let mut expected = other.clone();
    expected.extend(bind_layer_shell(REGISTRY, LAYER_SHELL_NAME, TOPLEVEL));
    expected.extend(other);
    assert_eq!(out, expected);
}

#[test]
fn short_tail_is_copied_unchanged() {
    let mut st = fresh();
    let mut buf = msg(99, 0, &[]);
    buf.extend_from_slice(&[1, 2, 3]);
    assert_eq!(scan_requests(&buf, &mut st), buf);
    assert_eq!(scan_events(&[1, 2, 3], &mut st), vec![1, 2, 3]);
    assert_eq!(scan_events(&[], &mut st), Vec::<u8>::new());
}

#[test]
fn zero_size_copies_the_rest() {
    let mut st = with_layer_surface();
    let mut buf = vec![SURFACE as u8, 0, 0, 0, 0, 0, 0, 0];
    buf.extend(msg(SURFACE, 0, &[]));
    assert_eq!(scan_requests(&buf, &mut st), buf);
}

#[test]
fn oversized_message_copies_the_rest() {
    let mut st = with_layer_surface();
    let buf = vec![SURFACE as u8, 0, 0, 0, 0, 0, 200, 0, 1, 2];
    assert_eq!(scan_requests(&buf, &mut st), buf);
}

#[test]
fn truncated_request_is_refused_and_state_kept() {
    let mut st = fresh();
    // get_registry whose new id lies beyond the end of the buffer
    let buf = vec![1, 0, 0, 0, 1, 0, 8, 0];
    assert_eq!(try_scan_requests(&buf, &mut st), None);
    assert_eq!(st.registry_id, None);
}

#[test]
fn truncated_event_is_refused() {
    let mut st = with_layer_surface();
    scan_requests(&msg(SURFACE, 1, &le(TOPLEVEL)), &mut st);
    let buf = msg(SURFACE, 0, &[1, 0, 0, 0]);
    assert_eq!(try_scan_events(&buf, &mut st), None);
}

#[test]
fn untracked_events_pass_through() {
    let mut st = fresh();
    let mut buf = msg(5, 0, &[1, 2, 3, 4]);
    buf.extend(msg(6, 2, &[]));
    buf.extend_from_slice(&[9, 9]);
    assert_eq!(scan_events(&buf, &mut st), buf);
    assert_eq!(st.advertised_layer_shell_name, None);
}

#[test]
fn scanning_in_pieces_equals_scanning_at_once() {
    let mut whole_state = with_layer_surface();
    let mut piece_state = with_layer_surface();
    let first = msg(SURFACE, 1, &le(TOPLEVEL));
    let second = msg(TOPLEVEL, 4, &[1, 2, 3, 4]);
    let third = msg(42, 1, &[]);
    let mut buf = first.clone();
    buf.extend(second.clone());
    buf.extend(third.clone());
    let at_once = scan_requests(&buf, &mut whole_state);
    let mut in_pieces = scan_requests(&first, &mut piece_state);
    let mut rest = second;
    rest.extend(third);
    in_pieces.extend(scan_requests(&rest, &mut piece_state));
    assert_eq!(at_once, in_pieces);
    assert_eq!(whole_state.client_blacklist_ids, piece_state.client_blacklist_ids);
    assert_eq!(whole_state.xdg_toplevel_id, piece_state.xdg_toplevel_id);
}

#[test]
fn blacklist_only_grows() {
    let mut st = with_layer_surface();
    scan_requests(&msg(SURFACE, 1, &le(TOPLEVEL)), &mut st);
    let before = st.client_blacklist_ids.clone();
    scan_requests(&msg(SURFACE, 1, &le(12)), &mut st);
    assert_eq!(&st.client_blacklist_ids[..before.len()], &before[..]);
    assert_eq!(st.client_blacklist_ids, vec![TOPLEVEL, 12]);
    assert_eq!(st.layer_surface_id, Some(SURFACE));
}

#[test]
fn request_operation_single_message() {
    let mut st = fresh();
    let m = msg(1, 1, &le(7));
    match request_operation(&m, &mut st, 1, 1) {
        Some(MessageOperation::Keep) => {}
        _ => panic!("expected Keep"),
    }
    assert_eq!(st.registry_id, Some(7));
}

#[test]
fn scan_messages_by_stream() {
    let mut st = fresh();
    let m = msg(1, 1, &le(7));
    assert_eq!(scan_messages(&m, &mut st, Stream::Requests), m);
    assert_eq!(st.registry_id, Some(7));
    let g = global(LAYER_SHELL_NAME, b"zwlr_layer_shell_v1\0", 4);
    let mut g7 = g.clone();
    g7[0] = 7;
    assert_eq!(scan_messages(&g7, &mut st, Stream::Events), g7);
    assert_eq!(st.advertised_layer_shell_name, Some(LAYER_SHELL_NAME));
}

#[test]
fn untracked_requests_are_kept() {
    let mut st = with_layer_surface();
    let m = msg(77, 5, &[9, 8, 7, 6]);
    assert_eq!(scan_requests(&m, &mut st), m);
    assert_eq!(st.layer_surface_id, Some(SURFACE));
    assert!(st.client_blacklist_ids.is_empty());
}

#[test]
fn popup_on_surface_of_second_wm_base_is_reparented() {
    let mut st = with_layer_surface();
    let second = bind(9, b"xdg_wm_base\0", 5, 45);
    assert_eq!(scan_requests(&second, &mut st), second);
    assert_eq!(st.xdg_wm_bases, vec![45]);
    let mut args = le(46);
    args.extend(le(47));
    let get_surface = msg(45, 2, &args);
    assert_eq!(scan_requests(&get_surface, &mut st), get_surface);
    assert_eq!(st.xdg_surfaces, vec![46]);
    let out = scan_requests(&get_popup(46, 50, SURFACE, 60), &mut st);
    let mut expected = get_popup(46, 50, 0, 60);
    expected.extend(message_header(SURFACE, 5, 12));
    expected.extend(le(50));
    assert_eq!(out, expected);
}

#[test]
fn short_surface_and_popup_requests_are_kept() {
    let mut st = with_layer_surface();
    // get_xdg_surface cut short: kept, nothing recorded
    let short_surface = msg(WM_BASE, 2, &[]);
    assert_eq!(scan_requests(&short_surface, &mut st), short_surface);
    assert!(st.xdg_surfaces.is_empty());
    let mut args = le(40);
    args.extend(le(41));
    scan_requests(&msg(WM_BASE, 2, &args), &mut st);
    // get_popup cut short: kept
    let short_popup = msg(40, 2, &le(50));
    assert_eq!(scan_requests(&short_popup, &mut st), short_popup);
}
