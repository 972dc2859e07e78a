use layershellify::message::WaylandMessage;
use layershellify::requests::layer_surface_creation;
use layershellify::state::LayerSettings;
use layershellify::sockets::{
    compositor_socket_path, next_socket_index, proxy_display_name, proxy_socket_path,
};
use layershellify::wire::{bind_layer_shell, message_header, LAYER_SHELL_BIND_TEMPLATE};

fn le(x: u32) -> Vec<u8> {
    x.to_le_bytes().to_vec()
}

#[test]
fn header_is_id_opcode_size_little_endian() {
    assert_eq!(
        message_header(0x0403_0201, 0x0605, 0x0807),
        vec![1, 2, 3, 4, 5, 6, 7, 8]
    );
    assert_eq!(message_header(2, 0, 44), vec![2, 0, 0, 0, 0, 0, 44, 0]);
}

#[test]
fn header_reads_back() {
    let h = message_header(0xdead_beef, 3, 300);
    assert_eq!(u32::from_le_bytes([h[0], h[1], h[2], h[3]]), 0xdead_beef);
    assert_eq!(u16::from_le_bytes([h[4], h[5]]), 3);
    assert_eq!(u16::from_le_bytes([h[6], h[7]]), 300);
}

#[test]
fn bind_layer_shell_message() {
    let m = bind_layer_shell(2, 0x0102_0304, 9);
    let mut expected = message_header(2, 0, 44);
    expected.extend_from_slice(&[4, 3, 2, 1]);
    expected.extend_from_slice(&LAYER_SHELL_BIND_TEMPLATE);
    expected.extend_from_slice(&[9, 0, 0, 0]);
    assert_eq!(m, expected);
    assert_eq!(m.len(), 44);
    assert_eq!(&m[12..36], b"\x14\0\0\0zwlr_layer_shell_v1\0");
}

fn overlay_left() -> LayerSettings {
    LayerSettings { layer: 3, anchor: 4, width: 128, height: 128, margin: 8 }
}

#[test]
fn layer_surface_creation_messages() {
    let m = layer_surface_creation(3, 10, 9, overlay_left());
    let mut expected = message_header(3, 0, 68);
    for x in [10, 9, 0, 3] {
        expected.extend(le(x));
    }
    expected.extend_from_slice(&[39, 0, 0, 0]);
    expected.extend_from_slice(b"io.github.DrewCodesBadly.Layershellify\0\0");
    expected.extend(message_header(10, 1, 12));
    expected.extend(le(4));
    expected.extend(message_header(10, 0, 16));
    expected.extend(le(128));
    expected.extend(le(128));
    expected.extend(message_header(10, 3, 24));
    for _ in 0..4 {
        expected.extend(le(8));
    }
    expected.extend(message_header(10, 4, 12));
    expected.extend(le(2));
    assert_eq!(m, expected);
    assert_eq!(m.len(), 132);
}

#[test]
fn layer_surface_creation_uses_settings() {
    let s = LayerSettings { layer: 0, anchor: 1 | 8, width: 640, height: 480, margin: 12 };
    let m = layer_surface_creation(3, 10, 9, s);
    assert_eq!(m.len(), 132);
    assert_eq!(&m[20..24], &le(0)[..]);
    assert_eq!(&m[68..80], &[message_header(10, 1, 12), le(9)].concat()[..]);
    assert_eq!(
        &m[80..96],
        &[message_header(10, 0, 16), le(640), le(480)].concat()[..]
    );
    assert_eq!(
        &m[96..120],
        &[message_header(10, 3, 24), le(12), le(12), le(12), le(12)].concat()[..]
    );
    assert_eq!(&m[120..132], &[message_header(10, 4, 12), le(2)].concat()[..]);
}

#[test]
fn synthesized_messages_are_framed() {
    // Each header's size leads exactly to the next header and to the end.
    for m in [bind_layer_shell(2, 5, 7), layer_surface_creation(3, 10, 9, overlay_left())] {
        let mut pos = 0;
        let mut sizes = Vec::new();
        while pos < m.len() {
            let size = u16::from_le_bytes([m[pos + 6], m[pos + 7]]) as usize;
            assert!(size >= 8);
            sizes.push(size);
            pos += size;
        }
        assert_eq!(pos, m.len());
        assert!(!sizes.is_empty());
    }
    let m = layer_surface_creation(3, 10, 9, overlay_left());
    let mut pos = 0;
    let mut sizes = Vec::new();
    while pos < m.len() {
        let size = u16::from_le_bytes([m[pos + 6], m[pos + 7]]) as usize;
        sizes.push(size);
        pos += size;
    }
    assert_eq!(sizes, vec![68, 12, 16, 24, 12]);
}

#[test]
fn describe_matches_display_format() {
    let m = WaylandMessage {
        size: 12,
        opcode: 1,
        obj_id: 3,
        arguments_data: vec![1, 2, 255],
    };
    let expected = format!(
        "Size: {}, Opcode: {}, Object ID {}\nRaw Args Data: {:?}",
        12, 1, 3, vec![1u8, 2, 255]
    );
    assert_eq!(m.describe(), expected);
    assert_eq!(
        m.describe(),
        "Size: 12, Opcode: 1, Object ID 3\nRaw Args Data: [1, 2, 255]"
    );
}

#[test]
fn describe_empty_arguments_and_large_numbers() {
    let m = WaylandMessage {
        size: 65535,
        opcode: 0,
        obj_id: 4_294_967_295,
        arguments_data: vec![],
    };
    assert_eq!(
        m.describe(),
        "Size: 65535, Opcode: 0, Object ID 4294967295\nRaw Args Data: []"
    );
}

#[test]
fn compositor_socket_choices() {
    assert_eq!(
        compositor_socket_path(Some("sock".to_string()), Some("wayland-5".to_string()), "/run/u"),
        "sock"
    );
    assert_eq!(
        compositor_socket_path(None, Some("wayland-5".to_string()), "/run/u"),
        "/run/u/wayland-5"
    );
    assert_eq!(compositor_socket_path(None, None, "/run/u"), "/run/u/wayland-0");
}

#[test]
fn proxy_socket_names() {
    assert_eq!(proxy_socket_path("/run/user/1000", 3), "/run/user/1000/wayland-3");
    assert_eq!(proxy_socket_path("/tmp", 100), "/tmp/wayland-100");
    assert_eq!(proxy_display_name(0), "wayland-0");
    assert_eq!(proxy_display_name(42), "wayland-42");
}

#[test]
fn socket_index_gives_up_after_one_hundred() {
    assert_eq!(next_socket_index(0), Some(1));
    assert_eq!(next_socket_index(99), Some(100));
    assert_eq!(next_socket_index(100), None);
    assert_eq!(next_socket_index(u32::MAX), None);
}
