//! Byte-level encoding of Wayland wire messages: little-endian integers,
//! message headers and the fixed strings this proxy recognises or sends.
use vstd::prelude::*;

verus! {

/// Length of "zwlr_layer_shell_v1" with its null terminator.
pub const LAYER_SHELL_STRING_LEN: u32 = 20;

/// Arguments of a `wl_registry::bind` to `zwlr_layer_shell_v1`, after the
/// global name and before the new id: string size, the interface name with
/// its null terminator, and the version.
pub const LAYER_SHELL_BIND_TEMPLATE: [u8; 28] = [
    20, 0, 0, 0,
    122, 119, 108, 114, 95, 108, 97, 121, 101, 114, 95,
    115, 104, 101, 108, 108, 95, 118, 49, 0,
    5, 0, 0, 0,
];

/// String argument "io.github.DrewCodesBadly.Layershellify": size, bytes,
/// null terminator and padding.
pub const LAYERSHELLIFY_STRING: [u8; 44] = [
    39, 0, 0, 0,
    105, 111, 46, 103, 105, 116, 104, 117, 98, 46, 68, 114, 101, 119, 67, 111, 100, 101, 115, 66,
    97, 100, 108, 121, 46, 76, 97, 121, 101, 114, 115, 104, 101, 108, 108, 105, 102, 121, 0, 0,
];

/// "xdg_wm_base" with its null terminator.
pub const XDG_WM_BASE_STRING: [u8; 12] = [120, 100, 103, 95, 119, 109, 95, 98, 97, 115, 101, 0];

/// "zxdg_decoration_manager_v1" with its null terminator.
pub const ZXDG_DECORATION_MANAGER_STRING: [u8; 27] = [
    122, 120, 100, 103, 95, 100, 101, 99, 111, 114, 97, 116, 105, 111, 110, 95, 109, 97, 110, 97,
    103, 101, 114, 95, 118, 49, 0,
];

pub open spec fn layer_shell_bind_template() -> Seq<u8> {
    seq![
        20u8, 0, 0, 0,
        122, 119, 108, 114, 95, 108, 97, 121, 101, 114, 95,
        115, 104, 101, 108, 108, 95, 118, 49, 0,
        5, 0, 0, 0,
    ]
}

/// "zwlr_layer_shell_v1" with its null terminator, as a global advertises it.
pub open spec fn layer_shell_interface() -> Seq<u8> {
    layer_shell_bind_template().subrange(4, 24)
}

pub open spec fn layershellify_string() -> Seq<u8> {
    seq![
        39u8, 0, 0, 0,
        105, 111, 46, 103, 105, 116, 104, 117, 98, 46, 68, 114, 101, 119, 67, 111, 100, 101, 115, 66,
        97, 100, 108, 121, 46, 76, 97, 121, 101, 114, 115, 104, 101, 108, 108, 105, 102, 121, 0, 0,
    ]
}

pub open spec fn xdg_wm_base_interface() -> Seq<u8> {
    seq![120u8, 100, 103, 95, 119, 109, 95, 98, 97, 115, 101, 0]
}

pub open spec fn decoration_manager_interface() -> Seq<u8> {
    seq![
        122u8, 120, 100, 103, 95, 100, 101, 99, 111, 114, 97, 116, 105, 111, 110, 95, 109, 97, 110, 97,
        103, 101, 114, 95, 118, 49, 0,
    ]
}

pub proof fn lemma_constant_views()
    ensures
        LAYER_SHELL_BIND_TEMPLATE@ == layer_shell_bind_template(),
        LAYERSHELLIFY_STRING@ == layershellify_string(),
        XDG_WM_BASE_STRING@ == xdg_wm_base_interface(),
        ZXDG_DECORATION_MANAGER_STRING@ == decoration_manager_interface(),
{
    assert(LAYER_SHELL_BIND_TEMPLATE@ =~= layer_shell_bind_template());
    assert(LAYERSHELLIFY_STRING@ =~= layershellify_string());
    assert(XDG_WM_BASE_STRING@ =~= xdg_wm_base_interface());
    assert(ZXDG_DECORATION_MANAGER_STRING@ =~= decoration_manager_interface());
}

/// The four bytes of `x`, least significant first.
pub open spec fn le_u32(x: u32) -> Seq<u8> {
    seq![
        (x % 256) as u8,
        ((x / 256) % 256) as u8,
        ((x / 65536) % 256) as u8,
        (x / 16777216) as u8,
    ]
}

/// The two bytes of `x`, least significant first.
pub open spec fn le_u16(x: u16) -> Seq<u8> {
    seq![(x % 256) as u8, (x / 256) as u8]
}

/// The little-endian `u32` stored in `s[i..i + 4]`.
pub open spec fn u32_at(s: Seq<u8>, i: int) -> u32 {
    (s[i] + 256 * s[i + 1] + 65536 * s[i + 2] + 16777216 * s[i + 3]) as u32
}

/// The little-endian `u16` stored in `s[i..i + 2]`.
pub open spec fn u16_at(s: Seq<u8>, i: int) -> u16 {
    (s[i] + 256 * s[i + 1]) as u16
}

/// A message header: object id, opcode, and the size of the whole message in bytes.
pub open spec fn header(object_id: u32, opcode: u16, size: u16) -> Seq<u8> {
    le_u32(object_id) + le_u16(opcode) + le_u16(size)
}

/// `wl_registry::bind` of the layer shell global `global_name` to `new_id`.
pub open spec fn bind_message(registry_id: u32, global_name: u32, new_id: u32) -> Seq<u8> {
    header(registry_id, 0, 44) + le_u32(global_name) + layer_shell_bind_template() + le_u32(new_id)
}

/// Reads the `u32` stored at `bytes[start..start + 4]`.
///
/// Calls `bytemuck::pod_read_unaligned::<u32>` on the four bytes, which copies
/// them into a `u32` in the host's byte order without any alignment
/// requirement, and `u32::from_le` on the result, which undoes that order on
/// big-endian hosts and does nothing on little-endian ones. The contract claims
/// that the result is the little-endian value of the four bytes, and that the
/// call does not panic, since the slice has exactly the size of a `u32`.
#[verifier::external_body]
pub(crate) fn read_u32(bytes: &[u8], start: usize) -> (v: u32)
    requires
        start + 4 <= bytes@.len(),
    ensures
        v == u32_at(bytes@, start as int),
{
    u32::from_le(bytemuck::pod_read_unaligned::<u32>(&bytes[start..start + 4]))
}

/// Reads the `u16` stored at `bytes[start..start + 2]`.
///
/// Calls `bytemuck::pod_read_unaligned::<u16>` on the two bytes and
/// `u16::from_le` on the result; the contract claims the little-endian value
/// and no panic, as for `read_u32`.
#[verifier::external_body]
pub(crate) fn read_u16(bytes: &[u8], start: usize) -> (v: u16)
    requires
        start + 2 <= bytes@.len(),
    ensures
        v == u16_at(bytes@, start as int),
{
    u16::from_le(bytemuck::pod_read_unaligned::<u16>(&bytes[start..start + 2]))
}

/// Appends the little-endian bytes of `x`.
pub(crate) fn push_u32(v: &mut Vec<u8>, x: u32)
    ensures
        final(v)@ == old(v)@ + le_u32(x),
{
    v.push((x % 256) as u8);
    v.push(((x / 256) % 256) as u8);
    v.push(((x / 65536) % 256) as u8);
    v.push((x / 16777216) as u8);
    assert(final(v)@ =~= old(v)@ + le_u32(x));
}

/// Appends the little-endian bytes of `x`.
pub(crate) fn push_u16(v: &mut Vec<u8>, x: u16)
    ensures
        final(v)@ == old(v)@ + le_u16(x),
{
    v.push((x % 256) as u8);
    v.push((x / 256) as u8);
    assert(final(v)@ =~= old(v)@ + le_u16(x));
}

/// Appends all of `s`.
pub(crate) fn push_bytes(v: &mut Vec<u8>, s: &[u8])
    ensures
        final(v)@ == old(v)@ + s@,
{
    v.extend_from_slice(s);
    assert(final(v)@ =~= old(v)@ + s@);
}

/// Whether `bytes[start..start + expected.len()]` equals `expected`.
pub(crate) fn bytes_match_at(bytes: &[u8], start: usize, expected: &[u8]) -> (r: bool)
    requires
        start + expected@.len() <= bytes@.len(),
    ensures
        r == (bytes@.subrange(start as int, start + expected@.len()) == expected@),
{
    let n = expected.len();
    let blen = bytes.len();
    let mut i: usize = 0;
    while i < n
        invariant
            n == expected@.len(),
            blen == bytes@.len(),
            start + n <= bytes@.len(),
            i <= n,
            forall|j: int| 0 <= j < i ==> bytes@[start + j] == expected@[j],
        decreases n - i,
    {
        if bytes[start + i] != expected[i] {
            assert(bytes@.subrange(start as int, start + n)[i as int] != expected@[i as int]);
            return false;
        }
        i = i + 1;
    }
    assert(bytes@.subrange(start as int, start + n) =~= expected@);
    true
}

/// Builds a message header: object id, opcode and message size, each little-endian.
pub fn message_header(object_id: u32, opcode: u16, size: u16) -> (v: Vec<u8>)
    ensures
        v@ == header(object_id, opcode, size),
{
    let mut v: Vec<u8> = Vec::with_capacity(size as usize);
    push_u32(&mut v, object_id);
    push_u16(&mut v, opcode);
    push_u16(&mut v, size);
    assert(v@ =~= header(object_id, opcode, size));
    v
}

/// Builds a `wl_registry::bind` request on `registry_id` that binds the
/// `zwlr_layer_shell_v1` global advertised as `global_name` to `new_id`.
pub fn bind_layer_shell(registry_id: u32, global_name: u32, new_id: u32) -> (v: Vec<u8>)
    ensures
        v@ == bind_message(registry_id, global_name, new_id),
        v@.len() == 44,
{
    let mut message = message_header(registry_id, 0, 8 + 4 + 28 + 4);
    push_u32(&mut message, global_name);
    proof { lemma_constant_views(); }
    push_bytes(&mut message, &LAYER_SHELL_BIND_TEMPLATE);
    push_u32(&mut message, new_id);
    message
}

} // verus!
