//! Splitting a buffer read from one side into Wayland messages and building
//! the buffer to send on to the other side.
use vstd::prelude::*;
use vstd::slice::slice_subrange;
use crate::events::{event_operation, event_step};
use crate::message::{MessageOperation, OperationView, Stream, forwarded};
use crate::requests::{request_operation, request_step};
use crate::state::{ProxyState, StateView};
use crate::wire::{push_bytes, read_u16, read_u32, u16_at, u32_at};

verus! {

/// What the proxy does with the message at the start of `b` in `stream`.
#[verifier::opaque]
pub open spec fn step(stream: Stream, b: Seq<u8>, st: StateView) -> Option<
    (OperationView, StateView),
> {
    match stream {
        Stream::Requests => request_step(b, st),
        Stream::Events => event_step(b, st),
    }
}

/// The bytes sent on for the buffer `b` read from `stream`, and the state
/// after it. Each message (object id, opcode, size, then the rest of its
/// `size` bytes) is dropped, kept or replaced as [`step`] decides. Where the
/// rest of the buffer is shorter than a header, or its header gives a size of
/// zero or one beyond the end of the buffer, that rest is sent on unchanged
/// and scanning stops. `None` where some message cannot be handled.
pub open spec fn scan(stream: Stream, b: Seq<u8>, st: StateView) -> Option<(Seq<u8>, StateView)>
    decreases b.len(),
{
    if b.len() == 0 {
        Some((Seq::empty(), st))
    } else if b.len() < 8 {
        Some((b, st))
    } else {
        let size = u16_at(b, 6);
        if size == 0 || size > b.len() {
            Some((b, st))
        } else {
            match step(stream, b, st) {
                None => None,
                Some((op, next)) => match scan(stream, b.skip(size as int), next) {
                    None => None,
                    Some((rest, last)) => Some((forwarded(op, b.take(size as int)) + rest, last)),
                },
            }
        }
    }
}

/// `r` with `prefix` put in front of its bytes.
pub open spec fn prefixed(prefix: Seq<u8>, r: Option<(Seq<u8>, StateView)>) -> Option<
    (Seq<u8>, StateView),
> {
    match r {
        None => None,
        Some((bytes, st)) => Some((prefix + bytes, st)),
    }
}

pub(crate) proof fn lemma_prefixed_twice(a: Seq<u8>, b: Seq<u8>, r: Option<(Seq<u8>, StateView)>)
    ensures
        prefixed(a, prefixed(b, r)) == prefixed(a + b, r),
{
    if let Some((bytes, st)) = r {
        assert(a + (b + bytes) =~= (a + b) + bytes);
    }
}

/// The decision of [`step`] for the message at the start of `bytes`.
fn step_operation(bytes: &[u8], state: &mut ProxyState, stream: Stream, obj_id: u32, opcode: u16) -> (r:
    Option<MessageOperation>)
    requires
        bytes@.len() >= 8,
        obj_id == u32_at(bytes@, 0),
        opcode == u16_at(bytes@, 4),
    ensures
        match step(stream, bytes@, old(state)@) {
            None => r is None && final(state)@ == old(state)@,
            Some((op, st)) => r matches Some(o) && o@ == op && final(state)@ == st,
        },
{
    reveal(step);
    match stream {
        Stream::Requests => request_operation(bytes, state, obj_id, opcode),
        Stream::Events => event_operation(bytes, state, obj_id, opcode),
    }
}

/// Scans `bytes`, read from `stream`, and returns the bytes to send on,
/// updating `state`; see [`scan`]. Returns `None`, and leaves `state`
/// unchanged, where some message cannot be handled.
pub fn try_scan_messages(bytes: &[u8], state: &mut ProxyState, stream: Stream) -> (out: Option<
    Vec<u8>,
>)
    ensures
        match scan(stream, bytes@, old(state)@) {
            None => out is None && final(state)@ == old(state)@,
            Some((sent, st)) => out matches Some(v) && v@ == sent && final(state)@ == st,
        },
{
    let ghost start = state@;
    let mut work = state.duplicate();
    let mut vec: Vec<u8> = Vec::with_capacity(bytes.len());
    let len = bytes.len();
    let mut pos: usize = 0;
    assert(bytes@.skip(0) =~= bytes@);
    while pos < len
        invariant
            len == bytes@.len(),
            pos <= len,
            state@ == start,
            scan(stream, bytes@, start) == prefixed(
                vec@,
                scan(stream, bytes@.skip(pos as int), work@),
            ),
        decreases len - pos,
    {
        let ghost before = vec@;
        let rest = slice_subrange(bytes, pos, len);
        assert(rest@ =~= bytes@.skip(pos as int));
        let remaining = len - pos;
        if remaining < 8 {
            push_bytes(&mut vec, rest);
            pos = len;
            assert(before + rest@ + Seq::<u8>::empty() =~= before + rest@);
        } else {
            let obj_id = read_u32(rest, 0);
            let opcode = read_u16(rest, 4);
            let size = read_u16(rest, 6);
            if size == 0 || size as usize > remaining {
                push_bytes(&mut vec, rest);
                pos = len;
                assert(before + rest@ + Seq::<u8>::empty() =~= before + rest@);
            } else {
                let op = step_operation(rest, &mut work, stream, obj_id, opcode);
                match op {
                    None => {
                        return None;
                    },
                    Some(op) => {
                        let ghost opv = op@;
                        let message = slice_subrange(rest, 0, size as usize);
                        match op {
                            MessageOperation::Drop => {},
                            MessageOperation::Keep => {
                                push_bytes(&mut vec, message);
                            },
                            MessageOperation::Replace(items) => {
                                push_bytes(&mut vec, items.as_slice());
                            },
                        }
                        assert(vec@ == before + forwarded(opv, rest@.take(size as int))) by {
                            assert(message@ =~= rest@.take(size as int));
                            assert(before + Seq::<u8>::empty() =~= before);
                        }
                        assert(rest@.skip(size as int) =~= bytes@.skip(pos + size));
                        proof {
                            lemma_prefixed_twice(
                                before,
                                forwarded(opv, rest@.take(size as int)),
                                scan(stream, rest@.skip(size as int), work@),
                            );
                        }
                        pos = pos + size as usize;
                    },
                }
            }
        }
    }
    assert(bytes@.skip(len as int) =~= Seq::<u8>::empty());
    assert(vec@ + Seq::<u8>::empty() =~= vec@);
    *state = work;
    Some(vec)
}

/// Scans `bytes`, read from `stream`, returns the bytes to send on and
/// updates `state`; see [`scan`].
pub fn scan_messages(bytes: &[u8], state: &mut ProxyState, stream: Stream) -> (out: Vec<u8>)
    requires
        scan(stream, bytes@, old(state)@) is Some,
    ensures
        scan(stream, bytes@, old(state)@) == Some((out@, final(state)@)),
{
    match try_scan_messages(bytes, state, stream) {
        Some(v) => v,
        None => {
            assert(false);
            Vec::new()
        },
    }
}

/// Rewrites a buffer of requests read from the client application.
pub fn scan_requests(bytes: &[u8], state: &mut ProxyState) -> (out: Vec<u8>)
    requires
        scan(Stream::Requests, bytes@, old(state)@) is Some,
    ensures
        scan(Stream::Requests, bytes@, old(state)@) == Some((out@, final(state)@)),
{
    scan_messages(bytes, state, Stream::Requests)
}

/// Rewrites a buffer of events read from the compositor.
pub fn scan_events(bytes: &[u8], state: &mut ProxyState) -> (out: Vec<u8>)
    requires
        scan(Stream::Events, bytes@, old(state)@) is Some,
    ensures
        scan(Stream::Events, bytes@, old(state)@) == Some((out@, final(state)@)),
{
    scan_messages(bytes, state, Stream::Events)
}

/// [`scan_requests`] for any buffer: `None`, with `state` unchanged, where
/// some request cannot be handled.
pub fn try_scan_requests(bytes: &[u8], state: &mut ProxyState) -> (out: Option<Vec<u8>>)
    ensures
        match scan(Stream::Requests, bytes@, old(state)@) {
            None => out is None && final(state)@ == old(state)@,
            Some((sent, st)) => out matches Some(v) && v@ == sent && final(state)@ == st,
        },
{
    try_scan_messages(bytes, state, Stream::Requests)
}

/// [`scan_events`] for any buffer: `None`, with `state` unchanged, where some
/// event cannot be handled.
pub fn try_scan_events(bytes: &[u8], state: &mut ProxyState) -> (out: Option<Vec<u8>>)
    ensures
        match scan(Stream::Events, bytes@, old(state)@) {
            None => out is None && final(state)@ == old(state)@,
            Some((sent, st)) => out matches Some(v) && v@ == sent && final(state)@ == st,
        },
{
    try_scan_messages(bytes, state, Stream::Events)
}

} // verus!
