//! Messages and what the proxy does with each of them.
use vstd::prelude::*;
use vstd::string::StringExecFns;
use crate::text::{debug_bytes, decimal, push_debug_bytes, push_decimal};

verus! {

/// A message in Wayland with all its information.
pub struct WaylandMessage {
    pub size: u16,
    pub opcode: u16,
    pub obj_id: u32,
    pub arguments_data: Vec<u8>,
}

/// The text of a message as [`WaylandMessage::describe`] writes it.
pub open spec fn message_text(size: u16, opcode: u16, obj_id: u32, arguments: Seq<u8>) -> Seq<char> {
    "Size: "@ + decimal(size as nat) + ", Opcode: "@ + decimal(opcode as nat) + ", Object ID "@
        + decimal(obj_id as nat) + "\nRaw Args Data: "@ + debug_bytes(arguments)
}

impl WaylandMessage {
    /// "Size: {size}, Opcode: {opcode}, Object ID {obj_id}" and, on a second
    /// line, "Raw Args Data: " and the argument bytes as a list.
    pub fn describe(&self) -> (text: String)
        ensures
            text@ == message_text(self.size, self.opcode, self.obj_id, self.arguments_data@),
    {
        let mut text = String::new();
        text.append("Size: ");
        push_decimal(&mut text, self.size as u64);
        text.append(", Opcode: ");
        push_decimal(&mut text, self.opcode as u64);
        text.append(", Object ID ");
        push_decimal(&mut text, self.obj_id as u64);
        text.append("\nRaw Args Data: ");
        push_debug_bytes(&mut text, self.arguments_data.as_slice());
        assert(text@ =~= message_text(self.size, self.opcode, self.obj_id, self.arguments_data@));
        text
    }
}

/// What to do with one message of a stream.
pub enum MessageOperation {
    /// Drop the message; do not copy it over.
    Drop,
    /// Copy the message over unchanged.
    Keep,
    /// Send these bytes in place of the message.
    Replace(Vec<u8>),
}

/// Mathematical model of [`MessageOperation`].
pub enum OperationView {
    Drop,
    Keep,
    Replace(Seq<u8>),
}

impl View for MessageOperation {
    type V = OperationView;

    open spec fn view(&self) -> OperationView {
        match self {
            MessageOperation::Drop => OperationView::Drop,
            MessageOperation::Keep => OperationView::Keep,
            MessageOperation::Replace(v) => OperationView::Replace(v@),
        }
    }
}

/// The bytes sent on for `message` when `op` is applied to it.
pub open spec fn forwarded(op: OperationView, message: Seq<u8>) -> Seq<u8> {
    match op {
        OperationView::Drop => Seq::empty(),
        OperationView::Keep => message,
        OperationView::Replace(items) => items,
    }
}

/// The two directions of the conversation the proxy sits in.
#[derive(Clone, Copy, PartialEq, Eq, Structural, Debug)]
pub enum Stream {
    /// Requests from the client application to the compositor.
    Requests,
    /// Events from the compositor to the client application.
    Events,
}

} // verus!
