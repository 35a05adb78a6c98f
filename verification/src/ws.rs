//! WebSocket message kinds and the opcodes that carry them through the tunnel.
use vstd::prelude::*;
use crate::frame::TunnelFrame;

verus! {

/// The kind of a WebSocket message.
#[derive(Debug, Clone, Copy, PartialEq, Eq)]
pub enum WsKind {
    Text,
    Binary,
    Close,
    Ping,
    Pong,
}

/// The opcode a message kind travels under.
pub open spec fn kind_opcode(kind: WsKind) -> u8 {
    match kind {
        WsKind::Text => 1,
        WsKind::Binary => 2,
        WsKind::Close => 8,
        WsKind::Ping => 9,
        WsKind::Pong => 10,
    }
}

/// The message kind an opcode is delivered as; an unknown opcode is delivered as binary.
pub open spec fn opcode_kind(opcode: u8) -> WsKind {
    if opcode == 1 {
        WsKind::Text
    } else if opcode == 8 {
        WsKind::Close
    } else if opcode == 9 {
        WsKind::Ping
    } else if opcode == 10 {
        WsKind::Pong
    } else {
        WsKind::Binary
    }
}

/// The message kind to deliver a tunneled WebSocket frame as.
pub fn ws_kind_for_opcode(opcode: u8) -> (kind: WsKind)
    ensures
        kind == opcode_kind(opcode),
{
    match opcode {
        1 => WsKind::Text,
        2 => WsKind::Binary,
        8 => WsKind::Close,
        9 => WsKind::Ping,
        10 => WsKind::Pong,
        _ => WsKind::Binary,
    }
}

/// The opcode of a message kind.
pub fn opcode_for_kind(kind: WsKind) -> (opcode: u8)
    ensures
        opcode == kind_opcode(kind),
{
    match kind {
        WsKind::Text => 1,
        WsKind::Binary => 2,
        WsKind::Close => 8,
        WsKind::Ping => 9,
        WsKind::Pong => 10,
    }
}

/// The frame that carries a WebSocket message of `kind` through the tunnel: a close becomes
/// `WsClose`, every other kind a `WsFrame` with its opcode.
pub fn frame_for_ws_message(request_id: u64, kind: WsKind, data: Vec<u8>) -> (frame: TunnelFrame)
    ensures
        kind == WsKind::Close ==> frame == (TunnelFrame::WsClose { request_id }),
        kind != WsKind::Close ==> frame == (TunnelFrame::WsFrame {
            request_id,
            data,
            opcode: kind_opcode(kind),
        }),
{
    match kind {
        WsKind::Close => TunnelFrame::WsClose { request_id },
        _ => TunnelFrame::WsFrame { request_id, data, opcode: opcode_for_kind(kind) },
    }
}

/// A message kind sent through the tunnel arrives as the same kind; an opcode of a known kind
/// is sent on unchanged, and any other opcode arrives as binary.
pub proof fn law_kind_roundtrip(kind: WsKind, opcode: u8)
    ensures
        opcode_kind(kind_opcode(kind)) == kind,
        (opcode == 1 || opcode == 2 || opcode == 8 || opcode == 9 || opcode == 10) ==> kind_opcode(
            opcode_kind(opcode),
        ) == opcode,
        !(opcode == 1 || opcode == 2 || opcode == 8 || opcode == 9 || opcode == 10) ==> opcode_kind(
            opcode,
        ) == WsKind::Binary,
{
}

/// Message kinds travel under their RFC 6455 opcodes: text 1, binary 2, close 8, ping 9 and
/// pong 10.
pub proof fn law_rfc_6455_opcodes()
    ensures
        kind_opcode(WsKind::Text) == 1,
        kind_opcode(WsKind::Binary) == 2,
        kind_opcode(WsKind::Close) == 8,
        kind_opcode(WsKind::Ping) == 9,
        kind_opcode(WsKind::Pong) == 10,
        opcode_kind(1) == WsKind::Text,
        opcode_kind(2) == WsKind::Binary,
        opcode_kind(8) == WsKind::Close,
        opcode_kind(9) == WsKind::Ping,
        opcode_kind(10) == WsKind::Pong,
{
}

} // verus!
