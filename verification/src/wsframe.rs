//! Structural handling of websocket frames, shared by every session: text
//! goes to the parsers, a ping is answered by a pong carrying the same
//! payload, a close ends the inner loop, everything else is dropped.

use vstd::prelude::*;

verus! {

/// A websocket frame as the session sees it.
#[derive(Debug, Clone)]
pub enum WsFrame {
    Text(String),
    Binary(Vec<u8>),
    Ping(Vec<u8>),
    Pong(Vec<u8>),
    Close,
}

/// What the session does with a frame.
#[derive(Debug, Clone)]
pub enum FrameAction {
    /// Hand the text to the frame parsers.
    ProcessText,
    /// Write a pong with this payload back on the wire.
    ReplyPong(Vec<u8>),
    /// Leave the inner loop and reconnect.
    CloseConnection,
    /// Drop the frame.
    Ignore,
}

/// Decides what to do with a frame: text is parsed, a ping is answered by
/// a pong carrying the same payload byte for byte, a close terminates the
/// connection, binary frames and pongs are dropped.
pub fn frame_action(frame: &WsFrame) -> (r: FrameAction)
    ensures
        frame is Text ==> r is ProcessText,
        frame is Ping ==> r is ReplyPong && r->ReplyPong_0@ == frame->Ping_0@,
        frame is Close ==> r is CloseConnection,
        frame is Binary || frame is Pong ==> r is Ignore,
{
    match frame {
        WsFrame::Text(_) => FrameAction::ProcessText,
        WsFrame::Ping(payload) => {
            let mut copy: Vec<u8> = Vec::new();
            let mut i: usize = 0;
            while i < payload.len()
                invariant
                    i <= payload@.len(),
                    copy@ == payload@.subrange(0, i as int),
                decreases payload@.len() - i,
            {
                copy.push(payload[i]);
                proof {
                    assert(copy@ =~= payload@.subrange(0, i + 1));
                }
                i += 1;
            }
            proof {
                assert(payload@.subrange(0, payload@.len() as int) =~= payload@);
            }
            FrameAction::ReplyPong(copy)
        },
        WsFrame::Close => FrameAction::CloseConnection,
        WsFrame::Binary(_) => FrameAction::Ignore,
        WsFrame::Pong(_) => FrameAction::Ignore,
    }
}

} // verus!
