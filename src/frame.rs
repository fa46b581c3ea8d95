//! Messages exchanged with the browser over the framed socket.
use vstd::prelude::*;

verus! {

/// The status code and reason of a close handshake.
#[derive(Debug)]
pub struct CloseFrame {
    pub code: u16,
    pub reason: String,
}

/// One message of the framed socket.
#[derive(Debug)]
pub enum Frame {
    Text(String),
    Binary(Vec<u8>),
    Ping(Vec<u8>),
    Pong(Vec<u8>),
    Close(Option<CloseFrame>),
}

/// A message, with its payload as plain values.
pub enum FrameView {
    Text(Seq<char>),
    Binary(Seq<u8>),
    Ping(Seq<u8>),
    Pong(Seq<u8>),
    Close(Option<(u16, Seq<char>)>),
}

pub open spec fn close_view(c: Option<CloseFrame>) -> Option<(u16, Seq<char>)> {
    match c {
        Some(f) => Some((f.code, f.reason@)),
        None => None,
    }
}

impl View for Frame {
    type V = FrameView;

    open spec fn view(&self) -> FrameView {
        match self {
            Frame::Text(s) => FrameView::Text(s@),
            Frame::Binary(b) => FrameView::Binary(b@),
            Frame::Ping(b) => FrameView::Ping(b@),
            Frame::Pong(b) => FrameView::Pong(b@),
            Frame::Close(c) => FrameView::Close(close_view(*c)),
        }
    }
}

impl Frame {
    pub fn is_ping(&self) -> (r: bool)
        ensures
            r <==> self@ is Ping,
    {
        match self {
            Frame::Ping(_) => true,
            _ => false,
        }
    }
}

/// A text message starting with `ready:`.
pub open spec fn is_ready_frame(f: FrameView) -> bool {
    match f {
        FrameView::Text(s) => s.len() >= 6 && s.take(6) == "ready:"@,
        _ => false,
    }
}

} // verus!
