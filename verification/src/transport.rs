//! Framed duplex transport for out-of-process control.
//!
//! Every message on the wire is one frame: a four-byte little-endian length
//! header followed by exactly that many payload bytes. A connection walks the
//! lifecycle `Unbound -> Listening -> Connected -> Closed`; `send` refuses to
//! produce a frame unless the connection is in the `Connected` state. The
//! blocking endpoint creation, accept and raw reads/writes are the caller's
//! business: this module decides what bytes go out and how incoming bytes are
//! cut back into frames.

use vstd::prelude::*;

use vstd::bytes::{
    lemma_auto_spec_u32_to_from_le_bytes, spec_u32_from_le_bytes, spec_u32_to_le_bytes,
    u32_from_le_bytes, u32_to_le_bytes,
};
use vstd::slice::{slice_subrange, slice_to_vec};
use vstd::utf8::{encode_utf8, valid_utf8};

use crate::text::utf8_to_string;

verus! {

/// One frame on the wire: the payload length as four little-endian bytes,
/// then the payload itself.
pub open spec fn spec_encode_frame(body: Seq<u8>) -> Seq<u8>
    recommends
        body.len() <= u32::MAX,
{
    spec_u32_to_le_bytes(body.len() as u32) + body
}

/// Cutting the first complete frame off a byte stream: `None` while the
/// header or the announced payload is still incomplete, otherwise the payload
/// and the untouched remainder of the stream.
pub open spec fn spec_take_frame(buf: Seq<u8>) -> Option<(Seq<u8>, Seq<u8>)> {
    if buf.len() < 4 {
        None
    } else {
        let n = spec_u32_from_le_bytes(buf.subrange(0, 4)) as int;
        if buf.len() < 4 + n {
            None
        } else {
            Some((buf.subrange(4, 4 + n), buf.subrange(4 + n, buf.len() as int)))
        }
    }
}

/// Encoding then decoding a frame reproduces the exact original payload and
/// consumes the whole encoding: nothing is lost and nothing is left over.
pub proof fn lemma_frame_round_trip(body: Seq<u8>)
    requires
        body.len() <= u32::MAX,
    ensures
        spec_take_frame(spec_encode_frame(body)) == Some((body, Seq::<u8>::empty())),
{
    lemma_auto_spec_u32_to_from_le_bytes();
    let enc = spec_encode_frame(body);
    assert(enc.subrange(0, 4) =~= spec_u32_to_le_bytes(body.len() as u32));
    assert(enc.subrange(4, 4 + body.len() as int) =~= body);
    assert(enc.subrange(4 + body.len() as int, enc.len() as int) =~= Seq::<u8>::empty());
}

/// Two consecutive sends are never coalesced or split by the reader: decoding
/// the concatenation of two encoded frames yields exactly the first payload
/// and leaves exactly the second encoded frame.
pub proof fn lemma_frames_keep_boundaries(a: Seq<u8>, b: Seq<u8>)
    requires
        a.len() <= u32::MAX,
        b.len() <= u32::MAX,
    ensures
        spec_take_frame(spec_encode_frame(a) + spec_encode_frame(b)) == Some(
            (a, spec_encode_frame(b)),
        ),
{
    lemma_auto_spec_u32_to_from_le_bytes();
    let buf = spec_encode_frame(a) + spec_encode_frame(b);
    assert(buf.subrange(0, 4) =~= spec_u32_to_le_bytes(a.len() as u32));
    assert(buf.subrange(4, 4 + a.len() as int) =~= a);
    assert(buf.subrange(4 + a.len() as int, buf.len() as int) =~= spec_encode_frame(b));
}

/// Frames a payload for the wire.
pub fn encode_frame(body: &[u8]) -> (frame: Vec<u8>)
    requires
        body@.len() <= u32::MAX,
    ensures
        frame@ == spec_encode_frame(body@),
{
    let len = body.len() as u32;
    let mut frame = u32_to_le_bytes(len);
    push_all(&mut frame, body);
    assert(frame@ =~= spec_encode_frame(body@));
    frame
}

fn push_all(dst: &mut Vec<u8>, src: &[u8])
    ensures
        final(dst)@ == old(dst)@ + src@,
{
    let mut i: usize = 0;
    while i < src.len()
        invariant
            i <= src@.len(),
            dst@ == old(dst)@ + src@.subrange(0, i as int),
        decreases src@.len() - i,
    {
        dst.push(src[i]);
        assert(dst@ =~= old(dst)@ + src@.subrange(0, i + 1));
        i = i + 1;
    }
    assert(dst@ =~= old(dst)@ + src@);
}

/// What one step of the background read loop does with the buffered bytes.
#[derive(Debug, PartialEq, Eq)]
pub enum ReadStep {
    /// No complete frame is buffered yet; keep reading.
    NeedMore,
    /// One complete frame arrived and its payload decoded as UTF-8 text; the
    /// per-frame callback is owed exactly one invocation with it.
    Frame(String),
    /// One complete frame arrived but its payload is not UTF-8; the read loop
    /// terminates and the connection degrades.
    Corrupt,
}

/// The reader's reassembly buffer: raw bytes go in as they arrive, complete
/// frames come out one at a time, never coalesced and never split.
pub struct FrameReader {
    buf: Vec<u8>,
}

impl View for FrameReader {
    type V = Seq<u8>;

    closed spec fn view(&self) -> Seq<u8> {
        self.buf@
    }
}

impl FrameReader {
    pub fn new() -> (r: FrameReader)
        ensures
            r@ == Seq::<u8>::empty(),
    {
        FrameReader { buf: Vec::new() }
    }

    /// Appends bytes exactly as they came off the wire.
    pub fn push_bytes(&mut self, chunk: &[u8])
        ensures
            final(self)@ == old(self)@ + chunk@,
    {
        push_all(&mut self.buf, chunk);
    }

    /// Cuts the first complete frame off the buffer, or leaves the buffer
    /// untouched when header or payload is still incomplete.
    pub fn next_frame(&mut self) -> (r: Option<Vec<u8>>)
        ensures
            spec_take_frame(old(self)@) is None ==> r is None && final(self)@ == old(self)@,
            spec_take_frame(old(self)@) matches Some(p) ==> r matches Some(body) && body@ == p.0
                && final(self)@ == p.1,
    {
        if self.buf.len() < 4 {
            return None;
        }
        let header = slice_subrange(self.buf.as_slice(), 0, 4);
        let n = u32_from_le_bytes(header) as usize;
        if self.buf.len() - 4 < n {
            return None;
        }
        let rest = self.buf.split_off(4 + n);
        let body = slice_to_vec(slice_subrange(self.buf.as_slice(), 4, 4 + n));
        self.buf = rest;
        Some(body)
    }

    /// One decision step of the read loop: take the next complete frame and
    /// decode it as UTF-8 text. Exactly the reader contract: a short buffer
    /// asks for more bytes, a decode failure is terminal for the loop.
    pub fn next_text_frame(&mut self) -> (r: ReadStep)
        ensures
            spec_take_frame(old(self)@) is None ==> r is NeedMore && final(self)@ == old(self)@,
            spec_take_frame(old(self)@) matches Some(p) ==> final(self)@ == p.1 && (if valid_utf8(
                p.0,
            ) {
                r matches ReadStep::Frame(s) && encode_utf8(s@) == p.0
            } else {
                r is Corrupt
            }),
    {
        match self.next_frame() {
            None => ReadStep::NeedMore,
            Some(body) => match utf8_to_string(&body) {
                Some(text) => ReadStep::Frame(text),
                None => ReadStep::Corrupt,
            },
        }
    }
}

/// Connection lifecycle of the framed transport.
#[derive(Clone, Copy, Debug, PartialEq, Eq, Structural)]
pub enum ConnStatus {
    Unbound,
    Listening,
    Connected,
    Closed,
}

/// Why `send` produced no frame.
#[derive(Clone, Copy, Debug, PartialEq, Eq, Structural)]
pub enum TransportError {
    /// The connection is not in the `Connected` state.
    NotConnected,
    /// The payload would not fit behind a four-byte length header. The
    /// original transport had no cap; this one refuses instead of truncating.
    FrameTooLarge,
}

/// The endpoint address a session identifier names on a filesystem-addressed
/// duplex channel.
pub open spec fn spec_socket_path(uid: Seq<char>) -> Seq<char> {
    "/tmp/pytron-"@ + uid + ".sock"@
}

/// The endpoint names a session identifier names on a platform-native duplex
/// pipe: the externally addressable base name and the two directional pipes.
pub open spec fn spec_pipe_base(uid: Seq<char>) -> Seq<char> {
    "\\\\.\\pipe\\pytron-"@ + uid
}

/// The endpoint names of the platform-native duplex pipe variant: the
/// externally addressable base name and the two directional pipe names
/// derived from it.
pub fn pipe_endpoint_names(uid: &str) -> (r: (String, String, String))
    ensures
        r.0@ == spec_pipe_base(uid@),
        r.1@ == spec_pipe_base(uid@) + "-in"@,
        r.2@ == spec_pipe_base(uid@) + "-out"@,
{
    let mut base = String::from_str("\\\\.\\pipe\\pytron-");
    base.append(uid);
    let mut pin = base.clone();
    pin.append("-in");
    let mut pout = base.clone();
    pout.append("-out");
    (base, pin, pout)
}

/// The control channel to a browser-class process: one duplex byte channel
/// carrying length-prefixed UTF-8 frames in both directions.
pub struct ChromeIPC {
    /// Lifecycle position, the one flag the reader loop, `send` and the
    /// accept step observe.
    pub status: ConnStatus,
    /// The endpoint name handed out by `listen`.
    pub pipe_path: String,
}

impl ChromeIPC {
    pub fn new() -> (r: ChromeIPC)
        ensures
            r.status == ConnStatus::Unbound,
            r.pipe_path@ == Seq::<char>::empty(),
    {
        ChromeIPC { status: ConnStatus::Unbound, pipe_path: String::new() }
    }

    /// Names the duplex endpoint deterministically from the session
    /// identifier and moves to `Listening`. The caller creates the endpoint
    /// under this name (removing any stale path first) and hands the name to
    /// the peer.
    pub fn listen(&mut self, uid: &str) -> (path: String)
        ensures
            final(self).status == ConnStatus::Listening,
            final(self).pipe_path@ == spec_socket_path(uid@),
            path@ == spec_socket_path(uid@),
    {
        let mut p = String::from_str("/tmp/pytron-");
        p.append(uid);
        p.append(".sock");
        self.pipe_path = p.clone();
        self.status = ConnStatus::Listening;
        p
    }

    /// The blocking accept succeeded: the shared connected flag flips to
    /// true, observable by the reader loop and by `send`.
    pub fn connection_established(&mut self)
        requires
            old(self).status == ConnStatus::Listening,
        ensures
            final(self).status == ConnStatus::Connected,
            final(self).pipe_path == old(self).pipe_path,
    {
        self.status = ConnStatus::Connected;
    }

    /// The one shared flag: true exactly in the `Connected` state.
    pub fn is_connected(&self) -> (r: bool)
        ensures
            r == (self.status is Connected),
    {
        match self.status {
            ConnStatus::Connected => true,
            _ => false,
        }
    }

    /// A short read, a decode failure, a write failure or an external stop
    /// clears the connected flag; the read loop exits and a fresh
    /// listen/accept cycle is required.
    pub fn connection_lost(&mut self)
        ensures
            final(self).status == ConnStatus::Closed,
            final(self).pipe_path == old(self).pipe_path,
    {
        self.status = ConnStatus::Closed;
    }

    /// Frames a payload for the wire: fails exactly when not connected or
    /// when the payload cannot sit behind a four-byte header; otherwise the
    /// returned bytes are one frame, written by the caller as one logical
    /// unit.
    pub fn send(&self, data: &str) -> (r: Result<Vec<u8>, TransportError>)
        ensures
            !(self.status is Connected) <==> r == Err::<Vec<u8>, _>(TransportError::NotConnected),
            self.status is Connected && encode_utf8(data@).len() > u32::MAX ==> r == Err::<
                Vec<u8>,
                _,
            >(TransportError::FrameTooLarge),
            self.status is Connected && encode_utf8(data@).len() <= u32::MAX ==> (r matches Ok(
                frame,
            ) && frame@ == spec_encode_frame(encode_utf8(data@))),
    {
        if !self.is_connected() {
            return Err(TransportError::NotConnected);
        }
        let body = data.as_bytes_vec();
        if body.len() > u32::MAX as usize {
            return Err(TransportError::FrameTooLarge);
        }
        Ok(encode_frame(body.as_slice()))
    }
}

} // verus!
