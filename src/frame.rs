//! Control-channel framing: `[length: big-endian u32][payload: length bytes]`.
use vstd::prelude::*;

verus! {

/// Size of the length prefix.
pub const HEADER_LEN: usize = 4;

/// The recommended ceiling on a frame's payload (16 MiB).
pub const DEFAULT_MAX_FRAME_LEN: u32 = 16777216;

/// The four big-endian bytes of `n` (`n < 2^32`).
pub open spec fn be_bytes(n: nat) -> Seq<u8> {
    seq![
        (n / 0x1000000 % 0x100) as u8,
        (n / 0x10000 % 0x100) as u8,
        (n / 0x100 % 0x100) as u8,
        (n % 0x100) as u8,
    ]
}

/// The number that the first four bytes of `b` hold, big-endian.
pub open spec fn be_value(b: Seq<u8>) -> nat {
    (b[0] as nat) * 0x1000000 + (b[1] as nat) * 0x10000 + (b[2] as nat) * 0x100 + (b[3] as nat)
}

/// A payload with its length prefix.
pub open spec fn framed(payload: Seq<u8>) -> Seq<u8> {
    be_bytes(payload.len()) + payload
}

/// What the front of a receive buffer holds.
pub enum FrameView {
    /// Not yet a whole frame.
    Incomplete,
    /// The declared length exceeds the ceiling: the connection must be dropped.
    Oversize,
    /// A whole frame: its payload and the number of bytes it takes in the buffer.
    Frame(Seq<u8>, nat),
}

/// Reads the frame at the front of `buf`, refusing payloads longer than `max`.
pub open spec fn deframe(buf: Seq<u8>, max: u32) -> FrameView {
    if buf.len() < HEADER_LEN {
        FrameView::Incomplete
    } else if be_value(buf) > max {
        FrameView::Oversize
    } else if buf.len() < HEADER_LEN + be_value(buf) {
        FrameView::Incomplete
    } else {
        FrameView::Frame(
            buf.subrange(HEADER_LEN as int, HEADER_LEN + be_value(buf)),
            (HEADER_LEN + be_value(buf)) as nat,
        )
    }
}

/// Why a frame was refused.
#[derive(PartialEq, Eq, Structural, Debug, Clone, Copy)]
pub enum FrameError {
    /// The payload is longer than the ceiling.
    Oversize,
}

/// The result of reading the front of a receive buffer.
#[derive(Debug)]
pub enum Deframed {
    Incomplete,
    Oversize,
    Frame { payload: Vec<u8>, used: usize },
}

impl View for Deframed {
    type V = FrameView;

    open spec fn view(&self) -> FrameView {
        match self {
            Deframed::Incomplete => FrameView::Incomplete,
            Deframed::Oversize => FrameView::Oversize,
            Deframed::Frame { payload, used } => FrameView::Frame(payload@, *used as nat),
        }
    }
}

proof fn lemma_be_round_trip(n: nat)
    requires
        n < 0x1_0000_0000,
    ensures
        be_value(be_bytes(n)) == n,
{
    let b = be_bytes(n);
    assert(b[0] as nat == n / 0x1000000 % 0x100);
    assert(b[1] as nat == n / 0x10000 % 0x100);
    assert(b[2] as nat == n / 0x100 % 0x100);
    assert(b[3] as nat == n % 0x100);
    assert(n / 0x1000000 < 0x100);
    assert((n / 0x1000000 % 0x100) * 0x1000000 + (n / 0x10000 % 0x100) * 0x10000 + (n / 0x100
        % 0x100) * 0x100 + n % 0x100 == n) by (nonlinear_arith)
        requires
            n < 0x1_0000_0000,
    {
        assert(n / 0x1000000 % 0x100 == n / 0x1000000);
        assert(n == (n / 0x100) * 0x100 + n % 0x100);
        assert(n / 0x100 == (n / 0x10000) * 0x100 + n / 0x100 % 0x100);
        assert(n / 0x10000 == (n / 0x1000000) * 0x100 + n / 0x10000 % 0x100);
    }
}

/// The length prefix of `len`.
pub fn length_prefix(len: u32) -> (r: [u8; 4])
    ensures
        r@ == be_bytes(len as nat),
{
    let r = [
        (len / 0x1000000 % 0x100) as u8,
        (len / 0x10000 % 0x100) as u8,
        (len / 0x100 % 0x100) as u8,
        (len % 0x100) as u8,
    ];
    assert(r@ =~= be_bytes(len as nat));
    r
}

/// The payload length that a four-byte header declares, if within `max`.
pub fn payload_length(header: &[u8], max: u32) -> (r: Result<usize, FrameError>)
    requires
        header@.len() >= HEADER_LEN,
    ensures
        be_value(header@) <= max ==> r == Ok::<usize, FrameError>(be_value(header@) as usize),
        be_value(header@) > max ==> r == Err::<usize, FrameError>(FrameError::Oversize),
{
    let n: u64 = (header[0] as u64) * 0x1000000 + (header[1] as u64) * 0x10000 + (header[2] as u64)
        * 0x100 + (header[3] as u64);
    if n > max as u64 {
        Err(FrameError::Oversize)
    } else {
        Ok(n as usize)
    }
}

/// Frames `payload`: its big-endian length, then its bytes. Payloads longer
/// than `max` are refused.
pub fn encode_frame(payload: &[u8], max: u32) -> (r: Result<Vec<u8>, FrameError>)
    ensures
        payload@.len() <= max ==> (r matches Ok(bytes) && bytes@ == framed(payload@)),
        payload@.len() > max ==> r == Err::<Vec<u8>, FrameError>(FrameError::Oversize),
{
    if payload.len() > max as usize {
        return Err(FrameError::Oversize);
    }
    let prefix = length_prefix(payload.len() as u32);
    let mut out: Vec<u8> = Vec::new();
    let mut i: usize = 0;
    while i < HEADER_LEN
        invariant
            i <= HEADER_LEN,
            prefix@.len() == HEADER_LEN,
            out@ == prefix@.subrange(0, i as int),
        decreases HEADER_LEN - i,
    {
        out.push(prefix[i]);
        i = i + 1;
    }
    let mut j: usize = 0;
    while j < payload.len()
        invariant
            j <= payload@.len(),
            out@ == prefix@ + payload@.subrange(0, j as int),
        decreases payload@.len() - j,
    {
        out.push(payload[j]);
        j = j + 1;
    }
    assert(payload@.subrange(0, payload@.len() as int) =~= payload@);
    assert(prefix@.subrange(0, HEADER_LEN as int) =~= prefix@);
    Ok(out)
}

/// Reads the frame at the front of `buf`, if a whole one is there; payloads
/// longer than `max` are refused.
pub fn decode_frame(buf: &[u8], max: u32) -> (r: Deframed)
    ensures
        r@ == deframe(buf@, max),
{
    if buf.len() < HEADER_LEN {
        return Deframed::Incomplete;
    }
    let n = match payload_length(buf, max) {
        Ok(n) => n,
        Err(_) => {
            return Deframed::Oversize;
        },
    };
    if buf.len() - HEADER_LEN < n {
        return Deframed::Incomplete;
    }
    let mut payload: Vec<u8> = Vec::with_capacity(n);
    let mut i: usize = 0;
    while i < n
        invariant
            i <= n,
            n == be_value(buf@),
            HEADER_LEN + n <= buf.len(),
            payload@ == buf@.subrange(HEADER_LEN as int, HEADER_LEN + i),
        decreases n - i,
    {
        payload.push(buf[HEADER_LEN + i]);
        i = i + 1;
        assert(payload@ =~= buf@.subrange(HEADER_LEN as int, HEADER_LEN + i));
    }
    Deframed::Frame { payload, used: HEADER_LEN + n }
}

/// Framing a payload within the ceiling and reading the frame back under the
/// same ceiling, whatever bytes follow it in the buffer, yields the payload
/// unchanged and consumes exactly the frame.
pub proof fn lemma_frame_round_trip(payload: Seq<u8>, rest: Seq<u8>, max: u32)
    requires
        payload.len() <= max,
    ensures
        deframe(framed(payload) + rest, max) == FrameView::Frame(payload, (HEADER_LEN + payload.len()) as nat),
{
    let buf = framed(payload) + rest;
    lemma_be_round_trip(payload.len());
    assert(be_value(buf) == be_value(be_bytes(payload.len())));
    assert(buf.subrange(HEADER_LEN as int, HEADER_LEN + payload.len()) =~= payload);
}

} // verus!
