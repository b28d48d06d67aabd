//! Length-prefixed framing: four big-endian length bytes, then the payload.
//!
//! Payloads are the serialised messages; turning a message into payload
//! bytes and back is done by the caller's serialiser.

use vstd::prelude::*;
use vstd::slice::{slice_subrange, slice_to_vec};
use crate::error::CoreError;

verus! {

/// Largest payload a frame may carry (16 MiB).
pub const MAX_MESSAGE_SIZE: usize = 16 * 1024 * 1024;

/// Number of bytes in the length header.
pub const HEADER_LEN: usize = 4;

/// The big-endian four-byte encoding of `n` (below 2^32).
pub open spec fn be_bytes(n: nat) -> Seq<u8> {
    seq![(n / 16777216 % 256) as u8, (n / 65536 % 256) as u8, (n / 256 % 256) as u8, (n % 256) as u8]
}

/// The value of the first four bytes read as a big-endian integer.
pub open spec fn be_value(b: Seq<u8>) -> nat {
    (b[0] as nat) * 16777216 + (b[1] as nat) * 65536 + (b[2] as nat) * 256 + (b[3] as nat)
}

/// The frame that carries `payload`.
pub open spec fn frame(payload: Seq<u8>) -> Seq<u8> {
    be_bytes(payload.len()) + payload
}

/// The payload length that the header of `buf` declares.
pub open spec fn declared_len(buf: Seq<u8>) -> nat {
    be_value(buf)
}

/// Reads every complete frame at the front of `buf`: the payloads in order
/// and the number of bytes they occupy. `None` when a header declares more
/// than the maximum. An incomplete trailing frame is left unread.
pub open spec fn parse_frames(buf: Seq<u8>) -> Option<(Seq<Seq<u8>>, nat)>
    decreases buf.len(),
{
    if buf.len() < 4 {
        Some((seq![], 0))
    } else if declared_len(buf) > MAX_MESSAGE_SIZE {
        None
    } else if buf.len() < 4 + declared_len(buf) {
        Some((seq![], 0))
    } else {
        let end = 4 + declared_len(buf);
        match parse_frames(buf.subrange(end as int, buf.len() as int)) {
            None => None,
            Some((rest, used)) => Some((
                seq![buf.subrange(4, end as int)] + rest,
                end + used,
            )),
        }
    }
}

proof fn lemma_be_round_trip(n: nat)
    requires
        n < 0x1_0000_0000,
    ensures
        be_value(be_bytes(n)) == n,
        be_bytes(n).len() == 4,
{
    let b = be_bytes(n);
    assert(b[0] as nat == n / 16777216 % 256);
    assert(b[1] as nat == n / 65536 % 256);
    assert(b[2] as nat == n / 256 % 256);
    assert(b[3] as nat == n % 256);
    assert(n / 16777216 % 256 * 16777216 + n / 65536 % 256 * 65536 + n / 256 % 256 * 256 + n % 256
        == n) by (nonlinear_arith)
        requires
            n < 0x1_0000_0000,
    {
    }
}

/// A frame followed by anything parses as its payload followed by whatever
/// the rest parses as.
pub proof fn lemma_parse_frame_then_rest(payload: Seq<u8>, rest: Seq<u8>)
    requires
        payload.len() <= MAX_MESSAGE_SIZE,
    ensures
        parse_frames(frame(payload) + rest) == match parse_frames(rest) {
            None => None,
            Some((fs, used)) => Some((seq![payload] + fs, frame(payload).len() + used)),
        },
{
    lemma_be_round_trip(payload.len());
    let buf = frame(payload) + rest;
    let end = 4 + payload.len();
    assert(buf.subrange(0, 4) =~= be_bytes(payload.len()));
    assert(declared_len(buf) == payload.len()) by {
        assert(buf[0] == be_bytes(payload.len())[0]);
        assert(buf[1] == be_bytes(payload.len())[1]);
        assert(buf[2] == be_bytes(payload.len())[2]);
        assert(buf[3] == be_bytes(payload.len())[3]);
    }
    assert(buf.subrange(end as int, buf.len() as int) =~= rest);
    assert(buf.subrange(4, end as int) =~= payload);
}

/// A strict prefix of a frame yields no payload and consumes nothing.
pub proof fn lemma_partial_frame_waits(payload: Seq<u8>, k: int)
    requires
        payload.len() <= MAX_MESSAGE_SIZE,
        0 <= k < frame(payload).len(),
    ensures
        parse_frames(frame(payload).subrange(0, k)) == Some((Seq::<Seq<u8>>::empty(), 0nat)),
{
    lemma_be_round_trip(payload.len());
    let p = frame(payload).subrange(0, k);
    if k >= 4 {
        assert(p[0] == frame(payload)[0]);
        assert(p[1] == frame(payload)[1]);
        assert(p[2] == frame(payload)[2]);
        assert(p[3] == frame(payload)[3]);
        assert(declared_len(p) == payload.len());
    }
}

/// Two encoded frames back to back decode to the two payloads, in order,
/// consuming exactly both frames; a further incomplete frame after them is
/// left unread.
pub proof fn lemma_two_frames_round_trip(first: Seq<u8>, second: Seq<u8>, third: Seq<u8>, k: int)
    requires
        first.len() <= MAX_MESSAGE_SIZE,
        second.len() <= MAX_MESSAGE_SIZE,
        third.len() <= MAX_MESSAGE_SIZE,
        0 <= k < frame(third).len(),
    ensures
        parse_frames(frame(first) + frame(second)) == Some((seq![first, second], frame(first).len() + frame(second).len())),
        parse_frames(frame(first) + frame(second) + frame(third).subrange(0, k)) == Some(
            (seq![first, second], frame(first).len() + frame(second).len()),
        ),
{
    let empty = Seq::<u8>::empty();
    assert(parse_frames(empty) == Some((Seq::<Seq<u8>>::empty(), 0nat)));
    lemma_parse_frame_then_rest(second, empty);
    assert(frame(second) + empty =~= frame(second));
    assert(seq![second] + Seq::<Seq<u8>>::empty() =~= seq![second]);
    lemma_parse_frame_then_rest(first, frame(second));
    assert(seq![first] + seq![second] =~= seq![first, second]);

    let tail = frame(third).subrange(0, k);
    lemma_partial_frame_waits(third, k);
    lemma_parse_frame_then_rest(second, tail);
    lemma_parse_frame_then_rest(first, frame(second) + tail);
    assert(frame(first) + frame(second) + tail =~= frame(first) + (frame(second) + tail));
}

fn read_be_u32(buf: &[u8], at: usize) -> (n: usize)
    requires
        at + 4 <= buf@.len(),
    ensures
        n as nat == be_value(buf@.subrange(at as int, at + 4)),
        n <= u32::MAX,
{
    let b0 = buf[at] as usize;
    let b1 = buf[at + 1] as usize;
    let b2 = buf[at + 2] as usize;
    let b3 = buf[at + 3] as usize;
    b0 * 16777216 + b1 * 65536 + b2 * 256 + b3
}

/// Length-prefixed framing of serialised messages.
pub struct MessageCodec;

impl MessageCodec {
    /// Frames a serialised message. Fails when the payload exceeds the
    /// maximum.
    pub fn encode(payload: &[u8]) -> (r: Result<Vec<u8>, CoreError>)
        ensures
            payload@.len() > MAX_MESSAGE_SIZE ==> r == Err::<Vec<u8>, CoreError>(
                CoreError::MessageTooLarge { size: payload@.len() as usize, max: MAX_MESSAGE_SIZE },
            ),
            payload@.len() <= MAX_MESSAGE_SIZE ==> (r matches Ok(v) && v@ == frame(payload@)),
    {
        let n = payload.len();
        if n > MAX_MESSAGE_SIZE {
            return Err(CoreError::MessageTooLarge { size: n, max: MAX_MESSAGE_SIZE });
        }
        let mut out: Vec<u8> = Vec::with_capacity(4 + n);
        out.push((n / 16777216 % 256) as u8);
        out.push((n / 65536 % 256) as u8);
        out.push((n / 256 % 256) as u8);
        out.push((n % 256) as u8);
        assert(out@ =~= be_bytes(n as nat));
        let mut i: usize = 0;
        while i < n
            invariant
                i <= n,
                n == payload@.len(),
                out@ =~= be_bytes(n as nat) + payload@.subrange(0, i as int),
            decreases n - i,
        {
            out.push(payload[i]);
            i += 1;
        }
        assert(payload@.subrange(0, n as int) =~= payload@);
        Ok(out)
    }

    /// Reads the first frame of `buf` and returns its payload.
    pub fn decode(buf: &[u8]) -> (r: Result<Vec<u8>, CoreError>)
        ensures
            buf@.len() < 4 ==> r matches Err(CoreError::InvalidMessageFormat(_)),
            buf@.len() >= 4 && declared_len(buf@) > MAX_MESSAGE_SIZE ==> r == Err::<Vec<u8>, CoreError>(
                CoreError::MessageTooLarge { size: declared_len(buf@) as usize, max: MAX_MESSAGE_SIZE },
            ),
            buf@.len() >= 4 && declared_len(buf@) <= MAX_MESSAGE_SIZE && buf@.len() < 4 + declared_len(buf@)
                ==> r matches Err(CoreError::InvalidMessageFormat(_)),
            buf@.len() >= 4 && declared_len(buf@) <= MAX_MESSAGE_SIZE && buf@.len() >= 4 + declared_len(buf@)
                ==> (r matches Ok(p) && p@ == buf@.subrange(4, 4 + declared_len(buf@) as int)),
    {
        if buf.len() < 4 {
            return Err(CoreError::InvalidMessageFormat("Buffer too small for length prefix".to_string()));
        }
        let len = read_be_u32(buf, 0);
        assert(buf@.subrange(0, 4)[0] == buf@[0]);
        assert(be_value(buf@.subrange(0, 4)) == declared_len(buf@));
        if len > MAX_MESSAGE_SIZE {
            return Err(CoreError::MessageTooLarge { size: len, max: MAX_MESSAGE_SIZE });
        }
        if buf.len() - 4 < len {
            return Err(CoreError::InvalidMessageFormat("Buffer too small for payload".to_string()));
        }
        Ok(slice_to_vec(slice_subrange(buf, 4, 4 + len)))
    }

    /// Reads one frame from the front of a receive buffer.
    ///
    /// `Err` when the header declares more than the maximum (checked before
    /// anything else is read); `Ok(None)` while the header or the payload is
    /// incomplete; otherwise the payload and the number of bytes the frame
    /// occupies.
    pub fn try_decode(buf: &[u8]) -> (r: Result<Option<(Vec<u8>, usize)>, CoreError>)
        ensures
            buf@.len() < 4 ==> r == Ok::<Option<(Vec<u8>, usize)>, CoreError>(None),
            buf@.len() >= 4 && declared_len(buf@) > MAX_MESSAGE_SIZE ==> r == Err::<Option<(Vec<u8>, usize)>, CoreError>(
                CoreError::MessageTooLarge { size: declared_len(buf@) as usize, max: MAX_MESSAGE_SIZE },
            ),
            buf@.len() >= 4 && declared_len(buf@) <= MAX_MESSAGE_SIZE && buf@.len() < 4 + declared_len(buf@)
                ==> r == Ok::<Option<(Vec<u8>, usize)>, CoreError>(None),
            buf@.len() >= 4 && declared_len(buf@) <= MAX_MESSAGE_SIZE && buf@.len() >= 4 + declared_len(buf@)
                ==> (r matches Ok(Some((p, used))) && used == 4 + declared_len(buf@)
                && p@ == buf@.subrange(4, used as int)),
    {
        if buf.len() < 4 {
            return Ok(None);
        }
        let len = read_be_u32(buf, 0);
        assert(buf@.subrange(0, 4)[0] == buf@[0]);
        assert(be_value(buf@.subrange(0, 4)) == declared_len(buf@));
        if len > MAX_MESSAGE_SIZE {
            return Err(CoreError::MessageTooLarge { size: len, max: MAX_MESSAGE_SIZE });
        }
        if buf.len() - 4 < len {
            return Ok(None);
        }
        let payload = slice_to_vec(slice_subrange(buf, 4, 4 + len));
        Ok(Some((payload, 4 + len)))
    }

    /// Reads every complete frame at the front of `buf`: the payloads in
    /// order and the number of bytes consumed. An incomplete trailing frame
    /// is not consumed. Fails when a header declares more than the maximum.
    pub fn decode_stream(buf: &[u8]) -> (r: Result<(Vec<Vec<u8>>, usize), CoreError>)
        ensures
            parse_frames(buf@) is None <==> r is Err,
            r matches Ok((frames, used)) ==> parse_frames(buf@) == Some(
                (frames@.map_values(|f: Vec<u8>| f@), used as nat),
            ),
            r matches Err(e) ==> e matches CoreError::MessageTooLarge { .. },
    {
        let mut frames: Vec<Vec<u8>> = Vec::new();
        let mut offset: usize = 0;
        proof {
            assert(buf@.subrange(0, buf@.len() as int) =~= buf@);
            match parse_frames(buf@) {
                None => {},
                Some((rest, used)) => {
                    assert(frames@.map_values(|f: Vec<u8>| f@) + rest =~= rest);
                },
            }
        }
        loop
            invariant
                offset <= buf@.len(),
                parse_frames(buf@) == match parse_frames(buf@.subrange(offset as int, buf@.len() as int)) {
                    None => None,
                    Some((rest, used)) => Some(
                        (frames@.map_values(|f: Vec<u8>| f@) + rest, (offset + used) as nat),
                    ),
                },
            decreases buf@.len() - offset,
        {
            let ghost cur = buf@.subrange(offset as int, buf@.len() as int);
            if buf.len() - offset < 4 {
                assert(parse_frames(cur) == Some((Seq::<Seq<u8>>::empty(), 0nat)));
                assert(frames@.map_values(|f: Vec<u8>| f@) + Seq::<Seq<u8>>::empty()
                    =~= frames@.map_values(|f: Vec<u8>| f@));
                return Ok((frames, offset));
            }
            let len = read_be_u32(buf, offset);
            assert(buf@.subrange(offset as int, offset + 4) =~= cur.subrange(0, 4));
            assert(be_value(cur.subrange(0, 4)) == declared_len(cur)) by {
                assert(cur.subrange(0, 4)[0] == cur[0]);
                assert(cur.subrange(0, 4)[1] == cur[1]);
                assert(cur.subrange(0, 4)[2] == cur[2]);
                assert(cur.subrange(0, 4)[3] == cur[3]);
            }
            if len > MAX_MESSAGE_SIZE {
                return Err(CoreError::MessageTooLarge { size: len, max: MAX_MESSAGE_SIZE });
            }
            if buf.len() - offset - 4 < len {
                assert(frames@.map_values(|f: Vec<u8>| f@) + Seq::<Seq<u8>>::empty()
                    =~= frames@.map_values(|f: Vec<u8>| f@));
                return Ok((frames, offset));
            }
            let payload = slice_to_vec(slice_subrange(buf, offset + 4, offset + 4 + len));
            let ghost old_views = frames@.map_values(|f: Vec<u8>| f@);
            frames.push(payload);
            proof {
                let end = 4 + len;
                assert(cur.subrange(4, end as int) =~= payload@);
                assert(cur.subrange(end as int, cur.len() as int)
                    =~= buf@.subrange(offset + end, buf@.len() as int));
                assert(frames@.map_values(|f: Vec<u8>| f@) =~= old_views.push(payload@));
                match parse_frames(buf@.subrange(offset + end, buf@.len() as int)) {
                    None => {},
                    Some((rest, used)) => {
                        assert(old_views + (seq![payload@] + rest) =~= old_views.push(payload@) + rest);
                    },
                }
            }
            offset = offset + 4 + len;
        }
    }
}

} // verus!
