use vstd::prelude::*;

verus! {

/// Every HID report frame is exactly this many bytes.
pub const FRAME_SIZE: usize = 64;

/// Payload bytes an init frame can carry (the frame minus its 7 header bytes).
pub const INIT_CAPACITY: usize = 57;

/// Payload bytes a continuation frame can carry (the frame minus its 5 header
/// bytes).
pub const CONT_CAPACITY: usize = 59;

/// Longest payload a message may carry: one init frame plus 128 continuation
/// frames. Past this bound a continuation sequence number would need its top
/// bit, which is reserved to mark init frames.
pub const MAX_PAYLOAD: usize = 7609;

/// The reserved broadcast channel id, used for the INIT handshake.
pub const BROADCAST_CID: u32 = 0xffff_ffff;

/// CTAPHID command code of the INIT handshake.
pub const CMD_INIT: u8 = 0x06;

/// CTAPHID command code of a relayed message.
pub const CMD_MSG: u8 = 0x03;

/// CTAPHID command code of the fixed error response.
pub const CMD_ERROR: u8 = 0x3f;

/// A logical CTAPHID message: a channel id, a 7-bit command code and a
/// payload of at most `MAX_PAYLOAD` bytes.
pub struct HidMessage {
    pub cid: u32,
    pub cmd: u8,
    pub data: Vec<u8>,
}

impl View for HidMessage {
    type V = (u32, u8, Seq<u8>);

    open spec fn view(&self) -> (u32, u8, Seq<u8>) {
        (self.cid, self.cmd, self.data@)
    }
}

/// The channel id carried in a frame's first four bytes, big-endian.
pub open spec fn frame_cid(f: Seq<u8>) -> u32 {
    ((f[0] as u32) << 24) | ((f[1] as u32) << 16) | ((f[2] as u32) << 8) | (f[3] as u32)
}

/// Whether the frame is an init frame (top bit of byte 4 set).
pub open spec fn frame_is_init(f: Seq<u8>) -> bool {
    f[4] & 0x80 != 0
}

/// The 7-bit command code of an init frame.
pub open spec fn frame_cmd(f: Seq<u8>) -> u8 {
    f[4] & 0x7f
}

/// The total payload length declared in an init frame's bytes 5 and 6,
/// big-endian.
pub open spec fn frame_declared_len(f: Seq<u8>) -> nat {
    (f[5] as nat) * 256 + (f[6] as nat)
}

/// The payload area of an init frame.
pub open spec fn frame_init_payload(f: Seq<u8>) -> Seq<u8> {
    f.subrange(7, 64)
}

/// The payload area of a continuation frame.
pub open spec fn frame_cont_payload(f: Seq<u8>) -> Seq<u8> {
    f.subrange(5, 64)
}

/// The four big-endian bytes of a channel id.
pub open spec fn cid_bytes(cid: u32) -> Seq<u8> {
    seq![(cid >> 24) as u8, (cid >> 16) as u8, (cid >> 8) as u8, cid as u8]
}

/// `s` extended with zero bytes up to length `n`.
pub open spec fn pad_to(s: Seq<u8>, n: nat) -> Seq<u8> {
    s + Seq::new((n - s.len()) as nat, |i: int| 0u8)
}

/// How many payload bytes the init frame of a message of length `len`
/// carries.
pub open spec fn init_chunk_len(len: nat) -> nat {
    if len <= 57 {
        len
    } else {
        57
    }
}

/// The full 64 bytes of an init frame: cid, command with its top bit set,
/// big-endian total length, payload chunk, zero padding.
pub open spec fn init_frame_spec(cid: u32, cmd: u8, total_len: nat, chunk: Seq<u8>) -> Seq<u8> {
    pad_to(
        cid_bytes(cid) + seq![cmd | 0x80, (total_len / 256) as u8, (total_len % 256) as u8]
            + chunk,
        64,
    )
}

/// The full 64 bytes of a continuation frame: cid, sequence number, payload
/// chunk, zero padding.
pub open spec fn cont_frame_spec(cid: u32, seq_no: u8, chunk: Seq<u8>) -> Seq<u8> {
    pad_to(cid_bytes(cid) + seq![seq_no] + chunk, 64)
}

/// The continuation frames that carry `rest`, numbered from `seq_no` on.
pub open spec fn cont_frames_spec(cid: u32, rest: Seq<u8>, seq_no: nat) -> Seq<Seq<u8>>
    decreases rest.len(),
{
    if rest.len() == 0 {
        Seq::empty()
    } else {
        let take = if rest.len() <= 59 {
            rest.len()
        } else {
            59
        };
        seq![cont_frame_spec(cid, seq_no as u8, rest.take(take as int))] + cont_frames_spec(
            cid,
            rest.skip(take as int),
            seq_no + 1,
        )
    }
}

/// The frames of a fragmented message: one init frame, then continuation
/// frames numbered 0, 1, 2, ... until the payload is exhausted.
pub open spec fn fragment_spec(cid: u32, cmd: u8, data: Seq<u8>) -> Seq<Seq<u8>> {
    seq![init_frame_spec(cid, cmd, data.len(), data.take(init_chunk_len(data.len()) as int))]
        + cont_frames_spec(cid, data.skip(init_chunk_len(data.len()) as int), 0)
}

/// Every continuation frame of a fragmentation is exactly the fixed frame
/// size, and there are exactly as many as the remaining payload needs, 59
/// bytes at a time.
proof fn lemma_cont_frames_shape(cid: u32, rest: Seq<u8>, seq_no: nat)
    ensures
        cont_frames_spec(cid, rest, seq_no).len() == (rest.len() + 58) / 59,
        forall|i: int|
            0 <= i < cont_frames_spec(cid, rest, seq_no).len() ==> (#[trigger] cont_frames_spec(
                cid,
                rest,
                seq_no,
            )[i]).len() == 64,
    decreases rest.len(),
{
    if rest.len() == 0 {
    } else {
        let take = if rest.len() <= 59 {
            rest.len()
        } else {
            59
        };
        let f = cont_frame_spec(cid, seq_no as u8, rest.take(take as int));
        assert(f.len() == 64);
        lemma_cont_frames_shape(cid, rest.skip(take as int), seq_no + 1);
        if rest.len() <= 59 {
            assert(rest.skip(take as int).len() == 0);
            assert((rest.len() + 58) / 59 == 1) by (nonlinear_arith)
                requires
                    1 <= rest.len() <= 59,
            ;
        } else {
            assert(((rest.len() - 59) + 58) / 59 + 1 == (rest.len() + 58) / 59)
                by (nonlinear_arith)
                requires
                    rest.len() > 59,
            ;
        }
    }
}

/// Fragmentation always emits fixed 64-byte records: every frame of every
/// message has exactly the frame size, whatever its payload occupancy.
pub proof fn lemma_fragment_frame_sizes(cid: u32, cmd: u8, data: Seq<u8>)
    ensures
        forall|i: int|
            0 <= i < fragment_spec(cid, cmd, data).len() ==> (#[trigger] fragment_spec(
                cid,
                cmd,
                data,
            )[i]).len() == 64,
{
    let ic = init_chunk_len(data.len());
    assert(init_frame_spec(cid, cmd, data.len(), data.take(ic as int)).len() == 64);
    lemma_cont_frames_shape(cid, data.skip(ic as int), 0);
}

/// Fragmentation emits exactly one init frame and then exactly as many
/// continuation frames as the payload past the init frame needs: none for
/// at most 57 bytes, and one per started run of 59 bytes after that. An
/// empty payload still takes its one init frame.
pub proof fn lemma_fragment_count(cid: u32, cmd: u8, data: Seq<u8>)
    ensures
        fragment_spec(cid, cmd, data).len() == if data.len() <= 57 {
            1int
        } else {
            1int + (data.len() - 57 + 58) / 59
        },
{
    lemma_cont_frames_shape(cid, data.skip(init_chunk_len(data.len()) as int), 0);
    if data.len() <= 57 {
        assert(data.skip(init_chunk_len(data.len()) as int).len() == 0);
    }
}

/// Whether the 64-byte report in `frame` is an init frame.
pub fn is_init_frame(frame: &[u8]) -> (b: bool)
    requires
        frame@.len() == FRAME_SIZE,
    ensures
        b == frame_is_init(frame@),
{
    frame[4] & 0x80 != 0
}

/// Encode the init frame of a message: requires the chunk to fit the init
/// payload area and the declared total length to fit its two-byte field.
pub fn encode_init(cid: u32, cmd: u8, total_len: usize, chunk: &[u8]) -> (f: Vec<u8>)
    requires
        chunk@.len() <= INIT_CAPACITY,
        total_len <= 0xffff,
    ensures
        f@ == init_frame_spec(cid, cmd, total_len as nat, chunk@),
        f@.len() == FRAME_SIZE,
{
    let mut f: Vec<u8> = Vec::new();
    f.push(((cid >> 24) & 0xff) as u8);
    f.push(((cid >> 16) & 0xff) as u8);
    f.push(((cid >> 8) & 0xff) as u8);
    f.push((cid & 0xff) as u8);
    f.push(cmd | 0x80);
    let hi = ((total_len >> 8) & 0xff) as u8;
    let lo = (total_len & 0xff) as u8;
    f.push(hi);
    f.push(lo);
    proof {
        assert(((cid >> 24) & 0xff) as u8 == (cid >> 24) as u8) by (bit_vector);
        assert(((cid >> 16) & 0xff) as u8 == (cid >> 16) as u8) by (bit_vector);
        assert(((cid >> 8) & 0xff) as u8 == (cid >> 8) as u8) by (bit_vector);
        assert((cid & 0xff) as u8 == cid as u8) by (bit_vector);
        assert(((total_len >> 8) & 0xff) as u8 == (total_len / 256) as u8) by (bit_vector);
        assert((total_len & 0xff) as u8 == (total_len % 256) as u8) by (bit_vector);
        assert(f@ =~= cid_bytes(cid) + seq![
            cmd | 0x80,
            (total_len as nat / 256) as u8,
            (total_len as nat % 256) as u8,
        ]);
    }
    append_chunk(&mut f, chunk);
    pad_frame(&mut f);
    proof {
        assert(f@ =~= init_frame_spec(cid, cmd, total_len as nat, chunk@));
    }
    f
}

/// Encode a continuation frame carrying `chunk` under sequence number
/// `seq_no`.
pub fn encode_cont(cid: u32, seq_no: u8, chunk: &[u8]) -> (f: Vec<u8>)
    requires
        chunk@.len() <= CONT_CAPACITY,
    ensures
        f@ == cont_frame_spec(cid, seq_no, chunk@),
        f@.len() == FRAME_SIZE,
{
    let mut f: Vec<u8> = Vec::new();
    f.push(((cid >> 24) & 0xff) as u8);
    f.push(((cid >> 16) & 0xff) as u8);
    f.push(((cid >> 8) & 0xff) as u8);
    f.push((cid & 0xff) as u8);
    f.push(seq_no);
    proof {
        assert(((cid >> 24) & 0xff) as u8 == (cid >> 24) as u8) by (bit_vector);
        assert(((cid >> 16) & 0xff) as u8 == (cid >> 16) as u8) by (bit_vector);
        assert(((cid >> 8) & 0xff) as u8 == (cid >> 8) as u8) by (bit_vector);
        assert((cid & 0xff) as u8 == cid as u8) by (bit_vector);
        assert(f@ =~= cid_bytes(cid) + seq![seq_no]);
    }
    append_chunk(&mut f, chunk);
    pad_frame(&mut f);
    proof {
        assert(f@ =~= cont_frame_spec(cid, seq_no, chunk@));
    }
    f
}

/// Append all of `chunk` to `f`.
fn append_chunk(f: &mut Vec<u8>, chunk: &[u8])
    requires
        old(f)@.len() + chunk@.len() <= FRAME_SIZE,
    ensures
        final(f)@ == old(f)@ + chunk@,
{
    let mut i: usize = 0;
    while i < chunk.len()
        invariant
            i <= chunk@.len(),
            old(f)@.len() + chunk@.len() <= 64,
            f@ == old(f)@ + chunk@.take(i as int),
        decreases chunk@.len() - i,
    {
        f.push(chunk[i]);
        i += 1;
        proof {
            assert(f@ =~= old(f)@ + chunk@.take(i as int));
        }
    }
    proof {
        assert(f@ =~= old(f)@ + chunk@);
    }
}

/// Pad `f` with zero bytes up to the fixed frame size.
fn pad_frame(f: &mut Vec<u8>)
    requires
        old(f)@.len() <= FRAME_SIZE,
    ensures
        final(f)@ == pad_to(old(f)@, FRAME_SIZE as nat),
        final(f)@.len() == FRAME_SIZE,
{
    proof {
        assert(f@ =~= old(f)@ + Seq::new((f@.len() - old(f)@.len()) as nat, |i: int| 0u8));
    }
    while f.len() < FRAME_SIZE
        invariant
            old(f)@.len() <= f@.len() <= 64,
            f@ == old(f)@ + Seq::new((f@.len() - old(f)@.len()) as nat, |i: int| 0u8),
        decreases 64 - f@.len(),
    {
        f.push(0u8);
        proof {
            assert(f@ =~= old(f)@ + Seq::new((f@.len() - old(f)@.len()) as nat, |i: int| 0u8));
        }
    }
}

/// Split a message into its wire frames: an init frame followed by as many
/// continuation frames as the payload needs; an empty payload still yields
/// the single init frame.
pub fn fragment(msg: &HidMessage) -> (frames: Vec<Vec<u8>>)
    requires
        msg.data@.len() <= MAX_PAYLOAD,
    ensures
        frames@.len() == fragment_spec(msg.cid, msg.cmd, msg.data@).len(),
        forall|i: int|
            0 <= i < frames@.len() ==> frames@[i]@ == fragment_spec(msg.cid, msg.cmd, msg.data@)[i],
{
    let ghost gframes = fragment_spec(msg.cid, msg.cmd, msg.data@);
    let total = msg.data.len();
    let init_take = if total < INIT_CAPACITY {
        total
    } else {
        INIT_CAPACITY
    };
    let init_chunk = vstd::slice::slice_subrange(msg.data.as_slice(), 0, init_take);
    let mut frames: Vec<Vec<u8>> = Vec::new();
    frames.push(encode_init(msg.cid, msg.cmd, total, init_chunk));
    proof {
        assert(init_chunk@ =~= msg.data@.take(init_chunk_len(msg.data@.len()) as int));
        assert(gframes.skip(1) =~= cont_frames_spec(msg.cid, msg.data@.skip(init_take as int), 0));
    }
    let mut off: usize = init_take;
    let mut seq_no: u8 = 0;
    while off < total
        invariant
            total == msg.data@.len() <= 7609,
            off <= total,
            off < total ==> off == 57 + 59 * (seq_no as nat),
            off >= init_chunk_len(total as nat),
            frames@.len() == 1 + seq_no as nat,
            frames@.len() + cont_frames_spec(
                msg.cid,
                msg.data@.skip(off as int),
                seq_no as nat,
            ).len() == gframes.len(),
            forall|i: int| 0 <= i < frames@.len() ==> frames@[i]@ == gframes[i],
            gframes.skip(frames@.len() as int) == cont_frames_spec(
                msg.cid,
                msg.data@.skip(off as int),
                seq_no as nat,
            ),
        decreases total - off,
    {
        proof {
            assert(59 * (seq_no as nat) == off - 57);
            assert(seq_no < 128) by (nonlinear_arith)
                requires
                    59 * (seq_no as nat) <= 7608 - 57,
            ;
        }
        let remaining = total - off;
        let take = if remaining < CONT_CAPACITY {
            remaining
        } else {
            CONT_CAPACITY
        };
        let chunk = vstd::slice::slice_subrange(msg.data.as_slice(), off, off + take);
        let ghost rest = msg.data@.skip(off as int);
        proof {
            assert(rest.len() == total - off);
            assert(chunk@ =~= rest.take(take as int));
        }
        frames.push(encode_cont(msg.cid, seq_no, chunk));
        proof {
            let n = frames@.len() as int;
            let tail = cont_frames_spec(msg.cid, rest.skip(take as int), seq_no as nat + 1);
            assert(cont_frames_spec(msg.cid, rest, seq_no as nat) == seq![
                cont_frame_spec(msg.cid, seq_no, chunk@),
            ] + tail);
            assert(gframes[n - 1] == gframes.skip(n - 1)[0]);
            assert(frames@[n - 1]@ == gframes[n - 1]);
            assert(gframes.skip(n) =~= gframes.skip(n - 1).skip(1));
            assert((seq![cont_frame_spec(msg.cid, seq_no, chunk@)] + tail).skip(1) =~= tail);
            assert(rest.skip(take as int) =~= msg.data@.skip(off as int + take as int));
        }
        off += take;
        seq_no += 1;
    }
    proof {
        assert(msg.data@.skip(off as int) =~= Seq::<u8>::empty());
        assert(cont_frames_spec(msg.cid, msg.data@.skip(off as int), seq_no as nat) == Seq::<
            Seq<u8>,
        >::empty());
        assert(frames@.len() == gframes.len());
    }
    frames
}

} // verus!
