use vstd::prelude::*;

use crate::codec::{
    cont_frames_spec, fragment_spec, frame_cid, frame_cmd, frame_declared_len, frame_is_init,
    init_chunk_len, HidMessage, CONT_CAPACITY, FRAME_SIZE, INIT_CAPACITY,
};

verus! {

/// The buffer of a message whose init frame has arrived but whose payload
/// is not yet complete.
pub struct PendingData {
    pub cid: u32,
    pub cmd: u8,
    pub len: usize,
    pub data: Vec<u8>,
}

/// The reassembly engine: at most one message is in flight at a time on the
/// shared transport, so the whole state is one optional pending buffer.
pub struct Reassembler {
    pub pending: Option<PendingData>,
}

/// The mathematical image of a pending reassembly: channel id, command,
/// declared length, bytes gathered so far.
pub type PendingView = Option<(u32, u8, nat, Seq<u8>)>;

/// The mathematical image of an emitted message.
pub type MessageView = Option<(u32, u8, Seq<u8>)>;

impl View for Reassembler {
    type V = PendingView;

    open spec fn view(&self) -> PendingView {
        match self.pending {
            Some(p) => Some((p.cid, p.cmd, p.len as nat, p.data@)),
            None => None,
        }
    }
}

/// A live pending buffer always holds strictly fewer bytes than its init
/// frame declared, and the declared length fits its two-byte wire field.
pub open spec fn wf_state(st: PendingView) -> bool {
    match st {
        Some(p) => p.3.len() < p.2 && p.2 <= 0xffff,
        None => true,
    }
}

/// One transition of the reassembly machine: the state after the frame and
/// the message the frame completed, if any.
///
/// An init frame always starts a fresh buffer, discarding any pending one; a
/// continuation frame with no pending buffer is ignored; otherwise the frame
/// appends up to the declared length, and the message is emitted exactly
/// when the buffer reaches it.
pub open spec fn step(st: PendingView, f: Seq<u8>) -> (PendingView, MessageView) {
    if frame_is_init(f) {
        let len = frame_declared_len(f);
        let take = init_chunk_len(len);
        let data = f.subrange(7, 7 + take as int);
        if data.len() == len {
            (None, Some((frame_cid(f), frame_cmd(f), data)))
        } else {
            (Some((frame_cid(f), frame_cmd(f), len, data)), None)
        }
    } else {
        match st {
            None => (None, None),
            Some(p) => {
                let remaining = p.2 - p.3.len();
                let take = if remaining <= 59 {
                    remaining
                } else {
                    59
                };
                let data = p.3 + f.subrange(5, 5 + take);
                if data.len() == p.2 {
                    (None, Some((p.0, p.1, data)))
                } else {
                    (Some((p.0, p.1, p.2, data)), None)
                }
            },
        }
    }
}

/// The reassembly machine run over a whole sequence of frames: the final
/// state and every message emitted along the way, in order.
pub open spec fn run(st: PendingView, frames: Seq<Seq<u8>>) -> (PendingView, Seq<(u32, u8, Seq<u8>)>)
    decreases frames.len(),
{
    if frames.len() == 0 {
        (st, Seq::empty())
    } else {
        let first = step(st, frames[0]);
        let rest = run(first.0, frames.skip(1));
        let emitted = match first.1 {
            Some(m) => seq![m],
            None => Seq::<(u32, u8, Seq<u8>)>::empty(),
        };
        (rest.0, emitted + rest.1)
    }
}

impl Reassembler {
    /// A fresh engine with nothing pending.
    pub fn new() -> (r: Reassembler)
        ensures
            r@ is None,
    {
        Reassembler { pending: None }
    }

    /// Whether an init frame has arrived whose message is not yet complete.
    pub fn has_pending(&self) -> (b: bool)
        ensures
            b == (self@ is Some),
    {
        self.pending.is_some()
    }

    /// Feed one 64-byte report frame to the engine; returns the completed
    /// message if this frame finished one. The transition taken is exactly
    /// `step(old(self)@, frame@)`.
    pub fn process_frame(&mut self, frame: &[u8]) -> (emitted: Option<HidMessage>)
        requires
            frame@.len() == FRAME_SIZE,
            wf_state(old(self)@),
        ensures
            wf_state(final(self)@),
            final(self)@ == step(old(self)@, frame@).0,
            emitted is Some <==> step(old(self)@, frame@).1 is Some,
            emitted matches Some(m) ==> Some(m@) == step(old(self)@, frame@).1,
    {
        let init = frame[4] & 0x80 != 0;
        let cur = self.pending.take();
        if init {
            let cid = decode_cid(frame);
            let cmd = frame[4] & 0x7f;
            let len = (frame[5] as usize) * 256 + (frame[6] as usize);
            let take = if len < INIT_CAPACITY {
                len
            } else {
                INIT_CAPACITY
            };
            let mut data: Vec<u8> = Vec::new();
            append_from(&mut data, frame, 7, take);
            proof {
                assert(data@ =~= frame@.subrange(7, 7 + init_chunk_len(len as nat) as int));
            }
            if data.len() == len {
                Some(HidMessage { cid, cmd, data })
            } else {
                self.pending = Some(PendingData { cid, cmd, len, data });
                None
            }
        } else {
            match cur {
                None => None,
                Some(mut p) => {
                    let remaining = p.len - p.data.len();
                    let take = if remaining < CONT_CAPACITY {
                        remaining
                    } else {
                        CONT_CAPACITY
                    };
                    let ghost old_data = p.data@;
                    append_from(&mut p.data, frame, 5, take);
                    proof {
                        assert(p.data@ =~= old_data + frame@.subrange(
                            5,
                            5 + (if p.len - old_data.len() <= 59 {
                                p.len - old_data.len()
                            } else {
                                59
                            }),
                        ));
                    }
                    if p.data.len() == p.len {
                        Some(HidMessage { cid: p.cid, cmd: p.cmd, data: p.data })
                    } else {
                        self.pending = Some(p);
                        None
                    }
                },
            }
        }
    }
}

/// An init frame always acts on a clean slate: whatever reassembly was in
/// progress, the transition it takes is the one it would take from Idle, so
/// no byte of the discarded buffer can reach the new message.
pub proof fn lemma_overlap_discard(st: PendingView, f: Seq<u8>)
    requires
        frame_is_init(f),
    ensures
        step(st, f) == step(None, f),
{
}

/// A continuation frame arriving with nothing pending changes nothing and
/// emits nothing.
pub proof fn lemma_orphan_continuation(f: Seq<u8>)
    requires
        !frame_is_init(f),
    ensures
        step(None, f).0 is None,
        step(None, f).1 is None,
{
}

/// A live pending buffer emits exactly when this frame's bytes bring it to
/// the declared length; it never emits early, never grows past the declared
/// length, and the emitted payload has exactly the declared length.
pub proof fn lemma_completion_threshold(cid: u32, cmd: u8, len: nat, buf: Seq<u8>, f: Seq<u8>)
    requires
        buf.len() < len,
        f.len() == 64,
        !frame_is_init(f),
    ensures
        ({
            let r = step(Some((cid, cmd, len, buf)), f);
            let appended = if len - buf.len() <= 59 {
                len - buf.len()
            } else {
                59
            };
            &&& (r.1 is Some <==> buf.len() + appended == len)
            &&& (r.1 matches Some(m) ==> m.2.len() == len)
            &&& (r.0 matches Some(p) ==> p.2 == len && buf.len() < p.3.len() < len)
        }),
{
}

/// An init frame emits immediately exactly when its own payload area
/// already holds the whole declared length; otherwise it leaves a pending
/// buffer strictly below that length.
pub proof fn lemma_init_threshold(f: Seq<u8>)
    requires
        frame_is_init(f),
        f.len() == 64,
    ensures
        ({
            let r = step(None, f);
            &&& (r.1 is Some <==> frame_declared_len(f) <= 57)
            &&& (r.1 matches Some(m) ==> m.2.len() == frame_declared_len(f))
            &&& (r.0 matches Some(p) ==> p.2 == frame_declared_len(f) && p.3.len() == 57 < p.2)
        }),
{
}

/// Every step from a well-formed state leaves a well-formed state.
pub proof fn lemma_step_preserves_wf(st: PendingView, f: Seq<u8>)
    requires
        wf_state(st),
        f.len() == 64,
    ensures
        wf_state(step(st, f).0),
{
}

/// Helper for the round-trip law: once the init frame has been consumed,
/// feeding the remaining continuation frames completes exactly the original
/// payload and returns the machine to Idle.
proof fn lemma_run_conts(cid: u32, cmd: u8, data: Seq<u8>, off: nat, seq_no: nat)
    requires
        off < data.len(),
        data.len() <= 0xffff,
        seq_no <= 128,
        data.len() - off <= 59 * (128 - seq_no),
    ensures
        ({
            let r = run(
                Some((cid, cmd, data.len(), data.take(off as int))),
                cont_frames_spec(cid, data.skip(off as int), seq_no),
            );
            r.0 is None && r.1 == seq![(cid, cmd, data)]
        }),
    decreases data.len() - off,
{
    let rest = data.skip(off as int);
    assert(rest.len() == data.len() - off);
    let take = if rest.len() <= 59 {
        rest.len()
    } else {
        59
    };
    let chunk = rest.take(take as int);
    let s = seq_no as u8;
    assert(seq_no < 128) by {
        if seq_no == 128 {
            assert(data.len() - off <= 0);
        }
    }
    assert(s == seq_no && s <= 127);
    let f = crate::codec::cont_frame_spec(cid, s, chunk);
    let frames = cont_frames_spec(cid, rest, seq_no);
    assert(frames == seq![f] + cont_frames_spec(cid, rest.skip(take as int), seq_no + 1));
    assert(frames[0] == f);
    assert(frames.skip(1) =~= cont_frames_spec(cid, rest.skip(take as int), seq_no + 1));

    // The frame is a continuation frame and its payload area starts with
    // exactly the chunk.
    assert(f[4] == s);
    assert(s & 0x80 == 0) by (bit_vector)
        requires
            s <= 127,
    ;
    assert(!frame_is_init(f));
    let st = Some((cid, cmd, data.len(), data.take(off as int)));
    let r1 = step(st, f);
    let remaining = data.len() - off;
    assert(f.subrange(5, 5 + take as int) =~= chunk);
    assert(data.take(off as int) + chunk =~= data.take(off as int + take as int));

    if off + take == data.len() {
        assert(data.take(off as int + take as int) =~= data);
        assert(r1.0 is None);
        assert(r1.1 == Some((cid, cmd, data)));
        assert(rest.skip(take as int) =~= Seq::<u8>::empty());
        assert(cont_frames_spec(cid, rest.skip(take as int), seq_no + 1) == Seq::<Seq<u8>>::empty());
        assert(run(r1.0, frames.skip(1)).1 =~= Seq::<(u32, u8, Seq<u8>)>::empty());
        assert(run(st, frames).1 =~= seq![(cid, cmd, data)]);
    } else {
        assert(take == 59);
        assert(r1.1 is None);
        assert(r1.0 == Some((cid, cmd, data.len(), data.take(off as int + take as int))));
        assert(rest.skip(take as int) =~= data.skip(off as int + take as int));
        lemma_run_conts(cid, cmd, data, off + take, seq_no + 1);
        assert(run(st, frames).1 =~= seq![(cid, cmd, data)]);
    }
}

/// Round-trip law: fragmenting any message and feeding the frames, in
/// order, to an idle reassembly engine emits exactly that message and
/// returns the engine to Idle, with nothing emitted along the way.
pub proof fn lemma_round_trip(cid: u32, cmd: u8, data: Seq<u8>)
    requires
        data.len() <= 7609,
        cmd < 0x80,
    ensures
        run(None, fragment_spec(cid, cmd, data)).0 is None,
        run(None, fragment_spec(cid, cmd, data)).1 == seq![(cid, cmd, data)],
{
    let len = data.len();
    let ic = init_chunk_len(len);
    let chunk = data.take(ic as int);
    let f0 = crate::codec::init_frame_spec(cid, cmd, len, chunk);
    let frames = fragment_spec(cid, cmd, data);
    assert(frames[0] == f0);
    assert(frames.skip(1) =~= cont_frames_spec(cid, data.skip(ic as int), 0));

    // Decode the init frame header back to what was encoded.
    let b0 = (cid >> 24) as u8;
    let b1 = (cid >> 16) as u8;
    let b2 = (cid >> 8) as u8;
    let b3 = cid as u8;
    assert(f0[0] == b0 && f0[1] == b1 && f0[2] == b2 && f0[3] == b3);
    assert(((b0 as u32) << 24) | ((b1 as u32) << 16) | ((b2 as u32) << 8) | (b3 as u32) == cid)
        by (bit_vector)
        requires
            b0 == (cid >> 24) as u8,
            b1 == (cid >> 16) as u8,
            b2 == (cid >> 8) as u8,
            b3 == cid as u8,
    ;
    assert(frame_cid(f0) == cid);

    let marked = (cmd | 0x80) as u8;
    assert(f0[4] == marked);
    assert(marked & 0x80 != 0 && marked & 0x7f == cmd) by (bit_vector)
        requires
            marked == cmd | 0x80,
            cmd < 0x80,
    ;
    assert(frame_is_init(f0) && frame_cmd(f0) == cmd);

    // The two length bytes decode to the payload length.
    let hi = (len / 256) as u8;
    let lo = (len % 256) as u8;
    assert(f0[5] == hi && f0[6] == lo);
    assert(len / 256 <= 255 && len % 256 <= 255);
    assert(hi as nat == len / 256 && lo as nat == len % 256);
    assert((len / 256) * 256 + len % 256 == len) by (nonlinear_arith);
    assert(frame_declared_len(f0) == len);

    assert(f0.subrange(7, 7 + ic as int) =~= chunk);

    let r1 = step(None, f0);
    if len <= 57 {
        assert(chunk =~= data);
        assert(r1.0 is None);
        assert(r1.1 == Some((cid, cmd, data)));
        assert(data.skip(ic as int) =~= Seq::<u8>::empty());
        assert(cont_frames_spec(cid, data.skip(ic as int), 0) == Seq::<Seq<u8>>::empty());
        assert(run(r1.0, frames.skip(1)).1 =~= Seq::<(u32, u8, Seq<u8>)>::empty());
        assert(run(None, frames).1 =~= seq![(cid, cmd, data)]);
    } else {
        assert(r1.1 is None);
        assert(r1.0 == Some((cid, cmd, len, data.take(57))));
        assert(len - 57 <= 59 * 128);
        lemma_run_conts(cid, cmd, data, 57, 0);
        assert(run(None, frames).1 =~= seq![(cid, cmd, data)]);
    }
}

/// Decode the big-endian channel id in a frame's first four bytes.
pub fn decode_cid(frame: &[u8]) -> (cid: u32)
    requires
        frame@.len() >= 4,
    ensures
        cid == frame_cid(frame@),
{
    ((frame[0] as u32) << 24) | ((frame[1] as u32) << 16) | ((frame[2] as u32) << 8) | (
    frame[3] as u32)
}

/// Append `frame[from..from + count]` to `data`.
fn append_from(data: &mut Vec<u8>, frame: &[u8], from: usize, count: usize)
    requires
        from + count <= frame@.len(),
    ensures
        final(data)@ == old(data)@ + frame@.subrange(from as int, from as int + count as int),
{
    let n = frame.len();
    let mut i: usize = 0;
    while i < count
        invariant
            i <= count,
            from + count <= n == frame@.len(),
            data@ == old(data)@ + frame@.subrange(from as int, from as int + i as int),
        decreases count - i,
    {
        data.push(frame[from + i]);
        i += 1;
        proof {
            assert(data@ =~= old(data)@ + frame@.subrange(from as int, from as int + i as int));
        }
    }
}

} // verus!
