//! Reassembly of frames from a byte stream that arrives in pieces.
//!
//! The reassembler keeps the bytes that the decoder could not yet decide on,
//! puts each new piece behind them and decodes as far as the bytes reach.

use crate::frame::{
    frame_fields, parse, parse_spec, starts_with_frame, ParseError, PmsData, FRAME_LEN,
};
use vstd::prelude::*;
use vstd::slice::slice_subrange;

verus! {

/// What decoding a stream as far as it reaches yields.
pub struct Drain {
    /// The frames found, in the order in which they stand in the stream.
    pub frames: Seq<PmsData>,
    /// How many bytes were dropped one by one in search of a marker.
    pub skipped: nat,
    /// The bytes at the end of the stream on which the decoder stopped.
    pub rest: Seq<u8>,
    /// The decoder's answer on `rest`.
    pub stop: ParseError,
}

/// Decodes `bytes` step by step until the decoder takes nothing more.
pub open spec fn drain(bytes: Seq<u8>) -> Drain
    decreases bytes.len(),
{
    match parse_spec(bytes) {
        Ok((rest, Some(frame))) => {
            let tail = drain(rest);
            Drain { frames: seq![frame] + tail.frames, ..tail }
        },
        Ok((rest, None)) => {
            let tail = drain(rest);
            Drain { skipped: tail.skipped + 1, ..tail }
        },
        Err(e) => Drain { frames: Seq::empty(), skipped: 0, rest: bytes, stop: e },
    }
}

/// The decoder takes nothing from `bytes`: they wait for more input.
pub open spec fn settled(bytes: Seq<u8>) -> bool {
    parse_spec(bytes) is Err
}

/// What a run of calls of [`Reassembler::process`] yields, one call for each
/// piece in turn, on a reassembler in which `waiting` waits: the frames of all
/// the calls in their order, the bytes dropped in all of them, and what waits
/// after the last, with the decoder's answer on it.
pub open spec fn feed(waiting: Seq<u8>, pieces: Seq<Seq<u8>>) -> Drain
    decreases pieces.len(),
{
    if pieces.len() == 0 {
        drain(waiting)
    } else {
        let head = drain(waiting + pieces.first());
        let tail = feed(head.rest, pieces.drop_first());
        Drain {
            frames: head.frames + tail.frames,
            skipped: head.skipped + tail.skipped,
            rest: tail.rest,
            stop: tail.stop,
        }
    }
}

/// What one call of [`Reassembler::process`] hands back.
#[derive(Debug)]
pub struct Processed {
    /// The frames decoded by this call, in the order of their arrival.
    pub frames: Vec<PmsData>,
    /// How many bytes this call dropped one by one in search of a marker.
    pub skipped: usize,
    /// The decoder's answer that ended this call. `Incomplete` is the steady
    /// state: the reassembler waits for that many bytes at least.
    pub stop: ParseError,
}

/// The bytes of a stream that wait for more input, and the means to go on
/// decoding when more arrives. One reassembler serves one stream.
pub struct Reassembler {
    pending: Vec<u8>,
}

impl Reassembler {
    /// The bytes that wait for more input.
    pub closed spec fn view(&self) -> Seq<u8> {
        self.pending@
    }

    #[verifier::type_invariant]
    spec fn waits(&self) -> bool {
        settled(self.pending@)
    }

    /// A reassembler at the start of a stream: nothing waits.
    pub fn new() -> (r: Self)
        ensures
            r@ == Seq::<u8>::empty(),
    {
        Reassembler { pending: Vec::new() }
    }

    /// The bytes that wait for more input: fewer than one frame, and nothing
    /// that the decoder could take.
    pub fn pending(&self) -> (bytes: &[u8])
        ensures
            bytes@ == self@,
            settled(self@),
            self@.len() < FRAME_LEN,
    {
        proof {
            use_type_invariant(self);
        }
        self.pending.as_slice()
    }

    /// Puts `new_bytes` behind the bytes that wait and decodes as far as they
    /// reach.
    ///
    /// Each frame is handed back once, in the order of arrival; a byte at
    /// which no frame can start is dropped; the bytes on which the decoder
    /// stopped wait for the next call, together with the decoder's answer on
    /// them in `stop`. Every byte is thus part of a frame, dropped, or kept.
    pub fn process(&mut self, new_bytes: &[u8]) -> (out: Processed)
        ensures
            out.frames@ == drain(old(self)@ + new_bytes@).frames,
            out.skipped == drain(old(self)@ + new_bytes@).skipped,
            out.stop == drain(old(self)@ + new_bytes@).stop,
            final(self)@ == drain(old(self)@ + new_bytes@).rest,
            settled(final(self)@),
            final(self)@.len() < FRAME_LEN,
            old(self)@.len() + new_bytes@.len() == FRAME_LEN * out.frames@.len() + out.skipped
                + final(self)@.len(),
    {
        let mut buffer: Vec<u8> = Vec::new();
        buffer.extend_from_slice(self.pending.as_slice());
        buffer.extend_from_slice(new_bytes);
        let ghost stream = old(self)@ + new_bytes@;
        assert(buffer@ =~= stream);

        let mut frames: Vec<PmsData> = Vec::new();
        let mut skipped: usize = 0;
        let mut taken: usize = 0;
        let mut stop = ParseError::Malformed;
        assert(stream.skip(0) =~= stream);
        assert(frames@ + drain(stream).frames =~= drain(stream).frames);
        loop
            invariant_except_break
                taken <= buffer@.len(),
                skipped <= taken,
                buffer@ == stream,
                drain(stream).frames == frames@ + drain(stream.skip(taken as int)).frames,
                drain(stream).skipped == skipped + drain(stream.skip(taken as int)).skipped,
                drain(stream).rest == drain(stream.skip(taken as int)).rest,
                drain(stream).stop == drain(stream.skip(taken as int)).stop,
            ensures
                taken <= buffer@.len(),
                buffer@ == stream,
                drain(stream).frames == frames@,
                drain(stream).skipped == skipped,
                drain(stream).rest == stream.skip(taken as int),
                drain(stream).stop == stop,
            decreases buffer@.len() - taken,
        {
            let input = slice_subrange(buffer.as_slice(), taken, buffer.len());
            assert(input@ == stream.skip(taken as int));
            match parse(input) {
                Ok((rest, Some(frame))) => {
                    assert(rest@ == stream.skip(taken + FRAME_LEN));
                    assert(frames@.push(frame) + drain(rest@).frames == frames@ + (seq![frame]
                        + drain(rest@).frames));
                    frames.push(frame);
                    taken = taken + FRAME_LEN;
                },
                Ok((rest, None)) => {
                    assert(rest@ == stream.skip(taken + 1));
                    skipped = skipped + 1;
                    taken = taken + 1;
                },
                Err(e) => {
                    stop = e;
                    break ;
                },
            }
        }
        let rest = buffer.split_off(taken);
        proof {
            lemma_drain_accounts(stream);
        }
        self.pending = rest;
        Processed { frames, skipped, stop }
    }
}

/// A decoding step that takes something is not changed by bytes that arrive
/// behind its input: it takes the same, and leaves them behind what it left.
pub proof fn lemma_step_is_stable(bytes: Seq<u8>, more: Seq<u8>)
    requires
        parse_spec(bytes) is Ok,
    ensures
        parse_spec(bytes + more) == Ok::<(Seq<u8>, Option<PmsData>), ParseError>(
            (parse_spec(bytes)->Ok_0.0 + more, parse_spec(bytes)->Ok_0.1),
        ),
{
    let whole = bytes + more;
    assert(bytes.len() >= 1);
    assert(whole[0] == bytes[0]);
    if bytes.len() >= 2 {
        assert(whole[1] == bytes[1]);
    }
    if starts_with_frame(bytes) {
        assert(whole.skip(FRAME_LEN as int) =~= bytes.skip(FRAME_LEN as int) + more);
        assert forall|at: int| 0 <= at < FRAME_LEN implies whole[at] == bytes[at] by {}
        assert(frame_fields(whole) == frame_fields(bytes));
    } else {
        assert(whole.skip(1) =~= bytes.skip(1) + more);
    }
}

/// Draining ends on bytes from which the decoder takes nothing, with the
/// decoder's answer on them, and every byte of the stream is then part of a
/// frame, dropped, or left.
pub proof fn lemma_drain_accounts(bytes: Seq<u8>)
    ensures
        settled(drain(bytes).rest),
        parse_spec(drain(bytes).rest) == Err::<(Seq<u8>, Option<PmsData>), ParseError>(
            drain(bytes).stop,
        ),
        drain(bytes).rest.len() < FRAME_LEN,
        bytes.len() == FRAME_LEN * drain(bytes).frames.len() + drain(bytes).skipped + drain(
            bytes,
        ).rest.len(),
        drain(bytes).rest == bytes.skip(bytes.len() - drain(bytes).rest.len()),
    decreases bytes.len(),
{
    match parse_spec(bytes) {
        Ok((rest, _)) => {
            lemma_drain_accounts(rest);
            let left = drain(rest).rest;
            assert(rest.skip(rest.len() - left.len()) =~= bytes.skip(bytes.len() - left.len()));
        },
        Err(_) => {
            assert(bytes.skip(0) =~= bytes);
        },
    }
}

/// Bytes from which the decoder takes nothing drain to themselves.
pub proof fn lemma_drain_settled(bytes: Seq<u8>)
    requires
        settled(bytes),
    ensures
        drain(bytes).frames == Seq::<PmsData>::empty(),
        drain(bytes).skipped == 0,
        drain(bytes).rest == bytes,
{
}

/// Fragmentation in two: a stream cut at any point, the first piece drained
/// and the second drained behind what the first left, gives the frames of the
/// whole stream in their order, drops as many bytes, and leaves the same.
pub proof fn lemma_drain_split(first: Seq<u8>, second: Seq<u8>)
    ensures
        drain(first + second).frames == drain(first).frames + drain(
            drain(first).rest + second,
        ).frames,
        drain(first + second).skipped == drain(first).skipped + drain(
            drain(first).rest + second,
        ).skipped,
        drain(first + second).rest == drain(drain(first).rest + second).rest,
        drain(first + second).stop == drain(drain(first).rest + second).stop,
    decreases first.len(),
{
    match parse_spec(first) {
        Ok((rest, found)) => {
            lemma_step_is_stable(first, second);
            lemma_drain_split(rest, second);
            let behind = drain(drain(rest).rest + second).frames;
            if let Some(frame) = found {
                assert(seq![frame] + (drain(rest).frames + behind) =~= (seq![frame] + drain(
                    rest,
                ).frames) + behind);
            }
        },
        Err(_) => {
            assert(drain(first).frames + drain(first + second).frames =~= drain(
                first + second,
            ).frames);
        },
    }
}

/// Fragmentation invariance: however a stream is cut into pieces, feeding the
/// pieces one by one yields the frames of the whole stream in the same order,
/// none left out and none twice, and leaves the same bytes waiting as feeding
/// the stream in one piece.
pub proof fn lemma_fragmentation_invariance(waiting: Seq<u8>, pieces: Seq<Seq<u8>>)
    ensures
        feed(waiting, pieces) == drain(waiting + pieces.flatten()),
        feed(waiting, pieces) == feed(waiting, seq![pieces.flatten()]),
    decreases pieces.len(),
{
    let whole = pieces.flatten();
    if pieces.len() == 0 {
        assert(waiting + whole =~= waiting);
    } else {
        let first = pieces.first();
        let others = pieces.drop_first().flatten();
        let head = drain(waiting + first);
        lemma_fragmentation_invariance(head.rest, pieces.drop_first());
        lemma_drain_split(waiting + first, others);
        assert((waiting + first) + others =~= waiting + whole);
    }
    let single = seq![whole];
    assert(single.drop_first() =~= Seq::<Seq<u8>>::empty());
    assert(single.first() == whole);
    let once = drain(waiting + whole);
    lemma_drain_accounts(waiting + whole);
    lemma_drain_settled(once.rest);
    assert(feed(once.rest, single.drop_first()) == drain(once.rest));
    assert(once.frames + Seq::<PmsData>::empty() =~= once.frames);
}

} // verus!
