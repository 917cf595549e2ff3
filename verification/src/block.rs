use vstd::prelude::*;

verus! {

/// Whether offering `sample` to a buffer holding `buf` flushes first:
/// only a non-empty buffer flushes, and only when the sample would push
/// it past the capacity.  An oversized sample offered to an empty buffer
/// is taken whole, never split.
pub open spec fn flush_before_append(buf: Seq<u8>, cap: int, sample: Seq<u8>) -> bool {
    buf.len() > 0 && buf.len() + sample.len() > cap
}

/// The blocks flushed (`.0`) and the bytes still buffered (`.1`) after
/// offering the samples of `ss`, in order, to an accumulator of capacity
/// `cap` that already emitted `blocks` and holds `buf`.
pub open spec fn offer_all(
    buf: Seq<u8>,
    blocks: Seq<Seq<u8>>,
    ss: Seq<Seq<u8>>,
    cap: int,
) -> (Seq<Seq<u8>>, Seq<u8>)
    decreases ss.len(),
{
    if ss.len() == 0 {
        (blocks, buf)
    } else if flush_before_append(buf, cap, ss.first()) {
        offer_all(ss.first(), blocks.push(buf), ss.drop_first(), cap)
    } else {
        offer_all(buf + ss.first(), blocks, ss.drop_first(), cap)
    }
}

/// Every block the block strategy emits for corpus `ss` under capacity
/// `cap`: the blocks flushed by `offer`, then the final `drain` if any
/// bytes are left over.
pub open spec fn emitted_blocks(ss: Seq<Seq<u8>>, cap: int) -> Seq<Seq<u8>> {
    let r = offer_all(Seq::empty(), Seq::empty(), ss, cap);
    if r.1.len() > 0 {
        r.0.push(r.1)
    } else {
        r.0
    }
}

/// Buffers samples up to a fixed capacity and hands out completed blocks:
/// `offer` appends one sample, flushing the buffer first when the sample
/// would not fit next to what is already there; `drain` hands out the
/// final partial block.
pub struct BlockAccumulator {
    buf: Vec<u8>,
    capacity: usize,
}

impl BlockAccumulator {
    /// The bytes currently buffered and not yet emitted.
    pub closed spec fn buffered(self) -> Seq<u8> {
        self.buf@
    }

    /// The flush capacity fixed at construction.
    pub closed spec fn cap(self) -> int {
        self.capacity as int
    }

    pub open spec fn wf(self) -> bool {
        self.cap() > 0
    }

    /// An empty accumulator with the given flush capacity.
    pub fn new(capacity: usize) -> (r: BlockAccumulator)
        requires
            capacity > 0,
        ensures
            r.wf(),
            r.cap() == capacity,
            r.buffered() == Seq::<u8>::empty(),
    {
        BlockAccumulator { buf: Vec::new(), capacity }
    }

    /// Append `sample` to the buffer; if the buffer is non-empty and the
    /// sample would push it past the capacity, the buffer is emitted as a
    /// completed block first and the sample starts a fresh one.
    pub fn offer(&mut self, sample: &Vec<u8>) -> (r: Option<Vec<u8>>)
        requires
            old(self).wf(),
        ensures
            final(self).wf(),
            final(self).cap() == old(self).cap(),
            flush_before_append(old(self).buffered(), old(self).cap(), sample@) ==> {
                &&& r matches Some(b) && b@ == old(self).buffered()
                &&& final(self).buffered() == sample@
            },
            !flush_before_append(old(self).buffered(), old(self).cap(), sample@) ==> {
                &&& r is None
                &&& final(self).buffered() == old(self).buffered() + sample@
            },
    {
        let mut out: Option<Vec<u8>> = None;
        if self.buf.len() > 0 && (self.buf.len() > self.capacity || sample.len()
            > self.capacity - self.buf.len()) {
            let mut emitted: Vec<u8> = Vec::new();
            core::mem::swap(&mut emitted, &mut self.buf);
            out = Some(emitted);
        }
        append_bytes(&mut self.buf, sample);
        proof {
            if !flush_before_append(old(self).buffered(), old(self).cap(), sample@) {
                assert(self.buf@ =~= old(self).buffered() + sample@);
            }
        }
        out
    }

    /// Emit whatever is buffered as a final block; nothing comes out of an
    /// empty buffer.  The buffer is empty afterwards either way.
    pub fn drain(&mut self) -> (r: Option<Vec<u8>>)
        requires
            old(self).wf(),
        ensures
            final(self).wf(),
            final(self).cap() == old(self).cap(),
            final(self).buffered() == Seq::<u8>::empty(),
            old(self).buffered().len() > 0 ==> (r matches Some(b) && b@ == old(self).buffered()),
            old(self).buffered().len() == 0 ==> r is None,
    {
        if self.buf.len() > 0 {
            let mut emitted: Vec<u8> = Vec::new();
            core::mem::swap(&mut emitted, &mut self.buf);
            Some(emitted)
        } else {
            None
        }
    }
}

/// Each block of `offer_all` is within the capacity or is one whole sample
/// of `all`, provided the starting buffer and already-emitted blocks are.
proof fn lemma_offer_all_bounded(
    buf: Seq<u8>,
    blocks: Seq<Seq<u8>>,
    ss: Seq<Seq<u8>>,
    all: Seq<Seq<u8>>,
    cap: int,
)
    requires
        buf.len() <= cap || all.contains(buf),
        forall|i: int|
            0 <= i < blocks.len() ==> (#[trigger] blocks[i]).len() <= cap || all.contains(
                blocks[i],
            ),
        forall|i: int| 0 <= i < ss.len() ==> all.contains(#[trigger] ss[i]),
    ensures
        forall|i: int|
            0 <= i < offer_all(buf, blocks, ss, cap).0.len() ==> (#[trigger] offer_all(
                buf,
                blocks,
                ss,
                cap,
            ).0[i]).len() <= cap || all.contains(offer_all(buf, blocks, ss, cap).0[i]),
        offer_all(buf, blocks, ss, cap).1.len() <= cap || all.contains(
            offer_all(buf, blocks, ss, cap).1,
        ),
    decreases ss.len(),
{
    if ss.len() > 0 {
        let s = ss.first();
        assert(all.contains(s));
        assert(forall|i: int| 0 <= i < ss.drop_first().len() ==> all.contains(
            #[trigger] ss.drop_first()[i]));
        if flush_before_append(buf, cap, s) {
            lemma_offer_all_bounded(s, blocks.push(buf), ss.drop_first(), all, cap);
        } else {
            if buf.len() == 0 {
                assert(buf + s =~= s);
            }
            lemma_offer_all_bounded(buf + s, blocks, ss.drop_first(), all, cap);
        }
    }
}

/// Every emitted block fits within the capacity, except one that is a
/// single oversized sample of the corpus, taken whole.
pub proof fn lemma_emitted_blocks_bounded(ss: Seq<Seq<u8>>, cap: int)
    requires
        cap > 0,
    ensures
        forall|i: int|
            0 <= i < emitted_blocks(ss, cap).len() && (#[trigger] emitted_blocks(ss, cap)[i]).len()
                > cap ==> ss.contains(emitted_blocks(ss, cap)[i]),
{
    lemma_offer_all_bounded(Seq::empty(), Seq::empty(), ss, ss, cap);
}

/// The bytes of `offer_all`'s blocks plus its leftover buffer are exactly
/// the bytes it started with plus the bytes of the offered samples.
proof fn lemma_offer_all_conserves(buf: Seq<u8>, blocks: Seq<Seq<u8>>, ss: Seq<Seq<u8>>, cap: int)
    ensures
        offer_all(buf, blocks, ss, cap).0.flatten() + offer_all(buf, blocks, ss, cap).1
            =~= blocks.flatten() + buf + ss.flatten(),
    decreases ss.len(),
{
    broadcast use Seq::lemma_flatten_push;

    if ss.len() == 0 {
        assert(ss.flatten() =~= Seq::<u8>::empty());
    } else {
        let s = ss.first();
        assert(ss.flatten() == s + ss.drop_first().flatten());
        if flush_before_append(buf, cap, s) {
            lemma_offer_all_conserves(s, blocks.push(buf), ss.drop_first(), cap);
        } else {
            lemma_offer_all_conserves(buf + s, blocks, ss.drop_first(), cap);
        }
    }
}

/// Conservation: the concatenation of all emitted blocks, in emission
/// order, equals the concatenation of all samples, in offer order — no
/// byte is lost or duplicated.
pub proof fn lemma_emitted_blocks_conserve(ss: Seq<Seq<u8>>, cap: int)
    ensures
        emitted_blocks(ss, cap).flatten() == ss.flatten(),
{
    broadcast use Seq::lemma_flatten_push;

    lemma_offer_all_conserves(Seq::empty(), Seq::empty(), ss, cap);
    let r = offer_all(Seq::<u8>::empty(), Seq::<Seq<u8>>::empty(), ss, cap);
    assert(Seq::<Seq<u8>>::empty().flatten() + Seq::<u8>::empty() + ss.flatten() =~= ss.flatten());
    if r.1.len() > 0 {
        assert(emitted_blocks(ss, cap).flatten() =~= r.0.flatten() + r.1);
    } else {
        assert(r.0.flatten() + r.1 =~= r.0.flatten());
    }
}

/// Determinism: two accumulators with the same capacity, fed the same
/// corpus sample by sample, emit the same sequence of blocks.
pub proof fn lemma_emission_deterministic(
    ss1: Seq<Seq<u8>>,
    ss2: Seq<Seq<u8>>,
    cap1: int,
    cap2: int,
)
    requires
        ss1 == ss2,
        cap1 == cap2,
    ensures
        emitted_blocks(ss1, cap1) == emitted_blocks(ss2, cap2),
{
}

/// Append a copy of `src`'s bytes to `dst`.
fn append_bytes(dst: &mut Vec<u8>, src: &Vec<u8>)
    ensures
        final(dst)@ == old(dst)@ + src@,
{
    let ghost start = dst@;
    let mut i: usize = 0;
    while i < src.len()
        invariant
            i <= src.len(),
            dst@ == start + src@.take(i as int),
        decreases src.len() - i,
    {
        dst.push(src[i]);
        proof {
            assert(start + src@.take(i as int) + seq![src@[i as int]]
                =~= start + src@.take(i + 1));
        }
        i = i + 1;
    }
    proof {
        assert(start + src@.take(src@.len() as int) =~= start + src@);
    }
}

} // verus!
