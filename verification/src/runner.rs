use crate::block::BlockAccumulator;
use crate::block::emitted_blocks;
use crate::block::flush_before_append;
use crate::block::offer_all;
use crate::codec::Codec;
use crate::codec::byte_views;
use crate::codec::compressed;
use crate::codec::train_dictionary;
use crate::codec::trained_dictionary;
use crate::summary::Summary;
use vstd::prelude::*;

verus! {

/// The strategy a codec failure came from.
#[derive(Debug, Clone, Copy, PartialEq, Eq, Structural)]
pub enum StrategyKind {
    Naive,
    Block,
    Dict,
}

/// A fatal error of a run.
#[derive(Debug)]
pub enum BenchError {
    /// The block size or the dictionary size was zero; nothing ran.
    Config,
    /// The codec failed: in which strategy, at which sample or block index
    /// (zero when it failed before any item, at setup or dictionary
    /// training), and with the codec's own words.
    Codec { strategy: StrategyKind, index: usize, message: String },
}

/// The sum of the lengths of the byte strings of `ss`.
pub open spec fn total_len(ss: Seq<Seq<u8>>) -> int
    decreases ss.len(),
{
    if ss.len() == 0 {
        0
    } else {
        total_len(ss.drop_last()) + ss.last().len()
    }
}

/// The sum of the compressed lengths of the items of `ss`, each compressed
/// on its own at `level` with `dict`.
pub open spec fn compressed_total(level: i32, dict: Option<Seq<u8>>, ss: Seq<Seq<u8>>) -> int
    decreases ss.len(),
{
    if ss.len() == 0 {
        0
    } else {
        compressed_total(level, dict, ss.drop_last()) + compressed(level, dict, ss.last()).len()
    }
}

proof fn lemma_total_len_push(ss: Seq<Seq<u8>>, x: Seq<u8>)
    ensures
        total_len(ss.push(x)) == total_len(ss) + x.len(),
{
    assert(ss.push(x).last() == x);
    assert(ss.push(x).drop_last() =~= ss);
}

proof fn lemma_compressed_total_push(level: i32, dict: Option<Seq<u8>>, ss: Seq<Seq<u8>>, x: Seq<u8>)
    ensures
        compressed_total(level, dict, ss.push(x)) == compressed_total(level, dict, ss) + compressed(
            level,
            dict,
            x,
        ).len(),
{
    assert(ss.push(x).last() == x);
    assert(ss.push(x).drop_last() =~= ss);
}

/// The shared baseline: one record per sample, of its uncompressed length.
#[verifier::loop_isolation(false)]
pub fn uncompressed_summary(samples: &Vec<Vec<u8>>) -> (r: Summary)
    ensures
        r.wf(),
        r.count == samples@.len(),
        r.total == total_len(byte_views(samples@)),
{
    let ghost ss = byte_views(samples@);
    let mut s = Summary::new();
    let mut i: usize = 0;
    while i < samples.len()
        invariant
            i <= samples@.len(),
            s.wf(),
            s.count == i,
            s.total == total_len(ss.take(i as int)),
        decreases samples@.len() - i,
    {
        proof {
            assert(ss.take(i + 1) =~= ss.take(i as int).push(ss[i as int]));
            lemma_total_len_push(ss.take(i as int), ss[i as int]);
        }
        s.record(samples[i].len());
        i = i + 1;
    }
    proof {
        assert(ss.take(samples@.len() as int) =~= ss);
    }
    s
}

/// One record per sample, of its length after compression by `codec`.
/// Aborts at the first sample the codec refuses, naming its index.
#[verifier::loop_isolation(false)]
fn per_sample(codec: &mut Codec, samples: &Vec<Vec<u8>>) -> (r: Result<Summary, (usize, String)>)
    ensures
        final(codec)@ == old(codec)@,
        r matches Ok(s) ==> s.wf() && s.count == samples@.len() && s.total == compressed_total(
            old(codec)@.level,
            old(codec)@.dict,
            byte_views(samples@),
        ),
        r matches Err(e) ==> e.0 < samples@.len(),
{
    let ghost ss = byte_views(samples@);
    let mut s = Summary::new();
    let mut i: usize = 0;
    while i < samples.len()
        invariant
            i <= samples@.len(),
            codec@ == old(codec)@,
            s.wf(),
            s.count == i,
            s.total == compressed_total(old(codec)@.level, old(codec)@.dict, ss.take(i as int)),
        decreases samples@.len() - i,
    {
        let out = match codec.compress(&samples[i]) {
            Ok(out) => out,
            Err(message) => {
                return Err((i, message));
            },
        };
        proof {
            assert(ss.take(i + 1) =~= ss.take(i as int).push(ss[i as int]));
            lemma_compressed_total_push(
                old(codec)@.level,
                old(codec)@.dict,
                ss.take(i as int),
                ss[i as int],
            );
        }
        s.record(out.len());
        i = i + 1;
    }
    proof {
        assert(ss.take(samples@.len() as int) =~= ss);
    }
    Ok(s)
}

/// The naive strategy: every sample compressed independently, with no
/// shared context.
pub fn naive_strategy(samples: &Vec<Vec<u8>>, level: i32) -> (r: Result<Summary, BenchError>)
    ensures
        r matches Ok(s) ==> s.wf() && s.count == samples@.len() && s.total == compressed_total(
            level,
            None::<Seq<u8>>,
            byte_views(samples@),
        ),
        r matches Err(e) ==> (e matches BenchError::Codec { strategy, index, .. }
            && strategy == StrategyKind::Naive && index <= samples@.len()),
{
    let mut codec = match Codec::new(level) {
        Ok(codec) => codec,
        Err(message) => {
            return Err(BenchError::Codec { strategy: StrategyKind::Naive, index: 0, message });
        },
    };
    match per_sample(&mut codec, samples) {
        Ok(s) => Ok(s),
        Err((index, message)) => Err(
            BenchError::Codec { strategy: StrategyKind::Naive, index, message },
        ),
    }
}

/// The dictionary strategy: a dictionary is trained once on the full
/// corpus, then every sample is compressed independently against it.
pub fn dict_strategy(samples: &Vec<Vec<u8>>, level: i32, dict_size: usize) -> (r: Result<
    Summary,
    BenchError,
>)
    ensures
        r matches Ok(s) ==> s.wf() && s.count == samples@.len() && s.total == compressed_total(
            level,
            Some(trained_dictionary(byte_views(samples@), dict_size)),
            byte_views(samples@),
        ),
        r matches Err(e) ==> (e matches BenchError::Codec { strategy, index, .. }
            && strategy == StrategyKind::Dict && index <= samples@.len()),
{
    let dict = match train_dictionary(samples, dict_size) {
        Ok(dict) => dict,
        Err(message) => {
            return Err(BenchError::Codec { strategy: StrategyKind::Dict, index: 0, message });
        },
    };
    let mut codec = match Codec::with_dictionary(level, &dict) {
        Ok(codec) => codec,
        Err(message) => {
            return Err(BenchError::Codec { strategy: StrategyKind::Dict, index: 0, message });
        },
    };
    match per_sample(&mut codec, samples) {
        Ok(s) => Ok(s),
        Err((index, message)) => Err(
            BenchError::Codec { strategy: StrategyKind::Dict, index, message },
        ),
    }
}

/// The block strategy: samples are accumulated into blocks of at most
/// `block_size` bytes (an oversized sample forms a block of its own), and
/// each completed block is compressed as a unit and recorded once.
#[verifier::loop_isolation(false)]
pub fn block_strategy(samples: &Vec<Vec<u8>>, level: i32, block_size: usize) -> (r: Result<
    Summary,
    BenchError,
>)
    requires
        block_size > 0,
    ensures
        r matches Ok(s) ==> s.wf() && s.count == emitted_blocks(
            byte_views(samples@),
            block_size as int,
        ).len() && s.total == compressed_total(
            level,
            None::<Seq<u8>>,
            emitted_blocks(byte_views(samples@), block_size as int),
        ),
        r matches Err(e) ==> (e matches BenchError::Codec { strategy, index, .. }
            && strategy == StrategyKind::Block && index <= samples@.len()),
{
    let ghost ss = byte_views(samples@);
    let ghost cap = block_size as int;
    let mut codec = match Codec::new(level) {
        Ok(codec) => codec,
        Err(message) => {
            return Err(BenchError::Codec { strategy: StrategyKind::Block, index: 0, message });
        },
    };
    let mut acc = BlockAccumulator::new(block_size);
    let mut s = Summary::new();
    let ghost mut blocks: Seq<Seq<u8>> = Seq::empty();
    proof {
        assert(ss.skip(0) =~= ss);
    }
    let mut i: usize = 0;
    while i < samples.len()
        invariant
            i <= samples@.len(),
            codec@.level == level,
            codec@.dict is None,
            acc.wf(),
            acc.cap() == cap,
            s.wf(),
            s.count == blocks.len(),
            s.total == compressed_total(level, None::<Seq<u8>>, blocks),
            s.count + (if acc.buffered().len() > 0 { 1int } else { 0int }) <= i,
            offer_all(Seq::empty(), Seq::empty(), ss, cap) == offer_all(
                acc.buffered(),
                blocks,
                ss.skip(i as int),
                cap,
            ),
        decreases samples@.len() - i,
    {
        proof {
            assert(ss.skip(i as int).first() == ss[i as int]);
            assert(ss.skip(i as int).drop_first() =~= ss.skip(i + 1));
        }
        let ghost buf_before = acc.buffered();
        match acc.offer(&samples[i]) {
            Some(b) => {
                proof {
                    assert(flush_before_append(buf_before, cap, ss[i as int]));
                }
                let out = match codec.compress(&b) {
                    Ok(out) => out,
                    Err(message) => {
                        return Err(
                            BenchError::Codec {
                                strategy: StrategyKind::Block,
                                index: s.count,
                                message,
                            },
                        );
                    },
                };
                proof {
                    lemma_compressed_total_push(level, None::<Seq<u8>>, blocks, b@);
                }
                s.record(out.len());
                proof {
                    blocks = blocks.push(b@);
                }
            },
            None => {},
        }
        i = i + 1;
    }
    proof {
        assert(ss.skip(samples@.len() as int) =~= Seq::<Seq<u8>>::empty());
    }
    match acc.drain() {
        Some(b) => {
            let out = match codec.compress(&b) {
                Ok(out) => out,
                Err(message) => {
                    return Err(
                        BenchError::Codec {
                            strategy: StrategyKind::Block,
                            index: s.count,
                            message,
                        },
                    );
                },
            };
            proof {
                lemma_compressed_total_push(level, None::<Seq<u8>>, blocks, b@);
            }
            s.record(out.len());
            proof {
                blocks = blocks.push(b@);
            }
        },
        None => {},
    }
    proof {
        assert(emitted_blocks(ss, cap) == blocks);
    }
    Ok(s)
}

/// The four populated summaries of one run, over the same corpus.
#[derive(Debug)]
pub struct Report {
    pub uncompressed: Summary,
    pub naive: Summary,
    pub block: Summary,
    pub dict: Summary,
}

/// One full run: the uncompressed baseline and the three strategies, each
/// into its own independent summary.  A zero block or dictionary size is
/// refused before anything runs; the first codec failure aborts the run.
pub fn run_strategies(samples: &Vec<Vec<u8>>, level: i32, block_size: usize, dict_size: usize) -> (r:
    Result<Report, BenchError>)
    ensures
        r matches Err(BenchError::Config) <==> (block_size == 0 || dict_size == 0),
        r matches Ok(rep) ==> {
            &&& rep.uncompressed.count == samples@.len()
            &&& rep.uncompressed.total == total_len(byte_views(samples@))
            &&& rep.naive.count == samples@.len()
            &&& rep.naive.total == compressed_total(level, None::<Seq<u8>>, byte_views(samples@))
            &&& rep.block.count == emitted_blocks(byte_views(samples@), block_size as int).len()
            &&& rep.block.total == compressed_total(
                level,
                None::<Seq<u8>>,
                emitted_blocks(byte_views(samples@), block_size as int),
            )
            &&& rep.dict.count == samples@.len()
            &&& rep.dict.total == compressed_total(
                level,
                Some(trained_dictionary(byte_views(samples@), dict_size)),
                byte_views(samples@),
            )
            &&& rep.uncompressed.wf() && rep.naive.wf() && rep.block.wf() && rep.dict.wf()
        },
{
    if block_size == 0 || dict_size == 0 {
        return Err(BenchError::Config);
    }
    let uncompressed = uncompressed_summary(samples);
    let naive = match naive_strategy(samples, level) {
        Ok(s) => s,
        Err(e) => {
            return Err(e);
        },
    };
    let block = match block_strategy(samples, level, block_size) {
        Ok(s) => s,
        Err(e) => {
            return Err(e);
        },
    };
    let dict = match dict_strategy(samples, level, dict_size) {
        Ok(s) => s,
        Err(e) => {
            return Err(e);
        },
    };
    Ok(Report { uncompressed, naive, block, dict })
}

} // verus!
