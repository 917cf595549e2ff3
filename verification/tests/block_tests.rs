use compbench::block::BlockAccumulator;

fn collect_blocks(samples: &[Vec<u8>], capacity: usize) -> Vec<Vec<u8>> {
    let mut acc = BlockAccumulator::new(capacity);
    let mut blocks: Vec<Vec<u8>> = Vec::new();
    for s in samples {
        if let Some(b) = acc.offer(s) {
            blocks.push(b);
        }
    }
    if let Some(b) = acc.drain() {
        blocks.push(b);
    }
    blocks
}

#[test]
fn oversized_sample_flushes_previous_then_drains_whole() {
    let mut acc = BlockAccumulator::new(10);
    assert_eq!(acc.offer(&b"a".to_vec()), None);
    let flushed = acc.offer(&b"bbbbbbbbbbbbb".to_vec());
    assert_eq!(flushed, Some(b"a".to_vec()));
    assert_eq!(acc.drain(), Some(b"bbbbbbbbbbbbb".to_vec()));
    assert_eq!(acc.drain(), None);
}

#[test]
fn exact_flush_boundary() {
    let mut acc = BlockAccumulator::new(5);
    assert_eq!(acc.offer(&b"ab".to_vec()), None);
    assert_eq!(acc.offer(&b"cd".to_vec()), None);
    assert_eq!(acc.offer(&b"ef".to_vec()), Some(b"abcd".to_vec()));
    assert_eq!(acc.drain(), Some(b"ef".to_vec()));
}

#[test]
fn no_flush_from_empty_buffer() {
    let mut acc = BlockAccumulator::new(4);
    assert_eq!(acc.offer(&b"123456789".to_vec()), None);
    assert_eq!(acc.drain(), Some(b"123456789".to_vec()));
}

#[test]
fn empty_samples_emit_nothing() {
    let mut acc = BlockAccumulator::new(8);
    assert_eq!(acc.offer(&Vec::new()), None);
    assert_eq!(acc.offer(&Vec::new()), None);
    assert_eq!(acc.drain(), None);
}

#[test]
fn emission_is_deterministic() {
    let samples: Vec<Vec<u8>> = vec![
        b"hello".to_vec(),
        b"".to_vec(),
        b"worldworldworld".to_vec(),
        b"x".to_vec(),
        b"yz".to_vec(),
    ];
    let first = collect_blocks(&samples, 7);
    let second = collect_blocks(&samples, 7);
    assert_eq!(first, second);
}

#[test]
fn emitted_blocks_conserve_all_bytes() {
    let samples: Vec<Vec<u8>> = vec![
        b"one".to_vec(),
        b"twotwo".to_vec(),
        b"".to_vec(),
        b"a-very-long-oversized-sample".to_vec(),
        b"tail".to_vec(),
    ];
    let blocks = collect_blocks(&samples, 8);
    let emitted: Vec<u8> = blocks.concat();
    let offered: Vec<u8> = samples.concat();
    assert_eq!(emitted, offered);
}

#[test]
fn emitted_blocks_fit_capacity_or_are_single_samples() {
    let capacity = 8;
    let samples: Vec<Vec<u8>> = vec![
        b"one".to_vec(),
        b"twotwo".to_vec(),
        b"a-very-long-oversized-sample".to_vec(),
        b"four".to_vec(),
        b"55555".to_vec(),
    ];
    let blocks = collect_blocks(&samples, capacity);
    for b in &blocks {
        assert!(b.len() <= capacity || samples.contains(b));
    }
}
