use compbench::runner::BenchError;
use compbench::runner::StrategyKind;
use compbench::runner::block_strategy;
use compbench::runner::dict_strategy;
use compbench::runner::naive_strategy;
use compbench::runner::run_strategies;
use compbench::runner::uncompressed_summary;

fn repetitive_corpus(n: usize) -> Vec<Vec<u8>> {
    (0..n)
        .map(|i| format!("session {} opened by operator {} from terminal {}", i, i % 13, i % 7)
            .into_bytes())
        .collect()
}

#[test]
fn naive_records_one_compression_per_sample() {
    let samples = repetitive_corpus(50);
    let s = naive_strategy(&samples, 3).expect("naive failed");
    assert_eq!(s.count, 50);
    assert!(s.total > 0);
}

#[test]
fn compression_shrinks_repetitive_data() {
    let one_big: Vec<Vec<u8>> = vec![b"abcabcabc".repeat(1200)];
    let baseline = uncompressed_summary(&one_big);
    let naive = naive_strategy(&one_big, 3).expect("naive failed");
    assert_eq!(naive.count, 1);
    assert!(naive.total < baseline.total);
}

#[test]
fn naive_is_deterministic_across_runs() {
    let samples = repetitive_corpus(80);
    let a = naive_strategy(&samples, 3).expect("first run failed");
    let b = naive_strategy(&samples, 3).expect("second run failed");
    assert_eq!(a.count, b.count);
    assert_eq!(a.total, b.total);
}

#[test]
fn block_strategy_records_one_compression_per_block() {
    let samples: Vec<Vec<u8>> = vec![b"ab".to_vec(), b"cd".to_vec(), b"ef".to_vec()];
    let s = block_strategy(&samples, 3, 5).expect("block failed");
    assert_eq!(s.count, 2);
    assert!(s.total > 0);
}

#[test]
fn block_strategy_empty_corpus_records_nothing() {
    let samples: Vec<Vec<u8>> = Vec::new();
    let s = block_strategy(&samples, 3, 64).expect("block failed");
    assert_eq!(s.count, 0);
    assert_eq!(s.total, 0);
}

#[test]
fn block_ratio_beats_naive_ratio_on_repetitive_text() {
    let samples = repetitive_corpus(400);
    let baseline = uncompressed_summary(&samples);
    let naive = naive_strategy(&samples, 3).expect("naive failed");
    let block = block_strategy(&samples, 3, 1 << 20).expect("block failed");
    let naive_ratio = baseline.total as f64 / naive.total as f64;
    let block_ratio = baseline.total as f64 / block.total as f64;
    assert!(block_ratio >= naive_ratio);
}

#[test]
fn dict_strategy_records_one_compression_per_sample() {
    let samples = repetitive_corpus(10000);
    let s = dict_strategy(&samples, 3, 1024).expect("dict failed");
    assert_eq!(s.count, 10000);
    assert!(s.total > 0);
}

#[test]
fn dict_training_on_degenerate_corpus_is_a_codec_error() {
    let samples: Vec<Vec<u8>> = vec![b"a".to_vec(), b"b".to_vec(), b"c".to_vec()];
    let e = dict_strategy(&samples, 3, 1024).expect_err("training should fail");
    assert!(matches!(
        e,
        BenchError::Codec { strategy: StrategyKind::Dict, index: 0, .. }
    ));
}

#[test]
fn zero_block_size_is_a_config_error() {
    let samples = repetitive_corpus(5);
    let e = run_strategies(&samples, 3, 0, 1024).expect_err("config should fail");
    assert!(matches!(e, BenchError::Config));
}

#[test]
fn zero_dict_size_is_a_config_error() {
    let samples = repetitive_corpus(5);
    let e = run_strategies(&samples, 3, 4096, 0).expect_err("config should fail");
    assert!(matches!(e, BenchError::Config));
}

#[test]
fn full_run_populates_all_four_summaries() {
    let samples = repetitive_corpus(8000);
    let report = run_strategies(&samples, 0, 1 << 16, 1024).expect("run failed");
    assert_eq!(report.uncompressed.count, 8000);
    assert_eq!(report.naive.count, 8000);
    assert_eq!(report.dict.count, 8000);
    assert!(report.block.count > 0);
    assert!(report.block.count <= 8000);
    assert!(report.uncompressed.total > 0);
    assert!(report.naive.total > 0);
    assert!(report.block.total > 0);
    assert!(report.dict.total > 0);
}
