use loadgen::cli::{parse_bench_args, total_task_num, CliError};
use loadgen::latency::summarize;

fn args(v: &[&str]) -> Vec<String> {
    v.iter().map(|s| s.to_string()).collect()
}

#[test]
fn summary_orders_and_picks_second_largest() {
    let s = summarize(&vec![5, 3, 5, 1]);
    assert_eq!(s.order, vec![3, 1, 0, 2]);
    assert_eq!(s.p99, Some(0));
}

#[test]
fn summary_is_stable() {
    let s = summarize(&vec![2, 2, 1, 2]);
    assert_eq!(s.order, vec![2, 0, 1, 3]);
    assert_eq!(s.p99, Some(1));
}

#[test]
fn summary_of_few_latencies() {
    let s = summarize(&vec![]);
    assert!(s.order.is_empty());
    assert_eq!(s.p99, None);
    let s = summarize(&vec![9]);
    assert_eq!(s.order, vec![0]);
    assert_eq!(s.p99, None);
    let s = summarize(&vec![9, 4]);
    assert_eq!(s.order, vec![1, 0]);
    assert_eq!(s.p99, Some(1));
}

#[test]
fn summary_agrees_with_stable_sort() {
    let keys: Vec<u64> = (0..200u64).map(|i| (i * 7919) % 37).collect();
    let mut expected: Vec<usize> = (0..keys.len()).collect();
    expected.sort_by_key(|i| keys[*i]);
    assert_eq!(summarize(&keys).order, expected);
}

#[test]
fn command_line_without_concurrency() {
    assert_eq!(parse_bench_args(&args(&["prog"])).err(), Some(CliError::MissingArguments));
    assert_eq!(parse_bench_args(&args(&[])).err(), Some(CliError::MissingArguments));
}

#[test]
fn command_line_with_bad_concurrency() {
    assert_eq!(
        parse_bench_args(&args(&["prog", "many"])).err(),
        Some(CliError::InvalidConcurrency)
    );
}

#[test]
fn command_line_defaults_and_pattern() {
    let b = parse_bench_args(&args(&["prog", "4"])).unwrap();
    assert_eq!(b.concur_num, 4);
    assert_eq!(b.pattern, r#""total_dur\(ms\)": ([\d.]+)"#);
    let b = parse_bench_args(&args(&["prog", "+2", "cmd"])).unwrap();
    assert_eq!(b.concur_num, 2);
    assert_eq!(b.pattern, r#""total_dur\(ms\)": ([\d.]+)"#);
    let b = parse_bench_args(&args(&["prog", "8", "cmd", "took (\\d+)ms"])).unwrap();
    assert_eq!(b.concur_num, 8);
    assert_eq!(b.pattern, "took (\\d+)ms");
}

#[test]
fn tasks_per_run() {
    assert_eq!(total_task_num(0), 1);
    assert_eq!(total_task_num(4), 41);
}
