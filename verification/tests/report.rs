use chunk_io_counters::counters::{add_read, add_written, snapshot, Counters};
use chunk_io_counters::report::io_result_line;

#[test]
fn a_snapshot_is_reported_in_decimal() {
    assert_eq!(
        io_result_line("hot_cache_write_all", Some((1024, 90))),
        "IO_BENCH_RESULT scenario=hot_cache_write_all written=1024 read=90"
    );
}

#[test]
fn zero_is_one_digit() {
    assert_eq!(
        io_result_line("s", Some((0, 0))),
        "IO_BENCH_RESULT scenario=s written=0 read=0"
    );
}

#[test]
fn every_digit_is_written() {
    assert_eq!(
        io_result_line("s", Some((1234567890, u64::MAX))),
        "IO_BENCH_RESULT scenario=s written=1234567890 read=18446744073709551615"
    );
}

#[test]
fn no_snapshot_is_reported_as_na() {
    assert_eq!(
        io_result_line("region_fill_write_in_place", None),
        "IO_BENCH_RESULT scenario=region_fill_write_in_place written=na read=na \
         (run with --features io-bench-counters)"
    );
}

#[test]
fn the_line_agrees_with_format() {
    for shift in 0..64u32 {
        let written: u64 = 1 << shift;
        let read: u64 = written - 1;
        assert_eq!(
            io_result_line("s", Some((written, read))),
            format!("IO_BENCH_RESULT scenario=s written={} read={}", written, read)
        );
    }
}

#[test]
fn different_counts_give_different_lines() {
    let lines = vec![
        io_result_line("s", None),
        io_result_line("s", Some((1, 11))),
        io_result_line("s", Some((11, 1))),
        io_result_line("s", Some((0, 0))),
    ];
    for i in 0..lines.len() {
        for j in 0..i {
            assert_ne!(lines[i], lines[j]);
        }
    }
}

#[test]
fn recorded_transfers_are_reported() {
    let mut counters: Counters<true> = Counters::new();
    add_written(&mut counters, 500);
    add_read(&mut counters, 20);
    add_written(&mut counters, 12);
    assert_eq!(
        io_result_line("cold_cache_write_all", snapshot(&counters)),
        "IO_BENCH_RESULT scenario=cold_cache_write_all written=512 read=20"
    );
}
