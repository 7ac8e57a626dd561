use chunk_io_counters::counters::{add_read, add_written, reset, snapshot, Counters};

#[test]
fn new_counters_are_at_zero() {
    let counters: Counters<true> = Counters::new();
    assert_eq!(snapshot(&counters), Some((0, 0)));
}

#[test]
fn snapshot_is_written_and_read_in_that_order() {
    let mut counters: Counters<true> = Counters::new();
    add_written(&mut counters, 4096);
    add_read(&mut counters, 8192);
    assert_eq!(snapshot(&counters), Some((4096, 8192)));
}

#[test]
fn recording_writes_leaves_reads_alone() {
    let mut counters: Counters<true> = Counters::new();
    add_written(&mut counters, 10);
    assert_eq!(snapshot(&counters), Some((10, 0)));
    add_written(&mut counters, 0);
    assert_eq!(snapshot(&counters), Some((10, 0)));
}

#[test]
fn recording_reads_leaves_writes_alone() {
    let mut counters: Counters<true> = Counters::new();
    add_read(&mut counters, 10);
    assert_eq!(snapshot(&counters), Some((0, 10)));
}

#[test]
fn totals_add_up_since_the_last_reset() {
    let mut counters: Counters<true> = Counters::new();
    add_written(&mut counters, 100);
    add_read(&mut counters, 200);
    reset(&mut counters);
    assert_eq!(snapshot(&counters), Some((0, 0)));
    add_written(&mut counters, 1);
    add_written(&mut counters, 2);
    add_read(&mut counters, 3);
    add_read(&mut counters, 4);
    assert_eq!(snapshot(&counters), Some((3, 7)));
}

#[test]
fn resetting_twice_is_resetting_once() {
    let mut counters: Counters<true> = Counters::new();
    add_written(&mut counters, 5);
    reset(&mut counters);
    reset(&mut counters);
    assert_eq!(snapshot(&counters), Some((0, 0)));
}

#[test]
fn a_snapshot_changes_nothing() {
    let mut counters: Counters<true> = Counters::new();
    add_written(&mut counters, 5);
    assert_eq!(snapshot(&counters), Some((5, 0)));
    assert_eq!(snapshot(&counters), Some((5, 0)));
}

#[test]
fn a_full_total_is_still_exact() {
    let mut counters: Counters<true> = Counters::new();
    add_written(&mut counters, u64::MAX - 1);
    add_written(&mut counters, 1);
    assert_eq!(snapshot(&counters), Some((u64::MAX, 0)));
}

#[test]
fn totals_wrap_around() {
    let mut counters: Counters<true> = Counters::new();
    add_written(&mut counters, u64::MAX);
    add_written(&mut counters, 5);
    add_read(&mut counters, u64::MAX);
    add_read(&mut counters, 1);
    assert_eq!(snapshot(&counters), Some((4, 0)));
}

#[test]
fn the_order_of_transfers_does_not_show() {
    let mut first: Counters<true> = Counters::new();
    add_written(&mut first, 7);
    add_read(&mut first, 11);
    add_written(&mut first, u64::MAX);
    let mut second: Counters<true> = Counters::new();
    add_written(&mut second, u64::MAX);
    add_written(&mut second, 7);
    add_read(&mut second, 11);
    assert_eq!(snapshot(&first), Some((6, 11)));
    assert_eq!(snapshot(&second), snapshot(&first));
}

#[test]
fn parts_show_as_the_whole() {
    let mut parts: Counters<true> = Counters::new();
    add_written(&mut parts, 30);
    add_written(&mut parts, 12);
    let mut whole: Counters<true> = Counters::new();
    add_written(&mut whole, 42);
    assert_eq!(snapshot(&parts), Some((42, 0)));
    assert_eq!(snapshot(&parts), snapshot(&whole));
}

#[test]
fn compiled_out_counters_have_no_snapshot() {
    let mut counters: Counters<false> = Counters::new();
    assert_eq!(snapshot(&counters), None);
    add_written(&mut counters, 1);
    add_read(&mut counters, 2);
    assert_eq!(snapshot(&counters), None);
    reset(&mut counters);
    assert_eq!(snapshot(&counters), None);
}
