//! A snapshot of the counters as one machine-readable line.

use vstd::arithmetic::power::{lemma_pow0, lemma_pow_adds, lemma_pow1, pow};
use vstd::prelude::*;

verus! {

/// The character of a decimal digit.
pub open spec fn digit(d: int) -> char {
    ('0' as int + d) as char
}

/// `n` in decimal, without leading zeros.
pub open spec fn decimal(n: nat) -> Seq<char>
    decreases n,
{
    if n < 10 {
        seq![digit(n as int)]
    } else {
        decimal(n / 10).push(digit((n % 10) as int))
    }
}

/// The two counts as a line shows them; `na` in place of both, with a note,
/// where there are none.
pub open spec fn counts_text(counts: Option<(u64, u64)>) -> Seq<char> {
    match counts {
        Some((written, read)) => " written="@ + decimal(written as nat) + " read="@ + decimal(
            read as nat,
        ),
        None => " written=na read=na (run with --features io-bench-counters)"@,
    }
}

/// The line for `counts` taken in `scenario`.
pub open spec fn result_line(scenario: Seq<char>, counts: Option<(u64, u64)>) -> Seq<char> {
    "IO_BENCH_RESULT scenario="@ + scenario + counts_text(counts)
}

/// The digit `d` as a string.
fn digit_str(d: u64) -> (s: &'static str)
    requires
        d < 10,
    ensures
        s@ == seq![digit(d as int)],
{
    proof {
        reveal_strlit("0");
        reveal_strlit("1");
        reveal_strlit("2");
        reveal_strlit("3");
        reveal_strlit("4");
        reveal_strlit("5");
        reveal_strlit("6");
        reveal_strlit("7");
        reveal_strlit("8");
        reveal_strlit("9");
    }
    match d {
        0 => "0",
        1 => "1",
        2 => "2",
        3 => "3",
        4 => "4",
        5 => "5",
        6 => "6",
        7 => "7",
        8 => "8",
        _ => "9",
    }
}

/// Appends `n` in decimal to `line`.
fn append_decimal(line: &mut String, n: u64)
    ensures
        final(line)@ == old(line)@ + decimal(n as nat),
    decreases n,
{
    if n >= 10 {
        append_decimal(line, n / 10);
    }
    line.append(digit_str(n % 10));
}

/// The line that reports `counts`, a snapshot of the counters, for `scenario`.
pub fn io_result_line(scenario: &str, counts: Option<(u64, u64)>) -> (line: String)
    ensures
        line@ == result_line(scenario@, counts),
        counts matches Some((written, read)) ==> line@ == "IO_BENCH_RESULT scenario="@ + scenario@
            + " written="@ + decimal(written as nat) + " read="@ + decimal(read as nat),
        counts is None ==> line@ == "IO_BENCH_RESULT scenario="@ + scenario@
            + " written=na read=na (run with --features io-bench-counters)"@,
{
    let mut line = String::new();
    line.append("IO_BENCH_RESULT scenario=");
    line.append(scenario);
    match counts {
        Some((written, read)) => {
            line.append(" written=");
            append_decimal(&mut line, written);
            line.append(" read=");
            append_decimal(&mut line, read);
        },
        None => {
            line.append(" written=na read=na (run with --features io-bench-counters)");
        },
    }
    line
}

/// The number that `decimal` wrote: what a reader makes of the digits.
pub open spec fn value(text: Seq<char>) -> int
    decreases text.len(),
{
    if text.len() == 0 {
        0
    } else {
        10 * value(text.drop_last()) + (text.last() as int - '0' as int)
    }
}

/// A number in decimal reads back as that number, and holds digits only.
pub proof fn law_decimal_reads_back(n: nat)
    ensures
        value(decimal(n)) == n,
        decimal(n).len() > 0,
        forall|i: int| 0 <= i < decimal(n).len() ==> '0' <= #[trigger] decimal(n)[i] <= '9',
    decreases n,
{
    if n >= 10 {
        law_decimal_reads_back(n / 10);
        assert(decimal(n).drop_last() == decimal(n / 10));
    } else {
        assert(decimal(n).drop_last() == Seq::<char>::empty());
        assert(value(Seq::<char>::empty()) == 0);
    }
}

/// A number in decimal starts with a zero only where it is zero.
pub proof fn law_decimal_has_no_leading_zero(n: nat)
    ensures
        decimal(n).len() > 0,
        decimal(n)[0] == '0' ==> n == 0 && decimal(n).len() == 1,
    decreases n,
{
    if n >= 10 {
        law_decimal_has_no_leading_zero(n / 10);
        assert(decimal(n)[0] == decimal(n / 10)[0]);
    }
}

/// Digits read as decimal places: one alone is its distance from `0`, and text
/// in front of `k` more digits counts ten to the `k` times.
pub proof fn law_value_is_positional(high: Seq<char>, low: Seq<char>, c: char)
    ensures
        value(seq![c]) == c as int - '0' as int,
        value(high + low) == value(high) * pow(10, low.len()) + value(low),
    decreases low.len(),
{
    assert(seq![c].drop_last() == Seq::<char>::empty());
    assert(value(Seq::<char>::empty()) == 0);
    if low.len() == 0 {
        assert(high + low == high);
        lemma_pow0(10);
    } else {
        let shorter = low.drop_last();
        law_value_is_positional(high, shorter, c);
        assert((high + low).drop_last() == high + shorter);
        lemma_pow_adds(10, shorter.len(), 1);
        lemma_pow1(10);
        let (v, p): (int, int) = (value(high), pow(10, shorter.len()));
        assert(10 * (v * p) == v * (p * 10)) by (nonlinear_arith);
    }
}

/// A line names its scenario, whatever the counts: the whole of it stands
/// between the prefix and the label of the written count.
pub proof fn law_line_names_scenario(scenario: Seq<char>, counts: Option<(u64, u64)>)
    ensures
        ("IO_BENCH_RESULT scenario="@ + scenario + " written="@).is_prefix_of(
            result_line(scenario, counts),
        ),
{
    reveal_strlit(" written=");
    reveal_strlit(" written=na read=na (run with --features io-bench-counters)");
    let head = "IO_BENCH_RESULT scenario="@ + scenario;
    let line = result_line(scenario, counts);
    assert(line == head + counts_text(counts));
    assert(" written="@ == counts_text(counts).take(9));
    assert(head + " written="@ == line.take(head.len() + 9int));
}

/// Lines of different scenarios differ, where the counts are the same.
pub proof fn law_line_tells_scenario(
    first: Seq<char>,
    second: Seq<char>,
    counts: Option<(u64, u64)>,
)
    requires
        result_line(first, counts) == result_line(second, counts),
    ensures
        first == second,
{
    let prefix = "IO_BENCH_RESULT scenario="@;
    let line = result_line(first, counts);
    assert(line.len() == prefix.len() + first.len() + counts_text(counts).len());
    assert(line.len() == prefix.len() + second.len() + counts_text(counts).len());
    assert(first == line.subrange(prefix.len() as int, prefix.len() + first.len() as int));
    assert(second == result_line(second, counts).subrange(
        prefix.len() as int,
        prefix.len() + second.len() as int,
    ));
}

/// Each count stands under its own label: behind the scenario the line is
/// ` written=`, digits that read as the bytes written, ` read=`, and to its end
/// digits that read as the bytes read, neither number with leading zeros.
pub proof fn law_counts_stand_under_their_labels(
    scenario: Seq<char>,
    written: u64,
    read: u64,
) -> (texts: (Seq<char>, Seq<char>))
    ensures
        result_line(scenario, Some((written, read))) == "IO_BENCH_RESULT scenario="@ + scenario
            + " written="@ + texts.0 + " read="@ + texts.1,
        value(texts.0) == written,
        value(texts.1) == read,
        texts.0.len() > 0,
        texts.1.len() > 0,
        forall|i: int| 0 <= i < texts.0.len() ==> '0' <= #[trigger] texts.0[i] <= '9',
        forall|i: int| 0 <= i < texts.1.len() ==> '0' <= #[trigger] texts.1[i] <= '9',
        texts.0[0] == '0' ==> texts.0.len() == 1,
        texts.1[0] == '0' ==> texts.1.len() == 1,
{
    law_decimal_reads_back(written as nat);
    law_decimal_reads_back(read as nat);
    law_decimal_has_no_leading_zero(written as nat);
    law_decimal_has_no_leading_zero(read as nat);
    let texts = (decimal(written as nat), decimal(read as nat));
    assert(result_line(scenario, Some((written, read))) =~= "IO_BENCH_RESULT scenario="@ + scenario
        + " written="@ + texts.0 + " read="@ + texts.1);
    texts
}

/// A line without counts claims none: both labels are followed by `na` and a
/// blank, no digit stands behind the scenario, and the line ends in the note
/// on how to get counts.
pub proof fn law_no_counts_no_number(scenario: Seq<char>)
    ensures
        ({
            let head = "IO_BENCH_RESULT scenario="@ + scenario;
            let note = " (run with --features io-bench-counters)"@;
            let line = result_line(scenario, None);
            &&& (head + " written=na read=na "@).is_prefix_of(line)
            &&& note.is_suffix_of(line)
            &&& line.len() == head.len() + " written=na read=na"@.len() + note.len()
            &&& forall|i: int|
                head.len() <= i < line.len() ==> !('0' <= #[trigger] line[i] <= '9')
        }),
{
    reveal_strlit(" written=na read=na ");
    reveal_strlit(" written=na read=na");
    reveal_strlit(" (run with --features io-bench-counters)");
    reveal_strlit(" written=na read=na (run with --features io-bench-counters)");
    let head = "IO_BENCH_RESULT scenario="@ + scenario;
    let text = " written=na read=na (run with --features io-bench-counters)"@;
    let line = result_line(scenario, None);
    assert(line == head + text);
    assert(text.take(20) == " written=na read=na "@);
    assert(head + text.take(20) == line.take(head.len() + 20int));
    assert(text.skip(19) == " (run with --features io-bench-counters)"@);
    assert(text.skip(19) == line.skip(head.len() + 19int));
    assert forall|i: int| head.len() <= i < line.len() implies !('0' <= #[trigger] line[i] <= '9') by {
        assert(line[i] == text[i - head.len()]);
    }
}

/// A line tells the counts: in one scenario, different snapshots give
/// different lines.
pub proof fn law_line_tells_counts(
    scenario: Seq<char>,
    first: Option<(u64, u64)>,
    second: Option<(u64, u64)>,
)
    requires
        result_line(scenario, first) == result_line(scenario, second),
    ensures
        first == second,
{
    let head = "IO_BENCH_RESULT scenario="@ + scenario;
    let a = counts_text(first);
    let b = counts_text(second);
    assert(a == b) by {
        assert(a == (head + a).skip(head.len() as int));
        assert(b == (head + b).skip(head.len() as int));
    }
    reveal_strlit(" written=");
    reveal_strlit(" read=");
    reveal_strlit(" written=na read=na (run with --features io-bench-counters)");
    match (first, second) {
        (Some((w1, r1)), Some((w2, r2))) => {
            law_decimal_reads_back(w1 as nat);
            law_decimal_reads_back(w2 as nat);
            law_decimal_reads_back(r1 as nat);
            law_decimal_reads_back(r2 as nat);
            let (u1, u2) = (decimal(w1 as nat), decimal(w2 as nat));
            if u1.len() < u2.len() {
                assert(a[9int + u1.len()] == ' ');
                assert(b[9int + u1.len()] == u2[u1.len() as int]);
            }
            if u2.len() < u1.len() {
                assert(b[9int + u2.len()] == ' ');
                assert(a[9int + u2.len()] == u1[u2.len() as int]);
            }
            assert(u1 == a.subrange(9, 9int + u1.len()));
            assert(u2 == b.subrange(9, 9int + u2.len()));
            assert(decimal(r1 as nat) == a.skip(15int + u1.len()));
            assert(decimal(r2 as nat) == b.skip(15int + u2.len()));
        },
        (Some((w, _)), None) => {
            law_decimal_reads_back(w as nat);
            assert(a[9] == decimal(w as nat)[0]);
        },
        (None, Some((w, _))) => {
            law_decimal_reads_back(w as nat);
            assert(b[9] == decimal(w as nat)[0]);
        },
        (None, None) => {},
    }
}

} // verus!
