//! CPU utilisation from the kernel's aggregate accounting counters.

use crate::text::{
    chars_of, parse_u64, split, split_chars, split_words, starts_with, starts_with_chars, u64_of,
    views, words,
};
use crate::seqs::{filter_map, first_some, lemma_filter_map_push, lemma_first_some_step};
use vstd::prelude::*;

verus! {

/// How busy the processors were between two samples of the counters.
#[derive(Debug, Clone, Copy, PartialEq, Eq, Structural)]
pub struct CpuUsage {
    /// The time spent working, in the kernel's ticks.
    pub busy: u64,
    /// All the time that passed, in the kernel's ticks.
    pub total: u64,
}

/// The aggregate line among `lines`: the first that begins with `cpu` and a
/// space.
pub open spec fn aggregate_line(lines: Seq<Seq<char>>) -> Option<Seq<char>> {
    first_some(
        lines.map_values(
            |line: Seq<char>|
                if starts_with(line, "cpu "@) {
                    Some(line)
                } else {
                    None
                },
        ),
    )
}

/// The numbers among `tokens`, in order; tokens that spell no `u64` are left
/// out.
pub open spec fn numbers(tokens: Seq<Seq<char>>) -> Seq<u64> {
    filter_map(tokens, |token: Seq<char>| u64_of(token))
}

/// The sum of `values`.
pub open spec fn sum(values: Seq<u64>) -> nat
    decreases values.len(),
{
    if values.len() == 0 {
        0
    } else {
        sum(values.drop_last()) + values.last() as nat
    }
}

/// The counters that follow the label of an accounting line.
pub open spec fn counters(line: Seq<char>) -> Seq<u64> {
    let tokens = words(line);
    if tokens.len() == 0 {
        Seq::empty()
    } else {
        numbers(tokens.drop_first())
    }
}

/// The sample `(total, idle)` that an aggregate accounting line holds: the
/// sum of all its counters, and the sum of the fourth and fifth, which count
/// idle time and time waiting for I/O. There is none where the line has fewer
/// than five counters or the total does not fit.
pub open spec fn sample_of_line(line: Seq<char>) -> Option<(u64, u64)> {
    let values = counters(line);
    if values.len() < 5 || sum(values) > u64::MAX {
        None
    } else {
        Some((sum(values) as u64, (values[3] + values[4]) as u64))
    }
}

/// The sample `(total, idle)` that the text of the accounting file holds, in
/// its aggregate line.
pub open spec fn cpu_sample(content: Seq<char>) -> Option<(u64, u64)> {
    match aggregate_line(split(content, '\n')) {
        Some(line) => sample_of_line(line),
        None => None,
    }
}

/// `a - b`, or zero where `b` is the larger.
pub open spec fn monus(a: u64, b: u64) -> u64 {
    if a >= b {
        (a - b) as u64
    } else {
        0
    }
}

/// The usage between a sample `(total, idle)` and a later one. Counters that
/// went backwards count as not having moved, and idle time beyond the time
/// that passed counts as all of it.
pub open spec fn usage_between(first: (u64, u64), second: (u64, u64)) -> CpuUsage {
    let total = monus(second.0, first.0);
    let idle = monus(second.1, first.1);
    CpuUsage { busy: monus(total, idle), total }
}

/// The share of `total` that `busy` makes up, in hundredths of a percent,
/// rounded down, between 0 and 10000. It is 0 where no time passed.
pub open spec fn share_basis_points(busy: u64, total: u64) -> int {
    if total == 0 {
        0
    } else if busy >= total {
        10000
    } else {
        busy * 10000 / (total as int)
    }
}

/// The sum of a prefix is at most the sum of the whole.
pub proof fn lemma_sum_prefix(values: Seq<u64>, k: int)
    requires
        0 <= k <= values.len(),
    ensures
        sum(values.take(k)) <= sum(values),
    decreases values.len() - k,
{
    if k == values.len() {
        assert(values.take(k) == values);
    } else {
        lemma_sum_prefix(values.drop_last(), k);
        assert(values.drop_last().take(k) == values.take(k));
    }
}

/// Each of the values is at most their sum, and so are two of them together.
pub proof fn lemma_sum_covers_pair(values: Seq<u64>, i: int, j: int)
    requires
        0 <= i < j < values.len(),
    ensures
        values[i] + values[j] <= sum(values),
    decreases values.len(),
{
    let before = values.drop_last();
    if j == values.len() - 1 {
        lemma_sum_covers_one(before, i);
    } else {
        lemma_sum_covers_pair(before, i, j);
    }
}

/// Each of the values is at most their sum.
pub proof fn lemma_sum_covers_one(values: Seq<u64>, i: int)
    requires
        0 <= i < values.len(),
    ensures
        values[i] <= sum(values),
    decreases values.len(),
{
    if i < values.len() - 1 {
        lemma_sum_covers_one(values.drop_last(), i);
    }
}

/// A share is never more than the whole.
pub proof fn lemma_share_bounds(busy: u64, total: u64)
    ensures
        0 <= share_basis_points(busy, total) <= 10000,
{
    if total > 0 && busy < total {
        let b = busy as int;
        let t = total as int;
        assert(0 <= b * 10000 / t <= 10000) by (nonlinear_arith)
            requires
                0 <= b < t,
        ;
    }
}

/// In a sample that was read, the idle time is part of the total.
pub proof fn lemma_sample_idle_within_total(line: Seq<char>)
    ensures
        sample_of_line(line) matches Some(sample) ==> sample.1 <= sample.0,
{
    let values = counters(line);
    if values.len() >= 5 {
        lemma_sum_covers_pair(values, 3, 4);
    }
}

/// Two samples with the same counters show no usage at all.
pub proof fn lemma_identical_samples_show_no_usage(sample: (u64, u64))
    ensures
        usage_between(sample, sample) == (CpuUsage { busy: 0, total: 0 }),
        share_basis_points(
            usage_between(sample, sample).busy,
            usage_between(sample, sample).total,
        ) == 0,
{
}

/// The numbers among `tokens` from position `from` on.
fn numbers_from(tokens: &Vec<Vec<char>>, from: usize) -> (r: Vec<u64>)
    requires
        from <= tokens@.len(),
    ensures
        r@ == numbers(views(tokens@).skip(from as int)),
{
    let ghost all = views(tokens@).skip(from as int);
    let mut out: Vec<u64> = Vec::new();
    let mut i: usize = from;
    while i < tokens.len()
        invariant
            from <= i <= tokens@.len(),
            all == views(tokens@).skip(from as int),
            out@ == numbers(all.take(i - from)),
        decreases tokens@.len() - i,
    {
        proof {
            assert(all.take(i - from + 1) == all.take(i - from).push(tokens@[i as int]@));
            lemma_filter_map_push(
                all.take(i - from),
                tokens@[i as int]@,
                |token: Seq<char>| u64_of(token),
            );
        }
        match parse_u64(tokens[i].as_slice()) {
            Some(v) => {
                out.push(v);
            },
            None => {},
        }
        i += 1;
    }
    proof {
        assert(all.take(i - from) == all);
    }
    out
}

/// The sample that one aggregate accounting line holds.
fn read_sample_line(line: &[char]) -> (r: Option<(u64, u64)>)
    ensures
        r == sample_of_line(line@),
{
    let tokens = split_words(line);
    if tokens.len() == 0 {
        return None;
    }
    let values = numbers_from(&tokens, 1);
    proof {
        assert(views(tokens@).skip(1) == words(line@).drop_first());
    }
    if values.len() < 5 {
        return None;
    }
    let mut total: u64 = 0;
    let mut i: usize = 0;
    while i < values.len()
        invariant
            i <= values@.len(),
            values@.len() >= 5,
            values@ == counters(line@),
            total == sum(values@.take(i as int)),
        decreases values@.len() - i,
    {
        proof {
            assert(values@.take(i + 1).drop_last() == values@.take(i as int));
            lemma_sum_prefix(values@, i + 1);
        }
        if values[i] > u64::MAX - total {
            return None;
        }
        total += values[i];
        i += 1;
    }
    proof {
        assert(values@.take(i as int) == values@);
        lemma_sum_covers_pair(values@, 3, 4);
    }
    Some((total, values[3] + values[4]))
}

/// Reads the aggregate sample `(total, idle)` out of the text of the kernel's
/// accounting file. There is none where the text has no aggregate line, or
/// where that line holds fewer than five counters or counters whose sum does
/// not fit.
pub fn read_proc_stat(content: &str) -> (r: Option<(u64, u64)>)
    ensures
        r == cpu_sample(content@),
        r matches Some(sample) ==> sample.1 <= sample.0,
{
    let chars = chars_of(content);
    let lines = split_chars(chars.as_slice(), '\n');
    let prefix = chars_of("cpu ");
    let ghost marked = views(lines@).map_values(
        |line: Seq<char>|
            if starts_with(line, "cpu "@) {
                Some(line)
            } else {
                None
            },
    );
    let mut i: usize = 0;
    proof {
        assert(marked.skip(0) == marked);
    }
    while i < lines.len()
        invariant
            i <= lines@.len(),
            views(lines@) == split(content@, '\n'),
            prefix@ == "cpu "@,
            marked == views(lines@).map_values(
                |line: Seq<char>|
                    if starts_with(line, "cpu "@) {
                        Some(line)
                    } else {
                        None
                    },
            ),
            first_some(marked) == first_some(marked.skip(i as int)),
        decreases lines@.len() - i,
    {
        proof {
            lemma_first_some_step(marked, i as int);
            assert(views(lines@)[i as int] == lines@[i as int]@);
        }
        if starts_with_chars(lines[i].as_slice(), prefix.as_slice()) {
            proof {
                lemma_sample_idle_within_total(lines@[i as int]@);
            }
            return read_sample_line(lines[i].as_slice());
        }
        i += 1;
    }
    None
}

/// The usage between two samples `(total, idle)` of the accounting counters,
/// the second taken after the first. There is none where either sample is
/// missing.
pub fn calculate_proc_cpu_usage(first: Option<(u64, u64)>, second: Option<(u64, u64)>) -> (r:
    Option<CpuUsage>)
    ensures
        r == match (first, second) {
            (Some(a), Some(b)) => Some(usage_between(a, b)),
            _ => None,
        },
        r matches Some(usage) ==> usage.busy <= usage.total,
{
    match (first, second) {
        (Some(a), Some(b)) => {
            let total = if b.0 >= a.0 {
                b.0 - a.0
            } else {
                0
            };
            let idle = if b.1 >= a.1 {
                b.1 - a.1
            } else {
                0
            };
            let busy = if total >= idle {
                total - idle
            } else {
                0
            };
            Some(CpuUsage { busy, total })
        },
        _ => None,
    }
}

impl CpuUsage {
    /// The busy share in hundredths of a percent.
    pub open spec fn share(&self) -> int {
        share_basis_points(self.busy, self.total)
    }

    /// The busy share in hundredths of a percent, rounded down: 0 where no
    /// time passed, never more than 10000.
    pub fn basis_points(&self) -> (r: u32)
        ensures
            r == self.share(),
            r <= 10000,
    {
        proof {
            lemma_share_bounds(self.busy, self.total);
        }
        if self.total == 0 {
            0
        } else if self.busy >= self.total {
            10000
        } else {
            let scaled: u128 = self.busy as u128 * 10000;
            (scaled / self.total as u128) as u32
        }
    }
}

} // verus!
