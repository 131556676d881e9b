//! The governor catalog that the kernel exposes, and the per-core writes that
//! put a governor into effect.

use crate::modes::ApplyError;
use crate::seqs::{filter_map, lemma_filter_map_push};
use crate::text::{
    chars_of, is_numeral, is_numeral_from, is_space, lemma_words_clean, starts_with,
    starts_with_chars, string_views, words, words_of,
};
use vstd::prelude::*;
use vstd::string::StringExecFns;

verus! {

/// An entry of the CPU topology directory.
#[derive(Debug, Clone, PartialEq, Eq)]
pub struct CpuEntry {
    /// The entry's file name.
    pub name: String,
    /// Whether the entry exposes a frequency-scaling governor file.
    pub has_governor_file: bool,
}

/// The mathematical value of a `CpuEntry`.
pub struct CpuEntryView {
    pub name: Seq<char>,
    pub has_governor_file: bool,
}

impl View for CpuEntry {
    type V = CpuEntryView;

    open spec fn view(&self) -> CpuEntryView {
        CpuEntryView { name: self.name@, has_governor_file: self.has_governor_file }
    }
}

/// One write that puts a governor on one core.
#[derive(Debug, Clone, PartialEq, Eq)]
pub struct GovernorWrite {
    /// The governor file to write to.
    pub path: String,
    /// The governor name to write.
    pub governor: String,
}

/// The mathematical value of a `GovernorWrite`.
pub struct GovernorWriteView {
    pub path: Seq<char>,
    pub governor: Seq<char>,
}

impl View for GovernorWrite {
    type V = GovernorWriteView;

    open spec fn view(&self) -> GovernorWriteView {
        GovernorWriteView { path: self.path@, governor: self.governor@ }
    }
}

/// A governor that at least one core took.
#[derive(Debug, Clone, PartialEq, Eq)]
pub struct Applied {
    /// The governor that was written.
    pub governor: String,
    /// The number of cores that took it.
    pub accepted: usize,
    /// The number of cores that refused it.
    pub refused: usize,
}

impl Applied {
    /// Whether some core refused the governor while another took it.
    pub open spec fn partial(&self) -> bool {
        self.refused > 0
    }

    /// Whether some core refused the governor while another took it.
    #[verifier::when_used_as_spec(partial)]
    pub fn is_partial(&self) -> (r: bool)
        ensures
            r == self.partial(),
    {
        self.refused > 0
    }
}

/// The governors that the text of the kernel's catalog file lists; none where
/// the file is absent.
pub open spec fn catalog(content: Option<Seq<char>>) -> Seq<Seq<char>> {
    match content {
        Some(text) => words(text),
        None => Seq::empty(),
    }
}

/// Whether `name` has the form `cpu<N>`: the letters `cpu`, then one or more
/// decimal digits.
pub open spec fn is_core_name(name: Seq<char>) -> bool {
    starts_with(name, "cpu"@) && is_numeral(name.skip("cpu"@.len() as int))
}

/// Whether a directory entry is a core that a governor can be written to.
pub open spec fn is_writable_core(entry: CpuEntryView) -> bool {
    is_core_name(entry.name) && entry.has_governor_file
}

/// The governor file of the core with the directory name `core`.
pub open spec fn governor_file(core: Seq<char>) -> Seq<char> {
    "/sys/devices/system/cpu/"@ + core + "/cpufreq/scaling_governor"@
}

/// The views of a sequence of directory entries.
pub open spec fn entry_views(entries: Seq<CpuEntry>) -> Seq<CpuEntryView> {
    entries.map_values(|entry: CpuEntry| entry@)
}

/// The views of a sequence of writes.
pub open spec fn write_views(writes: Seq<GovernorWrite>) -> Seq<GovernorWriteView> {
    writes.map_values(|write: GovernorWrite| write@)
}

/// The write that puts `governor` on the core that a directory entry stands
/// for; none for an entry that is no writable core.
pub open spec fn write_for(governor: Seq<char>, entry: CpuEntryView) -> Option<GovernorWriteView> {
    if is_writable_core(entry) {
        Some(GovernorWriteView { path: governor_file(entry.name), governor })
    } else {
        None
    }
}

/// The writes that put `governor` on every writable core among `entries`, in
/// the order of the entries.
pub open spec fn planned_writes(governor: Seq<char>, entries: Seq<CpuEntryView>) -> Seq<
    GovernorWriteView,
> {
    filter_map(entries, |entry: CpuEntryView| write_for(governor, entry))
}

/// The number of writes among `results` that the kernel accepted.
pub open spec fn count_accepted(results: Seq<bool>) -> nat
    decreases results.len(),
{
    if results.len() == 0 {
        0
    } else {
        count_accepted(results.drop_last()) + if results.last() {
            1nat
        } else {
            0nat
        }
    }
}

/// There are never more accepted writes than writes.
pub proof fn lemma_count_accepted_bound(results: Seq<bool>)
    ensures
        count_accepted(results) <= results.len(),
    decreases results.len(),
{
    if results.len() > 0 {
        lemma_count_accepted_bound(results.drop_last());
    }
}

/// No write was accepted exactly when every write was refused, and every
/// write was accepted exactly when none was refused.
pub proof fn lemma_count_accepted_extremes(results: Seq<bool>)
    ensures
        count_accepted(results) == 0 <==> forall|i: int|
            0 <= i < results.len() ==> !#[trigger] results[i],
        count_accepted(results) == results.len() <==> forall|i: int|
            0 <= i < results.len() ==> #[trigger] results[i],
    decreases results.len(),
{
    if results.len() > 0 {
        let before = results.drop_last();
        lemma_count_accepted_extremes(before);
        lemma_count_accepted_bound(before);
        assert forall|i: int| 0 <= i < before.len() implies before[i] == results[i] by {}
        if count_accepted(results) == 0 {
            assert forall|i: int| 0 <= i < results.len() implies !#[trigger] results[i] by {
                if i < before.len() {
                    assert(before[i] == results[i]);
                }
            }
        }
        if forall|i: int| 0 <= i < results.len() ==> !#[trigger] results[i] {
            assert(!results[results.len() - 1]);
            assert forall|i: int| 0 <= i < before.len() implies !#[trigger] before[i] by {
                assert(before[i] == results[i]);
            }
        }
        if count_accepted(results) == results.len() {
            assert forall|i: int| 0 <= i < results.len() implies #[trigger] results[i] by {
                if i < before.len() {
                    assert(before[i] == results[i]);
                }
            }
        }
        if forall|i: int| 0 <= i < results.len() ==> #[trigger] results[i] {
            assert(results[results.len() - 1]);
            assert forall|i: int| 0 <= i < before.len() implies #[trigger] before[i] by {
                assert(before[i] == results[i]);
            }
        }
    }
}

/// The governors that the kernel's catalog file lists, in the file's order.
/// `content` is the text of the file, or `None` where the file is absent.
pub fn get_available_governors(content: Option<&str>) -> (r: Vec<String>)
    ensures
        string_views(r@) == catalog(
            match content {
                Some(text) => Some(text@),
                None => None,
            },
        ),
        content is None ==> r@.len() == 0,
        forall|i: int|
            0 <= i < r@.len() ==> (#[trigger] r@[i])@.len() > 0 && forall|k: int|
                0 <= k < r@[i]@.len() ==> !is_space(#[trigger] r@[i]@[k]),
{
    proof {
        match content {
            Some(text) => {
                lemma_words_clean(text@);
            },
            None => {},
        }
    }
    match content {
        Some(text) => {
            let names = words_of(text);
            assert forall|i: int| 0 <= i < names@.len() implies (#[trigger] names@[i])@.len() > 0
                && forall|k: int|
                0 <= k < names@[i]@.len() ==> !is_space(#[trigger] names@[i]@[k]) by {
                assert(string_views(names@)[i] == names@[i]@);
                assert(words(text@)[i] == names@[i]@);
            }
            names
        },
        None => {
            let none: Vec<String> = Vec::new();
            assert(string_views(none@) == Seq::<Seq<char>>::empty());
            none
        },
    }
}

/// Decides `is_core_name`.
pub fn names_core(name: &str) -> (r: bool)
    ensures
        r == is_core_name(name@),
{
    let chars = chars_of(name);
    let prefix = chars_of("cpu");
    if starts_with_chars(chars.as_slice(), prefix.as_slice()) {
        is_numeral_from(chars.as_slice(), prefix.len())
    } else {
        false
    }
}

/// The path of the governor file of the core with the directory name `core`.
pub fn governor_path(core: &str) -> (r: String)
    ensures
        r@ == governor_file(core@),
{
    let mut path = "/sys/devices/system/cpu/".to_owned();
    path.append(core);
    path.append("/cpufreq/scaling_governor");
    path
}

/// Plans the writes that put `governor` into effect: one for every entry of
/// the CPU topology directory that is a core with a governor file, in the
/// order of `entries`.
pub fn set_cpu_governor(governor: &str, entries: &[CpuEntry]) -> (r: Vec<GovernorWrite>)
    ensures
        write_views(r@) == planned_writes(governor@, entry_views(entries@)),
{
    let ghost all = entry_views(entries@);
    let mut out: Vec<GovernorWrite> = Vec::new();
    let mut i: usize = 0;
    proof {
        assert(write_views(out@) == Seq::<GovernorWriteView>::empty());
    }
    while i < entries.len()
        invariant
            i <= entries@.len(),
            all == entry_views(entries@),
            write_views(out@) == planned_writes(governor@, all.take(i as int)),
        decreases entries@.len() - i,
    {
        let entry = &entries[i];
        proof {
            assert(all.take(i + 1) == all.take(i as int).push(entry@));
            lemma_filter_map_push(
                all.take(i as int),
                entry@,
                |entry: CpuEntryView| write_for(governor@, entry),
            );
        }
        if entry.has_governor_file && names_core(entry.name.as_str()) {
            let write = GovernorWrite {
                path: governor_path(entry.name.as_str()),
                governor: governor.to_owned(),
            };
            proof {
                assert(write_views(out@.push(write)) == write_views(out@).push(write@));
            }
            out.push(write);
        }
        i += 1;
    }
    proof {
        assert(all.take(i as int) == all);
    }
    out
}

/// Sums up the writes of one governor. `results` holds, for each planned
/// write, whether the kernel accepted it. The governor counts as applied
/// where at least one core took it, and as applied in part where another
/// refused it.
pub fn report_writes(governor: String, results: &[bool]) -> (r: Result<Applied, ApplyError>)
    ensures
        match r {
            Ok(applied) => {
                &&& applied.governor@ == governor@
                &&& applied.accepted == count_accepted(results@)
                &&& applied.refused == results@.len() - count_accepted(results@)
                &&& applied.accepted > 0
            },
            Err(e) => e == ApplyError::NoCoreAccepted && count_accepted(results@) == 0,
        },
        r is Err <==> forall|i: int| 0 <= i < results@.len() ==> !#[trigger] results@[i],
        r matches Ok(applied) ==> (applied.partial() <==> exists|i: int|
            0 <= i < results@.len() && !#[trigger] results@[i]),
{
    let mut accepted: usize = 0;
    let mut i: usize = 0;
    while i < results.len()
        invariant
            i <= results@.len(),
            accepted == count_accepted(results@.take(i as int)),
            accepted <= i,
        decreases results@.len() - i,
    {
        proof {
            assert(results@.take(i + 1).drop_last() == results@.take(i as int));
        }
        if results[i] {
            accepted += 1;
        }
        i += 1;
    }
    proof {
        assert(results@.take(i as int) == results@);
        lemma_count_accepted_extremes(results@);
    }
    if accepted == 0 {
        Err(ApplyError::NoCoreAccepted)
    } else {
        Ok(Applied { governor, accepted, refused: results.len() - accepted })
    }
}

} // verus!
