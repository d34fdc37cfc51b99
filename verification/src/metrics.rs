//! Resource use of a container, read from the text of the cgroup and procfs
//! files that the kernel keeps for it.
//!
//! Each reader takes the contents of the files it needs (`None` where a file
//! could not be read) and gives the figures the agent reports. A sum or a
//! scaling that does not fit in a `u64` gives `None`.

use vstd::prelude::*;
use vstd::string::*;
use crate::proto::{BlkioMetricsProto, NetworkMetricsProto, PidsMetricsProto};
use crate::text::{
    contains_str, contains_str_spec, lines_spec, parse_unsigned, parse_unsigned_spec, split_char,
    split_lines, split_spec, split_whitespace, split_ws_spec, starts_with, starts_with_spec, str_eq,
    text_of, trim, trim_spec,
};

verus! {

/// What `s.parse::<u64>()` gives, or `default` where it fails.
pub open spec fn u64_or(s: Seq<char>, default: u64) -> u64 {
    match parse_unsigned_spec(s, u64::MAX as nat) {
        Some(v) => v as u64,
        None => default,
    }
}

/// Parses `s` as a `u64`, or gives `default`.
pub fn parse_u64_or(s: &str, default: u64) -> (r: u64)
    ensures
        r == u64_or(s@, default),
{
    match parse_unsigned(s, u64::MAX) {
        Some(v) => v,
        None => default,
    }
}

/// The number a one-value file holds: `absent` where the file is missing,
/// `bad` where its trimmed text is not a number.
pub open spec fn file_number(content: Option<Seq<char>>, absent: u64, bad: u64) -> u64 {
    match content {
        Some(c) => u64_or(trim_spec(c), bad),
        None => absent,
    }
}

/// Reads the number a one-value file holds.
pub fn read_number(content: Option<&str>, absent: u64, bad: u64) -> (r: u64)
    ensures
        r == file_number(text_of(content), absent, bad),
{
    match content {
        Some(c) => {
            let t = trim(c);
            parse_u64_or(t.as_str(), bad)
        },
        None => absent,
    }
}

/// `a + b`, where it fits in a `u64`.
pub open spec fn add_fits(a: u64, b: u64) -> Option<u64> {
    if a + b <= u64::MAX {
        Some((a + b) as u64)
    } else {
        None
    }
}

/// Adds two counters, where the sum fits.
pub fn checked_sum(a: u64, b: u64) -> (r: Option<u64>)
    ensures
        r == add_fits(a, b),
{
    if a <= u64::MAX - b {
        Some(a + b)
    } else {
        None
    }
}

/// The position of the first element of `s` that satisfies `p`.
pub open spec fn first_where(s: Seq<Seq<char>>, p: spec_fn(Seq<char>) -> bool) -> Option<int>
    decreases s.len(),
{
    if s.len() == 0 {
        None
    } else if p(s[0]) {
        Some(0)
    } else {
        match first_where(s.drop_first(), p) {
            Some(k) => Some(k + 1),
            None => None,
        }
    }
}

/// A position found by `first_where` is in range and satisfies `p`.
pub proof fn lemma_first_where(s: Seq<Seq<char>>, p: spec_fn(Seq<char>) -> bool)
    ensures
        match first_where(s, p) {
            Some(k) => 0 <= k < s.len() && p(s[k]),
            None => true,
        },
    decreases s.len(),
{
    if s.len() > 0 && !p(s[0]) {
        lemma_first_where(s.drop_first(), p);
    }
}

/// A cgroup v2 entry of `/proc/<pid>/cgroup`: `0::<path>`.
pub open spec fn is_unified_entry(line: Seq<char>) -> bool {
    let parts = split_spec(line, ':');
    parts.len() >= 3 && parts[0] == "0"@ && parts[1].len() == 0
}

/// A cgroup v1 entry whose controllers name the memory controller.
pub open spec fn is_memory_entry(line: Seq<char>) -> bool {
    let parts = split_spec(line, ':');
    parts.len() >= 3 && contains_str_spec(parts[1], "memory"@)
}

/// The cgroup directory of a process, from the text of its
/// `/proc/<pid>/cgroup`: the path of the first cgroup v2 entry under
/// `/sys/fs/cgroup`, else that of the first memory controller entry under
/// `/sys/fs/cgroup/memory`.
pub open spec fn cgroup_dir_spec(content: Seq<char>) -> Option<Seq<char>> {
    let ls = lines_spec(content);
    match first_where(ls, |l: Seq<char>| is_unified_entry(l)) {
        Some(i) => Some("/sys/fs/cgroup"@ + split_spec(ls[i], ':')[2]),
        None => match first_where(ls, |l: Seq<char>| is_memory_entry(l)) {
            Some(i) => Some("/sys/fs/cgroup/memory"@ + split_spec(ls[i], ':')[2]),
            None => None,
        },
    }
}

/// Which line of `lines` comes first with the shape `unified` asks for
/// (`true`: a cgroup v2 entry; `false`: a memory controller entry).
fn find_entry(lines: &Vec<String>, unified: bool) -> (r: Option<usize>)
    ensures
        ({
            let ls = lines@.map_values(|l: String| l@);
            let found = if unified {
                first_where(ls, |l: Seq<char>| is_unified_entry(l))
            } else {
                first_where(ls, |l: Seq<char>| is_memory_entry(l))
            };
            match r {
                Some(i) => found == Some(i as int),
                None => found is None,
            }
        }),
{
    let ghost ls = lines@.map_values(|l: String| l@);
    let ghost p: spec_fn(Seq<char>) -> bool = if unified {
        |l: Seq<char>| is_unified_entry(l)
    } else {
        |l: Seq<char>| is_memory_entry(l)
    };
    let mut i: usize = 0;
    proof {
        assert(ls.skip(0) =~= ls);
    }
    while i < lines.len()
        invariant
            i <= lines@.len(),
            ls == lines@.map_values(|l: String| l@),
            p == (if unified {
                |l: Seq<char>| is_unified_entry(l)
            } else {
                |l: Seq<char>| is_memory_entry(l)
            }),
            first_where(ls, p) == match first_where(ls.skip(i as int), p) {
                Some(k) => Some(k + i),
                None => None::<int>,
            },
        decreases lines@.len() - i,
    {
        let parts = split_char(lines[i].as_str(), ':');
        let ghost pv = parts@.map_values(|q: String| q@);
        proof {
            assert(ls[i as int] == lines@[i as int]@);
            assert(pv == split_spec(ls[i as int], ':'));
        }
        let hit = if parts.len() >= 3 {
            proof {
                assert(pv[0] == parts@[0]@);
                assert(pv[1] == parts@[1]@);
            }
            if unified {
                str_eq(parts[0].as_str(), "0") && parts[1].unicode_len() == 0
            } else {
                contains_str(parts[1].as_str(), "memory")
            }
        } else {
            false
        };
        proof {
            assert(hit == p(ls[i as int]));
            assert(ls.skip(i as int)[0] == ls[i as int]);
            assert(ls.skip(i as int).drop_first() =~= ls.skip(i + 1));
        }
        if hit {
            return Some(i);
        }
        i = i + 1;
    }
    proof {
        assert(ls.skip(i as int).len() == 0);
    }
    None
}

/// The cgroup directory of a process, from the text of its
/// `/proc/<pid>/cgroup`.
pub fn find_cgroup_path(content: &str) -> (r: Option<String>)
    ensures
        match cgroup_dir_spec(content@) {
            Some(p) => r is Some && r.unwrap()@ == p,
            None => r is None,
        },
{
    let lines = split_lines(content);
    let ghost ls = lines@.map_values(|l: String| l@);
    match find_entry(&lines, true) {
        Some(i) => {
            proof {
                lemma_first_where(ls, |l: Seq<char>| is_unified_entry(l));
            }
            let parts = split_char(lines[i].as_str(), ':');
            proof {
                assert(ls[i as int] == lines@[i as int]@);
                assert(parts@.map_values(|q: String| q@)[2] == parts@[2]@);
            }
            let mut dir = String::from_str("/sys/fs/cgroup");
            dir.append(parts[2].as_str());
            Some(dir)
        },
        None => match find_entry(&lines, false) {
            Some(i) => {
                proof {
                    lemma_first_where(ls, |l: Seq<char>| is_memory_entry(l));
                }
                let parts = split_char(lines[i].as_str(), ':');
                proof {
                    assert(ls[i as int] == lines@[i as int]@);
                    assert(parts@.map_values(|q: String| q@)[2] == parts@[2]@);
                }
                let mut dir = String::from_str("/sys/fs/cgroup/memory");
                dir.append(parts[2].as_str());
                Some(dir)
            },
            None => None,
        },
    }
}

/// The process counts of a cgroup, from `pids.current` and `pids.max`
/// (`max`, the word for no limit, reads as 0).
pub open spec fn pids_spec(current: Option<Seq<char>>, max: Option<Seq<char>>) -> PidsMetricsProto {
    PidsMetricsProto { current: file_number(current, 0, 0), limit: file_number(max, 0, 0) }
}

/// The process counts of a cgroup.
pub fn read_pids_metrics(pids_current: Option<&str>, pids_max: Option<&str>) -> (r: PidsMetricsProto)
    ensures
        r == pids_spec(text_of(pids_current), text_of(pids_max)),
{
    PidsMetricsProto { current: read_number(pids_current, 0, 0), limit: read_number(pids_max, 0, 0) }
}

/// The processor time of a cgroup, in nanoseconds, and its throttling.
#[derive(Debug, Clone, Copy)]
pub struct CpuStats {
    pub usage_total: u64,
    pub usage_user: u64,
    pub usage_system: u64,
    pub throttled_periods: u64,
    pub throttled_time: u64,
}

/// No processor time at all.
pub open spec fn cpu_zero() -> CpuStats {
    CpuStats { usage_total: 0, usage_user: 0, usage_system: 0, throttled_periods: 0, throttled_time: 0 }
}

/// Microseconds as nanoseconds, where they fit in a `u64`.
pub open spec fn usec_to_nsec(v: u64) -> Option<u64> {
    if v * 1000 <= u64::MAX {
        Some((v * 1000) as u64)
    } else {
        None
    }
}

/// Converts microseconds to nanoseconds, where they fit.
pub fn nanoseconds(v: u64) -> (r: Option<u64>)
    ensures
        r == usec_to_nsec(v),
{
    if v <= u64::MAX / 1000 {
        Some(v * 1000)
    } else {
        None
    }
}

/// One line of `cpu.stat` (`<key> <value>`) applied to what the lines before
/// it gave; a later line for the same key replaces an earlier one.
pub open spec fn cpu_stat_line(acc: CpuStats, line: Seq<char>) -> Option<CpuStats> {
    let parts = split_ws_spec(line);
    if parts.len() < 2 {
        Some(acc)
    } else {
        let key = parts[0];
        let value = u64_or(parts[1], 0);
        if key == "usage_usec"@ {
            match usec_to_nsec(value) {
                Some(v) => Some(CpuStats { usage_total: v, ..acc }),
                None => None,
            }
        } else if key == "user_usec"@ {
            match usec_to_nsec(value) {
                Some(v) => Some(CpuStats { usage_user: v, ..acc }),
                None => None,
            }
        } else if key == "system_usec"@ {
            match usec_to_nsec(value) {
                Some(v) => Some(CpuStats { usage_system: v, ..acc }),
                None => None,
            }
        } else if key == "nr_throttled"@ {
            Some(CpuStats { throttled_periods: value, ..acc })
        } else if key == "throttled_usec"@ {
            match usec_to_nsec(value) {
                Some(v) => Some(CpuStats { throttled_time: v, ..acc }),
                None => None,
            }
        } else {
            Some(acc)
        }
    }
}

/// The lines of `cpu.stat`, read in order from `acc`.
pub open spec fn cpu_stat_lines(acc: CpuStats, lines: Seq<Seq<char>>) -> Option<CpuStats>
    decreases lines.len(),
{
    if lines.len() == 0 {
        Some(acc)
    } else {
        match cpu_stat_lines(acc, lines.drop_last()) {
            Some(a) => cpu_stat_line(a, lines.last()),
            None => None,
        }
    }
}

/// The processor time of a cgroup from `cpu.stat` (cgroup v2), with the
/// total taken from `cpuacct.usage` (cgroup v1) where `cpu.stat` gave none.
pub open spec fn cpu_stats_spec(cpu_stat: Option<Seq<char>>, cpuacct_usage: Option<Seq<char>>) -> Option<CpuStats> {
    let v2 = match cpu_stat {
        Some(c) => cpu_stat_lines(cpu_zero(), lines_spec(c)),
        None => Some(cpu_zero()),
    };
    match v2 {
        Some(s) => if s.usage_total == 0 && cpuacct_usage is Some {
            Some(CpuStats { usage_total: file_number(cpuacct_usage, 0, 0), ..s })
        } else {
            Some(s)
        },
        None => None,
    }
}

/// Applies one line of `cpu.stat`.
fn cpu_stat_step(acc: CpuStats, line: &str) -> (r: Option<CpuStats>)
    ensures
        r == cpu_stat_line(acc, line@),
{
    let parts = split_whitespace(line);
    let ghost pv = parts@.map_values(|q: String| q@);
    if parts.len() < 2 {
        return Some(acc);
    }
    proof {
        assert(pv[0] == parts@[0]@);
        assert(pv[1] == parts@[1]@);
    }
    let key = parts[0].as_str();
    let value = parse_u64_or(parts[1].as_str(), 0);
    if str_eq(key, "usage_usec") {
        match nanoseconds(value) {
            Some(v) => Some(CpuStats { usage_total: v, ..acc }),
            None => None,
        }
    } else if str_eq(key, "user_usec") {
        match nanoseconds(value) {
            Some(v) => Some(CpuStats { usage_user: v, ..acc }),
            None => None,
        }
    } else if str_eq(key, "system_usec") {
        match nanoseconds(value) {
            Some(v) => Some(CpuStats { usage_system: v, ..acc }),
            None => None,
        }
    } else if str_eq(key, "nr_throttled") {
        Some(CpuStats { throttled_periods: value, ..acc })
    } else if str_eq(key, "throttled_usec") {
        match nanoseconds(value) {
            Some(v) => Some(CpuStats { throttled_time: v, ..acc }),
            None => None,
        }
    } else {
        Some(acc)
    }
}

/// The processor time of a cgroup, from the text of its `cpu.stat` and
/// `cpuacct.usage`; `None` where a time in nanoseconds does not fit in a
/// `u64`.
pub fn read_cpu_metrics(cpu_stat: Option<&str>, cpuacct_usage: Option<&str>) -> (r: Option<CpuStats>)
    ensures
        r == cpu_stats_spec(text_of(cpu_stat), text_of(cpuacct_usage)),
{
    let mut cpu = CpuStats { usage_total: 0, usage_user: 0, usage_system: 0, throttled_periods: 0, throttled_time: 0 };
    if let Some(content) = cpu_stat {
        let lines = split_lines(content);
        let ghost ls = lines@.map_values(|l: String| l@);
        let mut i: usize = 0;
        proof {
            assert(ls.take(0) =~= Seq::<Seq<char>>::empty());
        }
        while i < lines.len()
            invariant
                i <= lines@.len(),
                ls == lines@.map_values(|l: String| l@),
                ls == lines_spec(content@),
                cpu_stat == Some(content),
                cpu_stat_lines(cpu_zero(), ls.take(i as int)) == Some(cpu),
            decreases lines@.len() - i,
        {
            proof {
                assert(ls.take(i + 1).drop_last() =~= ls.take(i as int));
                assert(ls.take(i + 1).last() == ls[i as int]);
                assert(ls[i as int] == lines@[i as int]@);
            }
            match cpu_stat_step(cpu, lines[i].as_str()) {
                Some(next) => {
                    cpu = next;
                },
                None => {
                    proof {
                        lemma_cpu_stat_none(ls, i as int + 1);
                    }
                    return None;
                },
            }
            i = i + 1;
        }
        proof {
            assert(ls.take(i as int) =~= ls);
        }
    }
    if cpu.usage_total == 0 {
        if let Some(u) = cpuacct_usage {
            cpu = CpuStats { usage_total: read_number(Some(u), 0, 0), ..cpu };
        }
    }
    Some(cpu)
}

/// Once a line of `cpu.stat` does not fit, no later line mends it.
pub proof fn lemma_cpu_stat_none(ls: Seq<Seq<char>>, i: int)
    requires
        0 <= i <= ls.len(),
        cpu_stat_lines(cpu_zero(), ls.take(i)) is None,
    ensures
        cpu_stat_lines(cpu_zero(), ls) is None,
    decreases ls.len() - i,
{
    if i < ls.len() {
        assert(ls.take(i + 1).drop_last() =~= ls.take(i));
        lemma_cpu_stat_none(ls, i + 1);
    } else {
        assert(ls.take(i) =~= ls);
    }
}

/// The memory use of a cgroup, in bytes.
#[derive(Debug, Clone, Copy)]
pub struct MemoryStats {
    pub usage: u64,
    pub max_usage: u64,
    pub limit: u64,
    pub cache: u64,
    pub rss: u64,
    pub swap: u64,
}

/// The texts of the memory files of a cgroup (`None` where one could not be
/// read): `memory.current`, `memory.max`, `memory.peak`,
/// `memory.swap.current` and `memory.stat` of cgroup v2, and
/// `memory.usage_in_bytes`, `memory.limit_in_bytes` and
/// `memory.max_usage_in_bytes` of cgroup v1.
#[derive(Debug, Default)]
pub struct MemoryFiles {
    pub current: Option<String>,
    pub max: Option<String>,
    pub peak: Option<String>,
    pub swap_current: Option<String>,
    pub stat: Option<String>,
    pub usage_in_bytes: Option<String>,
    pub limit_in_bytes: Option<String>,
    pub max_usage_in_bytes: Option<String>,
}

/// The text of a file held as an owned string, if it was read.
pub open spec fn owned_text(content: Option<String>) -> Option<Seq<char>> {
    match content {
        Some(s) => Some(s@),
        None => None,
    }
}

/// Borrows the text of a file that was read.
fn borrow_text(content: &Option<String>) -> (r: Option<&str>)
    ensures
        text_of(r) == owned_text(*content),
{
    match content {
        Some(s) => Some(s.as_str()),
        None => None,
    }
}

/// One line of `memory.stat` applied to what the lines before it gave:
/// `file` (or `cache`) is the page cache, `anon` the resident anonymous
/// memory.
pub open spec fn memory_stat_line(acc: MemoryStats, line: Seq<char>) -> MemoryStats {
    let parts = split_ws_spec(line);
    if parts.len() < 2 {
        acc
    } else if parts[0] == "file"@ || parts[0] == "cache"@ {
        MemoryStats { cache: u64_or(parts[1], 0), ..acc }
    } else if parts[0] == "anon"@ {
        MemoryStats { rss: u64_or(parts[1], 0), ..acc }
    } else {
        acc
    }
}

/// The lines of `memory.stat`, read in order from `acc`.
pub open spec fn memory_stat_lines(acc: MemoryStats, lines: Seq<Seq<char>>) -> MemoryStats
    decreases lines.len(),
{
    if lines.len() == 0 {
        acc
    } else {
        memory_stat_line(memory_stat_lines(acc, lines.drop_last()), lines.last())
    }
}

/// The memory use of a cgroup: the cgroup v2 files first (a missing limit
/// file gives 0, an unreadable limit, such as `max`, gives `u64::MAX`); where
/// they give no usage, each cgroup v1 file that is there replaces its figure.
pub open spec fn memory_stats_spec(f: MemoryFiles) -> MemoryStats {
    let base = MemoryStats {
        usage: file_number(owned_text(f.current), 0, 0),
        max_usage: file_number(owned_text(f.peak), 0, 0),
        limit: file_number(owned_text(f.max), 0, u64::MAX),
        cache: 0,
        rss: 0,
        swap: file_number(owned_text(f.swap_current), 0, 0),
    };
    let v2 = match owned_text(f.stat) {
        Some(c) => memory_stat_lines(base, lines_spec(c)),
        None => base,
    };
    if v2.usage == 0 {
        MemoryStats {
            usage: file_number(owned_text(f.usage_in_bytes), v2.usage, 0),
            limit: file_number(owned_text(f.limit_in_bytes), v2.limit, u64::MAX),
            max_usage: file_number(owned_text(f.max_usage_in_bytes), v2.max_usage, 0),
            ..v2
        }
    } else {
        v2
    }
}

/// Whether a `memory.stat` line names `key` with a value: its first word is
/// `key` and a second word follows.
pub open spec fn stat_line_names(line: Seq<char>, key: Seq<char>) -> bool {
    split_ws_spec(line).len() >= 2 && split_ws_spec(line)[0] == key
}

/// Whether a `memory.stat` line gives the page cache: a `file` line (cgroup
/// v2) or a `cache` line (cgroup v1).
pub open spec fn page_cache_line(line: Seq<char>) -> bool {
    stat_line_names(line, "file"@) || stat_line_names(line, "cache"@)
}

proof fn lemma_stat_lines_cache(acc: MemoryStats, lines: Seq<Seq<char>>, k: int)
    requires
        0 <= k < lines.len(),
        page_cache_line(lines[k]),
        forall|j: int| k < j < lines.len() ==> !page_cache_line(#[trigger] lines[j]),
    ensures
        memory_stat_lines(acc, lines).cache == u64_or(split_ws_spec(lines[k])[1], 0),
    decreases lines.len(),
{
    if k < lines.len() - 1 {
        assert(!page_cache_line(lines[lines.len() - 1]));
        lemma_stat_lines_cache(acc, lines.drop_last(), k);
    }
}

proof fn lemma_stat_lines_no_cache(acc: MemoryStats, lines: Seq<Seq<char>>)
    requires
        forall|j: int| 0 <= j < lines.len() ==> !page_cache_line(#[trigger] lines[j]),
    ensures
        memory_stat_lines(acc, lines).cache == acc.cache,
    decreases lines.len(),
{
    if lines.len() > 0 {
        assert(!page_cache_line(lines[lines.len() - 1]));
        lemma_stat_lines_no_cache(acc, lines.drop_last());
    }
}

proof fn lemma_stat_lines_rss(acc: MemoryStats, lines: Seq<Seq<char>>, k: int)
    requires
        0 <= k < lines.len(),
        stat_line_names(lines[k], "anon"@),
        forall|j: int| k < j < lines.len() ==> !stat_line_names(#[trigger] lines[j], "anon"@),
    ensures
        memory_stat_lines(acc, lines).rss == u64_or(split_ws_spec(lines[k])[1], 0),
    decreases lines.len(),
{
    reveal_strlit("anon");
    reveal_strlit("file");
    reveal_strlit("cache");
    assert("anon"@[0] != "file"@[0] && "anon"@[0] != "cache"@[0]);
    assert("anon"@ != "file"@ && "anon"@ != "cache"@);
    if k < lines.len() - 1 {
        assert(!stat_line_names(lines[lines.len() - 1], "anon"@));
        lemma_stat_lines_rss(acc, lines.drop_last(), k);
    }
}

/// Law: the page cache a cgroup reports is the number on the last line of its
/// `memory.stat` that starts with `file` (cgroup v2) or `cache` (cgroup v1),
/// or 0 when there is no such line; its resident memory is the number on the
/// last `anon` line.
pub proof fn law_memory_stat_last_line_counts(f: MemoryFiles, k: int)
    requires
        f.stat is Some,
        0 <= k < lines_spec(f.stat->0@).len(),
    ensures
        (page_cache_line(lines_spec(f.stat->0@)[k])
            && forall|j: int| k < j < lines_spec(f.stat->0@).len() ==> !page_cache_line(#[trigger] lines_spec(f.stat->0@)[j]))
            ==> memory_stats_spec(f).cache == u64_or(split_ws_spec(lines_spec(f.stat->0@)[k])[1], 0),
        (forall|j: int| 0 <= j < lines_spec(f.stat->0@).len() ==> !page_cache_line(#[trigger] lines_spec(f.stat->0@)[j]))
            ==> memory_stats_spec(f).cache == 0,
        (stat_line_names(lines_spec(f.stat->0@)[k], "anon"@)
            && forall|j: int| k < j < lines_spec(f.stat->0@).len() ==> !stat_line_names(#[trigger] lines_spec(f.stat->0@)[j], "anon"@))
            ==> memory_stats_spec(f).rss == u64_or(split_ws_spec(lines_spec(f.stat->0@)[k])[1], 0),
{
    let lines = lines_spec(f.stat->0@);
    let base = MemoryStats {
        usage: file_number(owned_text(f.current), 0, 0),
        max_usage: file_number(owned_text(f.peak), 0, 0),
        limit: file_number(owned_text(f.max), 0, u64::MAX),
        cache: 0,
        rss: 0,
        swap: file_number(owned_text(f.swap_current), 0, 0),
    };
    assert(owned_text(f.stat) == Some(f.stat->0@));
    if page_cache_line(lines[k]) && forall|j: int| k < j < lines.len() ==> !page_cache_line(#[trigger] lines[j]) {
        lemma_stat_lines_cache(base, lines, k);
    }
    if forall|j: int| 0 <= j < lines.len() ==> !page_cache_line(#[trigger] lines[j]) {
        lemma_stat_lines_no_cache(base, lines);
    }
    if stat_line_names(lines[k], "anon"@) && forall|j: int| k < j < lines.len() ==> !stat_line_names(#[trigger] lines[j], "anon"@) {
        lemma_stat_lines_rss(base, lines, k);
    }
}

/// Applies one line of `memory.stat`.
fn memory_stat_step(acc: MemoryStats, line: &str) -> (r: MemoryStats)
    ensures
        r == memory_stat_line(acc, line@),
{
    let parts = split_whitespace(line);
    let ghost pv = parts@.map_values(|q: String| q@);
    if parts.len() < 2 {
        return acc;
    }
    proof {
        assert(pv[0] == parts@[0]@);
        assert(pv[1] == parts@[1]@);
    }
    let key = parts[0].as_str();
    if str_eq(key, "file") || str_eq(key, "cache") {
        MemoryStats { cache: parse_u64_or(parts[1].as_str(), 0), ..acc }
    } else if str_eq(key, "anon") {
        MemoryStats { rss: parse_u64_or(parts[1].as_str(), 0), ..acc }
    } else {
        acc
    }
}

/// The memory use of a cgroup, from the texts of its memory files.
pub fn read_memory_metrics(files: &MemoryFiles) -> (r: MemoryStats)
    ensures
        r == memory_stats_spec(*files),
{
    let mut mem = MemoryStats {
        usage: read_number(borrow_text(&files.current), 0, 0),
        max_usage: read_number(borrow_text(&files.peak), 0, 0),
        limit: read_number(borrow_text(&files.max), 0, u64::MAX),
        cache: 0,
        rss: 0,
        swap: read_number(borrow_text(&files.swap_current), 0, 0),
    };
    let ghost base = mem;
    if let Some(content) = &files.stat {
        let lines = split_lines(content.as_str());
        let ghost ls = lines@.map_values(|l: String| l@);
        let mut i: usize = 0;
        proof {
            assert(ls.take(0) =~= Seq::<Seq<char>>::empty());
        }
        while i < lines.len()
            invariant
                i <= lines@.len(),
                ls == lines@.map_values(|l: String| l@),
                memory_stat_lines(base, ls.take(i as int)) == mem,
            decreases lines@.len() - i,
        {
            proof {
                assert(ls.take(i + 1).drop_last() =~= ls.take(i as int));
                assert(ls.take(i + 1).last() == ls[i as int]);
                assert(ls[i as int] == lines@[i as int]@);
            }
            mem = memory_stat_step(mem, lines[i].as_str());
            i = i + 1;
        }
        proof {
            assert(ls.take(i as int) =~= ls);
        }
    }
    if mem.usage == 0 {
        mem = MemoryStats {
            usage: read_number(borrow_text(&files.usage_in_bytes), mem.usage, 0),
            limit: read_number(borrow_text(&files.limit_in_bytes), mem.limit, u64::MAX),
            max_usage: read_number(borrow_text(&files.max_usage_in_bytes), mem.max_usage, 0),
            ..mem
        };
    }
    mem
}

/// No block I/O at all.
pub open spec fn blkio_zero() -> BlkioMetricsProto {
    BlkioMetricsProto { read_bytes: 0, write_bytes: 0, read_ops: 0, write_ops: 0 }
}

/// The number after `key` in a field `<key><number>` of `io.stat`.
pub open spec fn field_value(part: Seq<char>, key: Seq<char>) -> u64 {
    u64_or(part.skip(key.len() as int), 0)
}

/// One `key=value` field of an `io.stat` line added to the counters.
pub open spec fn io_stat_field(acc: BlkioMetricsProto, part: Seq<char>) -> Option<BlkioMetricsProto> {
    if starts_with_spec(part, "rbytes="@) {
        match add_fits(acc.read_bytes, field_value(part, "rbytes="@)) {
            Some(v) => Some(BlkioMetricsProto { read_bytes: v, ..acc }),
            None => None,
        }
    } else if starts_with_spec(part, "wbytes="@) {
        match add_fits(acc.write_bytes, field_value(part, "wbytes="@)) {
            Some(v) => Some(BlkioMetricsProto { write_bytes: v, ..acc }),
            None => None,
        }
    } else if starts_with_spec(part, "rios="@) {
        match add_fits(acc.read_ops, field_value(part, "rios="@)) {
            Some(v) => Some(BlkioMetricsProto { read_ops: v, ..acc }),
            None => None,
        }
    } else if starts_with_spec(part, "wios="@) {
        match add_fits(acc.write_ops, field_value(part, "wios="@)) {
            Some(v) => Some(BlkioMetricsProto { write_ops: v, ..acc }),
            None => None,
        }
    } else {
        Some(acc)
    }
}

/// The fields of one `io.stat` line, added in order.
pub open spec fn io_stat_fields(acc: Option<BlkioMetricsProto>, parts: Seq<Seq<char>>) -> Option<BlkioMetricsProto>
    decreases parts.len(),
{
    if parts.len() == 0 {
        acc
    } else {
        match io_stat_fields(acc, parts.drop_last()) {
            Some(a) => io_stat_field(a, parts.last()),
            None => None,
        }
    }
}

/// The lines of `io.stat` (one per device), added in order.
pub open spec fn io_stat_lines(acc: Option<BlkioMetricsProto>, lines: Seq<Seq<char>>) -> Option<BlkioMetricsProto>
    decreases lines.len(),
{
    if lines.len() == 0 {
        acc
    } else {
        io_stat_fields(io_stat_lines(acc, lines.drop_last()), split_ws_spec(lines.last()))
    }
}

/// One line of cgroup v1 `blkio.throttle.io_service_bytes`
/// (`<device> <op> <bytes>`) added to the counters.
pub open spec fn service_bytes_line(acc: BlkioMetricsProto, line: Seq<char>) -> Option<BlkioMetricsProto> {
    let parts = split_ws_spec(line);
    if parts.len() < 3 {
        Some(acc)
    } else if parts[1] == "Read"@ {
        match add_fits(acc.read_bytes, u64_or(parts[2], 0)) {
            Some(v) => Some(BlkioMetricsProto { read_bytes: v, ..acc }),
            None => None,
        }
    } else if parts[1] == "Write"@ {
        match add_fits(acc.write_bytes, u64_or(parts[2], 0)) {
            Some(v) => Some(BlkioMetricsProto { write_bytes: v, ..acc }),
            None => None,
        }
    } else {
        Some(acc)
    }
}

/// The lines of `blkio.throttle.io_service_bytes`, added in order.
pub open spec fn service_bytes_lines(acc: Option<BlkioMetricsProto>, lines: Seq<Seq<char>>) -> Option<BlkioMetricsProto>
    decreases lines.len(),
{
    if lines.len() == 0 {
        acc
    } else {
        match service_bytes_lines(acc, lines.drop_last()) {
            Some(a) => service_bytes_line(a, lines.last()),
            None => None,
        }
    }
}

/// The block I/O of a cgroup from `io.stat` (cgroup v2), with the byte counts
/// of `blkio.throttle.io_service_bytes` (cgroup v1) added where `io.stat`
/// gave no bytes read.
pub open spec fn blkio_spec(io_stat: Option<Seq<char>>, service_bytes: Option<Seq<char>>) -> Option<BlkioMetricsProto> {
    let v2 = match io_stat {
        Some(c) => io_stat_lines(Some(blkio_zero()), lines_spec(c)),
        None => Some(blkio_zero()),
    };
    match v2 {
        Some(b) => if b.read_bytes == 0 {
            match service_bytes {
                Some(c) => service_bytes_lines(Some(b), lines_spec(c)),
                None => Some(b),
            }
        } else {
            Some(b)
        },
        None => None,
    }
}

/// The number after the key of a field.
fn value_after(part: &str, key: &str) -> (r: u64)
    requires
        key@.len() <= part@.len(),
    ensures
        r == field_value(part@, key@),
{
    let k = key.unicode_len();
    let n = part.unicode_len();
    let rest = part.substring_char(k, n);
    proof {
        assert(rest@ =~= part@.skip(key@.len() as int));
    }
    parse_u64_or(rest, 0)
}

/// Adds one field of an `io.stat` line.
fn io_stat_step(acc: BlkioMetricsProto, part: &str) -> (r: Option<BlkioMetricsProto>)
    ensures
        r == io_stat_field(acc, part@),
{
    if starts_with(part, "rbytes=") {
        match checked_sum(acc.read_bytes, value_after(part, "rbytes=")) {
            Some(v) => Some(BlkioMetricsProto { read_bytes: v, ..acc }),
            None => None,
        }
    } else if starts_with(part, "wbytes=") {
        match checked_sum(acc.write_bytes, value_after(part, "wbytes=")) {
            Some(v) => Some(BlkioMetricsProto { write_bytes: v, ..acc }),
            None => None,
        }
    } else if starts_with(part, "rios=") {
        match checked_sum(acc.read_ops, value_after(part, "rios=")) {
            Some(v) => Some(BlkioMetricsProto { read_ops: v, ..acc }),
            None => None,
        }
    } else if starts_with(part, "wios=") {
        match checked_sum(acc.write_ops, value_after(part, "wios=")) {
            Some(v) => Some(BlkioMetricsProto { write_ops: v, ..acc }),
            None => None,
        }
    } else {
        Some(acc)
    }
}

/// Adds the fields of one `io.stat` line.
fn io_stat_line_step(acc: Option<BlkioMetricsProto>, line: &str) -> (r: Option<BlkioMetricsProto>)
    ensures
        r == io_stat_fields(acc, split_ws_spec(line@)),
{
    let parts = split_whitespace(line);
    let ghost pv = parts@.map_values(|q: String| q@);
    let mut cur = acc;
    let mut i: usize = 0;
    proof {
        assert(pv.take(0) =~= Seq::<Seq<char>>::empty());
    }
    while i < parts.len()
        invariant
            i <= parts@.len(),
            pv == parts@.map_values(|q: String| q@),
            cur == io_stat_fields(acc, pv.take(i as int)),
        decreases parts@.len() - i,
    {
        proof {
            assert(pv.take(i + 1).drop_last() =~= pv.take(i as int));
            assert(pv.take(i + 1).last() == pv[i as int]);
            assert(pv[i as int] == parts@[i as int]@);
        }
        cur = match cur {
            Some(a) => io_stat_step(a, parts[i].as_str()),
            None => None,
        };
        i = i + 1;
    }
    proof {
        assert(pv.take(i as int) =~= pv);
    }
    cur
}

/// Adds one line of `blkio.throttle.io_service_bytes`.
fn service_bytes_step(acc: BlkioMetricsProto, line: &str) -> (r: Option<BlkioMetricsProto>)
    ensures
        r == service_bytes_line(acc, line@),
{
    let parts = split_whitespace(line);
    let ghost pv = parts@.map_values(|q: String| q@);
    if parts.len() < 3 {
        return Some(acc);
    }
    proof {
        assert(pv[1] == parts@[1]@);
        assert(pv[2] == parts@[2]@);
    }
    let value = parse_u64_or(parts[2].as_str(), 0);
    if str_eq(parts[1].as_str(), "Read") {
        match checked_sum(acc.read_bytes, value) {
            Some(v) => Some(BlkioMetricsProto { read_bytes: v, ..acc }),
            None => None,
        }
    } else if str_eq(parts[1].as_str(), "Write") {
        match checked_sum(acc.write_bytes, value) {
            Some(v) => Some(BlkioMetricsProto { write_bytes: v, ..acc }),
            None => None,
        }
    } else {
        Some(acc)
    }
}

/// The block I/O of a cgroup, from the text of its `io.stat` and
/// `blkio.throttle.io_service_bytes`; `None` where a sum does not fit in a
/// `u64`.
pub fn read_blkio_metrics(io_stat: Option<&str>, service_bytes: Option<&str>) -> (r: Option<BlkioMetricsProto>)
    ensures
        r == blkio_spec(text_of(io_stat), text_of(service_bytes)),
{
    let mut blkio: Option<BlkioMetricsProto> = Some(BlkioMetricsProto { read_bytes: 0, write_bytes: 0, read_ops: 0, write_ops: 0 });
    if let Some(content) = io_stat {
        let lines = split_lines(content);
        let ghost ls = lines@.map_values(|l: String| l@);
        let mut i: usize = 0;
        proof {
            assert(ls.take(0) =~= Seq::<Seq<char>>::empty());
        }
        while i < lines.len()
            invariant
                i <= lines@.len(),
                ls == lines@.map_values(|l: String| l@),
                blkio == io_stat_lines(Some(blkio_zero()), ls.take(i as int)),
            decreases lines@.len() - i,
        {
            proof {
                assert(ls.take(i + 1).drop_last() =~= ls.take(i as int));
                assert(ls.take(i + 1).last() == ls[i as int]);
                assert(ls[i as int] == lines@[i as int]@);
            }
            blkio = io_stat_line_step(blkio, lines[i].as_str());
            i = i + 1;
        }
        proof {
            assert(ls.take(i as int) =~= ls);
        }
    }
    let b = match blkio {
        Some(b) => b,
        None => {
            return None;
        },
    };
    if b.read_bytes != 0 {
        return Some(b);
    }
    match service_bytes {
        Some(content) => {
            let lines = split_lines(content);
            let ghost ls = lines@.map_values(|l: String| l@);
            let mut acc: Option<BlkioMetricsProto> = Some(b);
            let mut i: usize = 0;
            proof {
                assert(ls.take(0) =~= Seq::<Seq<char>>::empty());
            }
            while i < lines.len()
                invariant
                    i <= lines@.len(),
                    ls == lines@.map_values(|l: String| l@),
                    acc == service_bytes_lines(Some(b), ls.take(i as int)),
                decreases lines@.len() - i,
            {
                proof {
                    assert(ls.take(i + 1).drop_last() =~= ls.take(i as int));
                    assert(ls.take(i + 1).last() == ls[i as int]);
                    assert(ls[i as int] == lines@[i as int]@);
                }
                acc = match acc {
                    Some(a) => service_bytes_step(a, lines[i].as_str()),
                    None => None,
                };
                i = i + 1;
            }
            proof {
                assert(ls.take(i as int) =~= ls);
            }
            acc
        },
        None => Some(b),
    }
}

/// No network traffic at all.
pub open spec fn network_zero() -> NetworkMetricsProto {
    NetworkMetricsProto {
        rx_bytes: 0,
        tx_bytes: 0,
        rx_packets: 0,
        tx_packets: 0,
        rx_errors: 0,
        tx_errors: 0,
        rx_dropped: 0,
        tx_dropped: 0,
    }
}

/// `s` without its trailing `c` characters.
pub open spec fn trim_end_char(s: Seq<char>, c: char) -> Seq<char>
    decreases s.len(),
{
    if s.len() > 0 && s.last() == c {
        trim_end_char(s.drop_last(), c)
    } else {
        s
    }
}

/// `s` without its trailing `c` characters.
fn trim_end_matches(s: &str, c: char) -> (r: &str)
    ensures
        r@ == trim_end_char(s@, c),
{
    let mut end = s.unicode_len();
    proof {
        assert(s@.take(end as int) =~= s@);
    }
    while end > 0 && s.get_char(end - 1) == c
        invariant
            end <= s@.len(),
            trim_end_char(s@, c) == trim_end_char(s@.take(end as int), c),
        decreases end,
    {
        proof {
            assert(s@.take(end as int).drop_last() =~= s@.take(end - 1));
        }
        end = end - 1;
    }
    s.substring_char(0, end)
}

/// One interface line of `/proc/<pid>/net/dev` added to the counters. Lines
/// with fewer than ten fields and the loopback interface are skipped; a line
/// with ten to twelve fields has no transmit figures to read, and that reading
/// fails, as does a sum that does not fit in a `u64`.
pub open spec fn net_dev_line(acc: NetworkMetricsProto, line: Seq<char>) -> Option<NetworkMetricsProto> {
    let p = split_ws_spec(line);
    if p.len() < 10 || trim_end_char(p[0], ':') == "lo"@ {
        Some(acc)
    } else if p.len() < 13 {
        None
    } else {
        let rx_bytes = acc.rx_bytes + u64_or(p[1], 0);
        let rx_packets = acc.rx_packets + u64_or(p[2], 0);
        let rx_errors = acc.rx_errors + u64_or(p[3], 0);
        let rx_dropped = acc.rx_dropped + u64_or(p[4], 0);
        let tx_bytes = acc.tx_bytes + u64_or(p[9], 0);
        let tx_packets = acc.tx_packets + u64_or(p[10], 0);
        let tx_errors = acc.tx_errors + u64_or(p[11], 0);
        let tx_dropped = acc.tx_dropped + u64_or(p[12], 0);
        if rx_bytes <= u64::MAX && rx_packets <= u64::MAX && rx_errors <= u64::MAX && rx_dropped <= u64::MAX
            && tx_bytes <= u64::MAX && tx_packets <= u64::MAX && tx_errors <= u64::MAX && tx_dropped
            <= u64::MAX {
            Some(
                NetworkMetricsProto {
                    rx_bytes: rx_bytes as u64,
                    tx_bytes: tx_bytes as u64,
                    rx_packets: rx_packets as u64,
                    tx_packets: tx_packets as u64,
                    rx_errors: rx_errors as u64,
                    tx_errors: tx_errors as u64,
                    rx_dropped: rx_dropped as u64,
                    tx_dropped: tx_dropped as u64,
                },
            )
        } else {
            None
        }
    }
}

/// Interface lines of `/proc/<pid>/net/dev`, added in order.
pub open spec fn net_dev_lines(acc: Option<NetworkMetricsProto>, lines: Seq<Seq<char>>) -> Option<NetworkMetricsProto>
    decreases lines.len(),
{
    if lines.len() == 0 {
        acc
    } else {
        match net_dev_lines(acc, lines.drop_last()) {
            Some(a) => net_dev_line(a, lines.last()),
            None => None,
        }
    }
}

/// The network traffic of a process, from `/proc/<pid>/net/dev`: the two
/// header lines are skipped and every other interface but loopback counts.
pub open spec fn network_spec(net_dev: Option<Seq<char>>) -> Option<NetworkMetricsProto> {
    match net_dev {
        Some(c) => {
            let ls = lines_spec(c);
            if ls.len() <= 2 {
                Some(network_zero())
            } else {
                net_dev_lines(Some(network_zero()), ls.skip(2))
            }
        },
        None => Some(network_zero()),
    }
}

/// Adds one interface line of `/proc/<pid>/net/dev`.
fn net_dev_step(acc: NetworkMetricsProto, line: &str) -> (r: Option<NetworkMetricsProto>)
    ensures
        r == net_dev_line(acc, line@),
{
    let p = split_whitespace(line);
    let ghost pv = p@.map_values(|q: String| q@);
    if p.len() < 10 {
        return Some(acc);
    }
    proof {
        assert(pv[0] == p@[0]@);
    }
    let iface = trim_end_matches(p[0].as_str(), ':');
    if str_eq(iface, "lo") {
        return Some(acc);
    }
    if p.len() < 13 {
        return None;
    }
    proof {
        assert forall|k: int| 0 <= k < 13 implies pv[k] == #[trigger] p@[k]@ by {}
    }
    let rx_bytes = checked_sum(acc.rx_bytes, parse_u64_or(p[1].as_str(), 0));
    let rx_packets = checked_sum(acc.rx_packets, parse_u64_or(p[2].as_str(), 0));
    let rx_errors = checked_sum(acc.rx_errors, parse_u64_or(p[3].as_str(), 0));
    let rx_dropped = checked_sum(acc.rx_dropped, parse_u64_or(p[4].as_str(), 0));
    let tx_bytes = checked_sum(acc.tx_bytes, parse_u64_or(p[9].as_str(), 0));
    let tx_packets = checked_sum(acc.tx_packets, parse_u64_or(p[10].as_str(), 0));
    let tx_errors = checked_sum(acc.tx_errors, parse_u64_or(p[11].as_str(), 0));
    let tx_dropped = checked_sum(acc.tx_dropped, parse_u64_or(p[12].as_str(), 0));
    match (rx_bytes, rx_packets, rx_errors, rx_dropped, tx_bytes, tx_packets, tx_errors, tx_dropped) {
        (Some(rb), Some(rp), Some(re), Some(rd), Some(tb), Some(tp), Some(te), Some(td)) => Some(
            NetworkMetricsProto {
                rx_bytes: rb,
                tx_bytes: tb,
                rx_packets: rp,
                tx_packets: tp,
                rx_errors: re,
                tx_errors: te,
                rx_dropped: rd,
                tx_dropped: td,
            },
        ),
        _ => None,
    }
}

/// The network traffic of a process, from the text of its
/// `/proc/<pid>/net/dev`; `None` where that text cannot be read as the
/// runtime reads it (see `net_dev_line`).
pub fn read_network_metrics(net_dev: Option<&str>) -> (r: Option<NetworkMetricsProto>)
    ensures
        r == network_spec(text_of(net_dev)),
{
    let zero = NetworkMetricsProto {
        rx_bytes: 0,
        tx_bytes: 0,
        rx_packets: 0,
        tx_packets: 0,
        rx_errors: 0,
        tx_errors: 0,
        rx_dropped: 0,
        tx_dropped: 0,
    };
    let content = match net_dev {
        Some(c) => c,
        None => {
            return Some(zero);
        },
    };
    let lines = split_lines(content);
    let ghost ls = lines@.map_values(|l: String| l@);
    if lines.len() <= 2 {
        return Some(zero);
    }
    let mut acc: Option<NetworkMetricsProto> = Some(zero);
    let mut i: usize = 2;
    proof {
        assert(ls.subrange(2, 2) =~= Seq::<Seq<char>>::empty());
    }
    while i < lines.len()
        invariant
            2 <= i <= lines@.len(),
            ls == lines@.map_values(|l: String| l@),
            acc == net_dev_lines(Some(network_zero()), ls.subrange(2, i as int)),
        decreases lines@.len() - i,
    {
        proof {
            assert(ls.subrange(2, i + 1).drop_last() =~= ls.subrange(2, i as int));
            assert(ls.subrange(2, i + 1).last() == ls[i as int]);
            assert(ls[i as int] == lines@[i as int]@);
        }
        acc = match acc {
            Some(a) => net_dev_step(a, lines[i].as_str()),
            None => None,
        };
        i = i + 1;
    }
    proof {
        assert(ls.subrange(2, i as int) =~= ls.skip(2));
    }
    acc
}

} // verus!
