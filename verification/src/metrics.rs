//! Pod resource usage: quantity parsing, per-pod totals and the metrics text.
use vstd::prelude::*;

use crate::text::{chars_of, join_texts, join_with, owned, parse_i64, parse_i64_spec, texts};

verus! {

#[derive(Debug, Clone)]
pub struct PodMetricSummary {
    pub pod_name: String,
    pub cpu: String,
    pub memory: String,
}

// ---------------------------------------------------------------------------
// Quantities
// ---------------------------------------------------------------------------

/// `s.parse::<i64>().unwrap_or(0)`.
pub open spec fn parsed_or_zero(s: Seq<char>) -> int {
    match parse_i64_spec(s) {
        Some(v) => v as int,
        None => 0,
    }
}

pub open spec fn ends_with_char(s: Seq<char>, c: char) -> bool {
    s.len() > 0 && s.last() == c
}

pub open spec fn ends_with2(s: Seq<char>, a: char, b: char) -> bool {
    s.len() > 1 && s[s.len() - 2] == a && s.last() == b
}

/// A CPU quantity in nanocores: `n` nanocores, `m` millicores, or cores.
pub open spec fn nano_of(s: Seq<char>) -> int {
    if ends_with_char(s, 'n') {
        parsed_or_zero(s.drop_last())
    } else if ends_with_char(s, 'm') {
        parsed_or_zero(s.drop_last()) * 1_000_000
    } else {
        parsed_or_zero(s) * 1_000_000_000
    }
}

/// A memory quantity in bytes: `Ki`, `Mi`, `k`, or plain bytes.
pub open spec fn bytes_of(s: Seq<char>) -> int {
    if ends_with2(s, 'K', 'i') {
        parsed_or_zero(s.take(s.len() - 2)) * 1024
    } else if ends_with2(s, 'M', 'i') {
        parsed_or_zero(s.take(s.len() - 2)) * 1024 * 1024
    } else if ends_with_char(s, 'k') {
        parsed_or_zero(s.drop_last()) * 1000
    } else {
        parsed_or_zero(s)
    }
}

pub open spec fn fits_i64(v: int) -> bool {
    i64::MIN <= v <= i64::MAX
}

fn parse_or_zero(s: &[char], end: usize) -> (r: i64)
    requires
        end <= s@.len(),
    ensures
        r == parsed_or_zero(s@.take(end as int)),
{
    let mut v: Vec<char> = Vec::new();
    let mut i: usize = 0;
    while i < end
        invariant
            i <= end <= s@.len(),
            v@ == s@.take(i as int),
        decreases end - i,
    {
        v.push(s[i]);
        assert(v@ =~= s@.take(i + 1));
        i = i + 1;
    }
    match parse_i64(&v) {
        Some(x) => x,
        None => 0,
    }
}

/// Converts a CPU quantity to nanocores (unparsable numbers count as 0).
pub fn quantity_to_nano(s: &str) -> (r: i64)
    requires
        fits_i64(nano_of(s@)),
    ensures
        r == nano_of(s@),
{
    let cs = chars_of(s);
    let n = cs.len();
    assert(cs@.take(n as int) =~= cs@);
    if n > 0 && cs[n - 1] == 'n' {
        assert(cs@.take(n - 1) =~= cs@.drop_last());
        parse_or_zero(&cs, n - 1)
    } else if n > 0 && cs[n - 1] == 'm' {
        assert(cs@.take(n - 1) =~= cs@.drop_last());
        let v = parse_or_zero(&cs, n - 1);
        v * 1_000_000
    } else {
        let v = parse_or_zero(&cs, n);
        v * 1_000_000_000
    }
}

/// Converts a memory quantity to bytes (unparsable numbers count as 0).
pub fn quantity_to_bytes(s: &str) -> (r: i64)
    requires
        fits_i64(bytes_of(s@)),
    ensures
        r == bytes_of(s@),
{
    let cs = chars_of(s);
    let n = cs.len();
    assert(cs@.take(n as int) =~= cs@);
    if n > 1 && cs[n - 2] == 'K' && cs[n - 1] == 'i' {
        let v = parse_or_zero(&cs, n - 2);
        v * 1024
    } else if n > 1 && cs[n - 2] == 'M' && cs[n - 1] == 'i' {
        let v = parse_or_zero(&cs, n - 2);
        assert(v * 1024 * 1024 == v * 1048576);
        v * 1024 * 1024
    } else if n > 0 && cs[n - 1] == 'k' {
        assert(cs@.take(n - 1) =~= cs@.drop_last());
        let v = parse_or_zero(&cs, n - 1);
        v * 1000
    } else {
        parse_or_zero(&cs, n)
    }
}

// ---------------------------------------------------------------------------
// Per-pod totals
// ---------------------------------------------------------------------------

/// What the totals read from one container's usage entry.
#[derive(Debug, Clone)]
pub struct ContainerUsage {
    /// Whether the entry has a `usage` object at all.
    pub has_usage: bool,
    pub cpu: Option<String>,
    pub memory: Option<String>,
}

/// What the totals read from one pod-metrics object.
#[derive(Debug, Clone)]
pub struct PodMetricsInfo {
    pub name: Option<String>,
    /// The `containers` array, when present.
    pub containers: Option<Vec<ContainerUsage>>,
}

pub open spec fn cpu_term(c: ContainerUsage) -> int {
    match c.cpu {
        Some(q) => nano_of(q@),
        None => 0,
    }
}

pub open spec fn memory_term(c: ContainerUsage) -> int {
    match c.memory {
        Some(q) => bytes_of(q@),
        None => 0,
    }
}

pub open spec fn cpu_total(cs: Seq<ContainerUsage>) -> int
    decreases cs.len(),
{
    if cs.len() == 0 {
        0
    } else {
        cpu_total(cs.drop_last()) + cpu_term(cs.last())
    }
}

pub open spec fn memory_total(cs: Seq<ContainerUsage>) -> int
    decreases cs.len(),
{
    if cs.len() == 0 {
        0
    } else {
        memory_total(cs.drop_last()) + memory_term(cs.last())
    }
}

/// All entries up to `k` have a usage object.
pub open spec fn usage_through(cs: Seq<ContainerUsage>, k: int) -> bool {
    forall|j: int| 0 <= j < k ==> (#[trigger] cs[j]).has_usage
}

/// Every quantity and running total met while summing fits in `i64`: the
/// summing stops at the first entry without usage.
pub open spec fn totals_fit(cs: Seq<ContainerUsage>) -> bool {
    forall|k: int|
        0 <= k < cs.len() && usage_through(cs, k + 1) ==> {
            &&& fits_i64(cpu_term(#[trigger] cs[k]))
            &&& fits_i64(memory_term(cs[k]))
            &&& fits_i64(cpu_total(cs.take(k + 1)))
            &&& fits_i64(memory_total(cs.take(k + 1)))
        }
}

/// `(pod name, nanocores, bytes)` of a pod, or `None` when it has no name,
/// no container list, or a container without usage.
pub open spec fn pod_usage_spec(p: PodMetricsInfo) -> Option<(Seq<char>, int, int)> {
    match p.name {
        None => None,
        Some(n) => match p.containers {
            None => None,
            Some(cs) => if usage_through(cs@, cs@.len() as int) {
                Some((n@, cpu_total(cs@), memory_total(cs@)))
            } else {
                None
            },
        },
    }
}

/// Sums the CPU and memory usage of a pod's containers.
pub fn pod_usage_totals(p: &PodMetricsInfo) -> (r: Option<(String, i64, i64)>)
    requires
        p.containers matches Some(cs) ==> totals_fit(cs@),
    ensures
        match r {
            Some((n, c, m)) => pod_usage_spec(*p) == Some((n@, c as int, m as int)),
            None => pod_usage_spec(*p) is None,
        },
{
    let name = match &p.name {
        Some(n) => owned(n.as_str()),
        None => return None,
    };
    let cs = match &p.containers {
        Some(cs) => cs,
        None => return None,
    };
    let mut cpu: i64 = 0;
    let mut mem: i64 = 0;
    let mut i: usize = 0;
    assert(cs@.take(0) =~= Seq::<ContainerUsage>::empty());
    while i < cs.len()
        invariant
            i <= cs@.len(),
            totals_fit(cs@),
            p.containers == Some(*cs),
            p.name is Some,
            usage_through(cs@, i as int),
            cpu == cpu_total(cs@.take(i as int)),
            mem == memory_total(cs@.take(i as int)),
        decreases cs.len() - i,
    {
        let c = &cs[i];
        if !c.has_usage {
            assert(!usage_through(cs@, cs@.len() as int));
            return None;
        }
        assert(usage_through(cs@, i + 1));
        assert(cs@.take(i + 1).drop_last() =~= cs@.take(i as int));
        assert(fits_i64(cpu_term(cs@[i as int])));
        let dc: i64 = match &c.cpu {
            Some(q) => quantity_to_nano(q.as_str()),
            None => 0,
        };
        let dm: i64 = match &c.memory {
            Some(q) => quantity_to_bytes(q.as_str()),
            None => 0,
        };
        cpu = cpu + dc;
        mem = mem + dm;
        i = i + 1;
    }
    assert(cs@.take(cs@.len() as int) =~= cs@);
    Some((name, cpu, mem))
}

fn nano_wide(s: &str) -> (r: i128)
    ensures
        r == nano_of(s@),
{
    let cs = chars_of(s);
    let n = cs.len();
    assert(cs@.take(n as int) =~= cs@);
    if n > 0 && cs[n - 1] == 'n' {
        assert(cs@.take(n - 1) =~= cs@.drop_last());
        parse_or_zero(&cs, n - 1) as i128
    } else if n > 0 && cs[n - 1] == 'm' {
        assert(cs@.take(n - 1) =~= cs@.drop_last());
        let v = parse_or_zero(&cs, n - 1) as i128;
        v * 1_000_000
    } else {
        let v = parse_or_zero(&cs, n) as i128;
        v * 1_000_000_000
    }
}

fn bytes_wide(s: &str) -> (r: i128)
    ensures
        r == bytes_of(s@),
{
    let cs = chars_of(s);
    let n = cs.len();
    assert(cs@.take(n as int) =~= cs@);
    if n > 1 && cs[n - 2] == 'K' && cs[n - 1] == 'i' {
        let v = parse_or_zero(&cs, n - 2) as i128;
        v * 1024
    } else if n > 1 && cs[n - 2] == 'M' && cs[n - 1] == 'i' {
        let v = parse_or_zero(&cs, n - 2) as i128;
        assert(v * 1024 * 1024 == v * 1048576);
        v * 1048576
    } else if n > 0 && cs[n - 1] == 'k' {
        assert(cs@.take(n - 1) =~= cs@.drop_last());
        let v = parse_or_zero(&cs, n - 1) as i128;
        v * 1000
    } else {
        parse_or_zero(&cs, n) as i128
    }
}

fn fits(v: i128) -> (r: bool)
    ensures
        r == fits_i64(v as int),
{
    -9223372036854775808i128 <= v && v <= 9223372036854775807i128
}

/// Whether summing a pod's usage stays within `i64`, which
/// [`pod_usage_totals`] needs.
pub fn pod_usage_fits(p: &PodMetricsInfo) -> (r: bool)
    ensures
        r == (p.containers matches Some(cs) ==> totals_fit(cs@)),
{
    let cs = match &p.containers {
        Some(cs) => cs,
        None => return true,
    };
    let mut cpu: i128 = 0;
    let mut mem: i128 = 0;
    let mut i: usize = 0;
    assert(cs@.take(0) =~= Seq::<ContainerUsage>::empty());
    while i < cs.len()
        invariant
            i <= cs@.len(),
            p.containers == Some(*cs),
            usage_through(cs@, i as int),
            cpu == cpu_total(cs@.take(i as int)),
            mem == memory_total(cs@.take(i as int)),
            fits_i64(cpu as int),
            fits_i64(mem as int),
            forall|k: int|
                0 <= k < i ==> {
                    &&& fits_i64(cpu_term(#[trigger] cs@[k]))
                    &&& fits_i64(memory_term(cs@[k]))
                    &&& fits_i64(cpu_total(cs@.take(k + 1)))
                    &&& fits_i64(memory_total(cs@.take(k + 1)))
                },
        decreases cs.len() - i,
    {
        let c = &cs[i];
        if !c.has_usage {
            assert forall|k: int| 0 <= k < cs@.len() && usage_through(cs@, k + 1) implies {
                &&& fits_i64(cpu_term(#[trigger] cs@[k]))
                &&& fits_i64(memory_term(cs@[k]))
                &&& fits_i64(cpu_total(cs@.take(k + 1)))
                &&& fits_i64(memory_total(cs@.take(k + 1)))
            } by {
                if k >= i {
                    assert(cs@[i as int].has_usage);
                }
            }
            return true;
        }
        assert(cs@.take(i + 1).drop_last() =~= cs@.take(i as int));
        let dc: i128 = match &c.cpu {
            Some(q) => nano_wide(q.as_str()),
            None => 0,
        };
        let dm: i128 = match &c.memory {
            Some(q) => bytes_wide(q.as_str()),
            None => 0,
        };
        if !fits(dc) || !fits(dm) {
            assert(usage_through(cs@, i + 1));
            return false;
        }
        cpu = cpu + dc;
        mem = mem + dm;
        if !fits(cpu) || !fits(mem) {
            assert(usage_through(cs@, i + 1));
            return false;
        }
        i = i + 1;
    }
    true
}

// ---------------------------------------------------------------------------
// Text
// ---------------------------------------------------------------------------

pub open spec fn metric_line(m: PodMetricSummary) -> Seq<char> {
    m.pod_name@ + "  CPU: "@ + m.cpu@ + "  MEM: "@ + m.memory@
}

pub open spec fn metrics_text(v: Seq<PodMetricSummary>) -> Seq<char> {
    if v.len() == 0 {
        "No metrics available (is metrics-server installed?)"@
    } else {
        join_with(v.map_values(|m: PodMetricSummary| metric_line(m)), "\n"@)
    }
}

/// The metrics as text, one pod per line.
pub fn format_metrics_text(metrics: &[PodMetricSummary]) -> (r: String)
    ensures
        r@ == metrics_text(metrics@),
{
    if metrics.len() == 0 {
        return owned("No metrics available (is metrics-server installed?)");
    }
    let ghost all = metrics@.map_values(|m: PodMetricSummary| metric_line(m));
    let mut lines: Vec<String> = Vec::new();
    let mut i: usize = 0;
    while i < metrics.len()
        invariant
            i <= metrics.len(),
            all == metrics@.map_values(|m: PodMetricSummary| metric_line(m)),
            texts(lines@) == all.take(i as int),
        decreases metrics.len() - i,
    {
        let m = &metrics[i];
        let mut s = owned(m.pod_name.as_str());
        s.append("  CPU: ");
        s.append(m.cpu.as_str());
        s.append("  MEM: ");
        s.append(m.memory.as_str());
        let ghost before = texts(lines@);
        lines.push(s);
        assert(texts(lines@) =~= before.push(s@));
        assert(all.take(i + 1) =~= all.take(i as int).push(all[i as int]));
        i = i + 1;
    }
    assert(all.take(metrics.len() as int) =~= all);
    join_texts(lines.as_slice(), "\n")
}

} // verus!
