//! The counter source registry: which entries of the platform's power-domain
//! tree are energy counters, what they measure, and the fixed order in which
//! they are read and matched.
use vstd::prelude::*;
use vstd::string::*;
use crate::decimal::{
    all_digits, all_digits_in, decimal_u64, decimal_value, digits_in, is_digit_char,
    parse_u64_text, trim_bounds, trimmed,
};
use crate::error::EnergyError;
use crate::text::{lemma_seq_less_total, lemma_seq_less_transitive, seq_less, str_eq, str_less};

verus! {

/// The power rail that a counter measures.
#[derive(Clone, Copy, Debug, PartialEq, Eq, Structural)]
pub enum Domain {
    Cpu,
    Dram,
    Igpu,
    /// A rail whose driver label is not recognised; it is read, but left out
    /// of the per-kind totals.
    Unknown,
}

/// A discovered counter: where it is, what it measures and its range.
#[derive(Clone, Debug, PartialEq, Eq)]
pub struct RaplFile {
    pub socket: u16,
    pub domain: Domain,
    /// The domain's name: `cpu`, `dram`, `igpu`, or the driver's own label.
    pub name: String,
    /// The largest value the counter reaches before wrapping, in µJ.
    pub max_energy: u64,
    /// Position of the counter in the discovery order, so that the caller can
    /// line up the handles it opened with the registry order.
    pub source: usize,
}

/// A counter entry as found while walking the tree, before it is interpreted.
#[derive(Clone, Debug, PartialEq, Eq)]
pub struct RaplCandidate {
    pub socket: u16,
    /// Content of the entry's `name` file.
    pub label: String,
    /// Content of the entry's `max_energy_range_uj` file.
    pub max_energy_text: String,
}

/// Every directory name of the tree starts with this.
pub open spec fn rapl_prefix() -> Seq<char> {
    seq!['i', 'n', 't', 'e', 'l', '-', 'r', 'a', 'p', 'l', ':']
}

pub open spec fn has_rapl_prefix(name: Seq<char>) -> bool {
    name.len() >= 11 && name.subrange(0, 11) == rapl_prefix()
}

/// The socket index named by a top-level directory `intel-rapl:<n>`.
pub open spec fn socket_dir_index(name: Seq<char>) -> Option<int> {
    if has_rapl_prefix(name) {
        decimal_value(name.subrange(11, name.len() as int))
    } else {
        None
    }
}

/// Whether a directory is a domain of a socket: `intel-rapl:<n>:<m>`.
pub open spec fn is_domain_dir_name(name: Seq<char>) -> bool {
    has_rapl_prefix(name) && exists|k: int|
        11 < k < name.len() - 1 && #[trigger] name[k] == ':' && all_digits(name.subrange(11, k))
            && all_digits(name.subrange(k + 1, name.len() as int))
}

/// The domain that a driver label (already trimmed) stands for.
pub open spec fn label_domain(t: Seq<char>) -> Domain {
    if t == seq!['c', 'o', 'r', 'e'] {
        Domain::Cpu
    } else if t == seq!['d', 'r', 'a', 'm'] {
        Domain::Dram
    } else if t == seq!['u', 'n', 'c', 'o', 'r', 'e'] {
        Domain::Igpu
    } else {
        Domain::Unknown
    }
}

/// The name under which a driver label (already trimmed) is registered.
pub open spec fn label_name(t: Seq<char>) -> Seq<char> {
    match label_domain(t) {
        Domain::Cpu => seq!['c', 'p', 'u'],
        Domain::Dram => seq!['d', 'r', 'a', 'm'],
        Domain::Igpu => seq!['i', 'g', 'p', 'u'],
        Domain::Unknown => t,
    }
}

/// `f` is the registry entry made from candidate number `idx`, `c`.
pub open spec fn describes(f: RaplFile, c: RaplCandidate, idx: int) -> bool {
    &&& f.socket == c.socket
    &&& f.domain == label_domain(trimmed(c.label@))
    &&& f.name@ == label_name(trimmed(c.label@))
    &&& decimal_u64(trimmed(c.max_energy_text@)) == Some(f.max_energy)
    &&& f.source == idx
}

/// Registry order: by name, and by discovery order among equal names.
pub open spec fn key_less(x: RaplFile, y: RaplFile) -> bool {
    seq_less(x.name@, y.name@) || (x.name@ == y.name@ && x.source < y.source)
}

/// `files` holds one entry per candidate, in registry order.
pub open spec fn is_registry_of(cands: Seq<RaplCandidate>, files: Seq<RaplFile>) -> bool {
    &&& files.len() == cands.len()
    &&& forall|j: int|
        0 <= j < files.len() ==> (#[trigger] files[j]).source < cands.len() && describes(
            files[j],
            cands[files[j].source as int],
            files[j].source as int,
        )
    &&& forall|i: int, j: int| 0 <= i < j < files.len() ==> key_less(#[trigger] files[i], #[trigger] files[j])
    &&& forall|k: int| 0 <= k < cands.len() ==> #[trigger] lists_source(files, k)
}

/// Some entry of `files` comes from candidate number `k`.
pub open spec fn lists_source(files: Seq<RaplFile>, k: int) -> bool {
    exists|j: int| 0 <= j < files.len() && #[trigger] files[j].source == k
}

/// Whether some candidate's range cannot be read as a number.
pub open spec fn has_bad_range(cands: Seq<RaplCandidate>) -> bool {
    exists|k: int| 0 <= k < cands.len() && #[trigger] decimal_u64(trimmed(cands[k].max_energy_text@)) is None
}

fn starts_with_rapl_prefix(name: &str) -> (r: bool)
    ensures
        r == has_rapl_prefix(name@),
{
    let p = "intel-rapl:";
    proof {
        reveal_strlit("intel-rapl:");
    }
    assert(p@ =~= rapl_prefix());
    if name.unicode_len() < 11 {
        return false;
    }
    let mut k: usize = 0;
    while k < 11
        invariant
            k <= 11 <= name@.len(),
            p@ == rapl_prefix(),
            name@.subrange(0, k as int) == rapl_prefix().subrange(0, k as int),
        decreases 11 - k,
    {
        if name.get_char(k) != p.get_char(k) {
            assert(name@.subrange(0, 11)[k as int] != rapl_prefix()[k as int]);
            return false;
        }
        assert(name@.subrange(0, k + 1) =~= name@.subrange(0, k as int).push(name@[k as int]));
        assert(rapl_prefix().subrange(0, k + 1) =~= rapl_prefix().subrange(0, k as int).push(
            rapl_prefix()[k as int],
        ));
        k = k + 1;
    }
    assert(rapl_prefix().subrange(0, 11) =~= rapl_prefix());
    true
}

/// Interprets a top-level directory name of the tree: `Ok(Some(n))` for the
/// socket directory `intel-rapl:<n>`, `Ok(None)` for any other entry, and a
/// discovery error when the index does not fit a socket number.
pub fn socket_of_dir(name: &str) -> (r: Result<Option<u16>, EnergyError>)
    ensures
        match socket_dir_index(name@) {
            None => r == Ok::<Option<u16>, EnergyError>(None),
            Some(v) => if v <= u16::MAX {
                r == Ok::<Option<u16>, EnergyError>(Some(v as u16))
            } else {
                r == Err::<Option<u16>, EnergyError>(EnergyError::Discovery)
            },
        },
{
    if !starts_with_rapl_prefix(name) {
        return Ok(None);
    }
    let n = name.unicode_len();
    if n == 11 || !all_digits_in(name, 11, n) {
        return Ok(None);
    }
    let ghost rest = name@.subrange(11, n as int);
    assert(decimal_value(rest) == Some(crate::decimal::digits_value(rest)));
    proof {
        crate::decimal::lemma_value_nonneg(rest);
    }
    match digits_in(name, 11, n) {
        Some(v) => {
            assert(v as int == crate::decimal::digits_value(rest));
            if v <= u16::MAX as u64 {
                Ok(Some(v as u16))
            } else {
                Err(EnergyError::Discovery)
            }
        },
        None => Err(EnergyError::Discovery),
    }
}

/// Whether a directory name inside a socket directory names a domain.
pub fn is_domain_dir(name: &str) -> (r: bool)
    ensures
        r == is_domain_dir_name(name@),
{
    if !starts_with_rapl_prefix(name) {
        return false;
    }
    let n = name.unicode_len();
    let mut i: usize = 11;
    while i < n && is_digit_char(name.get_char(i))
        invariant
            11 <= i <= n == name@.len(),
            all_digits(name@.subrange(11, i as int)),
        decreases n - i,
    {
        assert(forall|j: int|
            0 <= j < i + 1 - 11 ==> #[trigger] name@.subrange(11, i + 1)[j] == name@[11 + j]);
        i = i + 1;
    }
    let ghost s = name@;
    if i == 11 || i >= n || n - i < 2 || name.get_char(i) != ':' {
        assert forall|k: int|
            11 < k < s.len() - 1 && #[trigger] s[k] == ':' && all_digits(s.subrange(11, k))
                implies false by {
            if k < i {
                assert(s.subrange(11, i as int)[k - 11] == s[k]);
            } else if k > i {
                assert(s.subrange(11, k)[i - 11] == s[i as int]);
            }
        }
        return false;
    }
    let rest = all_digits_in(name, i + 1, n);
    assert(s[i as int] == ':');
    if !rest {
        assert forall|k: int|
            11 < k < s.len() - 1 && #[trigger] s[k] == ':' && all_digits(s.subrange(11, k))
                implies !all_digits(s.subrange(k + 1, s.len() as int)) by {
            if k < i {
                assert(s.subrange(11, i as int)[k - 11] == s[k]);
            } else if k > i {
                assert(s.subrange(11, k)[i - 11] == s[i as int]);
            }
        }
    }
    rest
}

/// Maps a driver label, as read from an entry's `name` file, to its domain
/// and the name under which it is registered: `core` is `cpu`, `dram` is
/// `dram`, `uncore` is `igpu`; any other label keeps its own text.
pub fn domain_of_label(raw: &str) -> (r: (Domain, String))
    ensures
        r.0 == label_domain(trimmed(raw@)),
        r.1@ == label_name(trimmed(raw@)),
{
    let (a, b) = trim_bounds(raw);
    let t = raw.substring_char(a, b);
    proof {
        reveal_strlit("core");
        reveal_strlit("dram");
        reveal_strlit("uncore");
        reveal_strlit("cpu");
        reveal_strlit("igpu");
    }
    assert("core"@ =~= seq!['c', 'o', 'r', 'e']);
    assert("dram"@ =~= seq!['d', 'r', 'a', 'm']);
    assert("uncore"@ =~= seq!['u', 'n', 'c', 'o', 'r', 'e']);
    assert("cpu"@ =~= seq!['c', 'p', 'u']);
    assert("igpu"@ =~= seq!['i', 'g', 'p', 'u']);
    if str_eq(t, "core") {
        (Domain::Cpu, String::from_str("cpu"))
    } else if str_eq(t, "dram") {
        (Domain::Dram, String::from_str("dram"))
    } else if str_eq(t, "uncore") {
        (Domain::Igpu, String::from_str("igpu"))
    } else {
        (Domain::Unknown, String::from_str(t))
    }
}

/// Builds the registry from the counters found in the tree: each label is
/// mapped to its domain, each range is read, and the entries are ordered by
/// name (ties keep discovery order), so that two snapshots of the same
/// registry line up position by position. Fails when a range is unreadable.
pub fn scan_rapl_files(cands: &Vec<RaplCandidate>) -> (r: Result<Vec<RaplFile>, EnergyError>)
    ensures
        r is Err <==> has_bad_range(cands@),
        r is Err ==> r == Err::<Vec<RaplFile>, EnergyError>(EnergyError::Discovery),
        r is Ok ==> is_registry_of(cands@, r->Ok_0@),
{
    let mut files: Vec<RaplFile> = Vec::new();
    let n = cands.len();
    let mut i: usize = 0;
    while i < n
        invariant
            i <= n == cands@.len(),
            files@.len() == i,
            forall|k: int| 0 <= k < i ==> #[trigger] decimal_u64(trimmed(cands@[k].max_energy_text@)) is Some,
            forall|j: int|
                0 <= j < files@.len() ==> (#[trigger] files@[j]).source < i && describes(
                    files@[j],
                    cands@[files@[j].source as int],
                    files@[j].source as int,
                ),
            forall|a: int, b: int| 0 <= a < b < files@.len() ==> key_less(#[trigger] files@[a], #[trigger] files@[b]),
            forall|k: int| 0 <= k < i ==> #[trigger] lists_source(files@, k),
        decreases n - i,
    {
        let c = &cands[i];
        let max_energy = match parse_u64_text(c.max_energy_text.as_str()) {
            Some(m) => m,
            None => {
                assert(decimal_u64(trimmed(cands@[i as int].max_energy_text@)) is None);
                return Err(EnergyError::Discovery);
            },
        };
        let (domain, name) = domain_of_label(c.label.as_str());
        let f = RaplFile { socket: c.socket, domain, name, max_energy, source: i };
        let mut p: usize = files.len();
        while p > 0 && str_less(f.name.as_str(), files[p - 1].name.as_str())
            invariant
                p <= files@.len() == i,
                f.source == i,
                forall|j: int| p <= j < files@.len() ==> seq_less(f.name@, (#[trigger] files@[j]).name@),
            decreases p,
        {
            p = p - 1;
        }
        proof {
            if p > 0 {
                let q = files@[p - 1];
                lemma_seq_less_total(f.name@, q.name@);
                assert forall|j: int| 0 <= j < p implies key_less(#[trigger] files@[j], f) by {
                    if j < p - 1 {
                        let x = files@[j];
                        assert(key_less(x, q));
                        if seq_less(x.name@, q.name@) {
                            if seq_less(q.name@, f.name@) {
                                lemma_seq_less_transitive(x.name@, q.name@, f.name@);
                            }
                        } else {
                            if seq_less(q.name@, f.name@) {
                                assert(seq_less(x.name@, f.name@));
                            }
                        }
                    }
                }
            }
        }
        let ghost old_files = files@;
        files.insert(p, f);
        proof {
            assert forall|a: int, b: int| 0 <= a < b < files@.len() implies key_less(
                #[trigger] files@[a],
                #[trigger] files@[b],
            ) by {
                if a < p && b > p {
                    assert(files@[a] == old_files[a]);
                    assert(files@[b] == old_files[b - 1]);
                    assert(key_less(old_files[a], old_files[b - 1]));
                } else if a < p && b < p {
                    assert(key_less(old_files[a], old_files[b]));
                } else if a > p {
                    assert(key_less(old_files[a - 1], old_files[b - 1]));
                }
            }
            assert forall|k: int| 0 <= k < i + 1 implies #[trigger] lists_source(files@, k) by {
                if k == i {
                    assert(files@[p as int].source == k);
                } else {
                    assert(lists_source(old_files, k));
                    let j0 = choose|j: int| 0 <= j < old_files.len() && #[trigger] old_files[j].source == k;
                    if j0 < p {
                        assert(files@[j0].source == k);
                    } else {
                        assert(files@[j0 + 1].source == k);
                    }
                }
            }
        }
        i = i + 1;
    }
    Ok(files)
}

} // verus!

verus! {

/// One reading of a registered counter.
#[derive(Clone, Debug, PartialEq, Eq)]
pub struct RaplEnergy {
    pub socket: u16,
    pub domain: Domain,
    pub name: String,
    /// Cumulative energy, in µJ.
    pub energy: u64,
    /// The counter's range, in µJ.
    pub max_energy: u64,
}

/// Power of one domain attributed to the monitored process over an interval.
#[derive(Clone, Debug, PartialEq, Eq)]
pub struct RaplEnergyDelta {
    pub socket: u16,
    pub domain: Domain,
    pub name: String,
    /// Attributed power, in µW.
    pub delta_energy: u128,
}

/// Attributed power summed by kind of domain, in µW; unknown domains are
/// left out.
#[derive(Clone, Copy, Debug, PartialEq, Eq, Structural)]
pub struct DomainTotals {
    pub cpu: u128,
    pub dram: u128,
    pub igpu: u128,
}

/// `x`, saturated at the largest `u128`.
pub open spec fn cap(x: int) -> int {
    if x > u128::MAX {
        u128::MAX as int
    } else {
        x
    }
}

/// Sum of the attributed power of the domains of kind `dom` in `d`.
pub open spec fn total_of(d: Seq<RaplEnergyDelta>, dom: Domain) -> int
    decreases d.len(),
{
    if d.len() == 0 {
        0
    } else {
        total_of(d.drop_last(), dom) + if d.last().domain == dom {
            d.last().delta_energy as int
        } else {
            0
        }
    }
}

/// The value a counter file's text holds, if it holds one.
pub open spec fn reading_value(text: Option<String>) -> Option<u64> {
    match text {
        Some(t) => decimal_u64(trimmed(t@)),
        None => None,
    }
}

/// `e` is a reading of the registered counter `f`.
pub open spec fn reads(e: RaplEnergy, f: RaplFile) -> bool {
    &&& e.socket == f.socket
    &&& e.domain == f.domain
    &&& e.name@ == f.name@
    &&& e.max_energy == f.max_energy
}

/// Two readings come from the same counter.
pub open spec fn same_counter(a: RaplEnergy, b: RaplEnergy) -> bool {
    a.socket == b.socket && a.domain == b.domain && a.name@ == b.name@
}

/// Two snapshots read the same counters in the same order.
pub open spec fn same_shape(e1: Seq<RaplEnergy>, e2: Seq<RaplEnergy>) -> bool {
    e1.len() == e2.len() && forall|k: int| 0 <= k < e1.len() ==> same_counter(#[trigger] e1[k], e2[k])
}

/// Power attributed to the process for counter `k` of two snapshots.
pub open spec fn attributed_at(
    e1: Seq<RaplEnergy>,
    e2: Seq<RaplEnergy>,
    k: int,
    elapsed_us: int,
    share: int,
) -> int {
    crate::attribution::attributed_power(
        crate::attribution::corrected_delta(
            e1[k].energy as int,
            e2[k].energy as int,
            e1[k].max_energy as int,
        ),
        elapsed_us,
        share,
    )
}

/// The per-domain attribution of two snapshots.
pub open spec fn cpu_deltas(
    e1: Seq<RaplEnergy>,
    e2: Seq<RaplEnergy>,
    elapsed_us: int,
    share: int,
) -> Seq<RaplEnergyDelta> {
    Seq::new(
        e1.len(),
        |k: int|
            RaplEnergyDelta {
                socket: e1[k].socket,
                domain: e1[k].domain,
                name: e1[k].name,
                delta_energy: attributed_at(e1, e2, k, elapsed_us, share) as u128,
            },
    )
}

/// Reads the cumulative energy, in µJ, from the text of a counter file.
pub fn get_energy(text: &str) -> (r: Result<u64, EnergyError>)
    ensures
        match decimal_u64(trimmed(text@)) {
            Some(v) => r == Ok::<u64, EnergyError>(v),
            None => r == Err::<u64, EnergyError>(EnergyError::Io),
        },
{
    match parse_u64_text(text) {
        Some(v) => Ok(v),
        None => Err(EnergyError::Io),
    }
}

/// Turns one batch of counter file texts (`None` where a file could not be
/// read) into a snapshot of the registry. The batch fails as a whole with an
/// I/O error if any counter is unreadable, so that snapshots stay comparable.
pub fn get_all_energies(files: &Vec<RaplFile>, texts: &Vec<Option<String>>) -> (r: Result<
    Vec<RaplEnergy>,
    EnergyError,
>)
    requires
        texts@.len() == files@.len(),
    ensures
        r is Err <==> exists|k: int| 0 <= k < texts@.len() && #[trigger] reading_value(texts@[k]) is None,
        r is Err ==> r == Err::<Vec<RaplEnergy>, EnergyError>(EnergyError::Io),
        r is Ok ==> {
            let v = r->Ok_0@;
            &&& v.len() == files@.len()
            &&& forall|k: int|
                0 <= k < v.len() ==> reads(#[trigger] v[k], files@[k]) && Some(v[k].energy)
                    == reading_value(texts@[k])
        },
{
    let mut out: Vec<RaplEnergy> = Vec::new();
    let n = files.len();
    let mut i: usize = 0;
    while i < n
        invariant
            i <= n == files@.len() == texts@.len(),
            out@.len() == i,
            forall|k: int| 0 <= k < i ==> #[trigger] reading_value(texts@[k]) is Some,
            forall|k: int|
                0 <= k < i ==> reads(#[trigger] out@[k], files@[k]) && Some(out@[k].energy)
                    == reading_value(texts@[k]),
        decreases n - i,
    {
        let energy = match &texts[i] {
            Some(t) => match get_energy(t.as_str()) {
                Ok(v) => v,
                Err(e) => {
                    assert(reading_value(texts@[i as int]) is None);
                    return Err(e);
                },
            },
            None => {
                assert(reading_value(texts@[i as int]) is None);
                return Err(EnergyError::Io);
            },
        };
        let f = &files[i];
        out.push(
            RaplEnergy {
                socket: f.socket,
                domain: f.domain,
                name: f.name.clone(),
                energy,
                max_energy: f.max_energy,
            },
        );
        i = i + 1;
    }
    Ok(out)
}

/// Attributes the movement of every counter between two snapshots, taken
/// `elapsed_us` µs apart, to a process holding `cpu_share` of the CPU.
///
/// Each counter's movement is wraparound-corrected against the earlier
/// reading's range, turned into power, and scaled by the process's CPU share.
/// Memory and graphics rails are scaled by the CPU share as well: an
/// approximation, not a measurement of the process's own use of them.
/// Snapshots that do not read the same counters in the same order are an
/// attribution invariant error.
pub fn delta_cpu_energy_per_pid_w(
    energies_1: &Vec<RaplEnergy>,
    energies_2: &Vec<RaplEnergy>,
    elapsed_us: u64,
    cpu_share: u32,
) -> (r: Result<Vec<RaplEnergyDelta>, EnergyError>)
    requires
        elapsed_us > 0,
        cpu_share <= crate::attribution::FULL_SHARE,
    ensures
        r is Err <==> !same_shape(energies_1@, energies_2@),
        r is Err ==> r == Err::<Vec<RaplEnergyDelta>, EnergyError>(
            EnergyError::AttributionInvariant,
        ),
        r is Ok ==> r->Ok_0@ == cpu_deltas(
            energies_1@,
            energies_2@,
            elapsed_us as int,
            cpu_share as int,
        ),
        r is Ok ==> {
            let d = r->Ok_0@;
            &&& d.len() == energies_1@.len()
            &&& forall|k: int|
                0 <= k < d.len() ==> {
                    &&& (#[trigger] d[k]).socket == energies_1@[k].socket
                    &&& d[k].domain == energies_1@[k].domain
                    &&& d[k].name@ == energies_1@[k].name@
                    &&& d[k].delta_energy == attributed_at(
                        energies_1@,
                        energies_2@,
                        k,
                        elapsed_us as int,
                        cpu_share as int,
                    )
                }
        },
{
    let n = energies_1.len();
    if n != energies_2.len() {
        return Err(EnergyError::AttributionInvariant);
    }
    let mut out: Vec<RaplEnergyDelta> = Vec::new();
    let mut i: usize = 0;
    while i < n
        invariant
            i <= n == energies_1@.len() == energies_2@.len(),
            elapsed_us > 0,
            cpu_share <= crate::attribution::FULL_SHARE,
            out@.len() == i,
            forall|k: int| 0 <= k < i ==> same_counter(#[trigger] energies_1@[k], energies_2@[k]),
            forall|k: int|
                0 <= k < i ==> {
                    &&& (#[trigger] out@[k]).socket == energies_1@[k].socket
                    &&& out@[k].domain == energies_1@[k].domain
                    &&& out@[k].name == energies_1@[k].name
                    &&& out@[k].delta_energy == attributed_at(
                        energies_1@,
                        energies_2@,
                        k,
                        elapsed_us as int,
                        cpu_share as int,
                    )
                },
        decreases n - i,
    {
        let a = &energies_1[i];
        let b = &energies_2[i];
        if a.socket != b.socket || a.domain != b.domain || a.name != b.name {
            assert(!same_counter(energies_1@[i as int], energies_2@[i as int]));
            return Err(EnergyError::AttributionInvariant);
        }
        let delta = crate::attribution::wrap_correct(a.energy, b.energy, a.max_energy);
        let power = crate::attribution::attributed_power_uw(delta, elapsed_us, cpu_share);
        out.push(
            RaplEnergyDelta {
                socket: a.socket,
                domain: a.domain,
                name: a.name.clone(),
                delta_energy: power,
            },
        );
        i = i + 1;
    }
    assert(out@ =~= cpu_deltas(energies_1@, energies_2@, elapsed_us as int, cpu_share as int));
    Ok(out)
}

fn add_capped(acc: u128, v: u128) -> (r: u128)
    ensures
        r == cap(acc + v),
{
    if acc > u128::MAX - v {
        u128::MAX
    } else {
        acc + v
    }
}

/// Sums the attributed power of the CPU, memory and graphics domains across
/// sockets (saturating at the largest `u128`).
pub fn domain_totals(deltas: &Vec<RaplEnergyDelta>) -> (t: DomainTotals)
    ensures
        t.cpu == cap(total_of(deltas@, Domain::Cpu)),
        t.dram == cap(total_of(deltas@, Domain::Dram)),
        t.igpu == cap(total_of(deltas@, Domain::Igpu)),
{
    let mut t = DomainTotals { cpu: 0, dram: 0, igpu: 0 };
    let n = deltas.len();
    let mut i: usize = 0;
    while i < n
        invariant
            i <= n == deltas@.len(),
            t.cpu == cap(total_of(deltas@.subrange(0, i as int), Domain::Cpu)),
            t.dram == cap(total_of(deltas@.subrange(0, i as int), Domain::Dram)),
            t.igpu == cap(total_of(deltas@.subrange(0, i as int), Domain::Igpu)),
        decreases n - i,
    {
        let d = &deltas[i];
        let ghost pre = deltas@.subrange(0, i as int);
        let ghost next = deltas@.subrange(0, i + 1);
        assert(next.drop_last() =~= pre);
        proof {
            lemma_total_nonneg(pre, Domain::Cpu);
            lemma_total_nonneg(pre, Domain::Dram);
            lemma_total_nonneg(pre, Domain::Igpu);
        }
        match d.domain {
            Domain::Cpu => {
                t.cpu = add_capped(t.cpu, d.delta_energy);
            },
            Domain::Dram => {
                t.dram = add_capped(t.dram, d.delta_energy);
            },
            Domain::Igpu => {
                t.igpu = add_capped(t.igpu, d.delta_energy);
            },
            Domain::Unknown => {},
        }
        i = i + 1;
    }
    assert(deltas@.subrange(0, n as int) =~= deltas@);
    t
}

pub proof fn lemma_total_nonneg(d: Seq<RaplEnergyDelta>, dom: Domain)
    ensures
        total_of(d, dom) >= 0,
    decreases d.len(),
{
    if d.len() > 0 {
        lemma_total_nonneg(d.drop_last(), dom);
    }
}

} // verus!
