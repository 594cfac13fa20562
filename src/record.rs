//! The measurement record handed to the sinks, one per sampling tick.
use vstd::prelude::*;
use vstd::string::*;
use crate::attribution::FULL_SHARE;
use crate::decimal::{
    all_digits, all_digits_in, decimal_value, digits_in_u128, digits_value, lemma_value_nonneg,
};
use crate::render::{
    dec_text, decimal_text, fixed_point_text, fixed_text, lemma_dec_text, lemma_digits_of,
    lemma_pow10_positive, pow10, signed_decimal_text, signed_text, digits_of,
};

verus! {

/// One emitted measurement. Usage fields are in hundredths of a percent
/// (`0..=10_000`), power fields in µW.
#[derive(Clone, Debug, PartialEq, Eq)]
pub struct Record {
    /// The tick's iteration number, counting from 1.
    pub id: u64,
    pub run_id: i64,
    pub pid: u32,
    /// RFC 3339 UTC timestamp of the tick.
    pub timestamp: String,
    pub cpu_usage: u32,
    pub cpu_energy: u128,
    pub gpu_usage: u32,
    pub gpu_energy: u128,
    pub mem_usage: u32,
    pub mem_energy: u128,
    pub igpu_usage: u32,
    pub igpu_energy: u128,
}

impl Record {
    /// Every usage field lies within 0..=100%.
    pub open spec fn wf(&self) -> bool {
        &&& self.cpu_usage <= FULL_SHARE
        &&& self.gpu_usage <= FULL_SHARE
        &&& self.mem_usage <= FULL_SHARE
        &&& self.igpu_usage <= FULL_SHARE
    }

    /// Builds a record; a memory or integrated-graphics field that is not
    /// available is recorded as 0.
    pub fn new(
        id: u64,
        run_id: i64,
        pid: u32,
        timestamp: String,
        cpu_usage: u32,
        cpu_energy: u128,
        gpu_usage: u32,
        gpu_energy: u128,
        mem_usage: Option<u32>,
        mem_energy: Option<u128>,
        igpu_usage: Option<u32>,
        igpu_energy: Option<u128>,
    ) -> (r: Record)
        ensures
            r.id == id,
            r.run_id == run_id,
            r.pid == pid,
            r.timestamp == timestamp,
            r.cpu_usage == cpu_usage,
            r.cpu_energy == cpu_energy,
            r.gpu_usage == gpu_usage,
            r.gpu_energy == gpu_energy,
            r.mem_usage == (match mem_usage { Some(v) => v, None => 0 }),
            r.mem_energy == (match mem_energy { Some(v) => v, None => 0 }),
            r.igpu_usage == (match igpu_usage { Some(v) => v, None => 0 }),
            r.igpu_energy == (match igpu_energy { Some(v) => v, None => 0 }),
    {
        Record {
            id,
            run_id,
            pid,
            timestamp,
            cpu_usage,
            cpu_energy,
            gpu_usage,
            gpu_energy,
            mem_usage: match mem_usage {
                Some(v) => v,
                None => 0,
            },
            mem_energy: match mem_energy {
                Some(v) => v,
                None => 0,
            },
            igpu_usage: match igpu_usage {
                Some(v) => v,
                None => 0,
            },
            igpu_energy: match igpu_energy {
                Some(v) => v,
                None => 0,
            },
        }
    }
}

} // verus!

verus! {

/// The value of fixed-point text with `k` decimals, in units of `10^-k`:
/// digits, a point, then exactly `k` digits.
pub open spec fn fixed_value(s: Seq<char>, k: nat) -> Option<int> {
    let n = s.len() as int;
    if n >= k + 2 && s[n - k - 1] == '.' && decimal_value(s.subrange(0, n - k - 1)) is Some
        && all_digits(s.subrange(n - k, n)) {
        Some(
            decimal_value(s.subrange(0, n - k - 1))->Some_0 * pow10(k) + digits_value(
                s.subrange(n - k, n),
            ),
        )
    } else {
        None
    }
}

/// The value of decimal text with an optional leading `-`.
pub open spec fn signed_value(s: Seq<char>) -> Option<int> {
    if s.len() > 0 && s[0] == '-' {
        match decimal_value(s.drop_first()) {
            Some(v) => Some(-v),
            None => None,
        }
    } else {
        decimal_value(s)
    }
}

/// `o`, kept only where it lies in `lo..=hi`.
pub open spec fn within(o: Option<int>, lo: int, hi: int) -> Option<int> {
    match o {
        Some(v) => if lo <= v <= hi {
            Some(v)
        } else {
            None
        },
        None => None,
    }
}

/// The text fields of `r`, in column order: id, run id, pid, timestamp, then
/// usage (percent, two decimals) and power (watts, six decimals) for the CPU,
/// the accelerator, memory and integrated graphics.
pub open spec fn renders(r: Record, f: Seq<String>) -> bool {
    &&& f.len() == 12
    &&& f[0]@ == dec_text(r.id as nat)
    &&& f[1]@ == signed_text(r.run_id as int)
    &&& f[2]@ == dec_text(r.pid as nat)
    &&& f[3] == r.timestamp
    &&& f[4]@ == fixed_text(r.cpu_usage as nat, 2)
    &&& f[5]@ == fixed_text(r.cpu_energy as nat, 6)
    &&& f[6]@ == fixed_text(r.gpu_usage as nat, 2)
    &&& f[7]@ == fixed_text(r.gpu_energy as nat, 6)
    &&& f[8]@ == fixed_text(r.mem_usage as nat, 2)
    &&& f[9]@ == fixed_text(r.mem_energy as nat, 6)
    &&& f[10]@ == fixed_text(r.igpu_usage as nat, 2)
    &&& f[11]@ == fixed_text(r.igpu_energy as nat, 6)
}

/// The record that text fields describe, when each one reads as a value of
/// its column's type.
pub open spec fn parse_record(f: Seq<String>) -> Option<Record> {
    if f.len() == 12 && within(decimal_value(f[0]@), 0, u64::MAX as int) is Some && within(
        signed_value(f[1]@),
        i64::MIN as int,
        i64::MAX as int,
    ) is Some && within(decimal_value(f[2]@), 0, u32::MAX as int) is Some && within(
        fixed_value(f[4]@, 2),
        0,
        u32::MAX as int,
    ) is Some && within(fixed_value(f[5]@, 6), 0, u128::MAX as int) is Some && within(
        fixed_value(f[6]@, 2),
        0,
        u32::MAX as int,
    ) is Some && within(fixed_value(f[7]@, 6), 0, u128::MAX as int) is Some && within(
        fixed_value(f[8]@, 2),
        0,
        u32::MAX as int,
    ) is Some && within(fixed_value(f[9]@, 6), 0, u128::MAX as int) is Some && within(
        fixed_value(f[10]@, 2),
        0,
        u32::MAX as int,
    ) is Some && within(fixed_value(f[11]@, 6), 0, u128::MAX as int) is Some {
        Some(
            Record {
                id: decimal_value(f[0]@)->Some_0 as u64,
                run_id: signed_value(f[1]@)->Some_0 as i64,
                pid: decimal_value(f[2]@)->Some_0 as u32,
                timestamp: f[3],
                cpu_usage: fixed_value(f[4]@, 2)->Some_0 as u32,
                cpu_energy: fixed_value(f[5]@, 6)->Some_0 as u128,
                gpu_usage: fixed_value(f[6]@, 2)->Some_0 as u32,
                gpu_energy: fixed_value(f[7]@, 6)->Some_0 as u128,
                mem_usage: fixed_value(f[8]@, 2)->Some_0 as u32,
                mem_energy: fixed_value(f[9]@, 6)->Some_0 as u128,
                igpu_usage: fixed_value(f[10]@, 2)->Some_0 as u32,
                igpu_energy: fixed_value(f[11]@, 6)->Some_0 as u128,
            },
        )
    } else {
        None
    }
}

pub proof fn lemma_fixed_round_trip(n: nat, k: nat)
    ensures
        fixed_value(fixed_text(n, k), k) == Some(n as int),
{
    let p = pow10(k);
    lemma_pow10_positive(k);
    let q = n / p;
    let m = n % p;
    let a = dec_text(q);
    let b = digits_of(m, k);
    lemma_dec_text(q);
    lemma_digits_of(m, k);
    let s = fixed_text(n, k);
    let len = s.len() as int;
    assert(s =~= a + seq!['.'] + b);
    assert(len == a.len() + 1 + k);
    assert(s[len - k - 1] == '.');
    assert(s.subrange(0, len - k - 1) =~= a);
    assert(s.subrange(len - k, len) =~= b);
    vstd::arithmetic::div_mod::lemma_mod_pos_bound(n as int, p as int);
    vstd::arithmetic::div_mod::lemma_small_mod(m, p);
    vstd::arithmetic::div_mod::lemma_fundamental_div_mod(n as int, p as int);
    assert(decimal_value(s.subrange(0, len - k - 1)) == Some(q as int));
    assert(digits_value(s.subrange(len - k, len)) == m);
    assert(q * p + m == n) by (nonlinear_arith)
        requires n == p * q + m;
}

pub proof fn lemma_signed_round_trip(v: int)
    ensures
        signed_value(signed_text(v)) == Some(v),
{
    if v < 0 {
        let t = dec_text((-v) as nat);
        lemma_dec_text((-v) as nat);
        assert((seq!['-'] + t).drop_first() =~= t);
    } else {
        lemma_dec_text(v as nat);
        assert(dec_text(v as nat)[0] != '-');
    }
}

/// Writing a record's fields as text and reading them back gives the same
/// record: every field is kept exactly, at the declared precision of
/// hundredths of a percent and microwatts.
pub proof fn lemma_record_round_trip(r: Record, f: Seq<String>)
    requires
        renders(r, f),
    ensures
        parse_record(f) == Some(r),
{
    lemma_dec_text(r.id as nat);
    lemma_signed_round_trip(r.run_id as int);
    lemma_dec_text(r.pid as nat);
    lemma_fixed_round_trip(r.cpu_usage as nat, 2);
    lemma_fixed_round_trip(r.cpu_energy as nat, 6);
    lemma_fixed_round_trip(r.gpu_usage as nat, 2);
    lemma_fixed_round_trip(r.gpu_energy as nat, 6);
    lemma_fixed_round_trip(r.mem_usage as nat, 2);
    lemma_fixed_round_trip(r.mem_energy as nat, 6);
    lemma_fixed_round_trip(r.igpu_usage as nat, 2);
    lemma_fixed_round_trip(r.igpu_energy as nat, 6);
}

/// Reads fixed-point text with `k` decimals (`k` is 2 or 6) as a count of
/// units of `10^-k`.
pub fn parse_fixed(s: &str, k: usize) -> (r: Option<u128>)
    requires
        k == 2 || k == 6,
    ensures
        match within(fixed_value(s@, k as nat), 0, u128::MAX as int) {
            Some(v) => r == Some(v as u128),
            None => r is None,
        },
{
    let unit: u128 = if k == 2 {
        100
    } else {
        1_000_000
    };
    assert(pow10(2) == 100) by {
        reveal_with_fuel(pow10, 3);
    }
    assert(pow10(6) == 1_000_000) by {
        reveal_with_fuel(pow10, 7);
    }
    let n = s.unicode_len();
    if n < k + 2 {
        return None;
    }
    if s.get_char(n - k - 1) != '.' {
        return None;
    }
    if !all_digits_in(s, 0, n - k - 1) || !all_digits_in(s, n - k, n) {
        return None;
    }
    let ghost ip = s@.subrange(0, n - k - 1);
    let ghost fp = s@.subrange(n - k, n as int);
    proof {
        lemma_value_nonneg(ip);
        lemma_value_nonneg(fp);
    }
    let whole = match digits_in_u128(s, 0, n - k - 1) {
        Some(w) => w,
        None => {
            assert(digits_value(ip) * pow10(k as nat) >= digits_value(ip)) by (nonlinear_arith)
                requires digits_value(ip) >= 0, pow10(k as nat) >= 1;
            return None;
        },
    };
    let frac = match digits_in_u128(s, n - k, n) {
        Some(f) => f,
        None => {
            assert(digits_value(ip) * pow10(k as nat) >= 0) by (nonlinear_arith)
                requires digits_value(ip) >= 0, pow10(k as nat) >= 1;
            return None;
        },
    };
    let lim: u128 = (u128::MAX - frac) / unit;
    let ghost room: int = u128::MAX - frac;
    proof {
        vstd::arithmetic::div_mod::lemma_fundamental_div_mod(room, unit as int);
    }
    if whole > lim {
        assert(whole * unit + frac > u128::MAX) by (nonlinear_arith)
            requires
                whole >= lim + 1,
                room == unit * lim + room % (unit as int),
                room % (unit as int) < unit,
                room == u128::MAX - frac,
        ;
        return None;
    }
    assert(whole * unit + frac <= u128::MAX) by (nonlinear_arith)
        requires
            whole <= lim,
            room == unit * lim + room % (unit as int),
            room % (unit as int) >= 0,
            room == u128::MAX - frac,
    ;
    Some(whole * unit + frac)
}

/// Reads decimal text with an optional leading `-` as an `i64`.
pub fn parse_signed(s: &str) -> (r: Option<i64>)
    ensures
        match within(signed_value(s@), i64::MIN as int, i64::MAX as int) {
            Some(v) => r == Some(v as i64),
            None => r is None,
        },
{
    let n = s.unicode_len();
    if n > 0 && s.get_char(0) == '-' {
        assert(s@.subrange(1, n as int) =~= s@.drop_first());
        proof {
            if all_digits(s@.drop_first()) {
                lemma_value_nonneg(s@.drop_first());
            }
        }
        match digits_in_u128(s, 1, n) {
            Some(v) => if v <= 0x8000_0000_0000_0000u128 {
                Some((0i128 - v as i128) as i64)
            } else {
                None
            },
            None => None,
        }
    } else {
        assert(s@.subrange(0, n as int) =~= s@);
        proof {
            if all_digits(s@) {
                lemma_value_nonneg(s@);
            }
        }
        match digits_in_u128(s, 0, n) {
            Some(v) => if v <= i64::MAX as u128 {
                Some(v as i64)
            } else {
                None
            },
            None => None,
        }
    }
}

/// Reads decimal text as an unsigned number of at most `max`.
pub fn parse_unsigned(s: &str, max: u128) -> (r: Option<u128>)
    ensures
        match within(decimal_value(s@), 0, max as int) {
            Some(v) => r == Some(v as u128),
            None => r is None,
        },
{
    let n = s.unicode_len();
    assert(s@.subrange(0, n as int) =~= s@);
    proof {
        if all_digits(s@) {
            lemma_value_nonneg(s@);
        }
    }
    match digits_in_u128(s, 0, n) {
        Some(v) => if v <= max {
            Some(v)
        } else {
            None
        },
        None => None,
    }
}

impl Record {
    /// The record's fields as text, in column order (see `renders`).
    pub fn to_vec(&self) -> (v: Vec<String>)
        ensures
            renders(*self, v@),
    {
        let mut v: Vec<String> = Vec::new();
        v.push(decimal_text(self.id as u128));
        v.push(signed_decimal_text(self.run_id));
        v.push(decimal_text(self.pid as u128));
        v.push(self.timestamp.clone());
        v.push(fixed_point_text(self.cpu_usage as u128, 2));
        v.push(fixed_point_text(self.cpu_energy, 6));
        v.push(fixed_point_text(self.gpu_usage as u128, 2));
        v.push(fixed_point_text(self.gpu_energy, 6));
        v.push(fixed_point_text(self.mem_usage as u128, 2));
        v.push(fixed_point_text(self.mem_energy, 6));
        v.push(fixed_point_text(self.igpu_usage as u128, 2));
        v.push(fixed_point_text(self.igpu_energy, 6));
        v
    }

    /// Reads a record back from its text fields; `None` when there are not
    /// twelve fields or one of them is not a value of its column's type.
    pub fn from_fields(f: &Vec<String>) -> (r: Option<Record>)
        ensures
            r == parse_record(f@),
    {
        if f.len() != 12 {
            return None;
        }
        let id = match parse_unsigned(f[0].as_str(), u64::MAX as u128) {
            Some(v) => v as u64,
            None => {
                return None;
            },
        };
        let run_id = match parse_signed(f[1].as_str()) {
            Some(v) => v,
            None => {
                return None;
            },
        };
        let pid = match parse_unsigned(f[2].as_str(), u32::MAX as u128) {
            Some(v) => v as u32,
            None => {
                return None;
            },
        };
        let cpu_usage = match parse_fixed(f[4].as_str(), 2) {
            Some(v) => if v <= u32::MAX as u128 {
                v as u32
            } else {
                return None;
            },
            None => {
                return None;
            },
        };
        let cpu_energy = match parse_fixed(f[5].as_str(), 6) {
            Some(v) => v,
            None => {
                return None;
            },
        };
        let gpu_usage = match parse_fixed(f[6].as_str(), 2) {
            Some(v) => if v <= u32::MAX as u128 {
                v as u32
            } else {
                return None;
            },
            None => {
                return None;
            },
        };
        let gpu_energy = match parse_fixed(f[7].as_str(), 6) {
            Some(v) => v,
            None => {
                return None;
            },
        };
        let mem_usage = match parse_fixed(f[8].as_str(), 2) {
            Some(v) => if v <= u32::MAX as u128 {
                v as u32
            } else {
                return None;
            },
            None => {
                return None;
            },
        };
        let mem_energy = match parse_fixed(f[9].as_str(), 6) {
            Some(v) => v,
            None => {
                return None;
            },
        };
        let igpu_usage = match parse_fixed(f[10].as_str(), 2) {
            Some(v) => if v <= u32::MAX as u128 {
                v as u32
            } else {
                return None;
            },
            None => {
                return None;
            },
        };
        let igpu_energy = match parse_fixed(f[11].as_str(), 6) {
            Some(v) => v,
            None => {
                return None;
            },
        };
        Some(
            Record {
                id,
                run_id,
                pid,
                timestamp: f[3].clone(),
                cpu_usage,
                cpu_energy,
                gpu_usage,
                gpu_energy,
                mem_usage,
                mem_energy,
                igpu_usage,
                igpu_energy,
            },
        )
    }
}

} // verus!
