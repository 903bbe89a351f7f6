//! The randomized RTCP transmission interval, in integer microseconds.
use vstd::prelude::*;

verus! {

/// Fixed-point scale of the average packet size: sizes are kept in 1/256 octet.
pub const SIZE_SCALE: u64 = 256;

/// Microseconds in one second.
pub const MICROS_PER_SEC: u64 = 1000000;

/// Minimum deterministic interval before the first transmission (2.5 s).
pub const T_MIN_INITIAL: u64 = 2500000;

/// Minimum deterministic interval once a packet was sent (5 s).
pub const T_MIN_STEADY: u64 = 5000000;

/// Largest representable interval or timestamp, in microseconds (`i64::MAX`).
pub const MAX_MICROS: u64 = 9223372036854775807;

/// The largest random sample; a sample `s` stands for the fraction `s / SAMPLE_MAX` of `[0, 1]`.
pub const SAMPLE_MAX: u64 = 4294967295;

/// The compensation factor `e - 3/2 = 1.21828` is `COMP_DEN / COMP_NUM`.
pub const COMP_NUM: u64 = 100000;

/// See `COMP_NUM`.
pub const COMP_DEN: u64 = 121828;

/// Largest packet size in octets that the session accounts for.
pub const MAX_PACKET_SIZE: u64 = 4294967295;

/// Bound on the member and sender counts (one per 32-bit identifier, plus the local sender).
pub const MAX_COUNT: u64 = 8589934592;

pub open spec fn min_int(a: int, b: int) -> int {
    if a <= b { a } else { b }
}

pub open spec fn max_int(a: int, b: int) -> int {
    if a >= b { a } else { b }
}

/// Few senders: senders hold at most a quarter of the membership.
pub open spec fn few_senders(senders: int, members: int) -> bool {
    4 * senders <= members
}

/// `C' * n` of the RTCP interval rule, in microseconds (rounded down), for an average
/// compound packet size `avg` in 1/256 octet and a control bandwidth `bw` in octets/s.
pub open spec fn c_times_n(senders: int, members: int, we_sent: bool, avg: int, bw: int) -> int {
    if few_senders(senders, members) && we_sent {
        (avg * MICROS_PER_SEC * senders) / (4 * SIZE_SCALE * bw)
    } else if few_senders(senders, members) {
        (avg * MICROS_PER_SEC * 3 * (members - senders)) / (4 * SIZE_SCALE * bw)
    } else {
        (avg * MICROS_PER_SEC * members) / (SIZE_SCALE * bw)
    }
}

/// The floor `t_min` of the deterministic interval.
pub open spec fn t_min(initial: bool) -> int {
    if initial { T_MIN_INITIAL as int } else { T_MIN_STEADY as int }
}

/// The deterministic interval `t_d = max(t_min, C' * n)`.
pub open spec fn t_d(senders: int, members: int, we_sent: bool, avg: int, bw: int, initial: bool) -> int {
    max_int(t_min(initial), c_times_n(senders, members, we_sent, avg, bw))
}

/// The randomized interval `(0.5 * t_d + u * t_d) / 1.21828`, with `u = sample / SAMPLE_MAX`,
/// rounded down and clamped to `MAX_MICROS`.
pub open spec fn randomized(td: int, sample: int) -> int {
    min_int(
        MAX_MICROS as int,
        (td * (SAMPLE_MAX + 2 * sample) * COMP_NUM) / (2 * SAMPLE_MAX * COMP_DEN),
    )
}

/// Past three times the largest interval, even the smallest sample gives more than it.
proof fn lemma_huge_td_clamps(td: int, sample: int)
    requires
        td > 3 * MAX_MICROS,
        0 <= sample <= SAMPLE_MAX,
    ensures
        randomized(td, sample) == MAX_MICROS,
{
    let m = SAMPLE_MAX as int;
    let w = m + 2 * sample;
    let num = td * w * COMP_NUM;
    let den = 2 * SAMPLE_MAX * COMP_DEN;
    assert(num >= MAX_MICROS * den) by (nonlinear_arith)
        requires
            num == td * w * 100000,
            den == 2 * m * 121828,
            td > 3 * 9223372036854775807,
            w >= m,
            m > 0,
    ;
    vstd::arithmetic::div_mod::lemma_div_is_ordered(MAX_MICROS * den, num, den);
    vstd::arithmetic::div_mod::lemma_div_by_multiple(MAX_MICROS as int, den);
}

/// Computes the deterministic interval `t_d` in microseconds.
pub fn deterministic_interval(
    senders: u64,
    members: u64,
    we_sent: bool,
    avg: u64,
    bw: u32,
    initial: bool,
) -> (r: u128)
    requires
        bw > 0,
        senders <= MAX_COUNT,
        members <= MAX_COUNT,
        avg <= MAX_PACKET_SIZE * SIZE_SCALE,
    ensures
        r == t_d(senders as int, members as int, we_sent, avg as int, bw as int, initial),
{
    let few: bool = 4 * (senders as u128) <= members as u128;
    // avg * MICROS_PER_SEC
    let a: u128 = avg as u128 * 1000000;
    assert(a <= 0x1_0000_0000 * 256 * 1000000) by (nonlinear_arith)
        requires a == avg * 1000000, avg <= 0x1_0000_0000 * 256;
    let ctn: u128 = if few && we_sent {
        assert(a * senders <= 0x1_0000_0000 * 256 * 1000000 * 0x2_0000_0000) by (nonlinear_arith)
            requires a <= 0x1_0000_0000 * 256 * 1000000, senders <= 0x2_0000_0000;
        // 4 * SIZE_SCALE * bw
        let d: u128 = 1024 * (bw as u128);
        (a * senders as u128) / d
    } else if few {
        let n: u128 = (members - senders) as u128;
        assert(a * 3 * n <= 0x1_0000_0000 * 256 * 1000000 * 3 * 0x2_0000_0000) by (nonlinear_arith)
            requires a <= 0x1_0000_0000 * 256 * 1000000, n <= 0x2_0000_0000;
        // 4 * SIZE_SCALE * bw
        let d: u128 = 1024 * (bw as u128);
        (a * 3 * n) / d
    } else {
        assert(a * members <= 0x1_0000_0000 * 256 * 1000000 * 0x2_0000_0000) by (nonlinear_arith)
            requires a <= 0x1_0000_0000 * 256 * 1000000, members <= 0x2_0000_0000;
        // SIZE_SCALE * bw
        let d: u128 = 256 * (bw as u128);
        (a * members as u128) / d
    };
    let tmin: u128 = if initial { T_MIN_INITIAL as u128 } else { T_MIN_STEADY as u128 };
    if ctn >= tmin { ctn } else { tmin }
}

/// Draws the randomized interval from a deterministic interval `td` and a sample.
pub fn randomized_interval(td: u128, sample: u32) -> (r: i64)
    ensures
        r == randomized(td as int, sample as int),
        0 <= r,
{
    if td > 3 * MAX_MICROS as u128 {
        proof {
            lemma_huge_td_clamps(td as int, sample as int);
        }
        return MAX_MICROS as i64;
    }
    let w: u128 = SAMPLE_MAX as u128 + 2 * sample as u128;
    assert(td * w <= 0x1_8000_0000_0000_0000 * 0x3_0000_0000) by (nonlinear_arith)
        requires td <= 0x1_8000_0000_0000_0000, w <= 0x3_0000_0000;
    let tw: u128 = td * w;
    let num: u128 = tw * 100000;
    // 2 * SAMPLE_MAX * COMP_DEN
    let q: u128 = num / 1046494551230520;
    if q <= MAX_MICROS as u128 { q as i64 } else { MAX_MICROS as i64 }
}

} // verus!
