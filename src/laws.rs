//! Properties of the session model that hold across calls and inputs.
use vstd::prelude::*;
use crate::Ssrc;
use crate::Csrc;
use crate::interval::{
    min_int, t_d, t_min, COMP_DEN, COMP_NUM, MAX_MICROS, SAMPLE_MAX, SIZE_SCALE,
};
use crate::session::{counted_ids, ewma, scaled, MemberState, PacketType, State, StateView};

verus! {

/// The randomized interval never falls below half the floor `t_min`, compensated, nor
/// exceeds one and a half times the deterministic interval `t_d`, compensated (both rounded
/// down, with `t_d` and the result clamped to the largest interval).
pub proof fn lemma_interval_bounds(s: StateView, sample: u32)
    requires
        s.wf(),
    ensures
        (t_min(s.initial) * COMP_NUM) / (2 * COMP_DEN) <= s.interval(sample as int),
        s.interval(sample as int) <= min_int(
            MAX_MICROS as int,
            (t_d(s.senders, s.members, s.we_sent, s.avg_rtcp_size, s.rtcp_bw, s.initial) * 3 * COMP_NUM)
                / (2 * COMP_DEN),
        ),
{
    let td = t_d(s.senders, s.members, s.we_sent, s.avg_rtcp_size, s.rtcp_bw, s.initial);
    let tdc = td;
    let tm = t_min(s.initial);
    let m = SAMPLE_MAX as int;
    let n = COMP_NUM as int;
    let d2 = 2 * COMP_DEN as int;
    let w = m + 2 * sample;
    assert(tm <= tdc);
    assert(m <= w <= 3 * m);
    let num = tdc * w * n;
    assert(tm * n * m <= num) by (nonlinear_arith)
        requires num == tdc * w * n, tm <= tdc, m <= w, 0 <= tm, n >= 0, m >= 0;
    assert(num <= tdc * 3 * n * m) by (nonlinear_arith)
        requires num == tdc * w * n, w <= 3 * m, 0 <= tdc, n >= 0;
    assert(d2 * m == 2 * SAMPLE_MAX * COMP_DEN);
    vstd::arithmetic::div_mod::lemma_div_is_ordered(tm * n * m, num, m * d2);
    vstd::arithmetic::div_mod::lemma_div_is_ordered(num, tdc * 3 * n * m, m * d2);
    vstd::arithmetic::div_mod::lemma_div_denominator(tm * n * m, m, d2);
    vstd::arithmetic::div_mod::lemma_div_denominator(tdc * 3 * n * m, m, d2);
    vstd::arithmetic::div_mod::lemma_div_by_multiple(tm * n, m);
    vstd::arithmetic::div_mod::lemma_div_by_multiple(tdc * 3 * n, m);
    assert(m * d2 == d2 * m) by (nonlinear_arith);
    assert(tdc * (SAMPLE_MAX + 2 * sample) * COMP_NUM == num);
    assert((tm * COMP_NUM) / (2 * COMP_DEN) <= MAX_MICROS);
}

/// Seeing an identifier keeps the status of every member that already has one, and
/// never changes the average packet size.
proof fn lemma_touch_all_keeps(s: StateView, ids: Seq<Csrc>, k: Ssrc)
    requires
        s.table.contains_key(k),
        s.table[k].status is Some,
    ensures
        s.touch_all(ids).table.contains_key(k),
        s.touch_all(ids).table[k].status == s.table[k].status,
        s.touch_all(ids).avg_rtcp_size == s.avg_rtcp_size,
        s.touch_all(ids).our_ssrc == s.our_ssrc,
    decreases ids.len(),
{
    if ids.len() > 0 {
        lemma_touch_all_keeps(s, ids.drop_last(), k);
    }
}

/// While the local participant is listed as listening, it is a member that is not among
/// the media senders of the table, so `0 <= senders <= members`.
pub proof fn lemma_senders_within_members(s: StateView)
    requires
        s.wf(),
        s.table[s.our_ssrc].status == Some(MemberState::Listening),
    ensures
        0 <= s.senders <= s.members,
{
    let v = counted_ids(s.table, false);
    let snd = counted_ids(s.table, true);
    vstd::set_lib::lemma_len_subset(v, s.table.dom());
    assert(snd.subset_of(v.remove(s.our_ssrc)));
    vstd::set_lib::lemma_len_subset(snd, v.remove(s.our_ssrc));
}

/// A received packet keeps `0 <= senders <= members`, and the local participant listening,
/// unless it is a Bye that carries the local identifier.
pub proof fn lemma_receive_keeps_senders_within_members(
    before: State,
    after: State,
    packet_type: PacketType,
    size: int,
    ssrc: Ssrc,
    csrcs: Seq<Csrc>,
    now: int,
)
    requires
        before.wf(),
        after.wf(),
        before@.table[before@.our_ssrc].status == Some(MemberState::Listening),
        after@ == before@.received(packet_type, size, ssrc, csrcs, now),
        !(packet_type == PacketType::Bye && ssrc == before@.our_ssrc),
    ensures
        after@.table[after@.our_ssrc].status == Some(MemberState::Listening),
        0 <= after@.senders <= after@.members,
{
    let s0 = StateView { tc: now, ..before@ };
    let me = before@.our_ssrc;
    match packet_type {
        PacketType::Bye => {
            assert(s0.bye(ssrc).table[me] == s0.table[me]);
        },
        PacketType::Rtp => {
            assert(s0.touch(ssrc, true).table[me].status == s0.table[me].status);
            lemma_touch_all_keeps(s0.touch(ssrc, true), csrcs, me);
        },
        _ => {
            assert(s0.touch(ssrc, false).table[me].status == s0.table[me].status);
            lemma_touch_all_keeps(s0.touch(ssrc, false), csrcs, me);
        },
    }
    lemma_senders_within_members(after@);
}

/// A sent packet keeps `0 <= senders <= members` and the local participant listening.
pub proof fn lemma_send_keeps_senders_within_members(
    before: State,
    after: State,
    packet_type: Option<PacketType>,
    size: int,
    our_ssrc: Ssrc,
    now: int,
)
    requires
        before.wf(),
        after.wf(),
        before@.table[before@.our_ssrc].status == Some(MemberState::Listening),
        before@.table.contains_key(our_ssrc),
        after@ == before@.sent(packet_type, size, our_ssrc, now),
    ensures
        after@.table[after@.our_ssrc].status == Some(MemberState::Listening),
        0 <= after@.senders <= after@.members,
{
    lemma_senders_within_members(after@);
}

/// A timer expiry keeps `0 <= senders <= members` and the local participant listening.
pub proof fn lemma_timer_keeps_senders_within_members(
    before: State,
    after: State,
    send: bool,
    now: int,
    sample: int,
    resample: int,
)
    requires
        before.wf(),
        after.wf(),
        before@.table[before@.our_ssrc].status == Some(MemberState::Listening),
        (after@, send) == before@.timer_expired(now, sample, resample),
    ensures
        after@.table[after@.our_ssrc].status == Some(MemberState::Listening),
        0 <= after@.senders <= after@.members,
{
    lemma_senders_within_members(after@);
}

/// Media from an identifier never seen before validates it as sending and counts it once
/// as member and sender; more media from it before any Bye changes neither count.
pub proof fn lemma_media_validates_once(
    s: StateView,
    ssrc: Ssrc,
    size: int,
    now: int,
    next_size: int,
    next_now: int,
)
    requires
        s.wf(),
        !s.table.contains_key(ssrc),
    ensures
        ({
            let s1 = s.received(PacketType::Rtp, size, ssrc, Seq::empty(), now);
            let s2 = s1.received(PacketType::Rtp, next_size, ssrc, Seq::empty(), next_now);
            &&& s1.table[ssrc].status == Some(MemberState::Sending)
            &&& s1.members == s.members + 1
            &&& s1.senders == s.senders + 1
            &&& s2.table[ssrc].status == Some(MemberState::Sending)
            &&& s2.members == s1.members
            &&& s2.senders == s1.senders
        }),
{
}

/// A Bye from a member that was never validated leaves both counts unchanged.
pub proof fn lemma_bye_of_unvalidated(s: StateView, size: int, ssrc: Ssrc, csrcs: Seq<Csrc>, now: int)
    requires
        s.table.contains_key(ssrc),
        s.table[ssrc].status is None,
    ensures
        s.received(PacketType::Bye, size, ssrc, csrcs, now).members == s.members,
        s.received(PacketType::Bye, size, ssrc, csrcs, now).senders == s.senders,
{
}

/// Reverse reconsideration moves `tp` and `tn` only when `members < pmembers`.
pub proof fn lemma_reconsideration_only_on_shrink(s: StateView)
    ensures
        s.members >= s.pmembers ==> s.reconsidered().tp == s.tp && s.reconsidered().tn == s.tn
            && s.reconsidered().pmembers == s.pmembers,
        s.members < s.pmembers ==> s.reconsidered().pmembers == s.members,
{
}

/// Feeding a packet size equal to the current average keeps the average.
pub proof fn lemma_same_size_keeps_average(
    s: StateView,
    packet_type: PacketType,
    sent_type: Option<PacketType>,
    size: int,
    ssrc: Ssrc,
    csrcs: Seq<Csrc>,
    now: int,
)
    requires
        s.wf(),
        s.avg_rtcp_size == size * SIZE_SCALE,
    ensures
        s.received(packet_type, size, ssrc, csrcs, now).avg_rtcp_size == s.avg_rtcp_size,
        s.sent(sent_type, size, s.our_ssrc, now).avg_rtcp_size == s.avg_rtcp_size,
        ewma(s.avg_rtcp_size, size) == s.avg_rtcp_size,
{
    let s0 = StateView { tc: now, ..s };
    match packet_type {
        PacketType::Bye => {},
        PacketType::Rtp => {
            lemma_touch_all_keeps_average(s0.touch(ssrc, true), csrcs);
        },
        _ => {
            lemma_touch_all_keeps_average(s0.touch(ssrc, false), csrcs);
        },
    }
}

proof fn lemma_touch_all_keeps_average(s: StateView, ids: Seq<Csrc>)
    ensures
        s.touch_all(ids).avg_rtcp_size == s.avg_rtcp_size,
    decreases ids.len(),
{
    if ids.len() > 0 {
        lemma_touch_all_keeps_average(s, ids.drop_last());
    }
}

/// A positive average packet size stays positive after any received or sent packet.
pub proof fn lemma_average_stays_positive(
    s: StateView,
    packet_type: PacketType,
    sent_type: Option<PacketType>,
    size: int,
    ssrc: Ssrc,
    csrcs: Seq<Csrc>,
    now: int,
)
    requires
        s.avg_rtcp_size > 0,
        size >= 0,
    ensures
        s.received(packet_type, size, ssrc, csrcs, now).avg_rtcp_size > 0,
        s.sent(sent_type, size, s.our_ssrc, now).avg_rtcp_size > 0,
{
    let s0 = StateView { tc: now, ..s };
    match packet_type {
        PacketType::Bye => {},
        PacketType::Rtp => {
            lemma_touch_all_keeps_average(s0.touch(ssrc, true), csrcs);
        },
        _ => {
            lemma_touch_all_keeps_average(s0.touch(ssrc, false), csrcs);
        },
    }
}

/// Seeing a packet keeps `0 <= senders <= members`: `members` grows at least as much as
/// `senders`.
pub proof fn lemma_touch_keeps_senders_within_members(s: StateView, id: Ssrc, is_sender: bool)
    requires
        0 <= s.senders <= s.members,
    ensures
        0 <= s.touch(id, is_sender).senders <= s.touch(id, is_sender).members,
{
}

/// A sent packet, or a Bye after which `members` is not below `pmembers`, leaves `tp`,
/// `tn` and `pmembers` as they were.
pub proof fn lemma_no_shrink_keeps_schedule(
    s: StateView,
    sent_type: Option<PacketType>,
    size: int,
    our_ssrc: Ssrc,
    ssrc: Ssrc,
    now: int,
)
    ensures
        s.members >= s.pmembers ==> {
            let r = s.sent(sent_type, size, our_ssrc, now);
            r.tp == s.tp && r.tn == s.tn && r.pmembers == s.pmembers
        },
        s.bye(ssrc).members >= s.pmembers ==> {
            let r = s.received(PacketType::Bye, size, ssrc, Seq::empty(), now);
            r.tp == s.tp && r.tn == s.tn && r.pmembers == s.pmembers
        },
{
}

/// When `pmembers` equals `members`, a Bye from a validated member rescales the time to the
/// next transmission and the time since the last one by `(members - 1) / members`, measured
/// from `now`, and sets `pmembers` to the new member count.
pub proof fn lemma_bye_rescales_schedule(
    s: StateView,
    size: int,
    ssrc: Ssrc,
    csrcs: Seq<Csrc>,
    now: int,
)
    requires
        s.wf(),
        s.pmembers == s.members,
        s.table.contains_key(ssrc),
        s.table[ssrc].status == Some(MemberState::Listening) || s.table[ssrc].status == Some(
            MemberState::Sending,
        ),
    ensures
        ({
            let r = s.received(PacketType::Bye, size, ssrc, csrcs, now);
            &&& r.table[ssrc].status == Some(MemberState::Bye)
            &&& r.members == s.members - 1
            &&& r.pmembers == s.members - 1
            &&& r.tn == now + scaled(s.tn - now, s.members - 1, s.members)
            &&& r.tp == now - scaled(now - s.tp, s.members - 1, s.members)
        }),
{
}

} // verus!
