//! Session state of one RTCP participant and its event handlers.
use vstd::prelude::*;
use std::collections::HashMap;
use crate::{Csrc, Ssrc};
use crate::interval::{
    deterministic_interval, max_int, min_int, randomized, randomized_interval, t_d, MAX_COUNT, MAX_MICROS,
    MAX_PACKET_SIZE, SIZE_SCALE,
};

verus! {

broadcast use vstd::std_specs::hash::group_hash_axioms;

/// Kind of a packet seen by the session.
#[derive(Clone, Copy, Debug, PartialEq, Eq, Structural)]
pub enum PacketType {
    SendReport,
    ReceiveReport,
    SourceDescription,
    Bye,
    App,
    Rtp,
}

/// Status of a validated member.
#[derive(Clone, Copy, Debug, PartialEq, Eq, Structural)]
pub enum MemberState {
    Listening,
    Sending,
    Bye,
}

/// One participant of the session; a `None` status means seen once, not yet validated.
#[derive(Debug)]
pub struct Member {
    pub id: Ssrc,
    pub cname: Option<String>,
    pub status: Option<MemberState>,
    /// Transmission intervals since a packet of this member was last seen.
    pub intervals: u32,
}

/// Whether a member counts towards `members` (`sending_only == false`) or `senders`.
pub open spec fn counted(m: Member, sending_only: bool) -> bool {
    if sending_only {
        m.status == Some(MemberState::Sending)
    } else {
        m.status == Some(MemberState::Listening) || m.status == Some(MemberState::Sending)
    }
}

/// Identifiers of the table whose member is counted.
pub open spec fn counted_ids(t: Map<Ssrc, Member>, sending_only: bool) -> Set<Ssrc> {
    t.dom().filter(|k: Ssrc| counted(t[k], sending_only))
}

/// The EWMA `size / 16 + 15 * avg / 16` of the average compound packet size (in 1/256
/// octet) for a new sample in octets, rounded up so that a positive average stays positive.
pub open spec fn ewma(avg: int, size: int) -> int {
    (size * SIZE_SCALE + 15 * avg + 15) / 16
}

/// `d * m / p`, rounded toward zero.
pub open spec fn scaled(d: int, m: int, p: int) -> int {
    if d >= 0 {
        (d * m) / p
    } else {
        -(((-d) * m) / p)
    }
}

/// `t + d`, clamped to the largest timestamp.
pub open spec fn time_after(t: int, d: int) -> int {
    min_int(t + d, MAX_MICROS as int)
}

/// Abstract state of a session; times in microseconds, the average size in 1/256 octet.
pub struct StateView {
    pub tp: int,
    pub tc: int,
    pub tn: int,
    pub pmembers: int,
    pub members: int,
    pub senders: int,
    pub rtcp_bw: int,
    pub we_sent: bool,
    pub avg_rtcp_size: int,
    pub initial: bool,
    pub our_ssrc: Ssrc,
    pub table: Map<Ssrc, Member>,
}

impl StateView {
    /// The counters agree with the table, which holds the local participant.
    pub open spec fn wf(self) -> bool {
        &&& self.table.dom().finite()
        &&& self.table.contains_key(self.our_ssrc)
        &&& forall|k: Ssrc| #[trigger] self.table.contains_key(k) ==> self.table[k].id == k
        &&& self.members == counted_ids(self.table, false).len()
        &&& self.senders == counted_ids(self.table, true).len() + if self.we_sent { 1int } else { 0int }
        &&& 0 <= self.pmembers <= MAX_COUNT
        &&& self.rtcp_bw > 0
        &&& 0 <= self.avg_rtcp_size <= MAX_PACKET_SIZE * SIZE_SCALE
        &&& -MAX_MICROS - 1 <= self.tp <= MAX_MICROS
        &&& -MAX_MICROS - 1 <= self.tc <= MAX_MICROS
        &&& -MAX_MICROS - 1 <= self.tn <= MAX_MICROS
    }

    /// The randomized transmission interval for a sample, in microseconds.
    pub open spec fn interval(self, sample: int) -> int {
        randomized(
            t_d(self.senders, self.members, self.we_sent, self.avg_rtcp_size, self.rtcp_bw, self.initial),
            sample,
        )
    }

    /// The state after a packet of `id` was seen (`is_sender`: the packet carried media).
    pub open spec fn touch(self, id: Ssrc, is_sender: bool) -> StateView {
        if self.table.contains_key(id) {
            let m = self.table[id];
            if m.status is None {
                let n = Member { id: m.id, cname: m.cname, status: Some(MemberState::Listening), intervals: 0 };
                StateView { table: self.table.insert(id, n), members: self.members + 1, ..self }
            } else {
                let n = Member { id: m.id, cname: m.cname, status: m.status, intervals: 0 };
                StateView { table: self.table.insert(id, n), ..self }
            }
        } else if is_sender {
            let n = Member { id, cname: None, status: Some(MemberState::Sending), intervals: 0 };
            StateView {
                table: self.table.insert(id, n),
                members: self.members + 1,
                senders: self.senders + 1,
                ..self
            }
        } else {
            let n = Member { id, cname: None, status: None, intervals: 0 };
            StateView { table: self.table.insert(id, n), ..self }
        }
    }

    /// The state after a Bye of `id`: a validated member departs, anything else is ignored.
    pub open spec fn bye(self, id: Ssrc) -> StateView {
        if self.table.contains_key(id) {
            let m = self.table[id];
            let gone = Member { id: m.id, cname: m.cname, status: Some(MemberState::Bye), intervals: m.intervals };
            if m.status == Some(MemberState::Listening) {
                StateView { table: self.table.insert(id, gone), members: self.members - 1, ..self }
            } else if m.status == Some(MemberState::Sending) {
                StateView {
                    table: self.table.insert(id, gone),
                    members: self.members - 1,
                    senders: self.senders - 1,
                    ..self
                }
            } else {
                self
            }
        } else {
            self
        }
    }

    /// Reverse reconsideration: when membership shrank below `pmembers`, `tn` and `tp` move
    /// toward `tc` by the ratio `members / pmembers`, and `pmembers` becomes `members`.
    pub open spec fn reconsidered(self) -> StateView {
        if self.members < self.pmembers {
            StateView {
                tn: self.tc + scaled(self.tn - self.tc, self.members, self.pmembers),
                tp: self.tc - scaled(self.tc - self.tp, self.members, self.pmembers),
                pmembers: self.members,
                ..self
            }
        } else {
            self
        }
    }

    /// The state after each identifier of `ids`, in order, was seen in a control role.
    pub open spec fn touch_all(self, ids: Seq<Csrc>) -> StateView
        decreases ids.len(),
    {
        if ids.len() == 0 {
            self
        } else {
            self.touch_all(ids.drop_last()).touch(ids.last(), false)
        }
    }

    /// The state after a packet of `size` octets from `ssrc` (with contributing sources
    /// `csrcs`) was received at time `now`.
    pub open spec fn received(
        self,
        packet_type: PacketType,
        size: int,
        ssrc: Ssrc,
        csrcs: Seq<Csrc>,
        now: int,
    ) -> StateView {
        let s0 = StateView { tc: now, ..self };
        let s1 = match packet_type {
            PacketType::Bye => s0.bye(ssrc).reconsidered(),
            PacketType::Rtp => s0.touch(ssrc, true).touch_all(csrcs),
            _ => s0.touch(ssrc, false).touch_all(csrcs),
        };
        StateView { avg_rtcp_size: ewma(s1.avg_rtcp_size, size), ..s1 }
    }

    /// The state after the local application sent a packet of `size` octets at time `now`.
    pub open spec fn sent(self, packet_type: Option<PacketType>, size: int, our_ssrc: Ssrc, now: int) -> StateView {
        let s0 = StateView { tc: now, initial: false, avg_rtcp_size: ewma(self.avg_rtcp_size, size), ..self };
        let s1 = if packet_type == Some(PacketType::Rtp) {
            let m = s0.table[our_ssrc];
            let seen = Member { id: m.id, cname: m.cname, status: m.status, intervals: 0 };
            StateView {
                we_sent: true,
                senders: if s0.we_sent { s0.senders } else { s0.senders + 1 },
                table: s0.table.insert(our_ssrc, seen),
                ..s0
            }
        } else {
            s0
        };
        s1.reconsidered()
    }

    /// The state after the transmission timer expired at `now`, and whether a control
    /// packet is due; `sample` draws the interval checked, `resample` the next one.
    pub open spec fn timer_expired(self, now: int, sample: int, resample: int) -> (StateView, bool) {
        let s0 = StateView { tc: now, ..self };
        let t = s0.interval(sample);
        if s0.tp + t <= now {
            (StateView { tp: now, tn: time_after(now, s0.interval(resample)), pmembers: s0.members, ..s0 }, true)
        } else {
            (StateView { tn: time_after(s0.tp, t), pmembers: s0.members, ..s0 }, false)
        }
    }
}

/// Number of identifiers of a table whose member is counted, after one entry is replaced.
proof fn lemma_count_after_insert(t: Map<Ssrc, Member>, k: Ssrc, v: Member, sending_only: bool)
    requires
        t.dom().finite(),
    ensures
        counted_ids(t, sending_only).finite(),
        counted_ids(t.insert(k, v), sending_only).finite(),
        counted_ids(t.insert(k, v), sending_only).len() == counted_ids(t, sending_only).len()
            - (if t.contains_key(k) && counted(t[k], sending_only) { 1int } else { 0int })
            + (if counted(v, sending_only) { 1int } else { 0int }),
{
    let before = counted_ids(t, sending_only);
    let after = counted_ids(t.insert(k, v), sending_only);
    vstd::set_lib::lemma_len_subset(before, t.dom());
    let base = before.remove(k);
    if counted(v, sending_only) {
        assert(after =~= base.insert(k));
    } else {
        assert(after =~= base);
    }
}

/// A set of 32-bit identifiers has at most 2^32 elements.
proof fn lemma_ssrc_set_len(s: Set<Ssrc>)
    requires
        s.finite(),
    ensures
        s.len() <= 0x1_0000_0000,
{
    let range = vstd::set_lib::set_int_range(0, 0x1_0000_0000);
    vstd::set_lib::lemma_int_range(0, 0x1_0000_0000);
    let f = |i: int| i as Ssrc;
    let all = range.map(f);
    assert forall|x: Ssrc| s.contains(x) implies all.contains(x) by {
        assert(range.contains(x as int));
        assert(f(x as int) == x);
    }
    vstd::set_lib::lemma_map_size_bound(range, all, f);
    vstd::set_lib::lemma_len_subset(s, all);
}

/// The counters of a well-formed state stay within `MAX_COUNT`.
proof fn lemma_count_bounds(t: Map<Ssrc, Member>, sending_only: bool)
    requires
        t.dom().finite(),
    ensures
        counted_ids(t, sending_only).len() <= 0x1_0000_0000,
{
    vstd::set_lib::lemma_len_subset(counted_ids(t, sending_only), t.dom());
    lemma_ssrc_set_len(t.dom());
}

/// State of one RTCP session.
pub struct State {
    tp: i64,
    tc: i64,
    tn: i64,
    pmembers: u64,
    members: u64,
    senders: u64,
    rtcp_bw: u32,
    we_sent: bool,
    avg_rtcp_size: u64,
    initial: bool,
    our_ssrc: Ssrc,
    member_table: HashMap<Ssrc, Member>,
}

impl View for State {
    type V = StateView;

    closed spec fn view(&self) -> StateView {
        StateView {
            tp: self.tp as int,
            tc: self.tc as int,
            tn: self.tn as int,
            pmembers: self.pmembers as int,
            members: self.members as int,
            senders: self.senders as int,
            rtcp_bw: self.rtcp_bw as int,
            we_sent: self.we_sent,
            avg_rtcp_size: self.avg_rtcp_size as int,
            initial: self.initial,
            our_ssrc: self.our_ssrc,
            table: self.member_table@,
        }
    }
}

impl State {
    /// Well-formedness of the session state.
    pub open spec fn wf(&self) -> bool {
        self@.wf()
    }

    fn update_member_status(&mut self, id: Ssrc, is_sender: bool)
        requires
            old(self).wf(),
        ensures
            final(self).wf(),
            final(self)@ == old(self)@.touch(id, is_sender),
    {
        let ghost t0 = self.member_table@;
        proof {
            lemma_count_bounds(t0, false);
            lemma_count_bounds(t0, true);
        }
        match self.member_table.remove(&id) {
            Some(member) => {
                let validate: bool = match member.status {
                    None => true,
                    Some(_) => false,
                };
                let status = if validate { Some(MemberState::Listening) } else { member.status };
                let updated = Member { id: member.id, cname: member.cname, status, intervals: 0 };
                self.member_table.insert(id, updated);
                proof {
                    assert(member == t0[id]);
                    assert(self.member_table@ =~= t0.insert(id, updated));
                    lemma_count_after_insert(t0, id, updated, false);
                    lemma_count_after_insert(t0, id, updated, true);
                }
                if validate {
                    self.members = self.members + 1;
                }
            },
            None => {
                assert(self.member_table@ =~= t0);
                if is_sender {
                    let fresh = Member { id, cname: None, status: Some(MemberState::Sending), intervals: 0 };
                    self.member_table.insert(id, fresh);
                    proof {
                        lemma_count_after_insert(t0, id, fresh, false);
                        lemma_count_after_insert(t0, id, fresh, true);
                        lemma_count_bounds(self.member_table@, false);
                        lemma_count_bounds(self.member_table@, true);
                    }
                    self.members = self.members + 1;
                    self.senders = self.senders + 1;
                } else {
                    let fresh = Member { id, cname: None, status: None, intervals: 0 };
                    self.member_table.insert(id, fresh);
                    proof {
                        lemma_count_after_insert(t0, id, fresh, false);
                        lemma_count_after_insert(t0, id, fresh, true);
                    }
                }
            },
        }
    }

    /// Starts a session for the local source `our_ssrc`, with the control bandwidth of all
    /// participants in octets per second and a guess of the first packet's size in octets;
    /// `now` is the clock reading and `sample` draws the first transmission interval.
    pub fn initialize(our_ssrc: Ssrc, bandwidth: u32, pkt_size: u32, now: i64, sample: u32) -> (s: State)
        requires
            bandwidth > 0,
        ensures
            s.wf(),
            s@.tp == now,
            s@.tc == now,
            s@.pmembers == 1,
            s@.members == 1,
            s@.senders == 0,
            s@.rtcp_bw == bandwidth,
            !s@.we_sent,
            s@.avg_rtcp_size == pkt_size * SIZE_SCALE,
            s@.initial,
            s@.our_ssrc == our_ssrc,
            s@.table == Map::<Ssrc, Member>::empty().insert(
                our_ssrc,
                Member { id: our_ssrc, cname: None, status: Some(MemberState::Listening), intervals: 0 },
            ),
            s@.tn == time_after(now as int, s@.interval(sample as int)),
    {
        let mut member_table: HashMap<Ssrc, Member> = HashMap::with_capacity(32);
        let own = Member { id: our_ssrc, cname: None, status: Some(MemberState::Listening), intervals: 0 };
        member_table.insert(our_ssrc, own);
        let mut result = State {
            tp: now,
            tc: now,
            tn: now,
            pmembers: 1,
            members: 1,
            senders: 0,
            rtcp_bw: bandwidth,
            we_sent: false,
            avg_rtcp_size: pkt_size as u64 * 256,
            initial: true,
            our_ssrc,
            member_table,
        };
        proof {
            let t = result.member_table@;
            assert(counted_ids(t, false) =~= set![our_ssrc]);
            assert(counted_ids(t, true) =~= Set::<Ssrc>::empty());
        }
        let t = result.tx_interval(sample);
        result.tn = add_clamped(now, t);
        result
    }

    /// The randomized RTCP transmission interval in microseconds, for a random sample
    /// standing for the fraction `sample / SAMPLE_MAX` of the unit interval.
    pub fn tx_interval(&self, sample: u32) -> (r: i64)
        requires
            self.wf(),
        ensures
            r == self@.interval(sample as int),
            0 <= r,
    {
        proof {
            lemma_count_bounds(self.member_table@, false);
            lemma_count_bounds(self.member_table@, true);
        }
        let td = deterministic_interval(
            self.senders,
            self.members,
            self.we_sent,
            self.avg_rtcp_size,
            self.rtcp_bw,
            self.initial,
        );
        randomized_interval(td, sample)
    }

    /// Accounts for a packet received at `now`: a Bye departs its member and triggers
    /// reverse reconsideration, any other packet marks its sources as seen.
    pub fn pkt_recv_notify(
        &mut self,
        packet_type: PacketType,
        packet_size: u32,
        ssrc: Ssrc,
        csrcs: &[Csrc],
        now: i64,
    )
        requires
            old(self).wf(),
        ensures
            final(self).wf(),
            final(self)@ == old(self)@.received(packet_type, packet_size as int, ssrc, csrcs@, now as int),
    {
        self.tc = now;
        match packet_type {
            PacketType::Bye => {
                self.mark_bye(ssrc);
                self.reverse_reconsideration();
            },
            PacketType::Rtp => {
                self.update_member_status(ssrc, true);
                self.touch_csrcs(csrcs);
            },
            _ => {
                self.update_member_status(ssrc, false);
                self.touch_csrcs(csrcs);
            },
        }
        self.avg_rtcp_size = self.update_avg_packet_size(packet_size);
    }

    fn touch_csrcs(&mut self, csrcs: &[Csrc])
        requires
            old(self).wf(),
        ensures
            final(self).wf(),
            final(self)@ == old(self)@.touch_all(csrcs@),
    {
        let ghost start = self@;
        let mut i: usize = 0;
        while i < csrcs.len()
            invariant
                self.wf(),
                0 <= i <= csrcs@.len(),
                self@ == start.touch_all(csrcs@.subrange(0, i as int)),
            decreases csrcs@.len() - i,
        {
            self.update_member_status(csrcs[i], false);
            i = i + 1;
            proof {
                let done = csrcs@.subrange(0, i as int);
                assert(done.drop_last() =~= csrcs@.subrange(0, i - 1));
            }
        }
        proof {
            assert(csrcs@.subrange(0, csrcs@.len() as int) =~= csrcs@);
        }
    }

    fn mark_bye(&mut self, id: Ssrc)
        requires
            old(self).wf(),
        ensures
            final(self).wf(),
            final(self)@ == old(self)@.bye(id),
    {
        let ghost t0 = self.member_table@;
        match self.member_table.remove(&id) {
            Some(member) => {
                proof {
                    assert(member == t0[id]);
                }
                match member.status {
                    Some(MemberState::Listening) => {
                        let gone = Member { id: member.id, cname: member.cname, status: Some(MemberState::Bye), intervals: member.intervals };
                        self.member_table.insert(id, gone);
                        proof {
                            assert(self.member_table@ =~= t0.insert(id, gone));
                            lemma_count_after_insert(t0, id, gone, false);
                            lemma_count_after_insert(t0, id, gone, true);
                        }
                        self.members = self.members - 1;
                    },
                    Some(MemberState::Sending) => {
                        let gone = Member { id: member.id, cname: member.cname, status: Some(MemberState::Bye), intervals: member.intervals };
                        self.member_table.insert(id, gone);
                        proof {
                            assert(self.member_table@ =~= t0.insert(id, gone));
                            lemma_count_after_insert(t0, id, gone, false);
                            lemma_count_after_insert(t0, id, gone, true);
                        }
                        self.members = self.members - 1;
                        self.senders = self.senders - 1;
                    },
                    _ => {
                        self.member_table.insert(id, member);
                        proof {
                            assert(self.member_table@ =~= t0);
                        }
                    },
                }
            },
            None => {
                assert(self.member_table@ =~= t0);
            },
        }
    }

    fn reverse_reconsideration(&mut self)
        requires
            old(self).wf(),
        ensures
            final(self).wf(),
            final(self)@ == old(self)@.reconsidered(),
    {
        proof {
            lemma_count_bounds(self.member_table@, false);
        }
        if self.members < self.pmembers {
            let m = self.members;
            let p = self.pmembers;
            let dn = scale_offset(self.tn as i128 - self.tc as i128, m, p);
            let dp = scale_offset(self.tc as i128 - self.tp as i128, m, p);
            self.tn = (self.tc as i128 + dn) as i64;
            self.tp = (self.tc as i128 - dp) as i64;
            self.pmembers = m;
        }
    }

    fn update_avg_packet_size(&self, size: u32) -> (r: u64)
        requires
            self.wf(),
        ensures
            r == ewma(self@.avg_rtcp_size, size as int),
            r <= MAX_PACKET_SIZE * SIZE_SCALE,
            min_int(size * SIZE_SCALE, self@.avg_rtcp_size) <= r <= max_int(size * SIZE_SCALE, self@.avg_rtcp_size),
            self@.avg_rtcp_size > 0 ==> r > 0,
    {
        (size as u64 * 256 + 15 * self.avg_rtcp_size + 15) / 16
    }

    /// Accounts for a packet that the local application sent at `now`; `our_ssrc` is the
    /// local source. Ends the start-up phase and triggers reverse reconsideration.
    pub fn pkt_send_notify(&mut self, packet_type: Option<PacketType>, packet_size: u32, our_ssrc: Ssrc, now: i64)
        requires
            old(self).wf(),
            old(self)@.table.contains_key(our_ssrc),
        ensures
            final(self).wf(),
            final(self)@ == old(self)@.sent(packet_type, packet_size as int, our_ssrc, now as int),
    {
        proof {
            lemma_count_bounds(self.member_table@, true);
        }
        self.tc = now;
        self.initial = false;
        self.avg_rtcp_size = self.update_avg_packet_size(packet_size);
        match packet_type {
            Some(PacketType::Rtp) => {
                if !self.we_sent {
                    self.we_sent = true;
                    self.senders = self.senders + 1;
                }
                let ghost t0 = self.member_table@;
                match self.member_table.remove(&our_ssrc) {
                    Some(member) => {
                        let seen = Member { id: member.id, cname: member.cname, status: member.status, intervals: 0 };
                        self.member_table.insert(our_ssrc, seen);
                        proof {
                            assert(member == t0[our_ssrc]);
                            assert(self.member_table@ =~= t0.insert(our_ssrc, seen));
                            lemma_count_after_insert(t0, our_ssrc, seen, false);
                            lemma_count_after_insert(t0, our_ssrc, seen, true);
                        }
                    },
                    None => {},
                }
            },
            _ => {},
        }
        self.reverse_reconsideration();
    }

    /// Handles the expiry of the transmission timer at `now`. Returns whether a control packet
    /// is due now; either way `tn` is the next time at which the timer should fire.
    pub fn tx_timer_expire(&mut self, now: i64, sample: u32, resample: u32) -> (send: bool)
        requires
            old(self).wf(),
        ensures
            final(self).wf(),
            (final(self)@, send) == old(self)@.timer_expired(now as int, sample as int, resample as int),
    {
        self.tc = now;
        let t = self.tx_interval(sample);
        let send: bool = self.tp as i128 + t as i128 <= now as i128;
        if send {
            self.tp = now;
            let t2 = self.tx_interval(resample);
            self.tn = add_clamped(now, t2);
        } else {
            self.tn = add_clamped(self.tp, t);
        }
        proof {
            lemma_count_bounds(self.member_table@, false);
        }
        self.pmembers = self.members;
        send
    }

    /// Whether the local application should transmit a Bye on leaving: sessions of 50 or
    /// more members get none, their peers time the member out instead.
    pub fn leave_session(&self) -> (send_bye: bool)
        requires
            self.wf(),
        ensures
            send_bye == (self@.members < 50),
    {
        self.members < 50
    }

    /// Current estimate of the member count.
    pub fn members(&self) -> (r: u64)
        ensures
            r == self@.members,
    {
        self.members
    }

    /// Current estimate of the sender count.
    pub fn senders(&self) -> (r: u64)
        ensures
            r == self@.senders,
    {
        self.senders
    }

    /// Member count at the last reconsideration or timer expiry.
    pub fn pmembers(&self) -> (r: u64)
        ensures
            r == self@.pmembers,
    {
        self.pmembers
    }

    /// Time of the last transmission, in microseconds.
    pub fn tp(&self) -> (r: i64)
        ensures
            r == self@.tp,
    {
        self.tp
    }

    /// Latest clock reading, in microseconds.
    pub fn tc(&self) -> (r: i64)
        ensures
            r == self@.tc,
    {
        self.tc
    }

    /// Next scheduled transmission time, in microseconds.
    pub fn tn(&self) -> (r: i64)
        ensures
            r == self@.tn,
    {
        self.tn
    }

    /// Whether the local application has sent media.
    pub fn we_sent(&self) -> (r: bool)
        ensures
            r == self@.we_sent,
    {
        self.we_sent
    }

    /// Whether no packet was sent yet.
    pub fn initial(&self) -> (r: bool)
        ensures
            r == self@.initial,
    {
        self.initial
    }

    /// Average compound packet size in whole octets (rounded down).
    pub fn avg_rtcp_size(&self) -> (r: u64)
        ensures
            r == self@.avg_rtcp_size / SIZE_SCALE as int,
    {
        self.avg_rtcp_size / 256
    }

    /// The member table's entry for `id`.
    pub fn member(&self, id: Ssrc) -> (r: Option<&Member>)
        requires
            self.wf(),
        ensures
            match r {
                Some(m) => self@.table.contains_key(id) && *m == self@.table[id],
                None => !self@.table.contains_key(id),
            },
    {
        self.member_table.get(&id)
    }
}

/// `d * m / p` rounded toward zero, for `m < p`.
fn scale_offset(d: i128, m: u64, p: u64) -> (r: i128)
    requires
        m < p,
        m <= MAX_COUNT,
        -0x2_0000_0000_0000_0000 <= d <= 0x2_0000_0000_0000_0000,
    ensures
        r == scaled(d as int, m as int, p as int),
        0 <= d ==> 0 <= r <= d,
        d < 0 ==> d <= r <= 0,
{
    let neg: bool = d < 0;
    let x: u128 = if neg { (-d) as u128 } else { d as u128 };
    assert(x * m <= 0x2_0000_0000_0000_0000 * 0x2_0000_0000) by (nonlinear_arith)
        requires x <= 0x2_0000_0000_0000_0000, m <= 0x2_0000_0000;
    let q: u128 = (x * m as u128) / p as u128;
    proof {
        assert(x * m <= x * p) by (nonlinear_arith) requires m < p, x >= 0;
        vstd::arithmetic::div_mod::lemma_div_is_ordered((x * m) as int, (x * p) as int, p as int);
        vstd::arithmetic::div_mod::lemma_div_by_multiple(x as int, p as int);
    }
    if neg { -(q as i128) } else { q as i128 }
}

/// `t + d` clamped to the largest timestamp.
fn add_clamped(t: i64, d: i64) -> (r: i64)
    requires
        d >= 0,
    ensures
        r == time_after(t as int, d as int),
{
    if t as i128 + d as i128 > MAX_MICROS as i128 {
        MAX_MICROS as i64
    } else {
        t + d
    }
}

} // verus!
