use rtcp_session::session::{MemberState, PacketType, State};

const SAMPLE_MAX: u32 = u32::MAX;

fn status_of(s: &State, id: u32) -> Option<Option<MemberState>> {
    s.member(id).map(|m| m.status)
}

#[test]
fn initialize_sets_up_a_listening_session() {
    let s = State::initialize(1, 8000, 200, 0, 0);
    assert_eq!(s.members(), 1);
    assert_eq!(s.senders(), 0);
    assert_eq!(s.pmembers(), 1);
    assert_eq!(s.avg_rtcp_size(), 200);
    assert!(s.initial());
    assert!(!s.we_sent());
    assert_eq!(s.tp(), 0);
    assert_eq!(s.tc(), 0);
    assert_eq!(s.tn(), 1026036);
    assert_eq!(status_of(&s, 1), Some(Some(MemberState::Listening)));
    assert_eq!(status_of(&s, 2), None);
}

#[test]
fn end_to_end_media_then_bye() {
    let mut s = State::initialize(1, 8000, 200, 0, 0);
    assert_eq!(s.members(), 1);
    assert_eq!(s.senders(), 0);
    assert_eq!(s.avg_rtcp_size(), 200);
    s.pkt_recv_notify(PacketType::Rtp, 160, 2, &[], 0);
    assert_eq!(s.members(), 2);
    assert_eq!(s.senders(), 1);
    assert_eq!(status_of(&s, 2), Some(Some(MemberState::Sending)));
    let (tp, tn) = (s.tp(), s.tn());
    s.pkt_recv_notify(PacketType::Bye, 50, 2, &[], 0);
    assert_eq!(status_of(&s, 2), Some(Some(MemberState::Bye)));
    assert_eq!(s.members(), 1);
    assert_eq!(s.senders(), 0);
    assert_eq!(s.pmembers(), 1);
    // pmembers was still 1 from initialization: nothing to rescale
    assert_eq!(s.tp(), tp);
    assert_eq!(s.tn(), tn);
}

#[test]
fn bye_after_timer_snapshot_rescales_schedule() {
    let mut s = State::initialize(1, 8000, 200, 0, 0);
    s.pkt_recv_notify(PacketType::Rtp, 200, 2, &[], 100);
    assert!(s.tx_timer_expire(2_000_000, 0, 0));
    assert_eq!(s.pmembers(), 2);
    assert_eq!(s.tp(), 2_000_000);
    assert_eq!(s.tn(), 3_026_036);
    s.pkt_recv_notify(PacketType::Bye, 200, 2, &[], 2_500_000);
    assert_eq!(s.members(), 1);
    assert_eq!(s.pmembers(), 1);
    assert_eq!(s.tn(), 2_763_018);
    assert_eq!(s.tp(), 2_250_000);
}

#[test]
fn interval_bounds_over_samples() {
    let s = State::initialize(1, 8000, 200, 0, 0);
    // t_d = t_min = 2.5 s before the first transmission
    let lo = (2_500_000u64 * 100_000 / (2 * 121_828)) as i64;
    let hi = (3 * 2_500_000u64 * 100_000 / (2 * 121_828)) as i64;
    let mut x: u32 = 12345;
    for _ in 0..1000 {
        x = x.wrapping_mul(1_664_525).wrapping_add(1_013_904_223);
        let t = s.tx_interval(x);
        assert!(lo <= t && t <= hi, "interval {} out of [{}, {}]", t, lo, hi);
    }
    assert_eq!(s.tx_interval(0), 1026036);
    assert_eq!(s.tx_interval(SAMPLE_MAX), 3078110);
    assert_eq!(s.tx_interval(SAMPLE_MAX / 2), 2052073);
}

#[test]
fn interval_grows_with_listeners() {
    let mut s = State::initialize(1, 8000, 200, 0, 0);
    for id in 2..301u32 {
        s.pkt_recv_notify(PacketType::ReceiveReport, 200, id, &[], 0);
        s.pkt_recv_notify(PacketType::ReceiveReport, 200, id, &[], 0);
    }
    assert_eq!(s.members(), 300);
    assert_eq!(s.senders(), 0);
    assert_eq!(s.avg_rtcp_size(), 200);
    // C' * n = 0.75 * 200 / 8000 * 300 s = 5.625 s
    assert_eq!(s.tx_interval(0), 2308582);
    assert_eq!(s.tx_interval(SAMPLE_MAX), 6925747);
}

#[test]
fn interval_with_many_senders_uses_all_members() {
    let mut s = State::initialize(1, 8000, 200, 0, 0);
    for id in 2..102u32 {
        s.pkt_recv_notify(PacketType::Rtp, 200, id, &[], 0);
    }
    for id in 102..301u32 {
        s.pkt_recv_notify(PacketType::SendReport, 200, id, &[], 0);
        s.pkt_recv_notify(PacketType::SendReport, 200, id, &[], 0);
    }
    assert_eq!(s.members(), 300);
    assert_eq!(s.senders(), 100);
    // C * n = 200 / 8000 * 300 s = 7.5 s
    assert_eq!(s.tx_interval(0), 3078110);
}

#[test]
fn media_validates_sender_once() {
    let mut s = State::initialize(1, 8000, 200, 0, 0);
    s.pkt_recv_notify(PacketType::Rtp, 200, 7, &[], 10);
    assert_eq!(status_of(&s, 7), Some(Some(MemberState::Sending)));
    assert_eq!((s.members(), s.senders()), (2, 1));
    s.pkt_recv_notify(PacketType::Rtp, 200, 7, &[], 20);
    s.pkt_recv_notify(PacketType::SendReport, 200, 7, &[], 30);
    assert_eq!(status_of(&s, 7), Some(Some(MemberState::Sending)));
    assert_eq!((s.members(), s.senders()), (2, 1));
}

#[test]
fn control_packet_needs_second_sighting() {
    let mut s = State::initialize(1, 8000, 200, 0, 0);
    s.pkt_recv_notify(PacketType::SourceDescription, 200, 5, &[6, 7], 0);
    assert_eq!(status_of(&s, 5), Some(None));
    assert_eq!(status_of(&s, 6), Some(None));
    assert_eq!(s.members(), 1);
    s.pkt_recv_notify(PacketType::App, 200, 5, &[6], 0);
    assert_eq!(status_of(&s, 5), Some(Some(MemberState::Listening)));
    assert_eq!(status_of(&s, 6), Some(Some(MemberState::Listening)));
    assert_eq!(status_of(&s, 7), Some(None));
    assert_eq!((s.members(), s.senders()), (3, 0));
    // media from a source seen once validates it as a listener
    s.pkt_recv_notify(PacketType::Rtp, 200, 7, &[], 0);
    assert_eq!(status_of(&s, 7), Some(Some(MemberState::Listening)));
    assert_eq!((s.members(), s.senders()), (4, 0));
}

#[test]
fn media_csrcs_are_seen_as_non_senders() {
    let mut s = State::initialize(1, 8000, 200, 0, 0);
    s.pkt_recv_notify(PacketType::Rtp, 200, 3, &[4, 5], 0);
    assert_eq!(status_of(&s, 3), Some(Some(MemberState::Sending)));
    assert_eq!(status_of(&s, 4), Some(None));
    assert_eq!(status_of(&s, 5), Some(None));
    assert_eq!((s.members(), s.senders()), (2, 1));
}

#[test]
fn bye_from_unvalidated_member_is_ignored() {
    let mut s = State::initialize(1, 8000, 200, 0, 0);
    s.pkt_recv_notify(PacketType::ReceiveReport, 200, 9, &[], 0);
    assert_eq!(status_of(&s, 9), Some(None));
    s.pkt_recv_notify(PacketType::Bye, 200, 9, &[], 0);
    assert_eq!(status_of(&s, 9), Some(None));
    assert_eq!((s.members(), s.senders()), (1, 0));
}

#[test]
fn bye_from_unknown_or_departed_member_is_ignored() {
    let mut s = State::initialize(1, 8000, 200, 0, 0);
    s.pkt_recv_notify(PacketType::Bye, 200, 42, &[], 0);
    assert_eq!(status_of(&s, 42), None);
    assert_eq!(s.members(), 1);
    s.pkt_recv_notify(PacketType::Rtp, 200, 2, &[], 0);
    s.pkt_recv_notify(PacketType::Bye, 200, 2, &[], 0);
    s.pkt_recv_notify(PacketType::Bye, 200, 2, &[], 0);
    assert_eq!((s.members(), s.senders()), (1, 0));
}

#[test]
fn bye_of_listener_drops_member_only() {
    let mut s = State::initialize(1, 8000, 200, 0, 0);
    s.pkt_recv_notify(PacketType::ReceiveReport, 200, 2, &[], 0);
    s.pkt_recv_notify(PacketType::ReceiveReport, 200, 2, &[], 0);
    s.pkt_recv_notify(PacketType::Rtp, 200, 3, &[], 0);
    assert_eq!((s.members(), s.senders()), (3, 1));
    s.pkt_recv_notify(PacketType::Bye, 200, 2, &[], 0);
    assert_eq!(status_of(&s, 2), Some(Some(MemberState::Bye)));
    assert_eq!((s.members(), s.senders()), (2, 1));
}

#[test]
fn reconsideration_needs_shrinking_membership() {
    let mut s = State::initialize(1, 8000, 200, 0, 0);
    s.pkt_recv_notify(PacketType::Rtp, 200, 2, &[], 0);
    s.pkt_recv_notify(PacketType::Rtp, 200, 3, &[], 0);
    assert!(!s.tx_timer_expire(10, 0, 0));
    assert_eq!(s.pmembers(), 3);
    s.pkt_recv_notify(PacketType::Rtp, 200, 4, &[], 50);
    let (tp, tn) = (s.tp(), s.tn());
    // members == pmembers after the Bye: nothing moves
    s.pkt_recv_notify(PacketType::Bye, 200, 4, &[], 60);
    assert_eq!((s.members(), s.pmembers()), (3, 3));
    assert_eq!((s.tp(), s.tn()), (tp, tn));
    // a send with members == pmembers leaves the schedule alone too
    s.pkt_send_notify(None, 200, 1, 70);
    assert_eq!((s.tp(), s.tn()), (tp, tn));
}

#[test]
fn average_size_moving_average() {
    let mut s = State::initialize(1, 8000, 200, 0, 0);
    s.pkt_recv_notify(PacketType::SendReport, 360, 2, &[], 0);
    assert_eq!(s.avg_rtcp_size(), 210);
}

#[test]
fn average_size_fixed_point() {
    let mut s = State::initialize(1, 8000, 200, 0, 0);
    for _ in 0..20 {
        s.pkt_recv_notify(PacketType::ReceiveReport, 200, 2, &[], 0);
        assert_eq!(s.avg_rtcp_size(), 200);
        s.pkt_send_notify(Some(PacketType::ReceiveReport), 200, 1, 0);
        assert_eq!(s.avg_rtcp_size(), 200);
    }
}

#[test]
fn sending_media_counts_us_once() {
    let mut s = State::initialize(1, 8000, 200, 0, 0);
    s.pkt_send_notify(None, 100, 1, 5);
    assert!(!s.initial());
    assert!(!s.we_sent());
    assert_eq!(s.senders(), 0);
    assert_eq!(s.tc(), 5);
    s.pkt_send_notify(Some(PacketType::Rtp), 100, 1, 6);
    s.pkt_send_notify(Some(PacketType::Rtp), 100, 1, 7);
    assert!(s.we_sent());
    assert_eq!((s.members(), s.senders()), (1, 1));
    // past the start-up phase the floor is 5 s
    assert_eq!(s.tx_interval(0), 2052073);
}

#[test]
fn timer_expiry_sends_when_due() {
    let mut s = State::initialize(1, 8000, 200, 0, 0);
    assert!(!s.tx_timer_expire(500_000, 0, 0));
    assert_eq!(s.tn(), 1_026_036);
    assert_eq!(s.tp(), 0);
    assert!(s.tx_timer_expire(2_000_000, 0, SAMPLE_MAX));
    assert_eq!(s.tp(), 2_000_000);
    assert_eq!(s.tc(), 2_000_000);
    assert_eq!(s.tn(), 2_000_000 + 3_078_110);
    assert_eq!(s.pmembers(), 1);
}

#[test]
fn timer_clamps_at_latest_time() {
    let mut s = State::initialize(1, 8000, 200, i64::MAX - 10, 0);
    assert_eq!(s.tn(), i64::MAX);
    assert!(!s.tx_timer_expire(i64::MAX - 5, 0, 0));
    assert_eq!(s.tn(), i64::MAX);
}

#[test]
fn huge_average_size_keeps_interval_in_range() {
    let mut s = State::initialize(1, 1, u32::MAX, 0, 0);
    for id in 2..12u32 {
        s.pkt_recv_notify(PacketType::Rtp, u32::MAX, id, &[], 0);
    }
    let t = s.tx_interval(SAMPLE_MAX);
    assert!(t > 0);
    assert!(t <= i64::MAX);
}

#[test]
fn leave_sends_bye_below_fifty_members() {
    let mut s = State::initialize(1, 8000, 200, 0, 0);
    assert!(s.leave_session());
    for id in 2..50u32 {
        s.pkt_recv_notify(PacketType::Rtp, 200, id, &[], 0);
    }
    assert_eq!(s.members(), 49);
    assert!(s.leave_session());
    s.pkt_recv_notify(PacketType::Rtp, 200, 50, &[], 0);
    assert_eq!(s.members(), 50);
    assert!(!s.leave_session());
}

#[test]
fn huge_deterministic_interval_clamps_to_latest() {
    let mut s = State::initialize(1, 1, u32::MAX, 0, 0);
    for id in 2..100_002u32 {
        s.pkt_recv_notify(PacketType::ReceiveReport, u32::MAX, id, &[], 0);
        s.pkt_recv_notify(PacketType::ReceiveReport, u32::MAX, id, &[], 0);
    }
    assert_eq!(s.members(), 100_001);
    assert_eq!(s.avg_rtcp_size(), u32::MAX as u64);
    // t_d is about 3.2e20 us: every sample gives more than the largest interval
    assert_eq!(s.tx_interval(0), i64::MAX);
    assert_eq!(s.tx_interval(SAMPLE_MAX), i64::MAX);
}

#[test]
fn moving_average_stays_positive() {
    let mut s = State::initialize(1, 1, 1, 0, 0);
    for id in 2..202u32 {
        s.pkt_recv_notify(PacketType::App, 0, id, &[], 0);
        s.pkt_recv_notify(PacketType::App, 0, id, &[], 0);
    }
    assert_eq!(s.members(), 201);
    // 400 samples of 0 octets leave the average at 15/256 octet, not 0:
    // C' * n = 0.75 * (15 / 256) * 201 s
    assert_eq!(s.tx_interval(0), 3625195);
}
