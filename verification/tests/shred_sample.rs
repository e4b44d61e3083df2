use transaction_status::keys::{BankHash, Pubkey};
use transaction_status::shred_sample::{
    keep_highest_ranked, max_buffered_packets, packet_check, DecodedRequests, ListenerView, PacketCheck, Pong,
    RepairRequestWithMeta,
    RequestIntake, SampleProtocol, ServeRepairStats, ServeSamples, Signature, MAX_ANCESTOR_BYTES_IN_PACKET,
    MAX_ANCESTOR_RESPONSES, MAX_REQUESTS_PER_ITERATION, REPAIR_RESPONSE_SERIALIZED_PING_BYTES,
};

#[test]
fn it_works() {
    // let result = add(2, 2);
    // assert_eq!(result, 4);
}

#[test]
fn constants_match_the_packet_layout() {
    assert_eq!(MAX_ANCESTOR_BYTES_IN_PACKET, solana_sdk::packet::PACKET_DATA_SIZE - 4 - 4 - 4);
    assert_eq!(MAX_ANCESTOR_RESPONSES, MAX_ANCESTOR_BYTES_IN_PACKET / std::mem::size_of::<(u64, solana_sdk::hash::Hash)>());
    assert_eq!(MAX_ANCESTOR_RESPONSES, 30);
    assert_eq!(REPAIR_RESPONSE_SERIALIZED_PING_BYTES, 132);
    let _server = ServeSamples {};
    let pong = Pong { from: Pubkey([1; 32]), hash: BankHash([2; 32]), signature: Signature([3; 64]) };
    assert_ne!(SampleProtocol::Pong(pong), SampleProtocol::RandomSamplesForSlot(1, 2));
}

#[test]
fn buffering_bound() {
    assert_eq!(max_buffered_packets(false, 3), 4096);
    assert_eq!(max_buffered_packets(false, 0), 2048);
    assert_eq!(max_buffered_packets(true, 3), 1024);
}

#[test]
fn intake_drops_once_the_bound_is_passed() {
    let mut intake = RequestIntake::new(600, 1000);
    assert!(intake.offer(300));
    assert!(!intake.offer(200));
    assert!(intake.offer(100) == false);
    assert_eq!(intake.total_requests(), 1200);
    assert_eq!(intake.dropped_requests(), 300);
    let mut stats = ServeRepairStats::default();
    stats.record_intake(&intake);
    assert_eq!(stats.total_requests, 1200);
    assert_eq!(stats.dropped_requests_load_shed, 300);
    // A first batch above the bound is still taken.
    let big = RequestIntake::new(5000, 1000);
    assert_eq!(big.dropped_requests(), 0);
}

fn meta(request: u32, stake: u64, whitelisted: bool) -> RepairRequestWithMeta<u32> {
    RepairRequestWithMeta { request, stake, whitelisted }
}

#[test]
fn keeps_the_highest_ranked() {
    let requests = vec![meta(0, 5, false), meta(1, 1, true), meta(2, 9, false), meta(3, 0, true), meta(4, 7, false)];
    let (kept, dropped) = keep_highest_ranked(requests.clone(), 3);
    assert_eq!(dropped, 2);
    assert_eq!(kept, vec![meta(1, 1, true), meta(3, 0, true), meta(2, 9, false)]);
    let (all, none) = keep_highest_ranked(requests.clone(), 5);
    assert_eq!(none, 0);
    assert_eq!(all, requests);
}

#[test]
fn packets_are_counted_and_taken() {
    let mut stats = ServeRepairStats::default();
    let mut round: DecodedRequests<u32> = DecodedRequests::new();
    let check = PacketCheck { address_valid: true, signed: false, from_self: false, stake: 0, whitelisted: true };
    assert!(!round.record_packet(&mut stats, None, check, true));
    assert!(!round.record_packet(&mut stats, Some(1), PacketCheck { address_valid: false, ..check }, true));
    assert!(!round.record_packet(&mut stats, Some(2), PacketCheck { from_self: true, ..check }, true));
    assert!(round.record_packet(&mut stats, Some(3), check, true));
    assert!(round.record_packet(&mut stats, Some(4), PacketCheck { signed: true, stake: 10, whitelisted: false, ..check }, false));
    assert_eq!(stats.err_malformed, 2);
    assert_eq!(stats.unsigned_requests, 2);
    assert_eq!(stats.self_repair, 1);
    assert_eq!(stats.handle_requests_unstaked, 1);
    assert_eq!(stats.handle_requests_staked, 1);
    assert_eq!(stats.err_sig_verify, 1);
    let kept = round.finish(&mut stats);
    assert_eq!(kept, vec![meta(3, 0, true), meta(4, 10, false)]);
    assert_eq!(stats.whitelisted_requests, 1);
    assert_eq!(stats.dropped_requests_low_stake, 0);
}

#[test]
fn a_crowded_round_keeps_one_round_of_requests() {
    let mut stats = ServeRepairStats::default();
    let mut round: DecodedRequests<usize> = DecodedRequests::new();
    let n = MAX_REQUESTS_PER_ITERATION + 10;
    for i in 0..n {
        let check = PacketCheck { address_valid: true, signed: true, from_self: false, stake: i as u64, whitelisted: i % 100 == 0 };
        assert!(round.record_packet(&mut stats, Some(i), check, true));
    }
    let kept = round.finish(&mut stats);
    assert_eq!(kept.len(), MAX_REQUESTS_PER_ITERATION);
    assert_eq!(stats.dropped_requests_low_stake, 10);
    assert_eq!(stats.whitelisted_requests, 11);
    // The whitelisted come first, then the rest by stake, highest first.
    assert!(kept[..11].iter().all(|r| r.whitelisted));
    assert_eq!(kept[11].stake, (n - 1) as u64);
    assert!(kept.iter().all(|r| r.whitelisted || r.stake >= 10));
}

#[test]
fn each_packet_is_counted_once() {
    let mut stats = ServeRepairStats::default();
    let mut round: DecodedRequests<u32> = DecodedRequests::new();
    let base = PacketCheck { address_valid: true, signed: true, from_self: false, stake: 3, whitelisted: false };
    let checks = [
        (None, base),
        (Some(1), PacketCheck { address_valid: false, ..base }),
        (Some(2), PacketCheck { from_self: true, ..base }),
        (Some(3), PacketCheck { stake: 0, ..base }),
        (Some(4), base),
    ];
    for (i, (request, check)) in checks.iter().enumerate() {
        let before = stats;
        let taken = round.record_packet(&mut stats, *request, *check, i % 2 == 0);
        let counted = |s: &ServeRepairStats| s.err_malformed + s.self_repair + s.handle_requests_staked + s.handle_requests_unstaked;
        assert_eq!(counted(&stats), counted(&before) + 1, "packet {}", i);
        assert_eq!(
            stats.handle_requests_staked + stats.handle_requests_unstaked
                == before.handle_requests_staked + before.handle_requests_unstaked + 1,
            taken
        );
    }
    assert_eq!(round.len(), 2);
}

fn pong_from(keypair: &solana_sdk::signature::Keypair, token: [u8; 32], valid: bool) -> SampleProtocol {
    let mut signature = [0u8; 64];
    signature.copy_from_slice(solana_sdk::signer::Signer::sign_message(keypair, &token).as_ref());
    if !valid {
        signature[0] ^= 1;
    }
    SampleProtocol::Pong(Pong {
        from: Pubkey(solana_sdk::signer::Signer::pubkey(keypair).to_bytes()),
        hash: BankHash(token),
        signature: Signature(signature),
    })
}

#[test]
fn packet_checks_look_up_the_sender() {
    let me = Pubkey([1; 32]);
    let other = Pubkey([2; 32]);
    let view = ListenerView {
        my_id: me,
        staked_nodes: vec![(Pubkey([3; 32]), 5), (other, 42)],
        whitelist: vec![Pubkey([9; 32]), other],
    };
    let pong = |from| SampleProtocol::Pong(Pong { from, hash: BankHash([0; 32]), signature: Signature([0; 64]) });
    assert_eq!(
        packet_check(&pong(other), true, &view),
        PacketCheck { address_valid: true, signed: true, from_self: false, stake: 42, whitelisted: true }
    );
    assert_eq!(
        packet_check(&pong(me), false, &view),
        PacketCheck { address_valid: false, signed: true, from_self: true, stake: 0, whitelisted: false }
    );
    assert_eq!(
        packet_check(&SampleProtocol::RandomSamplesForSlot(7, 3), true, &view),
        PacketCheck { address_valid: true, signed: false, from_self: false, stake: 0, whitelisted: false }
    );
}

#[test]
fn signed_requests_have_their_signature_checked() {
    let keypair = solana_sdk::signature::Keypair::new();
    let view = ListenerView { my_id: Pubkey([1; 32]), staked_nodes: vec![], whitelist: vec![] };
    let mut stats = ServeRepairStats::default();
    let mut round: DecodedRequests<(SampleProtocol, u8)> = DecodedRequests::new();
    assert!(round.take_packet(&mut stats, Some(pong_from(&keypair, [4; 32], true)), 0, true, &view));
    assert_eq!(stats.err_sig_verify, 0);
    assert!(round.take_packet(&mut stats, Some(pong_from(&keypair, [4; 32], false)), 1, true, &view));
    assert_eq!(stats.err_sig_verify, 1);
    // An invalid address is malformed; no signature is checked.
    assert!(!round.take_packet(&mut stats, Some(pong_from(&keypair, [4; 32], false)), 2, false, &view));
    assert_eq!(stats.err_sig_verify, 1);
    assert_eq!(stats.err_malformed, 1);
    // Unsigned requests are counted as such.
    assert!(round.take_packet(&mut stats, Some(SampleProtocol::RandomSamplesForSlot(1, 1)), 3, true, &view));
    assert_eq!(stats.unsigned_requests, 1);
    assert!(!round.take_packet(&mut stats, None, 4, true, &view));
    assert_eq!(stats.err_malformed, 2);
    // A request from this node is checked, then counted as a self request.
    let me = solana_sdk::signature::Keypair::new();
    let my_view = ListenerView {
        my_id: Pubkey(solana_sdk::signer::Signer::pubkey(&me).to_bytes()),
        staked_nodes: vec![],
        whitelist: vec![],
    };
    assert!(!round.take_packet(&mut stats, Some(pong_from(&me, [5; 32], false)), 5, true, &my_view));
    assert_eq!(stats.err_sig_verify, 2);
    assert_eq!(stats.self_repair, 1);
    assert_eq!(round.len(), 3);
}

#[test]
fn counters_never_decrease_over_a_round() {
    let mut stats = ServeRepairStats::default();
    let mut intake = RequestIntake::new(3, 2);
    intake.offer(4);
    let before = stats;
    stats.record_intake(&intake);
    stats.record_decode_time(17);
    let mut round: DecodedRequests<u32> = DecodedRequests::new();
    let check = PacketCheck { address_valid: true, signed: false, from_self: false, stake: 1, whitelisted: true };
    round.record_packet(&mut stats, Some(1), check, true);
    round.finish(&mut stats);
    let fields = |s: &ServeRepairStats| {
        vec![
            s.total_requests, s.dropped_requests_load_shed, s.dropped_requests_low_stake, s.whitelisted_requests,
            s.err_malformed, s.unsigned_requests, s.self_repair, s.handle_requests_staked,
            s.handle_requests_unstaked, s.err_sig_verify, s.decode_time_us as usize,
        ]
    };
    for (new, old) in fields(&stats).iter().zip(fields(&before).iter()) {
        assert!(new >= old);
    }
    assert_eq!(stats.total_requests, 7);
    assert_eq!(stats.dropped_requests_load_shed, 4);
    assert_eq!(stats.decode_time_us, 17);
}
