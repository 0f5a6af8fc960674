use reconnaissance::reconnaissance::{
    node_record, node_settings, split_enode, ClientEvent, Next, PollEvent, PollRound, PollStage,
};

const BOOT_NODE: &str = "enode://d860a01f9722d78051619d1e2351aba3f43f943f6f00718d1b9baa4101932a1f5011f16bb2b1bb35db20d6fe28fa0bf09636d26a87d31de9ec6203eeedb1f666@18.138.108.67:30303";

#[test]
fn split_enode_separates_id_and_address() {
    let (id, addr) = split_enode(BOOT_NODE).unwrap();
    assert_eq!(id.len(), 128);
    assert!(id.starts_with("d860a01f"));
    assert_eq!(addr, "18.138.108.67:30303");
}

#[test]
fn split_enode_stops_the_address_at_a_second_at() {
    assert_eq!(split_enode("enode://ab@1.2.3.4:5@rest"), Some(("ab", "1.2.3.4:5")));
    assert_eq!(split_enode("enode://@x"), Some(("", "x")));
    assert_eq!(split_enode("enode://ab@"), Some(("ab", "")));
}

#[test]
fn split_enode_rejects_malformed_urls() {
    assert_eq!(split_enode("enode://abcdef"), None);
    assert_eq!(split_enode("short@"), None);
    assert_eq!(split_enode("enode:/\u{e9}@x"), None);
}

#[test]
fn settings_match_the_node() {
    let s = node_settings();
    assert_eq!(s.rpc_url, "https://rpc.ankr.com/eth");
    assert_eq!((s.max_inbound, s.max_outbound), (100, 100));
    assert_eq!((s.max_pending_inbound, s.max_pending_outbound), (5, 5));
    assert_eq!(s.slot_refill_interval_ms, 200);
    assert_eq!(s.stats_interval_secs, 3);
}

#[test]
fn closed_channel_ends_the_node() {
    let mut r = PollRound::start(3);
    let s = r.step(PollEvent::Client(ClientEvent::Closed));
    assert_eq!(s.next, Next::ReturnReady);
    assert!(!s.spawn_fetch);
    assert_eq!(r.current_stage(), PollStage::Done);
}

#[test]
fn request_spawns_fetch_and_round_ends_pending() {
    let mut r = PollRound::start(2);
    let s = r.step(PollEvent::Client(ClientEvent::BodyRequest));
    assert!(s.spawn_fetch);
    assert_eq!(s.next, Next::PollTask);
    assert_eq!(r.step(PollEvent::Task(true)).next, Next::PollTask);
    assert_eq!(r.step(PollEvent::Task(false)).next, Next::PollTick);
    let s = r.step(PollEvent::Tick(true));
    assert!(s.log_peers);
    assert_eq!(s.next, Next::PollService(0));
    assert_eq!(r.step(PollEvent::Service(false)).next, Next::PollService(1));
    assert_eq!(r.step(PollEvent::Service(false)).next, Next::WakeAndReturnPending);
    assert_eq!(r.current_stage(), PollStage::Done);
}

#[test]
fn ended_service_ends_the_node() {
    let mut r = PollRound::start(3);
    r.step(PollEvent::Client(ClientEvent::Idle));
    r.step(PollEvent::Task(false));
    let s = r.step(PollEvent::Tick(false));
    assert!(!s.log_peers);
    assert_eq!(r.step(PollEvent::Service(false)).next, Next::PollService(1));
    assert_eq!(r.step(PollEvent::Service(true)).next, Next::ReturnReady);
}

#[test]
fn round_without_services_ends_pending_after_tick() {
    let mut r = PollRound::start(0);
    r.step(PollEvent::Client(ClientEvent::Idle));
    r.step(PollEvent::Task(false));
    assert_eq!(r.step(PollEvent::Tick(false)).next, Next::WakeAndReturnPending);
}

#[test]
fn node_record_decodes_the_id() {
    let (id, addr) = node_record(BOOT_NODE).unwrap();
    assert_eq!(&id[..4], &[0xd8, 0x60, 0xa0, 0x1f]);
    assert_eq!(id[63], 0x66);
    assert_eq!(addr, "18.138.108.67:30303");
}

#[test]
fn node_record_accepts_prefix_upper_case_and_blanks() {
    let hex = "0123456789ABCDEF".repeat(8);
    let url = format!("enode://0x{} @10.0.0.1:1", hex);
    let (id, addr) = node_record(&url).unwrap();
    assert_eq!(&id[..8], &[0x01, 0x23, 0x45, 0x67, 0x89, 0xab, 0xcd, 0xef]);
    assert_eq!(addr, "10.0.0.1:1");
}

#[test]
fn node_record_rejects_bad_ids() {
    let short = format!("enode://{}@1.1.1.1:1", "ab".repeat(63));
    assert_eq!(node_record(&short), None);
    let long = format!("enode://{}@1.1.1.1:1", "ab".repeat(65));
    assert_eq!(node_record(&long), None);
    let bad = format!("enode://{}zz@1.1.1.1:1", "ab".repeat(63));
    assert_eq!(node_record(&bad), None);
    assert_eq!(node_record("enode://no-at-sign"), None);
}
