use mydht_basetest::peer::{LocalAdd, PeerTest};
use mydht_basetest::shadow::{ShadowModeTest, ShadowTest};
use mydht_basetest::tunnel::{self, test_cache_ids};
use mydht_basetest::tunnel_new::{
    self, new_reply_route_1, peer_tests, peer_tests_2, CachedInfo, CachedInfoManager,
    MultipleErrorMode, MultipleReplyMode, Rp, SProv, SingleRp, TestMode, TunnelCacheError,
    TunnelMode, TunnelTestConfig, test_config,
};

fn peer(id: &str, a: usize) -> PeerTest {
    PeerTest { nodeid: id.to_string(), address: LocalAdd(a) }
}

fn ids(r: &[&PeerTest]) -> Vec<String> {
    r.iter().map(|p| p.nodeid.clone()).collect()
}

#[test]
fn cache_ids_of_three_peers() {
    let c = test_cache_ids(3);
    assert_eq!(c, vec![vec![0, 1, 2, 3], vec![1, 2, 3, 4], vec![2, 3, 4, 5]]);
    assert_eq!(test_cache_ids(0).len(), 0);
}

#[test]
fn cache_ids_wrap_at_256() {
    let c = test_cache_ids(255);
    assert_eq!(c[254], vec![254, 255, 0, 1]);
}

#[test]
fn window_parameters() {
    assert_eq!(tunnel::TestSizedWindows::INIT_SIZE, 45);
    assert_eq!(tunnel::TestSizedWindows::growth_ratio(), Some((3, 2)));
    assert!(tunnel::TestSizedWindows::WRITE_SIZE);
    assert!(!tunnel::TestSizedWindows::SECURE_PAD);
    assert_eq!(tunnel::TestSizedWindowsHead::INIT_SIZE, 15);
    assert_eq!(tunnel::TestSizedWindowsHead::growth_ratio(), None);
    assert!(!tunnel::TestSizedWindowsHead::WRITE_SIZE);
    assert_eq!(tunnel_new::TestSizedWindows::INIT_SIZE, 15);
    assert_eq!(tunnel_new::TestSizedWindows::growth_ratio(), Some((3, 2)));
    assert_eq!(tunnel_new::TestSizedWindowsHead::INIT_SIZE, 15);
    assert_eq!(tunnel_new::TestSizedWindowsHead::growth_ratio(), None);
}

#[test]
fn peer_key_address_and_equality() {
    let a = peer("toid1", 1);
    assert_eq!(a.get_key(), "toid1".to_string());
    assert_eq!(a.to_address(), LocalAdd(1));
    assert!(a.kelem_eq_keb(&peer("toid1", 1)));
    assert!(!a.kelem_eq_keb(&peer("toid1", 2)));
    assert!(!a.kelem_eq_keb(&peer("toid2", 1)));
}

#[test]
fn cache_put_then_get() {
    let mut m: CachedInfoManager<u32> = CachedInfoManager(Vec::new(), 0, 0);
    assert!(m.put_symw_tunnel(&[1, 2], 10).is_ok());
    assert!(m.put_symw_tunnel(&[3, 4], 20).is_ok());
    assert_eq!(m.0.len(), 2);
    assert!(m.has_symw_tunnel(&[3, 4]));
    assert_eq!(*m.get_symw_tunnel(&[1, 2]).unwrap(), 10);
    *m.get_symw_tunnel(&[3, 4]).unwrap() = 21;
    assert_eq!(m.0[1].cached_key, Some(21));
    assert_eq!(m.0[1].prev_peer, vec![3, 4]);
}

#[test]
fn cache_get_missing() {
    let mut m: CachedInfoManager<u32> = CachedInfoManager(Vec::new(), 0, 0);
    m.put_symw_tunnel(&[1, 2], 10).unwrap();
    assert_eq!(m.get_symw_tunnel(&[9]).err(), Some(TunnelCacheError::MissingContent));
    assert!(!m.has_symw_tunnel(&[1]));
}

#[test]
fn cache_search_starts_at_next_get_index() {
    let mut m: CachedInfoManager<u32> = CachedInfoManager(Vec::new(), 1, 0);
    m.0.push(CachedInfo { cached_key: Some(1), prev_peer: vec![7] });
    m.0.push(CachedInfo { cached_key: Some(2), prev_peer: vec![7] });
    m.0.push(CachedInfo { cached_key: Some(3), prev_peer: vec![8] });
    // the search begins at the next get index 1, so the second entry with id 7 is found
    assert_eq!(*m.get_symw_tunnel(&[7]).unwrap(), 2);
    // an id found only before index 1 is found by the second pass
    m.0[1].prev_peer = vec![6];
    assert_eq!(*m.get_symw_tunnel(&[7]).unwrap(), 1);
}

#[test]
fn cache_search_ignores_cache_id_counter() {
    let mut m: CachedInfoManager<u32> = CachedInfoManager(Vec::new(), 0, 1);
    m.0.push(CachedInfo { cached_key: Some(1), prev_peer: vec![7] });
    m.0.push(CachedInfo { cached_key: Some(2), prev_peer: vec![7] });
    assert_eq!(*m.get_symw_tunnel(&[7]).unwrap(), 1);
    m.1 = 1;
    assert_eq!(*m.get_symw_tunnel(&[7]).unwrap(), 2);
}

#[test]
fn new_cache_ids_follow_counter() {
    let mut m: CachedInfoManager<u32> = CachedInfoManager(Vec::new(), 0, 0);
    assert_eq!(m.new_cache_id(), vec![0, 1, 2, 3]);
    assert_eq!(m.new_cache_id(), vec![1, 2, 3, 4]);
    assert_eq!(m.2, 2);
    let ids = test_cache_ids(2);
    let mut m2: CachedInfoManager<u32> = CachedInfoManager(Vec::new(), 0, 0);
    assert_eq!(m2.new_cache_id(), ids[0]);
    assert_eq!(m2.new_cache_id(), ids[1]);
}

#[test]
fn inc_ix_wraps() {
    let mut m: CachedInfoManager<u32> = CachedInfoManager(Vec::new(), 0, 0);
    m.put_symw_tunnel(&[1], 1).unwrap();
    m.put_symw_tunnel(&[2], 2).unwrap();
    m.inc_ix();
    assert_eq!(m.1, 1);
    m.inc_ix();
    assert_eq!(m.1, 0);
}

#[test]
fn sym_provider_pairs_roundtrip() {
    let mut prov = SProv(ShadowTest(0, 0, ShadowModeTest::SimpleShift));
    let key = prov.new_sym_key(&peer("toid1", 1));
    assert_eq!(key.len(), 1);
    let mut w = prov.new_sym_writer(vec![9, 1]);
    let mut r = prov.new_sym_reader(vec![9, 1]);
    assert_eq!((w.0 .0, w.0 .1, w.0 .2), (9, 9, ShadowModeTest::SimpleShift));
    let h = w.write_header();
    let hl = ShadowTest::header_len(h[0]).unwrap();
    assert_eq!(r.read_header(&h[..hl]), hl);
    let enc = w.write_into(&[1, 2, 3]);
    assert_ne!(enc, vec![1, 2, 3]);
    assert_eq!(r.read_from(&enc), vec![1, 2, 3]);
    w.flush_into();
    w.write_end();
    r.read_end();
}

#[test]
fn route_provider_alternates() {
    let mut rp = Rp::new(3, peer_tests(), peer_tests_2());
    let dest = peer("dest", 99);
    let r1 = ids(&rp.new_route(&dest));
    assert_eq!(r1, vec!["toid1", "toid2", "dest"]);
    let r2 = ids(&rp.new_route(&dest));
    assert_eq!(r2, vec!["toid1", "toid7", "dest"]);
    let r3 = ids(&rp.new_route(&dest));
    assert_eq!(r3, vec!["toid1", "toid2", "dest"]);
    assert_eq!(rp.4.len(), 3);
}

#[test]
fn route_provider_reply_routes() {
    let mut rp = Rp::new(4, peer_tests(), peer_tests_2());
    let dest = peer("dest", 99);
    let r1 = ids(&rp.new_reply_route(&dest));
    assert_eq!(r1, vec!["dest", "toid3", "toid2", "toid1"]);
    rp.set_size(2);
    let r2 = ids(&rp.new_reply_route(&dest));
    assert_eq!(r2, vec!["dest", "toid1"]);
}

#[test]
fn reply_route_from_base() {
    let dest = peer("dest", 99);
    let r = new_reply_route_1(&peer_tests()[..], 3, &dest);
    let names: Vec<String> = r.iter().map(|p| p.nodeid.clone()).collect();
    assert_eq!(names, vec!["dest", "toid2", "toid1"]);
}

#[test]
fn single_route_provider() {
    let mut srp = SingleRp(peer_tests());
    let dest = peer("dest", 99);
    assert_eq!(ids(&srp.new_route(&dest)), vec!["toid1", "toid2", "toid3", "toid4", "toid5", "toid6"]);
    assert_eq!(ids(&srp.new_reply_route(&dest)), vec!["toid6", "toid5", "toid4", "toid3", "toid2", "toid1"]);
}

#[test]
fn test_modes_and_tunnel_modes() {
    let m = TestMode::Reply(2);
    match m {
        TestMode::Reply(n) => assert_eq!(n, 2),
        TestMode::NoReply => panic!("wrong mode"),
    }
    let t = TunnelMode::BiTunnelOther;
    assert!(matches!(t.clone(), TunnelMode::BiTunnelOther));
}

#[test]
fn peer_fixtures() {
    let a = peer_tests();
    let b = peer_tests_2();
    assert_eq!(a.len(), 6);
    assert_eq!(b.len(), 6);
    assert!(a[0].kelem_eq_keb(&b[0]));
    assert_eq!(a[5].nodeid, "toid6");
    assert_eq!(a[5].address, LocalAdd(6));
    assert_eq!(b[5].nodeid, "toid11");
    assert_eq!(b[5].address, LocalAdd(11));
}

#[test]
fn reply_route_agrees_with_reply_route_1() {
    let dest = peer("dest", 99);
    let mut rp = Rp::new(4, peer_tests(), peer_tests_2());
    let from_provider = ids(&rp.new_reply_route(&dest));
    let built = new_reply_route_1(&peer_tests()[..], 4, &dest);
    let built: Vec<String> = built.iter().map(|p| p.nodeid.clone()).collect();
    assert_eq!(from_provider, built);
    let from_provider2 = ids(&rp.new_reply_route(&dest));
    let built2 = new_reply_route_1(&peer_tests_2()[..], 4, &dest);
    let built2: Vec<String> = built2.iter().map(|p| p.nodeid.clone()).collect();
    assert_eq!(from_provider2, built2);
}

#[test]
fn successive_cache_ids_are_test_cache_ids() {
    let mut m: CachedInfoManager<u32> = CachedInfoManager(Vec::new(), 0, 0);
    let expected = test_cache_ids(300);
    let mut got = Vec::new();
    for _ in 0..300 {
        got.push(m.new_cache_id());
    }
    assert_eq!(got, expected);
    assert_eq!(m.2, 300);
    for i in 0..256 {
        for j in (i + 1)..256 {
            assert_ne!(got[i], got[j]);
        }
    }
}

#[test]
fn second_set_config() {
    let r = peer_tests();
    let tc = TunnelTestConfig {
        me: r[0].clone(),
        dest: r[2].clone(),
        nbpeer: 3,
        route1: peer_tests(),
        route2: peer_tests_2(),
        input_length: 500,
        write_buffer_length: 360,
        read_buffer_length: 130,
        reply_mode: MultipleReplyMode::OtherRoute,
        error_mode: MultipleErrorMode::NoHandling,
        test_mode: TestMode::NoReply,
    };
    let tc2 = tc.clone();
    assert_eq!(tc2.dest.nodeid, "toid3");
    assert!(tc2.reply_mode == MultipleReplyMode::OtherRoute);
    assert_eq!(tc2.route2[1].nodeid, "toid7");
}

#[test]
fn route_to_last_fixture_peer() {
    let z = peer_tests()[5].clone();
    let mut rp = Rp::new(3, peer_tests(), peer_tests_2());
    assert_eq!(ids(&rp.new_route(&z)), vec!["toid1", "toid2", "toid6"]);
    assert_eq!(ids(&rp.new_route(&z)), vec!["toid1", "toid7", "toid6"]);
    assert!(!rp.0);
    assert_eq!(rp.4.len(), 2);
}

#[test]
fn reply_route_after_route_uses_second_base() {
    let z = peer_tests()[5].clone();
    let mut rp = Rp::new(3, peer_tests(), peer_tests_2());
    let _ = rp.new_route(&z);
    assert_eq!(ids(&rp.new_reply_route(&z)), vec!["toid6", "toid7", "toid1"]);
    assert!(!rp.0);
    assert_eq!(rp.4.len(), 2);
}

#[test]
fn peer_clone_keeps_fields() {
    let a = peer("toid3", 3);
    let b = a.clone();
    assert!(a.kelem_eq_keb(&b));
}

#[test]
fn config_over_fixture_peers() {
    let tc = test_config(
        3,
        MultipleReplyMode::OtherRoute,
        MultipleErrorMode::NoHandling,
        500,
        360,
        130,
        TestMode::Reply(1),
    );
    assert_eq!(tc.me.nodeid, "toid1");
    assert_eq!(tc.dest.nodeid, "toid3");
    assert_eq!(tc.dest.address, LocalAdd(3));
    assert_eq!(tc.nbpeer, 3);
    assert_eq!(tc.route1.len(), 6);
    assert_eq!(tc.route2[2].nodeid, "toid8");
    assert_eq!((tc.input_length, tc.write_buffer_length, tc.read_buffer_length), (500, 360, 130));
    assert!(tc.reply_mode == MultipleReplyMode::OtherRoute);
    assert!(matches!(tc.test_mode, TestMode::Reply(1)));
    let last = test_config(6, MultipleReplyMode::NoHandling, MultipleErrorMode::NoHandling, 500, 360, 130, TestMode::NoReply);
    assert_eq!(last.dest.nodeid, "toid6");
}
