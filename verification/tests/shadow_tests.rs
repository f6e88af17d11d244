use mydht_basetest::shadow::{shift_down, shift_up, ShadowModeTest, ShadowTest};

#[test]
fn shift_up_wraps() {
    assert_eq!(shift_up(1, 2), 3);
    assert_eq!(shift_up(250, 10), 4);
    assert_eq!(shift_up(255, 1), 0);
}

#[test]
fn shift_down_wraps() {
    assert_eq!(shift_down(3, 2), 1);
    assert_eq!(shift_down(4, 10), 250);
    assert_eq!(shift_down(0, 1), 255);
}

#[test]
fn shift_roundtrip_all_bytes() {
    for b in 0..=255u8 {
        for k in [0u8, 1, 7, 128, 255] {
            assert_eq!(shift_down(shift_up(b, k), k), b);
            assert_eq!(shift_up(shift_down(b, k), k), b);
        }
    }
}

#[test]
fn shadow_iter_sim_shifts_by_first_key_byte() {
    let st = ShadowTest(5, 0, ShadowModeTest::SimpleShiftNoHead);
    assert_eq!(st.shadow_iter_sim(&[3, 9], &[1, 2, 254]), vec![4, 5, 1]);
    let none = ShadowTest(5, 0, ShadowModeTest::NoShadow);
    assert_eq!(none.shadow_iter_sim(&[], &[1, 2, 254]), vec![1, 2, 254]);
    assert_eq!(st.shadow_iter_sim(&[], &[]), Vec::<u8>::new());
}

#[test]
fn read_shadow_iter_sim_shifts_back() {
    let st = ShadowTest(5, 0, ShadowModeTest::SimpleShift);
    assert_eq!(st.read_shadow_iter_sim(&[3], &[4, 5, 1]), vec![1, 2, 254]);
    let none = ShadowTest(5, 0, ShadowModeTest::NoShadow);
    assert_eq!(none.read_shadow_iter_sim(&[], &[4, 5]), vec![4, 5]);
}

#[test]
fn write_into_uses_mode_key() {
    let mut st = ShadowTest(2, 3, ShadowModeTest::SimpleShift);
    assert_eq!(st.write_into(&[0, 10, 255]), vec![5, 15, 4]);
    let mut nohead = ShadowTest(2, 3, ShadowModeTest::SimpleShiftNoHead);
    assert_eq!(nohead.write_into(&[0, 10, 255]), vec![2, 12, 1]);
    let mut plain = ShadowTest(2, 3, ShadowModeTest::NoShadow);
    assert_eq!(plain.write_into(&[0, 10, 255]), vec![0, 10, 255]);
    // the sum of the keys wraps
    let mut big = ShadowTest(200, 100, ShadowModeTest::SimpleShift);
    assert_eq!(big.write_into(&[0]), vec![44]);
}

#[test]
fn read_from_uses_mode_key() {
    let mut st = ShadowTest(2, 3, ShadowModeTest::SimpleShift);
    assert_eq!(st.read_from(&[5, 15, 4]), vec![0, 10, 255]);
    let mut nohead = ShadowTest(2, 3, ShadowModeTest::SimpleShiftNoHead);
    assert_eq!(nohead.read_from(&[2, 12, 1]), vec![0, 10, 255]);
    let mut plain = ShadowTest(2, 3, ShadowModeTest::NoShadow);
    assert_eq!(plain.read_from(&[7]), vec![7]);
}

#[test]
fn write_header_by_mode() {
    let mut st = ShadowTest(2, 3, ShadowModeTest::NoShadow);
    assert_eq!(st.write_header(), vec![0]);
    assert_eq!(st.1, 3);
    let mut st = ShadowTest(2, 3, ShadowModeTest::SimpleShiftNoHead);
    assert_eq!(st.write_header(), vec![2]);
    assert_eq!(st.1, 3);
    let mut st = ShadowTest(2, 3, ShadowModeTest::SimpleShift);
    let h = st.write_header();
    assert_eq!(h.len(), 2);
    assert_eq!(h[0], 1);
    assert_eq!(h[1], st.1);
    assert_eq!(st.0, 2);
}

#[test]
fn write_header_with_key_stores_key() {
    let mut st = ShadowTest(2, 3, ShadowModeTest::SimpleShift);
    assert_eq!(st.write_header_with_key(77), vec![1, 77]);
    assert_eq!(st.1, 77);
    let mut st = ShadowTest(2, 3, ShadowModeTest::SimpleShiftNoHead);
    assert_eq!(st.write_header_with_key(77), vec![2]);
    assert_eq!(st.1, 3);
}

#[test]
fn header_len_by_code() {
    assert_eq!(ShadowTest::header_len(0), Some(1));
    assert_eq!(ShadowTest::header_len(1), Some(2));
    assert_eq!(ShadowTest::header_len(2), Some(1));
    assert_eq!(ShadowTest::header_len(3), None);
    assert_eq!(ShadowTest::header_len(255), None);
}

#[test]
fn read_header_sets_mode_and_key() {
    let mut st = ShadowTest(9, 8, ShadowModeTest::SimpleShiftNoHead);
    assert_eq!(st.read_header(&[1, 42]), 2);
    assert_eq!(st.get_mode(), ShadowModeTest::SimpleShift);
    assert_eq!((st.0, st.1), (9, 42));
    assert_eq!(st.read_header(&[0]), 1);
    assert_eq!(st.get_mode(), ShadowModeTest::NoShadow);
    assert_eq!((st.0, st.1), (9, 42));
    assert_eq!(st.read_header(&[2, 5]), 1);
    assert_eq!(st.get_mode(), ShadowModeTest::SimpleShiftNoHead);
}

#[test]
fn set_mode_then_get_mode() {
    let mut st = ShadowTest(1, 2, ShadowModeTest::NoShadow);
    st.set_mode(ShadowModeTest::SimpleShift);
    assert_eq!(st.get_mode(), ShadowModeTest::SimpleShift);
    assert_eq!((st.0, st.1), (1, 2));
}

#[test]
fn simkey_exchange() {
    let sim = ShadowTest::new_shadow_sim();
    assert_eq!(sim.0, sim.1);
    assert_eq!(sim.2, ShadowModeTest::SimpleShiftNoHead);
    let k = sim.send_shadow_simkey();
    assert_eq!(k, vec![sim.0]);
    let w = ShadowTest::init_from_shadow_simkey(&k);
    let r = ShadowTest::init_from_shadow_simkey(&k);
    assert_eq!((w.0, w.1, w.2), (sim.0, sim.0, ShadowModeTest::SimpleShiftNoHead));
    assert_eq!(r.send_shadow_simkey(), k);
    let none = ShadowTest::init_from_shadow_simkey(&[]);
    assert_eq!((none.0, none.1), (0, 0));
}

#[test]
fn shadow_simkey_is_one_byte() {
    for _ in 0..10 {
        assert_eq!(ShadowTest::shadow_simkey().len(), 1);
    }
}

#[test]
fn flush_and_end_keep_state() {
    let mut st = ShadowTest(1, 2, ShadowModeTest::SimpleShift);
    st.flush_into();
    st.write_end();
    st.read_end();
    st.shadow_sim_flush();
    assert_eq!((st.0, st.1, st.2), (1, 2, ShadowModeTest::SimpleShift));
}

fn message_roundtrip(smode: ShadowModeTest, input_length: usize, wlen: usize, rlen: usize) {
    let input: Vec<u8> = (0..input_length).map(|i| (i * 7 + 3) as u8).collect();
    let mut from = ShadowTest(17, 0, ShadowModeTest::NoShadow);
    from.set_mode(smode);
    let mut to = ShadowTest(17, 0, ShadowModeTest::NoShadow);
    let mut output = from.write_header();
    let mut ix = 0;
    while ix < input_length {
        let end = if ix + wlen < input_length { ix + wlen } else { input_length };
        let enc = from.write_into(&input[ix..end]);
        output.extend_from_slice(&enc);
        ix = end;
    }
    from.write_end();
    from.flush_into();
    let hl = ShadowTest::header_len(output[0]).unwrap();
    assert_eq!(to.read_header(&output[..hl]), hl);
    assert_eq!(to.get_mode(), smode);
    let body = &output[hl..];
    let mut pos = 0;
    let mut got = Vec::new();
    while pos < body.len() {
        let end = if pos + rlen < body.len() { pos + rlen } else { body.len() };
        let dec = to.read_from(&body[pos..end]);
        assert_eq!(&dec[..], &input[pos..end]);
        got.extend_from_slice(&dec);
        pos = end;
    }
    assert_eq!(got, input);
}

#[test]
fn message_roundtrip_every_mode() {
    for smode in [
        ShadowModeTest::NoShadow,
        ShadowModeTest::SimpleShift,
        ShadowModeTest::SimpleShiftNoHead,
    ] {
        message_roundtrip(smode, 500, 360, 130);
        message_roundtrip(smode, 500, 130, 360);
    }
}

#[test]
fn simshadow_roundtrip_in_chunks() {
    let sim = ShadowTest::new_shadow_sim();
    let k = sim.send_shadow_simkey();
    let mut w = ShadowTest::init_from_shadow_simkey(&k);
    let mut r = ShadowTest::init_from_shadow_simkey(&k);
    let input: Vec<u8> = (0..300usize).map(|i| (i % 251) as u8).collect();
    let mut out = Vec::new();
    for chunk in input.chunks(64) {
        out.extend_from_slice(&w.write_into(chunk));
    }
    let mut back = Vec::new();
    for chunk in out.chunks(100) {
        back.extend_from_slice(&r.read_from(chunk));
    }
    assert_eq!(back, input);
}
