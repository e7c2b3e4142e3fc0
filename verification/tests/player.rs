use std::collections::hash_map::DefaultHasher;
use std::hash::{Hash, Hasher};

use tune::player::{
    bytes_in_order, device_id_for_name, device_id_in_order, hash_of_name, hashes_to_id, id_with_bytes, local_play, LocalPlay,
};

fn expected(name: &str) -> String {
    let mut h = DefaultHasher::new();
    name.hash(&mut h);
    "tune".hash(&mut h);
    let a = h.finish();
    let mut h2 = DefaultHasher::new();
    a.hash(&mut h2);
    "tune2".hash(&mut h2);
    format!("{:016x}{:016x}", a, h2.finish())
}

#[test]
fn a_device_id_hashes_the_name_as_std_does() {
    for name in ["tune", "", "tune (laptop)", "høyttaler"] {
        assert_eq!(device_id_for_name(name), expected(name));
    }
}

#[test]
fn a_device_keeps_its_id_and_shares_it_with_no_other() {
    let id = device_id_for_name("tune");
    assert_eq!(id, device_id_for_name("tune"));
    assert_ne!(id, device_id_for_name("tune (laptop)"));
    assert_eq!(id.len(), 32);
    assert!(id.chars().all(|c| c.is_ascii_digit() || ('a'..='f').contains(&c)));
}

#[test]
fn two_hashes_make_one_id() {
    assert_eq!(hashes_to_id(1, 0xabc), "00000000000000010000000000000abc");
}

#[test]
fn tune_plays_here_where_it_is_wanted_and_can_sign_in() {
    assert!(matches!(local_play(false, Some("t".into())), LocalPlay::Off));
    assert!(matches!(local_play(true, None), LocalPlay::NoToken));
    assert!(matches!(local_play(true, Some(String::new())), LocalPlay::NoToken));
    assert!(matches!(local_play(true, Some("t".into())), LocalPlay::SignIn(t) if t == "t"));
}

#[test]
fn an_id_rests_on_the_name_and_the_byte_order_alone() {
    let a = hash_of_name("tune");
    let id = id_with_bytes(a, &a.to_ne_bytes().to_vec());
    assert_eq!(id, device_id_for_name("tune"));
    assert_eq!(id, id_with_bytes(a, &a.to_ne_bytes().to_vec()));
    let mut other = a.to_ne_bytes().to_vec();
    other.reverse();
    assert_ne!(id, id_with_bytes(a, &other));
}

#[test]
fn in_one_byte_order_a_name_has_one_id() {
    assert_eq!(bytes_in_order(0x0102_0304_0506_0708, true), [8, 7, 6, 5, 4, 3, 2, 1]);
    assert_eq!(bytes_in_order(0x0102_0304_0506_0708, false), [1, 2, 3, 4, 5, 6, 7, 8]);
    let little = 1u64.to_ne_bytes()[0] == 1;
    assert_eq!(device_id_in_order("tune", little), device_id_for_name("tune"));
    assert_ne!(device_id_in_order("tune", !little), device_id_for_name("tune"));
}
