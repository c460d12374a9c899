//! Shape checks of the generated identifiers: each generator's output must
//! match the format its contract pins, with the random parts in range.

use taskbank::generators::{
    generate_account_number, generate_card_number, generate_cvc, generate_expiry_date,
    generate_ip_address, generate_mac_address, generate_password,
};

#[test]
fn ip_has_four_octets_in_range() {
    for _ in 0..50 {
        let ip = generate_ip_address();
        let parts: Vec<&str> = ip.split('.').collect();
        assert_eq!(parts.len(), 4);
        let octets: Vec<u32> = parts.iter().map(|p| p.parse().unwrap()).collect();
        assert!(octets[0] >= 1 && octets[0] < 255);
        assert!(octets[1] < 255);
        assert!(octets[2] < 255);
        assert!(octets[3] >= 1 && octets[3] < 255);
    }
}

#[test]
fn mac_has_six_uppercase_hex_bytes() {
    for _ in 0..50 {
        let mac = generate_mac_address();
        let parts: Vec<&str> = mac.split(':').collect();
        assert_eq!(parts.len(), 6);
        for p in parts {
            assert_eq!(p.len(), 2);
            assert!(u8::from_str_radix(p, 16).is_ok());
            assert!(p.chars().all(|c| c.is_ascii_digit() || ('A'..='F').contains(&c)));
        }
    }
}

#[test]
fn account_number_is_ten_digits() {
    for _ in 0..50 {
        let n = generate_account_number();
        assert_eq!(n.len(), 10);
        let v: u64 = n.parse().unwrap();
        assert!((1_000_000_000..9_999_999_999).contains(&v));
    }
}

#[test]
fn card_number_carries_issuer_prefix() {
    for _ in 0..50 {
        let c = generate_card_number();
        assert_eq!(c.len(), 16);
        assert!(c.starts_with("0057"));
        assert!(c.chars().all(|ch| ch.is_ascii_digit()));
    }
}

#[test]
fn cvc_is_three_digits() {
    for _ in 0..50 {
        let c = generate_cvc();
        assert_eq!(c.len(), 3);
        let v: u32 = c.parse().unwrap();
        assert!((100..999).contains(&v));
    }
}

#[test]
fn expiry_is_month_slash_year() {
    let e = generate_expiry_date();
    assert_eq!(e.len(), 5);
    let parts: Vec<&str> = e.split('/').collect();
    assert_eq!(parts.len(), 2);
    let month: u32 = parts[0].parse().unwrap();
    assert!((1..=12).contains(&month));
    let _year: u32 = parts[1].parse().unwrap();
    assert_eq!(parts[1].len(), 2);
}

#[test]
fn password_draws_from_the_charset() {
    let charset = "ABCDEFGHIJKLMNOPQRSTUVWXYZabcdefghijklmnopqrstuvwxyz0123456789!@#$%^&*";
    for len in [0usize, 1, 12, 40] {
        let p = generate_password(len);
        assert_eq!(p.chars().count(), len);
        assert!(p.chars().all(|c| charset.contains(c)));
    }
}
