use cryptoexchange::crypto::KeyPair;
use cryptoexchange::client::ExonumService;

#[test]
fn owner_hex_is_lower_case_two_digits_per_byte() {
    let mut secret = [0u8; 32];
    secret[0] = 1;
    let kp = KeyPair::from_secret(secret);
    let public = kp.public_bytes();
    let mut service = ExonumService::new();
    service.create_account_with(kp);
    let text = service.get_owner();
    assert_eq!(text.len(), 64);
    assert!(text.chars().all(|c| c.is_ascii_digit() || ('a'..='f').contains(&c)));
    assert_eq!(hex::decode(&text).unwrap(), public.to_vec());
}
