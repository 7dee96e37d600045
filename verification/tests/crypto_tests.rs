use maccy::crypto::{derive_pin, derive_shared_secret, format_six_digits, generate_identity, hash_content};

#[test]
fn test_pin_derivation_is_deterministic() {
    let (secret_a, public_a) = generate_identity();
    let (secret_b, public_b) = generate_identity();

    let shared_a = derive_shared_secret(&secret_a, &public_b);
    let shared_b = derive_shared_secret(&secret_b, &public_a);

    assert_eq!(shared_a, shared_b);
    assert_eq!(derive_pin(&shared_a), derive_pin(&shared_b));
}

#[test]
fn test_pin_is_six_digits() {
    let (secret_a, _public_a) = generate_identity();
    let (_secret_b, public_b) = generate_identity();
    let shared = derive_shared_secret(&secret_a, &public_b);
    let pin = derive_pin(&shared);

    assert_eq!(pin.len(), 6);
    assert!(pin.chars().all(|c| c.is_ascii_digit()));
}

#[test]
fn identities_differ() {
    let (secret_a, public_a) = generate_identity();
    let (secret_b, public_b) = generate_identity();
    assert_ne!(secret_a, secret_b);
    assert_ne!(public_a, public_b);
    assert_ne!(secret_a, public_a);
}

#[test]
fn hash_of_empty_content() {
    assert_eq!(
        hash_content(b""),
        "e3b0c44298fc1c149afbf4c8996fb92427ae41e4649b934ca495991b7852b855"
    );
}

#[test]
fn hash_of_abc() {
    assert_eq!(
        hash_content(b"abc"),
        "ba7816bf8f01cfea414140de5dae2223b00361a396177a9cb410ff61f20015ad"
    );
}

#[test]
fn pin_of_zero_secret_is_stable() {
    let shared = [0u8; 32];
    let a = derive_pin(&shared);
    let b = derive_pin(&shared);
    assert_eq!(a, b);
    assert_eq!(a.len(), 6);
    let other = derive_pin(&[1u8; 32]);
    assert_eq!(other.len(), 6);
}

#[test]
fn six_digits_formatting() {
    assert_eq!(format_six_digits(0), "000000");
    assert_eq!(format_six_digits(42), "000042");
    assert_eq!(format_six_digits(999_999), "999999");
    assert_eq!(format_six_digits(1_000_000), "000000");
    assert_eq!(format_six_digits(4_294_967_295), "967295");
}
