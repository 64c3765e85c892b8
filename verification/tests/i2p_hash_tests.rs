use i2p_hash::{Hashable, I2pHash, I2pHashError};
use rustc_serialize::base64::{CharacterSet, Config, Newline, ToBase64};

const ZERO_DISPLAY: &str = "AAAAAAAAAAAAAAAAAAAAAAAAAAAAAAAAAAAAAAAAAAA";

fn sample_bytes() -> [u8; 32] {
    let mut bytes = [0u8; 32];
    for i in 0..32 {
        bytes[i] = i as u8;
    }
    bytes
}

#[test]
fn construct_then_read_back_round_trips() {
    let bytes = sample_bytes();
    let h = I2pHash::new(bytes);
    assert_eq!(h.as_slice(), &bytes[..]);
}

#[test]
fn from_owned_array_round_trips() {
    let bytes = sample_bytes();
    let h = I2pHash::from(bytes);
    assert_eq!(h.as_slice(), &bytes[..]);
}

#[test]
fn from_borrowed_array_round_trips() {
    let bytes = sample_bytes();
    let h = I2pHash::from(&bytes);
    assert_eq!(h.as_slice(), &bytes[..]);
}

#[test]
fn try_from_slice_of_exactly_32_bytes_succeeds() {
    let bytes = sample_bytes();
    let h = I2pHash::try_from_slice(&bytes[..]).unwrap();
    assert_eq!(h.as_slice(), &bytes[..]);
}

#[test]
fn try_from_short_slice_fails_with_length_mismatch() {
    let bytes = [4u8; 31];
    assert_eq!(
        I2pHash::try_from_slice(&bytes[..]),
        Err(I2pHashError::LengthMismatch)
    );
}

#[test]
fn try_from_long_slice_fails_with_length_mismatch() {
    let bytes = [4u8; 33];
    assert_eq!(
        I2pHash::try_from_slice(&bytes[..]),
        Err(I2pHashError::LengthMismatch)
    );
}

#[test]
fn try_from_empty_slice_fails_with_length_mismatch() {
    let bytes: Vec<u8> = vec![];
    assert_eq!(
        I2pHash::try_from_slice(&bytes[..]),
        Err(I2pHashError::LengthMismatch)
    );
}

#[test]
fn default_equals_default() {
    assert!(I2pHash::default() == I2pHash::default());
}

#[test]
fn default_is_32_zero_bytes() {
    let d = I2pHash::default();
    assert_eq!(d.as_slice(), &[0u8; 32][..]);
}

#[test]
fn len_is_always_32() {
    assert_eq!(I2pHash::default().len(), 32);
    assert_eq!(I2pHash::new([0xffu8; 32]).len(), 32);
}

#[test]
fn clone_equals_its_source() {
    let h = I2pHash::new(sample_bytes());
    let c = h.clone();
    assert!(c == h);
    assert_eq!(c.as_slice(), h.as_slice());
}

#[test]
fn borrowed_construction_copies_the_bytes() {
    let mut bytes = [5u8; 32];
    let h = I2pHash::from(&bytes);
    bytes[0] = 9;
    assert_eq!(bytes[0], 9);
    assert_eq!(h.as_slice()[0], 5);
}

#[test]
fn equality_is_reflexive_and_symmetric() {
    let x = I2pHash::new(sample_bytes());
    let y = I2pHash::new(sample_bytes());
    assert!(x == x);
    assert!(x == y);
    assert!(y == x);
}

#[test]
fn flipping_the_last_byte_breaks_equality() {
    let zero = I2pHash::default();
    let mut bytes = [0u8; 32];
    bytes[31] = 1;
    let flipped = I2pHash::new(bytes);
    assert!(zero != flipped);
    assert!(flipped != zero);
}

#[test]
fn single_byte_difference_is_detected_at_every_position() {
    let base = I2pHash::new(sample_bytes());
    for i in 0..32 {
        let mut bytes = sample_bytes();
        bytes[i] = bytes[i].wrapping_add(1);
        let changed = I2pHash::new(bytes);
        assert!(base != changed);
    }
}

#[test]
fn zero_digest_displays_as_43_a_characters() {
    let s = I2pHash::default().to_display_string();
    assert_eq!(s, ZERO_DISPLAY);
    assert_eq!(s.len(), 43);
    assert!(!s.contains('='));
}

#[test]
fn display_uses_only_the_standard_alphabet() {
    let s = I2pHash::new(sample_bytes()).to_display_string();
    assert_eq!(s.len(), 43);
    assert!(s
        .chars()
        .all(|c| c.is_ascii_alphanumeric() || c == '+' || c == '/'));
}

#[test]
fn all_ff_digest_displays_as_42_slashes_then_8() {
    let s = I2pHash::new([0xffu8; 32]).to_display_string();
    let expected: String = "/".repeat(42) + "8";
    assert_eq!(s, expected);
}

#[test]
fn display_matches_the_collaborator_encoding() {
    let config = Config {
        char_set: CharacterSet::Standard,
        newline: Newline::LF,
        pad: false,
        line_length: None,
    };
    let mut bytes = [0u8; 32];
    for i in 0..32 {
        bytes[i] = (i as u8).wrapping_mul(7).wrapping_add(3);
    }
    let h = I2pHash::new(bytes);
    assert_eq!(h.to_display_string(), bytes[..].to_base64(config));
}

#[test]
fn identical_bytes_display_identically() {
    let x = I2pHash::new(sample_bytes());
    let y = I2pHash::new(sample_bytes());
    assert_eq!(x.to_display_string(), y.to_display_string());
}

#[test]
fn any_differing_byte_changes_the_display() {
    let base = I2pHash::new(sample_bytes());
    for i in 0..32 {
        let mut bytes = sample_bytes();
        bytes[i] = bytes[i].wrapping_add(1);
        let changed = I2pHash::new(bytes);
        assert_ne!(base.to_display_string(), changed.to_display_string());
    }
}

struct Tagged {
    tag: u8,
}

impl Hashable for Tagged {
    // The ghost method is erased during verification but remains a trait
    // item for ordinary Rust implementors; it names the same digest that
    // `hash` computes.
    fn hash_spec(&self) -> I2pHash {
        I2pHash::new([self.tag; 32])
    }

    fn hash(&self) -> I2pHash {
        I2pHash::new([self.tag; 32])
    }
}

#[test]
fn hashable_is_deterministic_on_unchanged_state() {
    let t = Tagged { tag: 3 };
    let first = t.hash();
    let second = t.hash();
    assert!(first == second);
    assert_eq!(first.as_slice(), second.as_slice());
}
