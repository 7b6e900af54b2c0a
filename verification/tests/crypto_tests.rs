use secmsg::crypto_lib::{gen_key_pair, key_pair_from_secret, Crypto, DecryptError, Key};

fn hex32(s: &str) -> Key {
    let mut k = [0u8; 32];
    for i in 0..32 {
        k[i] = u8::from_str_radix(&s[2 * i..2 * i + 2], 16).unwrap();
    }
    k
}

#[test]
fn public_key_matches_x25519_test_vector() {
    // RFC 7748, section 6.1: Alice's key pair.
    let secret = hex32("77076d0a7318a57d3c16c17251b26645df4c2f87ebc0992ab177fba51db92c2a");
    let expected = hex32("8520f0098930a754748b7ddcb43ef75a0dbf3a0d26381af4eba4a98eaa9b4e6a");
    let (s, p) = key_pair_from_secret(secret);
    assert_eq!(s, secret);
    assert_eq!(p, expected);
}

#[test]
fn generated_key_pair_is_consistent() {
    let (s, p) = gen_key_pair().expect("random source");
    let (_, p2) = key_pair_from_secret(s);
    assert_eq!(p, p2);
}

#[test]
fn decrypt_undoes_encrypt() {
    let (s, p) = gen_key_pair().unwrap();
    let me = Crypto::new(s, p);
    let sender = Crypto::new([7u8; 32], [0u8; 32]);
    let msg = b"hello, onion".to_vec();
    let sealed = sender.encrypt(&p, &msg).unwrap();
    assert_eq!(sealed.len(), 48 + msg.len());
    assert_ne!(&sealed[48..], &msg[..]);
    assert_eq!(me.decrypt(&sealed).unwrap(), msg);
}

#[test]
fn decrypt_undoes_encrypt_of_empty_message() {
    let (s, p) = gen_key_pair().unwrap();
    let me = Crypto::new(s, p);
    let sealed = me.encrypt(&p, &[]).unwrap();
    assert_eq!(sealed.len(), 48);
    assert_eq!(me.decrypt(&sealed).unwrap(), Vec::<u8>::new());
}

#[test]
fn envelope_layout_with_fixed_ephemeral() {
    let (s, p) = key_pair_from_secret([3u8; 32]);
    let eph = [9u8; 32];
    let (_, eph_pub) = key_pair_from_secret(eph);
    let sealed = Crypto::encrypt_with_ephemeral(&p, b"abc", &eph);
    assert_eq!(sealed.len(), 51);
    assert_eq!(&sealed[0..32], &eph_pub[..]);
    let again = Crypto::encrypt_with_ephemeral(&p, b"abc", &eph);
    assert_eq!(sealed, again);
    let me = Crypto::new(s, p);
    assert_eq!(me.decrypt(&sealed).unwrap(), b"abc".to_vec());
}

#[test]
fn short_envelope_is_malformed() {
    let me = Crypto::new([1u8; 32], [2u8; 32]);
    assert!(matches!(me.decrypt(&[0u8; 47]), Err(DecryptError::Malformed)));
    assert!(matches!(me.decrypt(&[]), Err(DecryptError::Malformed)));
}

#[test]
fn tampered_envelope_is_invalid() {
    let (s, p) = gen_key_pair().unwrap();
    let me = Crypto::new(s, p);
    let mut sealed = me.encrypt(&p, b"secret").unwrap();
    let last = sealed.len() - 1;
    sealed[last] ^= 1;
    assert!(matches!(me.decrypt(&sealed), Err(DecryptError::Invalid)));
}

#[test]
fn envelope_for_another_key_is_invalid() {
    let (s1, p1) = gen_key_pair().unwrap();
    let (s2, p2) = gen_key_pair().unwrap();
    let other = Crypto::new(s2, p2);
    let sealed = other.encrypt(&p1, b"for one only").unwrap();
    assert!(matches!(other.decrypt(&sealed), Err(DecryptError::Invalid)));
    assert_eq!(Crypto::new(s1, p1).decrypt(&sealed).unwrap(), b"for one only".to_vec());
}

#[test]
fn crypto_keeps_its_public_key() {
    let c = Crypto::new([1u8; 32], [2u8; 32]);
    assert_eq!(c.pub_key, [2u8; 32]);
    assert_eq!(c.get_pub_key(), [2u8; 32]);
}

#[test]
fn plaintext_is_the_envelope_without_its_header() {
    let (s, p) = gen_key_pair().unwrap();
    let me = Crypto::new(s, p);
    for n in [0usize, 1, 63, 64, 65, 200] {
        let msg = vec![0x5au8; n];
        let sealed = me.encrypt(&p, &msg).unwrap();
        assert_eq!(sealed.len(), 48 + n);
        let opened = me.decrypt(&sealed).unwrap();
        assert_eq!(opened.len(), sealed.len() - 48);
        assert_eq!(opened, msg);
    }
}
