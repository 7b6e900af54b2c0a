use vstd::prelude::*;
use crypto::aead::{AeadDecryptor, AeadEncryptor};
use rand::Rng;

verus! {

/// A 32-byte Curve25519 key (secret scalar or public point).
pub type Key = [u8; 32];

/// Length of the ephemeral public key that opens every envelope.
pub const EPHEMERAL_LEN: usize = 32;

/// Length of the authentication tag that follows the ephemeral key.
pub const TAG_LEN: usize = 16;

/// Length of the envelope header: ephemeral public key, then tag.
pub const HEADER_LEN: usize = 48;

/// Why sealing a message failed.
#[derive(Debug, Clone, Copy, PartialEq, Eq, Structural)]
pub enum EncryptError {
    RngInitializationFailed,
}

/// Why opening a sealed message failed.
#[derive(Debug, Clone, Copy, PartialEq, Eq, Structural)]
pub enum DecryptError {
    Malformed,
    Invalid,
}

// ---------------------------------------------------------------------------
// The outside primitives: rust-crypto's X25519 and ChaCha20-Poly1305, and the
// operating system's random source through `rand`.
// ---------------------------------------------------------------------------

/// What `crypto::curve25519::curve25519(n, p)` returns for a 32-byte scalar
/// `n` and a 32-byte point `p`.
pub uninterp spec fn x25519(scalar: Seq<u8>, point: Seq<u8>) -> [u8; 32];

/// The Curve25519 base point `9` in its 32-byte little-endian encoding, the
/// point that `crypto::curve25519::curve25519_base` multiplies.
pub open spec fn base_point() -> Seq<u8> {
    seq![9u8] + Seq::new(31, |i: int| 0u8)
}

/// The public key that belongs to a secret scalar.
pub open spec fn public_key_of(secret: Seq<u8>) -> Seq<u8> {
    x25519(secret, base_point())@
}

/// What a ChaCha20-Poly1305 cipher of rust-crypto, made by
/// `ChaCha20Poly1305::new(key, nonce, aad)`, writes when its `encrypt` runs on
/// `plaintext`: the ciphertext and the 16-byte tag.
pub uninterp spec fn chacha20poly1305_seal(
    key: Seq<u8>,
    nonce: Seq<u8>,
    aad: Seq<u8>,
    plaintext: Seq<u8>,
) -> (Seq<u8>, [u8; 16]);

/// What a ChaCha20-Poly1305 cipher of rust-crypto, made by
/// `ChaCha20Poly1305::new(key, nonce, aad)`, gives back when its `decrypt`
/// runs on `ciphertext` and `tag`: the plaintext, or `None` where the tag
/// does not match.
pub uninterp spec fn chacha20poly1305_open(
    key: Seq<u8>,
    nonce: Seq<u8>,
    aad: Seq<u8>,
    ciphertext: Seq<u8>,
    tag: Seq<u8>,
) -> Option<Seq<u8>>;

#[verifier::external_type_specification]
#[verifier::external_body]
pub struct ExOsRng(rand::OsRng);

#[verifier::external_type_specification]
#[verifier::external_body]
pub struct ExIoError(std::io::Error);

/// Calls `crypto::curve25519::curve25519`, the X25519 function of rust-crypto.
/// Claimed: the result is the name `x25519` of the two arguments; and, as
/// Diffie-Hellman agreement on Curve25519 gives (RFC 7748, section 6.1:
/// both sides compute the same shared secret; the scalar is clamped the
/// same way on both sides), where the point is the public key of a 32-byte
/// secret `e`, the result equals `e` applied to the public key of the scalar.
#[verifier::external_body]
fn curve25519(scalar: &[u8; 32], point: &[u8; 32]) -> (r: [u8; 32])
    ensures
        r == x25519(scalar@, point@),
        forall|e: Seq<u8>|
            e.len() == 32 && point@ == public_key_of(e) ==> r@ == x25519(
                e,
                public_key_of(scalar@),
            )@,
{
    crypto::curve25519::curve25519(&scalar[..], &point[..])
}

/// Calls `crypto::curve25519::curve25519_base`, whose source is
/// `curve25519(x, [9, 0, .., 0])`. Claimed: the result is `x25519` of the
/// secret and the base point.
#[verifier::external_body]
fn curve25519_base(secret: &[u8; 32]) -> (r: [u8; 32])
    ensures
        r@ == public_key_of(secret@),
{
    crypto::curve25519::curve25519_base(&secret[..])
}

/// Makes a `crypto::chacha20poly1305::ChaCha20Poly1305` with `new(key, nonce,
/// aad)` and runs its one `encrypt` (the cipher refuses a second) on
/// `plaintext`. Claimed: the ciphertext and tag are the name
/// `chacha20poly1305_seal` of the four arguments, and the ciphertext is as
/// long as the plaintext (`encrypt` asserts that output and input lengths
/// agree).
#[verifier::external_body]
fn aead_seal(key: &[u8; 32], nonce: &[u8; 8], aad: &[u8], plaintext: &[u8]) -> (r: (Vec<u8>, [u8; 16]))
    ensures
        (r.0@, r.1) == chacha20poly1305_seal(key@, nonce@, aad@, plaintext@),
        r.0@.len() == plaintext@.len(),
{
    let mut cipher = crypto::chacha20poly1305::ChaCha20Poly1305::new(&key[..], &nonce[..], aad);
    let mut output = vec![0u8; plaintext.len()];
    let mut tag = [0u8; 16];
    cipher.encrypt(plaintext, &mut output[..], &mut tag[..]);
    (output, tag)
}

/// Makes a `crypto::chacha20poly1305::ChaCha20Poly1305` with `new(key, nonce,
/// aad)` and runs its one `decrypt` on `ciphertext` and `tag`; its `false`
/// becomes `None`. Claimed: the result is the name `chacha20poly1305_open`
/// of the five arguments; a plaintext is as long as the ciphertext; and
/// where ciphertext and tag are what `encrypt` wrote for some plaintext
/// under the same key, nonce and aad, that plaintext comes back (the source
/// recomputes the same Poly1305 tag over the same bytes and XORs the same
/// ChaCha20 keystream back off).
#[verifier::external_body]
fn aead_open(key: &[u8; 32], nonce: &[u8; 8], aad: &[u8], ciphertext: &[u8], tag: &[u8]) -> (r: Option<Vec<u8>>)
    ensures
        bytes_of(r) == chacha20poly1305_open(key@, nonce@, aad@, ciphertext@, tag@),
        r matches Some(p) ==> p@.len() == ciphertext@.len(),
        forall|m: Seq<u8>|
            #[trigger] sealed_to(chacha20poly1305_seal(key@, nonce@, aad@, m), ciphertext@, tag@)
                ==> bytes_of(r) == Some(m),
{
    let mut cipher = crypto::chacha20poly1305::ChaCha20Poly1305::new(&key[..], &nonce[..], aad);
    let mut output = vec![0u8; ciphertext.len()];
    if cipher.decrypt(ciphertext, &mut output[..], tag) {
        Some(output)
    } else {
        None
    }
}

/// Calls `rand::OsRng::new`. Whether the operating system's generator can be
/// opened depends on the machine: nothing is claimed.
#[verifier::external_body]
fn os_rng() -> (r: Result<rand::OsRng, std::io::Error>) {
    rand::OsRng::new()
}

/// Calls `Rng::fill_bytes` of `rand::OsRng` on the 32 bytes of `buf`. The
/// bytes are random: nothing is claimed of them. (The generator panics where
/// the operating system refuses to hand out randomness.)
#[verifier::external_body]
fn fill_random(rng: &mut rand::OsRng, buf: &mut [u8; 32]) {
    rng.fill_bytes(&mut buf[..])
}

/// Whether a sealed pair is the given ciphertext and tag.
pub open spec fn sealed_to(sealed: (Seq<u8>, [u8; 16]), ciphertext: Seq<u8>, tag: Seq<u8>) -> bool {
    sealed.0 == ciphertext && sealed.1@ == tag
}

/// The bytes an optional vector holds.
pub open spec fn bytes_of(o: Option<Vec<u8>>) -> Option<Seq<u8>> {
    match o {
        Some(v) => Some(v@),
        None => None,
    }
}

/// The bytes a decryption result holds.
pub open spec fn plaintext_of(r: Result<Vec<u8>, DecryptError>) -> Result<Seq<u8>, DecryptError> {
    match r {
        Ok(v) => Ok(v@),
        Err(e) => Err(e),
    }
}

// ---------------------------------------------------------------------------
// Envelopes
// ---------------------------------------------------------------------------

/// The nonce every envelope uses: each envelope has a fresh key, agreed
/// with a fresh ephemeral scalar.
pub open spec fn envelope_nonce() -> Seq<u8> {
    Seq::new(8, |i: int| 0u8)
}

/// The envelope that `ephemeral` seals `message` in for the holder of
/// `recipient`: the ephemeral public key, the tag and the ciphertext, where
/// the cipher is keyed by X25519 of the ephemeral secret and the recipient.
pub open spec fn sealed_envelope(ephemeral: Seq<u8>, recipient: Seq<u8>, message: Seq<u8>) -> Seq<
    u8,
> {
    let shared = x25519(ephemeral, recipient)@;
    let sealed = chacha20poly1305_seal(shared, envelope_nonce(), Seq::empty(), message);
    public_key_of(ephemeral) + sealed.1@ + sealed.0
}

/// What opening `envelope` with `secret` gives: `Malformed` below the header
/// length, `Invalid` where the tag does not check, else the plaintext.
pub open spec fn opened_envelope(secret: Seq<u8>, envelope: Seq<u8>) -> Result<
    Seq<u8>,
    DecryptError,
> {
    if envelope.len() < 48 {
        Err(DecryptError::Malformed)
    } else {
        let shared = x25519(secret, envelope.subrange(0, 32))@;
        match chacha20poly1305_open(
            shared,
            envelope_nonce(),
            Seq::empty(),
            envelope.subrange(48, envelope.len() as int),
            envelope.subrange(32, 48),
        ) {
            Some(p) => Ok(p),
            None => Err(DecryptError::Invalid),
        }
    }
}

/// Copies a slice into a fresh vector.
fn copy_bytes(src: &[u8], dst: &mut Vec<u8>)
    ensures
        final(dst)@ == old(dst)@ + src@,
{
    let mut i: usize = 0;
    while i < src.len()
        invariant
            i <= src@.len(),
            dst@ == old(dst)@ + src@.subrange(0, i as int),
        decreases src@.len() - i,
    {
        dst.push(src[i]);
        i = i + 1;
        assert(src@.subrange(0, i as int) == src@.subrange(0, i - 1) + seq![src@[i - 1]]);
    }
    assert(src@.subrange(0, src@.len() as int) == src@);
}

/// A key pair: the secret scalar stays inside, the public point is shared.
#[derive(Clone, Copy)]
pub struct Crypto {
    priv_key: Key,
    pub pub_key: Key,
}

impl Crypto {
    /// The secret scalar this key pair holds.
    pub closed spec fn secret_key(self) -> Seq<u8> {
        self.priv_key@
    }

    /// The public point this key pair shows.
    pub closed spec fn public_key(self) -> Seq<u8> {
        self.pub_key@
    }

    pub fn new(private_key: Key, public_key: Key) -> (r: Crypto)
        ensures
            r.secret_key() == private_key@,
            r.public_key() == public_key@,
    {
        Crypto { priv_key: private_key, pub_key: public_key }
    }

    /// The public key, by value.
    pub fn get_pub_key(&self) -> (r: Key)
        ensures
            r@ == self.public_key(),
    {
        self.pub_key
    }

    /// Seals `message` for the holder of `public_key`, with `ephemeral` as
    /// the one-time secret.
    pub fn encrypt_with_ephemeral(public_key: &Key, message: &[u8], ephemeral: &Key) -> (r: Vec<u8>)
        ensures
            r@ == sealed_envelope(ephemeral@, public_key@, message@),
            r@.len() == HEADER_LEN + message@.len(),
    {
        let ephemeral_public_key = curve25519_base(ephemeral);
        let symmetric_key = curve25519(ephemeral, public_key);
        let nonce: [u8; 8] = [0u8; 8];
        let aad: [u8; 0] = [];
        assert(nonce@ == envelope_nonce());
        assert(aad@ == Seq::<u8>::empty());
        let (ciphertext, tag) = aead_seal(&symmetric_key, &nonce, &aad, message);
        let mut output: Vec<u8> = Vec::new();
        copy_bytes(&ephemeral_public_key, &mut output);
        copy_bytes(&tag, &mut output);
        copy_bytes(ciphertext.as_slice(), &mut output);
        output
    }

    /// Seals `message` for the holder of `public_key` under a fresh random
    /// ephemeral secret.
    pub fn encrypt(&self, public_key: &Key, message: &[u8]) -> (r: Result<Vec<u8>, EncryptError>)
        ensures
            match r {
                Ok(c) => exists|e: Seq<u8>|
                    e.len() == 32 && c@ == #[trigger] sealed_envelope(e, public_key@, message@),
                Err(e) => e == EncryptError::RngInitializationFailed,
            },
            r matches Ok(c) ==> c@.len() == HEADER_LEN + message@.len(),
    {
        let mut rng = match os_rng() {
            Ok(rng) => rng,
            Err(_) => {
                return Err(EncryptError::RngInitializationFailed);
            },
        };
        let mut ephemeral_secret_key: Key = [0u8; 32];
        fill_random(&mut rng, &mut ephemeral_secret_key);
        let output = Crypto::encrypt_with_ephemeral(public_key, message, &ephemeral_secret_key);
        Ok(output)
    }

    /// Opens an envelope sealed for this key pair.
    pub fn decrypt(&self, message: &[u8]) -> (r: Result<Vec<u8>, DecryptError>)
        ensures
            plaintext_of(r) == opened_envelope(self.secret_key(), message@),
            r matches Ok(p) ==> p@.len() + HEADER_LEN == message@.len(),
            forall|e: Seq<u8>, m: Seq<u8>|
                e.len() == 32 && message@ == #[trigger] sealed_envelope(
                    e,
                    public_key_of(self.secret_key()),
                    m,
                ) ==> plaintext_of(r) == Ok::<Seq<u8>, DecryptError>(m),
    {
        if message.len() < HEADER_LEN {
            return Err(DecryptError::Malformed);
        }
        let mut ephemeral_public_key: Key = [0u8; 32];
        let mut i: usize = 0;
        while i < 32
            invariant
                i <= 32,
                message@.len() >= 48,
                forall|j: int| 0 <= j < i ==> ephemeral_public_key@[j] == message@[j],
            decreases 32 - i,
        {
            ephemeral_public_key[i] = message[i];
            i = i + 1;
        }
        assert(ephemeral_public_key@ == message@.subrange(0, 32));
        let tag = slice_part(message, 32, 48);
        let ciphertext = slice_part(message, 48, message.len());
        let symmetric_key = curve25519(&self.priv_key, &ephemeral_public_key);
        let nonce: [u8; 8] = [0u8; 8];
        let aad: [u8; 0] = [];
        assert(nonce@ == envelope_nonce());
        assert(aad@ == Seq::<u8>::empty());
        let opened = aead_open(&symmetric_key, &nonce, &aad, ciphertext.as_slice(), tag.as_slice());
        proof {
            assert forall|e: Seq<u8>, m: Seq<u8>|
                e.len() == 32 && message@ == #[trigger] sealed_envelope(
                    e,
                    public_key_of(self.secret_key()),
                    m,
                ) implies bytes_of(opened) == Some(m) by {
                let shared = x25519(e, public_key_of(self.priv_key@))@;
                let sealed = chacha20poly1305_seal(shared, envelope_nonce(), Seq::empty(), m);
                let pk = public_key_of(e);
                assert(pk.len() == 32);
                assert(sealed.1@.len() == 16);
                assert(message@.subrange(0, 32) == pk);
                assert(message@.subrange(32, 48) == sealed.1@);
                assert(message@.subrange(48, message@.len() as int) == sealed.0);
                assert(symmetric_key@ == shared);
                assert(ephemeral_public_key@ == pk);
                assert(symmetric_key@ == shared);
                assert(chacha20poly1305_seal(symmetric_key@, nonce@, aad@, m) == sealed);
                assert(sealed_to(chacha20poly1305_seal(symmetric_key@, nonce@, aad@, m), ciphertext@, tag@));
            }
        }
        match opened {
            Some(plaintext) => Ok(plaintext),
            None => Err(DecryptError::Invalid),
        }
    }
}

/// The bytes of `s` from `start` up to `end`, copied.
fn slice_part(s: &[u8], start: usize, end: usize) -> (r: Vec<u8>)
    requires
        start <= end <= s@.len(),
    ensures
        r@ == s@.subrange(start as int, end as int),
{
    let mut r: Vec<u8> = Vec::new();
    let mut i: usize = start;
    while i < end
        invariant
            start <= i <= end <= s@.len(),
            r@ == s@.subrange(start as int, i as int),
        decreases end - i,
    {
        r.push(s[i]);
        i = i + 1;
        assert(s@.subrange(start as int, i as int) == s@.subrange(start as int, i - 1) + seq![
            s@[i - 1],
        ]);
    }
    r
}

/// A fresh key pair from a given secret: the secret and its public key.
pub fn key_pair_from_secret(secret: Key) -> (r: (Key, Key))
    ensures
        r.0 == secret,
        r.1@ == public_key_of(secret@),
{
    let public = curve25519_base(&secret);
    (secret, public)
}

/// A fresh key pair from the operating system's random source; `None`
/// where that source cannot be opened.
pub fn gen_key_pair() -> (r: Option<(Key, Key)>)
    ensures
        r matches Some(p) ==> p.1@ == public_key_of(p.0@),
{
    let mut rng = match os_rng() {
        Ok(rng) => rng,
        Err(_) => {
            return None;
        },
    };
    let mut priv_key: Key = [0u8; 32];
    fill_random(&mut rng, &mut priv_key);
    Some(key_pair_from_secret(priv_key))
}

} // verus!
