//! Identity derivation: the seed's 32 bytes of key material are consumed
//! as an Ed25519 secret key, and the peer id is the stable rendering of
//! the derived public key.  The derivation itself is the transport
//! library's; this module states of it only that it is a function of
//! the key bytes alone.
use vstd::prelude::*;
use vstd::string::*;
use vstd::utf8::is_ascii_chars;
use crate::config::Config;
use crate::config::seed_material;

verus! {

#[verifier::external_type_specification]
#[verifier::external_body]
pub struct ExKeypair(libp2p::identity::Keypair);

/// The keypair that 32 bytes of key material derive.
pub uninterp spec fn keypair_of_seed(seed_key: Seq<u8>) -> libp2p::identity::Keypair;

/// The peer id a keypair renders to.
pub uninterp spec fn peer_id_of_keypair(kp: libp2p::identity::Keypair) -> Seq<char>;

/// Whether a string is a well-formed peer id.
pub uninterp spec fn peer_id_wf(s: Seq<char>) -> bool;

/// Relies on `libp2p::identity::Keypair::ed25519_from_bytes`: the keypair
/// is derived from the 32 secret-key bytes alone, any 32 bytes are
/// valid, and the call errors only on a length other than 32.
#[verifier::external_body]
fn seed_keypair(seed_key: &Vec<u8>) -> (r: libp2p::identity::Keypair)
    requires
        seed_key@.len() == 32,
    ensures
        r == keypair_of_seed(seed_key@),
{
    let mut bytes = seed_key.clone();
    libp2p::identity::Keypair::ed25519_from_bytes(&mut bytes).expect("32 bytes of key material")
}

/// Relies on `libp2p::identity::PeerId::from_public_key` and its base-58
/// form: the peer id depends on the keypair's public key alone.
#[verifier::external_body]
fn keypair_peer_id(kp: &libp2p::identity::Keypair) -> (r: String)
    ensures
        r@ == peer_id_of_keypair(*kp),
{
    libp2p::identity::PeerId::from_public_key(&kp.public()).to_base58()
}

/// Relies on `libp2p::identity::PeerId::from_str`: whether a string is a
/// well-formed base-58 peer id depends on the string alone.
#[verifier::external_body]
pub fn peer_id_is_valid(s: &str) -> (r: bool)
    ensures
        r == peer_id_wf(s@),
{
    <libp2p::identity::PeerId as core::str::FromStr>::from_str(s).is_ok()
}

/// Relies on `rand::rng` sampling `rand::distr::Alphanumeric` once: one
/// byte out of `0-9`, `A-Z` and `a-z`; nothing else is assumed of a
/// random value.
#[verifier::external_body]
fn sample_alphanumeric() -> (r: u8)
    ensures
        48 <= r <= 57 || 65 <= r <= 90 || 97 <= r <= 122,
{
    rand::RngExt::sample(&mut rand::rng(), rand::distr::Alphanumeric)
}

/// One character of the list is alphanumeric: a digit or a letter of
/// either case.
pub open spec fn alphanumeric_char(c: char) -> bool {
    ('0' <= c <= '9') || ('A' <= c <= 'Z') || ('a' <= c <= 'z')
}

/// The seed drawn when none is configured: 32 alphanumeric ASCII
/// characters.
pub fn random_seed() -> (r: String)
    ensures
        r@.len() == 32,
        is_ascii_chars(r@),
        forall|i: int| 0 <= i < r@.len() ==> alphanumeric_char(#[trigger] r@[i]),
{
    let mut out: Vec<char> = Vec::new();
    while out.len() < 32
        invariant
            out@.len() <= 32,
            forall|i: int| 0 <= i < out@.len() ==> '\0' <= #[trigger] out@[i] <= '\u{7f}',
            forall|i: int| 0 <= i < out@.len() ==> alphanumeric_char(#[trigger] out@[i]),
        decreases 32 - out@.len(),
    {
        let b = sample_alphanumeric();
        out.push(b as char);
    }
    crate::strutil::chars_string(&out)
}

/// The peer id this configuration derives: the seed's 32 bytes of key
/// material, consumed as an Ed25519 secret key.  Every seed yields an
/// identity, and the same seed always derives the same id.
pub fn derive_peer_id(config: &Config) -> (r: String)
    ensures
        r@ == peer_id_of_keypair(keypair_of_seed(seed_material(config.spec_seed()))),
{
    let key = config.seed_key_bytes();
    let kp = seed_keypair(&key);
    keypair_peer_id(&kp)
}

/// Law: the derived peer id is deterministic in the seed; two
/// configurations with the same seed derive the same identity, so the
/// seed must differ across peers.
pub proof fn lemma_peer_id_deterministic(c1: Config, c2: Config)
    requires
        c1.spec_seed() == c2.spec_seed(),
    ensures
        peer_id_of_keypair(keypair_of_seed(seed_material(c1.spec_seed()))) == peer_id_of_keypair(
            keypair_of_seed(seed_material(c2.spec_seed())),
        ),
{
}

} // verus!
