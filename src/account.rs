//! Accounts: a secret scalar, its public curve point and the address hashed from it.
use vstd::prelude::*;

use rand::RngCore;
use sha3::Digest;

use crate::hex::{
    byte_array_to_hex_prefixed, hex_decode, lemma_prefixed_hex_round_trip, prefixed_hex, push_str,
};

verus! {

/// The point that secp256k1 multiplies out of a secret scalar, serialized
/// uncompressed (a format byte, then X and Y).
pub uninterp spec fn secp256k1_public_point(secret: Seq<u8>) -> Seq<u8>;

/// The Keccak-256 digest of a byte string.
pub uninterp spec fn keccak256_of(data: Seq<u8>) -> Seq<u8>;

/// The order of the secp256k1 group, most significant byte first.
pub open spec fn curve_order_bytes() -> Seq<u8> {
    seq![
        0xffu8, 0xff, 0xff, 0xff, 0xff, 0xff, 0xff, 0xff,
        0xff, 0xff, 0xff, 0xff, 0xff, 0xff, 0xff, 0xfe,
        0xba, 0xae, 0xdc, 0xe6, 0xaf, 0x48, 0xa0, 0x3b,
        0xbf, 0xd2, 0x5e, 0x8c, 0xd0, 0x36, 0x41, 0x41,
    ]
}

/// The unsigned integer that `b` encodes, most significant byte first.
pub open spec fn be_value(b: Seq<u8>) -> nat
    decreases b.len(),
{
    if b.len() == 0 {
        0
    } else {
        be_value(b.drop_last()) * 256 + b.last() as nat
    }
}

/// A secret is usable as a private key when it is 32 bytes long and, read as
/// an integer, lies in `[1, n - 1]` for the group order `n`.
pub open spec fn valid_secret(secret: Seq<u8>) -> bool {
    &&& secret.len() == 32
    &&& 0 < be_value(secret)
    &&& be_value(secret) < be_value(curve_order_bytes())
}

/// The 64-byte public key: the uncompressed point without its format byte.
pub open spec fn public_key_of(secret: Seq<u8>) -> Seq<u8> {
    secp256k1_public_point(secret).subrange(1, 65)
}

/// The 20-byte address: the last 20 bytes of the Keccak-256 digest of the public key.
pub open spec fn address_of(public_key: Seq<u8>) -> Seq<u8> {
    keccak256_of(public_key).subrange(12, 32)
}

/// What an account holds, as plain byte strings.
pub struct AccountView {
    pub private_key: Seq<u8>,
    pub public_key: Seq<u8>,
    pub address: Seq<u8>,
}

/// The account that a valid secret determines.
pub open spec fn derive(secret: Seq<u8>) -> AccountView {
    AccountView {
        private_key: secret,
        public_key: public_key_of(secret),
        address: address_of(public_key_of(secret)),
    }
}

/// The invariant of every account that the library hands out: a usable
/// secret, the keys and address derived from it, and their fixed lengths.
pub open spec fn valid_account(a: AccountView) -> bool {
    &&& valid_secret(a.private_key)
    &&& a == derive(a.private_key)
    &&& a.private_key.len() == 32
    &&& a.public_key.len() == 64
    &&& a.address.len() == 20
}

/// An account is determined by its private key: two valid accounts with the
/// same private key have the same public key and the same address.
pub proof fn lemma_derivation_deterministic(a: AccountView, b: AccountView)
    requires
        valid_account(a),
        valid_account(b),
        a.private_key == b.private_key,
    ensures
        a.public_key == b.public_key,
        a.address == b.address,
{
}

/// The rendered address of a valid account is `0x` and 40 digits, and
/// decoding the digits gives back exactly its 20 address bytes.
pub proof fn lemma_address_hex_round_trip(a: AccountView)
    requires
        valid_account(a),
    ensures
        prefixed_hex(a.address).len() == 42,
        prefixed_hex(a.address).take(2) == seq!['0', 'x'],
        hex_decode(prefixed_hex(a.address).skip(2)) == a.address,
{
    lemma_prefixed_hex_round_trip(a.address);
}

/// The three lines that show an account in hexadecimal.
pub open spec fn hex_listing(a: AccountView) -> Seq<char> {
    "private key: "@ + prefixed_hex(a.private_key) + "\n public key: "@ + prefixed_hex(a.public_key)
        + "\n address: "@ + prefixed_hex(a.address) + "\n"@
}

/// Why a secret could not be turned into an account.
#[derive(Debug, PartialEq, Eq, Structural)]
pub enum DeriveError {
    /// The secret is not 32 bytes long, or is zero, or is not below the group order.
    InvalidScalar,
    /// The operating system's random generator supplied no bytes.
    NoRandomness,
}

/// An account: never changed once built.
pub struct Account {
    priv_key: Vec<u8>,
    pub_key: Vec<u8>,
    address: Vec<u8>,
}

impl View for Account {
    type V = AccountView;

    closed spec fn view(&self) -> AccountView {
        AccountView {
            private_key: self.priv_key@,
            public_key: self.pub_key@,
            address: self.address@,
        }
    }
}

/// Relies on secp256k1's SecretKey::from_slice, which accepts exactly the
/// 32-byte strings whose value is nonzero and below the curve order, then on
/// PublicKey::from_secret_key_global and PublicKey::serialize_uncompressed
/// for the public point of an accepted key.
#[verifier::external_body]
fn public_point(secret: &[u8]) -> (r: Option<[u8; 65]>)
    ensures
        r is Some <==> valid_secret(secret@),
        r matches Some(p) ==> p@ == secp256k1_public_point(secret@),
{
    match secp256k1::SecretKey::from_slice(secret) {
        Ok(key) => Some(secp256k1::PublicKey::from_secret_key_global(&key).serialize_uncompressed()),
        Err(_) => None,
    }
}

/// Relies on sha3::Keccak256 (through digest::Digest::digest) for the
/// 32-byte digest of `data`.
#[verifier::external_body]
fn keccak256(data: &[u8]) -> (r: [u8; 32])
    ensures
        r@ == keccak256_of(data@),
{
    sha3::Keccak256::digest(data).into()
}

/// Relies on rand's OsRng (RngCore::try_fill_bytes) for 32 bytes from the
/// operating system's secure generator, or `None` where the operating system
/// could not supply them; nothing is known of their value.
#[verifier::external_body]
fn random_secret() -> (r: Option<[u8; 32]>) {
    let mut secret = [0u8; 32];
    match rand::rngs::OsRng.try_fill_bytes(&mut secret) {
        Ok(()) => Some(secret),
        Err(_) => None,
    }
}

/// Copies `src[start..end]` into a new vector.
fn copy_range(src: &[u8], start: usize, end: usize) -> (r: Vec<u8>)
    requires
        start <= end <= src@.len(),
    ensures
        r@ == src@.subrange(start as int, end as int),
{
    let mut out: Vec<u8> = Vec::new();
    let mut i: usize = start;
    while i < end
        invariant
            start <= i <= end,
            end <= src@.len(),
            out@ == src@.subrange(start as int, i as int),
        decreases end - i,
    {
        out.push(src[i]);
        proof {
            assert(out@ =~= src@.subrange(start as int, i + 1));
        }
        i = i + 1;
    }
    out
}

impl Account {
    /// Every account that the library hands out satisfies this.
    pub open spec fn wf(&self) -> bool {
        valid_account(self@)
    }

    fn from_point(secret: &[u8], point: &[u8; 65]) -> (r: Account)
        requires
            valid_secret(secret@),
            point@ == secp256k1_public_point(secret@),
        ensures
            r@ == derive(secret@),
            r.wf(),
    {
        let pub_key = copy_range(point.as_slice(), 1, 65);
        let digest = keccak256(pub_key.as_slice());
        let address = copy_range(digest.as_slice(), 12, 32);
        let priv_key = copy_range(secret, 0, secret.len());
        proof {
            assert(secret@.subrange(0, secret@.len() as int) =~= secret@);
        }
        Account { priv_key, pub_key, address }
    }

    /// Derives the account of `priv_key_bytes`, failing with `InvalidScalar`
    /// exactly when the bytes are not a usable secret.
    pub fn try_new(priv_key_bytes: &[u8]) -> (r: Result<Account, DeriveError>)
        ensures
            r is Ok <==> valid_secret(priv_key_bytes@),
            r matches Ok(a) ==> a@ == derive(priv_key_bytes@) && a.wf(),
            r matches Err(e) ==> e == DeriveError::InvalidScalar,
    {
        match public_point(priv_key_bytes) {
            Some(point) => Ok(Account::from_point(priv_key_bytes, &point)),
            None => Err(DeriveError::InvalidScalar),
        }
    }

    /// Derives the account of a usable secret.
    pub fn new(priv_key_bytes: &[u8]) -> (r: Account)
        requires
            valid_secret(priv_key_bytes@),
        ensures
            r@ == derive(priv_key_bytes@),
            r.wf(),
    {
        let point = match public_point(priv_key_bytes) {
            Some(point) => point,
            // the requirement rules this branch out
            None => [0u8; 65],
        };
        Account::from_point(priv_key_bytes, &point)
    }

    /// Derives an account from 32 fresh random bytes. The rare draw that is
    /// not a usable secret gives `InvalidScalar`, and the caller draws again;
    /// `NoRandomness` says that the operating system supplied no bytes.
    pub fn rand_new() -> (r: Result<Account, DeriveError>)
        ensures
            r matches Ok(a) ==> a.wf(),
    {
        match random_secret() {
            Some(secret) => Account::try_new(secret.as_slice()),
            None => Err(DeriveError::NoRandomness),
        }
    }

    /// The private key as `0x` and 64 lowercase hexadecimal digits.
    pub fn priv_key_as_hex(&self) -> (r: String)
        ensures
            r@ == prefixed_hex(self@.private_key),
    {
        byte_array_to_hex_prefixed(&self.priv_key)
    }

    /// The public key as `0x` and 128 lowercase hexadecimal digits.
    pub fn pub_key_as_hex(&self) -> (r: String)
        ensures
            r@ == prefixed_hex(self@.public_key),
    {
        byte_array_to_hex_prefixed(&self.pub_key)
    }

    /// The address as `0x` and 40 lowercase hexadecimal digits.
    pub fn address_as_hex(&self) -> (r: String)
        ensures
            r@ == prefixed_hex(self@.address),
    {
        byte_array_to_hex_prefixed(&self.address)
    }

    /// The account's keys and address in hexadecimal, one per line.
    pub fn to_hex_string(&self) -> (r: String)
        ensures
            r@ == hex_listing(self@),
    {
        let mut out = String::new();
        push_str(&mut out, "private key: ");
        push_str(&mut out, self.priv_key_as_hex().as_str());
        push_str(&mut out, "\n public key: ");
        push_str(&mut out, self.pub_key_as_hex().as_str());
        push_str(&mut out, "\n address: ");
        push_str(&mut out, self.address_as_hex().as_str());
        push_str(&mut out, "\n");
        proof {
            assert(out@ =~= hex_listing(self@));
        }
        out
    }
}

} // verus!
