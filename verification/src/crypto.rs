//! The keys of the handshake: the server's RSA key pair, the verify token
//! that proves a client holds the matching shared secret, and what the
//! stream ciphers of an encrypted connection are made from.

use aes::cipher::NewStreamCipher;
use aes::Aes128;
use cfb8::Cfb8;
use openssl::pkey::Private;
use openssl::rsa::Padding;
use openssl::rsa::Rsa;
use rand::Rng;
use vstd::prelude::*;

verus! {

/// An RSA key of openssl; `T` tells which parts of the key it holds.
#[verifier::external_type_specification]
#[verifier::external_body]
#[verifier::reject_recursive_types(T)]
pub struct ExRsa<T>(Rsa<T>);

/// The mark of an openssl key that holds its private parts.
#[verifier::external_type_specification]
#[verifier::external_body]
pub struct ExPrivate(Private);

/// The DER encoding of the public half of a key pair, as
/// `Rsa::public_key_to_der` gives it.
pub uninterp spec fn public_der(key: Rsa<Private>) -> Option<Seq<u8>>;

/// What a key pair makes of a cipher text, as `Rsa::private_decrypt` gives
/// it with PKCS#1 v1.5 padding.
pub uninterp spec fn pkcs1_plain(key: Rsa<Private>, ciphertext: Seq<u8>) -> Option<Seq<u8>>;

/// What the server makes of a cipher text: one too long for the key pair to
/// take gives nothing, and of any other the key pair decides.
pub open spec fn decrypted(key: Rsa<Private>, ciphertext: Seq<u8>) -> Option<Seq<u8>> {
    if ciphertext.len() > i32::MAX {
        None
    } else {
        pkcs1_plain(key, ciphertext)
    }
}

/// `Rsa::public_key_to_der` of openssl: the public half of the key as a
/// DER-encoded SubjectPublicKeyInfo, or nothing where openssl reports an
/// error. The encoding depends on the key alone.
#[verifier::external_body]
fn rsa_public_key_der(rsa: &Rsa<Private>) -> (der: Option<Vec<u8>>)
    ensures
        match der {
            Some(d) => public_der(*rsa) == Some(d@),
            None => public_der(*rsa) is None,
        },
{
    rsa.public_key_to_der().ok()
}

/// `Rsa::private_decrypt` of openssl with PKCS#1 v1.5 padding, into a buffer
/// of `Rsa::size` bytes: the plain text, cut to the length that openssl
/// returns, or nothing where openssl reports an error. The plain text
/// depends on the key and the cipher text alone. The call panics on a cipher
/// text whose length is above `i32::MAX`.
#[verifier::external_body]
fn rsa_private_decrypt(rsa: &Rsa<Private>, ciphertext: &[u8]) -> (plain: Option<Vec<u8>>)
    requires
        ciphertext@.len() <= i32::MAX,
    ensures
        match plain {
            Some(p) => pkcs1_plain(*rsa, ciphertext@) == Some(p@),
            None => pkcs1_plain(*rsa, ciphertext@) is None,
        },
{
    let mut buffer = vec![0u8; rsa.size() as usize];
    match rsa.private_decrypt(ciphertext, &mut buffer, Padding::PKCS1) {
        Ok(len) => {
            buffer.truncate(len);
            Some(buffer)
        },
        Err(_) => None,
    }
}

/// `Rng::gen` on `rand::thread_rng`: four bytes of the thread's random
/// number generator. Nothing is known of them.
#[verifier::external_body]
pub(crate) fn random_token() -> (token: [u8; 4]) {
    rand::thread_rng().gen::<[u8; 4]>()
}

/// `NewStreamCipher::new_var` for `Cfb8<Aes128>`: whether a CFB8 cipher over
/// AES-128 can be made from the key and the initialization vector, which is
/// so where each has sixteen bytes.
#[verifier::external_body]
fn makes_cipher(key: &[u8], iv: &[u8]) -> (accepted: bool)
    ensures
        accepted == (key@.len() == 16 && iv@.len() == 16),
{
    Cfb8::<Aes128>::new_var(key, iv).is_ok()
}

/// The key material of the server: made once, then only read.
pub struct ServerKeys {
    rsa: Rsa<Private>,
    public_key: Vec<u8>,
}

impl ServerKeys {
    /// The DER encoding of the public key.
    pub closed spec fn public_key_der(&self) -> Seq<u8> {
        self.public_key@
    }

    /// The key pair.
    pub closed spec fn key_pair(&self) -> Rsa<Private> {
        self.rsa
    }

    /// The public key that is held is the encoding of the public half of
    /// the key pair that is held.
    #[verifier::type_invariant]
    spec fn paired(self) -> bool {
        public_der(self.rsa) == Some(self.public_key@)
    }

    /// Takes a key pair into service, with the DER encoding of its public
    /// half. There is nothing where the public half cannot be encoded.
    pub fn new(rsa: Rsa<Private>) -> (keys: Option<ServerKeys>)
        ensures
            match public_der(rsa) {
                Some(der) => match keys {
                    Some(k) => k.key_pair() == rsa && k.public_key_der() == der,
                    None => false,
                },
                None => keys is None,
            },
    {
        let encoded = rsa_public_key_der(&rsa);
        ServerKeys::assemble(rsa, encoded)
    }

    /// Joins a key pair and the encoding of its public half, where there is
    /// one, into the key material.
    fn assemble(rsa: Rsa<Private>, encoded: Option<Vec<u8>>) -> (keys: Option<ServerKeys>)
        requires
            match encoded {
                Some(der) => public_der(rsa) == Some(der@),
                None => true,
            },
        ensures
            match encoded {
                Some(der) => match keys {
                    Some(k) => k.key_pair() == rsa && k.public_key_der() == der@,
                    None => false,
                },
                None => keys is None,
            },
    {
        match encoded {
            Some(public_key) => Some(ServerKeys { rsa, public_key }),
            None => None,
        }
    }

    /// The key pair.
    pub fn rsa(&self) -> (rsa: &Rsa<Private>)
        ensures
            *rsa == self.key_pair(),
    {
        &self.rsa
    }

    /// The DER encoding of the public key, as clients are sent it: that of
    /// the public half of the key pair.
    pub fn public_key(&self) -> (der: &Vec<u8>)
        ensures
            der@ == self.public_key_der(),
            public_der(self.key_pair()) == Some(der@),
    {
        proof {
            use_type_invariant(self);
        }
        &self.public_key
    }

    /// Decrypts what a client encrypted to the public key. There is nothing
    /// where the cipher text is too long for the key pair to take, or the
    /// key pair makes nothing of it.
    pub fn decrypt(&self, ciphertext: &[u8]) -> (plain: Option<Vec<u8>>)
        ensures
            match plain {
                Some(p) => decrypted(self.key_pair(), ciphertext@) == Some(p@),
                None => decrypted(self.key_pair(), ciphertext@) is None,
            },
    {
        if ciphertext.len() > 0x7fff_ffff {
            None
        } else {
            rsa_private_decrypt(&self.rsa, ciphertext)
        }
    }
}

/// What the stream cipher of one direction starts from.
#[derive(Clone, Copy, Debug, PartialEq, Eq)]
pub struct CipherState {
    pub key: [u8; 16],
    pub iv: [u8; 16],
}

/// The ciphers of a connection, one for each direction. The two share no
/// state: each runs on its own feedback register.
#[derive(Clone, Copy, Debug, PartialEq, Eq)]
pub struct CipherPair {
    pub encode: CipherState,
    pub decode: CipherState,
}

/// What a cipher state is known by in contracts.
pub struct CipherStateView {
    pub key: Seq<u8>,
    pub iv: Seq<u8>,
}

/// What a pair of ciphers is known by in contracts.
pub struct CipherPairView {
    pub encode: CipherStateView,
    pub decode: CipherStateView,
}

impl View for CipherState {
    type V = CipherStateView;

    open spec fn view(&self) -> CipherStateView {
        CipherStateView { key: self.key@, iv: self.iv@ }
    }
}

impl View for CipherPair {
    type V = CipherPairView;

    open spec fn view(&self) -> CipherPairView {
        CipherPairView { encode: self.encode@, decode: self.decode@ }
    }
}

/// Whether a shared secret can serve as a cipher key.
pub open spec fn usable_secret(secret: Seq<u8>) -> bool {
    secret.len() == 16
}

/// The ciphers that a shared secret gives: in both directions the secret is
/// the key and the initial feedback register.
pub open spec fn ciphers_of(secret: Seq<u8>) -> CipherPairView {
    CipherPairView {
        encode: CipherStateView { key: secret, iv: secret },
        decode: CipherStateView { key: secret, iv: secret },
    }
}

/// The view of the ciphers of a connection that may have none.
pub open spec fn pair_view(pair: Option<CipherPair>) -> Option<CipherPairView> {
    match pair {
        Some(p) => Some(p@),
        None => None,
    }
}

impl CipherPair {
    /// Derives the ciphers of both directions from a shared secret. There
    /// are none where the secret is not a 128-bit key.
    pub fn from_secret(secret: &[u8]) -> (pair: Option<CipherPair>)
        ensures
            pair_view(pair) == if usable_secret(secret@) {
                Some(ciphers_of(secret@))
            } else {
                None
            },
    {
        if !makes_cipher(secret, secret) {
            return None;
        }
        let key: [u8; 16] = [
            secret[0],
            secret[1],
            secret[2],
            secret[3],
            secret[4],
            secret[5],
            secret[6],
            secret[7],
            secret[8],
            secret[9],
            secret[10],
            secret[11],
            secret[12],
            secret[13],
            secret[14],
            secret[15],
        ];
        assert(key@ == secret@);
        let state = CipherState { key, iv: key };
        Some(CipherPair { encode: state, decode: state })
    }
}

} // verus!
