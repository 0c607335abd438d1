use core::marker::PhantomData;
use core::time::Duration;
use sp_core::{ByteArray, Pair};
use vstd::prelude::*;
use vstd::std_specs::convert::FromSpec;

verus! {

/// What the runtime tells an extension of the call that it serves.
pub trait PinkRuntimeEnv {
    type AccountId: core::fmt::Display;

    /// The account of the contract that makes the call.
    fn address(&self) -> &Self::AccountId;

    /// How long the call has been running, where the runtime keeps time.
    fn call_elapsed(&self) -> Option<Duration>;
}

/// The extension that serves a contract's calls out of the runtime `T`,
/// and reports failures as `Error`.
pub struct DefaultPinkExtension<'a, T, Error> {
    pub env: &'a T,
    _e: PhantomData<Error>,
}

/// The signature scheme of a key.
#[derive(Clone, Copy, Debug, PartialEq, Eq, Structural)]
pub enum SigType {
    Ed25519,
    Sr25519,
    Ecdsa,
}

/// What is to be signed, and with which key.
#[derive(Clone, Debug, PartialEq, Eq)]
pub struct SignArgs {
    pub sigtype: SigType,
    pub key: Vec<u8>,
    pub message: Vec<u8>,
}

/// A signature to check against a message and a public key.
#[derive(Clone, Debug, PartialEq, Eq)]
pub struct VerifyArgs {
    pub sigtype: SigType,
    pub pubkey: Vec<u8>,
    pub message: Vec<u8>,
    pub signature: Vec<u8>,
}

/// A secret key whose public key is asked for.
#[derive(Clone, Debug, PartialEq, Eq)]
pub struct PublicKeyForArgs {
    pub sigtype: SigType,
    pub key: Vec<u8>,
}

/// How grave a log line is.
#[derive(Clone, Copy, Debug, PartialEq, Eq, Structural)]
pub enum LogLevel {
    Error,
    Warn,
    Info,
    Debug,
    Trace,
}

/// The longest that a contract's call may run, HTTP requests included, in
/// seconds.
pub const MAX_QUERY_TIME: u64 = 10;

/// The most bytes of a response body that a contract is handed.
pub const MAX_BODY_SIZE: usize = 1024 * 256;

/// The level that a contract means by the number `level`: 1 to 5 from
/// errors down to traces, and an error for any other number.
pub fn log_level(level: u8) -> (meant: LogLevel)
    ensures
        meant == match level {
            2 => LogLevel::Warn,
            3 => LogLevel::Info,
            4 => LogLevel::Debug,
            5 => LogLevel::Trace,
            _ => LogLevel::Error,
        },
{
    match level {
        1 => LogLevel::Error,
        2 => LogLevel::Warn,
        3 => LogLevel::Info,
        4 => LogLevel::Debug,
        5 => LogLevel::Trace,
        _ => LogLevel::Error,
    }
}

/// The time that is left for an HTTP request of a call that has run for
/// `elapsed_nanos` nanoseconds, in nanoseconds: what is left of
/// [`MAX_QUERY_TIME`]. A call that has run longer has no time left, and no
/// timeout.
pub fn query_timeout(elapsed_nanos: u128) -> (left: Option<u64>)
    ensures
        left == if elapsed_nanos <= MAX_QUERY_TIME * 1_000_000_000 {
            Some((MAX_QUERY_TIME * 1_000_000_000 - elapsed_nanos) as u64)
        } else {
            None
        },
{
    let limit: u64 = MAX_QUERY_TIME * 1_000_000_000;
    if elapsed_nanos <= limit as u128 {
        Some(limit - elapsed_nanos as u64)
    } else {
        None
    }
}

/// A buffer that takes what is written to it up to a limit, and refuses a
/// write that would go beyond.
#[derive(Clone, Debug, PartialEq, Eq)]
pub struct LimitedWriter {
    pub writer: Vec<u8>,
    pub written: usize,
    pub limit: usize,
}

/// A write was refused because it would have gone beyond the limit.
#[derive(Clone, Copy, Debug, PartialEq, Eq, Structural)]
pub struct BufferLimitExceeded;

impl LimitedWriter {
    /// A writer onto `writer` that takes `limit` bytes.
    pub fn new(writer: Vec<u8>, limit: usize) -> (limited: Self)
        ensures
            limited == (LimitedWriter { writer, written: 0, limit }),
    {
        Self { writer, written: 0, limit }
    }

    /// Appends `buf` where that stays within the limit, and says how many
    /// bytes were written: all of them. A write that would take the count
    /// of bytes written beyond the limit is refused, and nothing of it is
    /// written.
    pub fn write(&mut self, buf: &[u8]) -> (r: Result<usize, BufferLimitExceeded>)
        ensures
            old(self).written + buf.len() > old(self).limit ==> r is Err && *final(self) == *old(
                self,
            ),
            old(self).written + buf.len() <= old(self).limit ==> r == Ok::<
                usize,
                BufferLimitExceeded,
            >(buf.len()) && final(self).writer@ == old(self).writer@ + buf@ && final(self).written
                == old(self).written + buf.len() && final(self).limit == old(self).limit,
    {
        if buf.len() > self.limit || self.written > self.limit - buf.len() {
            return Err(BufferLimitExceeded);
        }
        self.writer.extend_from_slice(buf);
        self.written = self.written + buf.len();
        Ok(buf.len())
    }

    /// Has nothing to do: what was written is in the buffer.
    pub fn flush(&mut self)
        ensures
            *final(self) == *old(self),
    {
    }
}

/// The seed that a salt stands for: its first 32 bytes, filled up with
/// zeros where it has fewer.
pub open spec fn seed_of(salt: Seq<u8>) -> Seq<u8> {
    Seq::new(
        32,
        |i: int|
            if i < salt.len() {
                salt[i]
            } else {
                0u8
            },
    )
}

/// Makes a seed of a salt: its first 32 bytes, filled up with zeros where
/// it has fewer.
pub fn seed_from_salt(salt: &[u8]) -> (seed: [u8; 32])
    ensures
        seed@ == seed_of(salt@),
{
    let mut seed: [u8; 32] = [0u8; 32];
    let mut i: usize = 0;
    while i < 32 && i < salt.len()
        invariant
            i <= 32,
            i <= salt.len(),
            seed@.len() == 32,
            forall|j: int| 0 <= j < i ==> seed@[j] == salt@[j],
            forall|j: int| i <= j < 32 ==> seed@[j] == 0u8,
        decreases 32 - i,
    {
        seed.set(i, salt[i]);
        i += 1;
    }
    assert(seed@ =~= seed_of(salt@));
    seed
}

/// The public key that `sp_core::sr25519::Pair` has for the secret `key`,
/// in its 32 bytes; `None` where `from_seed_slice` refuses the key.
pub uninterp spec fn sr25519_public(key: Seq<u8>) -> Option<Seq<u8>>;

/// The public key that `sp_core::ed25519::Pair` has for the secret `key`,
/// in its 32 bytes; `None` where `from_seed_slice` refuses the key.
pub uninterp spec fn ed25519_public(key: Seq<u8>) -> Option<Seq<u8>>;

/// The public key that `sp_core::ecdsa::Pair` has for the secret `key`, in
/// its 33 bytes; `None` where `from_seed_slice` refuses the key.
pub uninterp spec fn ecdsa_public(key: Seq<u8>) -> Option<Seq<u8>>;

/// The signature that `sp_core::ed25519::Pair` of the secret `key` puts on
/// `message`; `None` where `from_seed_slice` refuses the key.
pub uninterp spec fn ed25519_signature(key: Seq<u8>, message: Seq<u8>) -> Option<Seq<u8>>;

/// The signature that `sp_core::ecdsa::Pair` of the secret `key` puts on
/// `message`; `None` where `from_seed_slice` refuses the key.
pub uninterp spec fn ecdsa_signature(key: Seq<u8>, message: Seq<u8>) -> Option<Seq<u8>>;

/// Whether `sp_core::sr25519::Pair::verify` takes `signature` for one of
/// `pubkey` on `message`.
pub uninterp spec fn sr25519_verifies(signature: Seq<u8>, message: Seq<u8>, pubkey: Seq<u8>) -> bool;

/// Whether `sp_core::ed25519::Pair::verify` takes `signature` for one of
/// `pubkey` on `message`.
pub uninterp spec fn ed25519_verifies(signature: Seq<u8>, message: Seq<u8>, pubkey: Seq<u8>) -> bool;

/// Whether `sp_core::ecdsa::Pair::verify` takes `signature` for one of
/// `pubkey` on `message`.
pub uninterp spec fn ecdsa_verifies(signature: Seq<u8>, message: Seq<u8>, pubkey: Seq<u8>) -> bool;

/// The secret key, in its 64 bytes, of the `sp_core::sr25519::Pair` that
/// `from_seed` makes of a seed of 32 bytes.
pub uninterp spec fn sr25519_secret(seed: Seq<u8>) -> Seq<u8>;

/// Signs with sr25519: `Pair::from_seed_slice` of `sp_core::sr25519` on
/// the key, then `Pair::sign` on the message. The key is taken where it has
/// a public key by [`sr25519_public`]: a seed of 32 bytes always, a secret
/// key of 64 bytes where it is one, and nothing of another length. The
/// signature has 64 bytes; it is made with fresh randomness, so nothing
/// more is said of it.
#[verifier::external_body]
fn sr25519_sign(key: &[u8], message: &[u8]) -> (signature: Option<Vec<u8>>)
    ensures
        signature is Some <==> sr25519_public(key@) is Some,
        signature matches Some(bytes) ==> bytes@.len() == 64,
        key@.len() == 32 ==> signature is Some,
        key@.len() != 32 && key@.len() != 64 ==> signature is None,
{
    match sp_core::sr25519::Pair::from_seed_slice(key) {
        Ok(pair) => Some(pair.sign(message).to_raw_vec()),
        Err(_) => None,
    }
}

/// Signs with ed25519: `Pair::from_seed_slice` of `sp_core::ed25519` on
/// the key, then `Pair::sign` on the message. The signing is a function of
/// key and message; the contract gives its outcome the name
/// [`ed25519_signature`], and says that the key is taken where it has a
/// public key by [`ed25519_public`], which is where it has 32 bytes, and
/// that the signature has 64.
#[verifier::external_body]
fn ed25519_sign(key: &[u8], message: &[u8]) -> (signature: Option<Vec<u8>>)
    ensures
        signature is Some <==> ed25519_public(key@) is Some,
        signature is Some <==> key@.len() == 32,
        signature matches Some(bytes) ==> bytes@.len() == 64,
        match signature {
            Some(bytes) => ed25519_signature(key@, message@) == Some(bytes@),
            None => ed25519_signature(key@, message@) is None,
        },
{
    match sp_core::ed25519::Pair::from_seed_slice(key) {
        Ok(pair) => Some(pair.sign(message).to_raw_vec()),
        Err(_) => None,
    }
}

/// Signs with ECDSA: `Pair::from_seed_slice` of `sp_core::ecdsa` on the
/// key, then `Pair::sign` on the message. The signing is a function of key
/// and message; the contract gives its outcome the name
/// [`ecdsa_signature`], and says that the key is taken where it has a
/// public key by [`ecdsa_public`], which is never where it has not 32
/// bytes, and that the signature has 65.
#[verifier::external_body]
fn ecdsa_sign(key: &[u8], message: &[u8]) -> (signature: Option<Vec<u8>>)
    ensures
        signature is Some <==> ecdsa_public(key@) is Some,
        key@.len() != 32 ==> signature is None,
        signature matches Some(bytes) ==> bytes@.len() == 65,
        match signature {
            Some(bytes) => ecdsa_signature(key@, message@) == Some(bytes@),
            None => ecdsa_signature(key@, message@) is None,
        },
{
    match sp_core::ecdsa::Pair::from_seed_slice(key) {
        Ok(pair) => Some(pair.sign(message).to_raw_vec()),
        Err(_) => None,
    }
}

/// Checks an sr25519 signature: `Pair::verify` of `sp_core::sr25519`, on
/// the signature and the public key as `TryFrom` takes them from the bytes.
/// Bytes that are no signature or no public key, as all of another length
/// than a signature's and a key's, verify nothing. The
/// contract gives the outcome the name [`sr25519_verifies`].
#[verifier::external_body]
fn sr25519_verify(signature: &[u8], message: &[u8], pubkey: &[u8]) -> (good: bool)
    ensures
        good == sr25519_verifies(signature@, message@, pubkey@),
        good ==> signature@.len() == 64 && pubkey@.len() == 32,
{
    match (sp_core::sr25519::Signature::try_from(signature), sp_core::sr25519::Public::try_from(pubkey)) {
        (Ok(signature), Ok(public)) => sp_core::sr25519::Pair::verify(&signature, message, &public),
        _ => false,
    }
}

/// Checks an ed25519 signature: `Pair::verify` of `sp_core::ed25519`, on
/// the signature and the public key as `TryFrom` takes them from the bytes.
/// Bytes that are no signature or no public key, as all of another length
/// than a signature's and a key's, verify nothing. The
/// contract gives the outcome the name [`ed25519_verifies`].
#[verifier::external_body]
fn ed25519_verify(signature: &[u8], message: &[u8], pubkey: &[u8]) -> (good: bool)
    ensures
        good == ed25519_verifies(signature@, message@, pubkey@),
        good ==> signature@.len() == 64 && pubkey@.len() == 32,
{
    match (sp_core::ed25519::Signature::try_from(signature), sp_core::ed25519::Public::try_from(pubkey)) {
        (Ok(signature), Ok(public)) => sp_core::ed25519::Pair::verify(&signature, message, &public),
        _ => false,
    }
}

/// Checks an ECDSA signature: `Pair::verify` of `sp_core::ecdsa`, on the
/// signature and the public key as `TryFrom` takes them from the bytes.
/// Bytes that are no signature or no public key, as all of another length
/// than a signature's and a key's, verify nothing. The
/// contract gives the outcome the name [`ecdsa_verifies`].
#[verifier::external_body]
fn ecdsa_verify(signature: &[u8], message: &[u8], pubkey: &[u8]) -> (good: bool)
    ensures
        good == ecdsa_verifies(signature@, message@, pubkey@),
        good ==> signature@.len() == 65 && pubkey@.len() == 33,
{
    match (sp_core::ecdsa::Signature::try_from(signature), sp_core::ecdsa::Public::try_from(pubkey)) {
        (Ok(signature), Ok(public)) => sp_core::ecdsa::Pair::verify(&signature, message, &public),
        _ => false,
    }
}

/// The public key of an sr25519 secret: `Pair::from_seed_slice` of
/// `sp_core::sr25519`, then `Pair::public`, in raw bytes. The contract
/// gives the outcome the name [`sr25519_public`], and says what the source
/// shows at a glance: the key has 32 bytes; a seed of 32 bytes is always
/// taken, and nothing that has neither 32 nor 64.
#[verifier::external_body]
fn sr25519_public_key(key: &[u8]) -> (public: Option<Vec<u8>>)
    ensures
        match public {
            Some(bytes) => sr25519_public(key@) == Some(bytes@) && bytes@.len() == 32,
            None => sr25519_public(key@) is None,
        },
        key@.len() == 32 ==> public is Some,
        key@.len() != 32 && key@.len() != 64 ==> public is None,
{
    match sp_core::sr25519::Pair::from_seed_slice(key) {
        Ok(pair) => Some(pair.public().to_raw_vec()),
        Err(_) => None,
    }
}

/// The public key of an ed25519 secret: `Pair::from_seed_slice` of
/// `sp_core::ed25519`, then `Pair::public`, in raw bytes. The contract
/// gives the outcome the name [`ed25519_public`], and says what the source
/// shows at a glance: the key has 32 bytes, and a secret is taken exactly
/// where it has 32.
#[verifier::external_body]
fn ed25519_public_key(key: &[u8]) -> (public: Option<Vec<u8>>)
    ensures
        match public {
            Some(bytes) => ed25519_public(key@) == Some(bytes@) && bytes@.len() == 32,
            None => ed25519_public(key@) is None,
        },
        public is Some <==> key@.len() == 32,
{
    match sp_core::ed25519::Pair::from_seed_slice(key) {
        Ok(pair) => Some(pair.public().to_raw_vec()),
        Err(_) => None,
    }
}

/// The public key of an ECDSA secret: `Pair::from_seed_slice` of
/// `sp_core::ecdsa`, then `Pair::public`, in raw bytes. The contract gives
/// the outcome the name [`ecdsa_public`], and says what the source shows at
/// a glance: the key has 33 bytes, and no secret is taken that has not 32.
#[verifier::external_body]
fn ecdsa_public_key(key: &[u8]) -> (public: Option<Vec<u8>>)
    ensures
        match public {
            Some(bytes) => ecdsa_public(key@) == Some(bytes@) && bytes@.len() == 33,
            None => ecdsa_public(key@) is None,
        },
        key@.len() != 32 ==> public is None,
{
    match sp_core::ecdsa::Pair::from_seed_slice(key) {
        Ok(pair) => Some(pair.public().to_raw_vec()),
        Err(_) => None,
    }
}

/// The sr25519 secret key of a seed: `Pair::from_seed` of
/// `sp_core::sr25519`, then `Pair::to_raw_vec`, which hands out the secret
/// key, in its 64 bytes. The contract gives the outcome the name
/// [`sr25519_secret`].
#[verifier::external_body]
fn sr25519_secret_key(seed: &[u8; 32]) -> (secret: Vec<u8>)
    ensures
        secret@ == sr25519_secret(seed@),
        secret@.len() == 64,
{
    sp_core::sr25519::Pair::from_seed(seed).to_raw_vec()
}

/// Fills a buffer with random bytes: `getrandom::getrandom` on the whole
/// buffer. It says whether that went well; the buffer keeps its length,
/// and of the bytes nothing is said.
#[verifier::external_body]
fn fill_random(buffer: &mut Vec<u8>) -> (filled: bool)
    ensures
        final(buffer)@.len() == old(buffer)@.len(),
{
    getrandom::getrandom(buffer.as_mut_slice()).is_ok()
}

/// The public key of the secret `key` in the scheme `sigtype`, where the
/// scheme takes the key.
pub open spec fn public_key(sigtype: SigType, key: Seq<u8>) -> Option<Seq<u8>> {
    match sigtype {
        SigType::Ed25519 => ed25519_public(key),
        SigType::Sr25519 => sr25519_public(key),
        SigType::Ecdsa => ecdsa_public(key),
    }
}

/// Whether `signature` is one of `pubkey` on `message` in the scheme
/// `sigtype`.
pub open spec fn verifies(
    sigtype: SigType,
    signature: Seq<u8>,
    message: Seq<u8>,
    pubkey: Seq<u8>,
) -> bool {
    match sigtype {
        SigType::Ed25519 => ed25519_verifies(signature, message, pubkey),
        SigType::Sr25519 => sr25519_verifies(signature, message, pubkey),
        SigType::Ecdsa => ecdsa_verifies(signature, message, pubkey),
    }
}

/// The length of a signature in the scheme `sigtype`.
pub open spec fn signature_len(sigtype: SigType) -> nat {
    match sigtype {
        SigType::Ed25519 => 64,
        SigType::Sr25519 => 64,
        SigType::Ecdsa => 65,
    }
}

/// The length of a public key in the scheme `sigtype`.
pub open spec fn public_key_len(sigtype: SigType) -> nat {
    match sigtype {
        SigType::Ed25519 => 32,
        SigType::Sr25519 => 32,
        SigType::Ecdsa => 33,
    }
}

/// Whether a secret key has a length that the scheme `sigtype` takes: 32
/// bytes, or the 64 of an sr25519 secret key.
pub open spec fn secret_key_len(sigtype: SigType, len: nat) -> bool {
    len == 32 || (sigtype == SigType::Sr25519 && len == 64)
}

/// What a scheme made of a key is handed on, and a key that the scheme
/// refused is reported as `Invalid key`.
pub fn keyed<E: From<&'static str>>(made: Option<Vec<u8>>) -> (r: Result<Vec<u8>, E>)
    ensures
        made matches Some(bytes) ==> r == Ok::<Vec<u8>, E>(bytes),
        made is None ==> r is Err,
        made is None && E::obeys_from_spec() ==> r == Err::<Vec<u8>, E>(E::from_spec("Invalid key")),
{
    match made {
        Some(bytes) => Ok(bytes),
        None => Err(E::from("Invalid key")),
    }
}

impl<'a, T, E> DefaultPinkExtension<'a, T, E> {
    /// The runtime that the extension serves calls of.
    pub closed spec fn runtime(&self) -> &'a T {
        self.env
    }

    /// The extension for calls that run in `env`.
    pub fn new(env: &'a T) -> (extension: Self)
        ensures
            extension.runtime() == env,
    {
        Self { env, _e: PhantomData }
    }
}

impl<'a, T: PinkRuntimeEnv, E: From<&'static str>> DefaultPinkExtension<'a, T, E> {
    /// Signs a message with a secret key. A key that the scheme does not
    /// take is reported as `Invalid key`.
    pub fn sign(&self, args: SignArgs) -> (r: Result<Vec<u8>, E>)
        ensures
            r is Ok <==> public_key(args.sigtype, args.key@) is Some,
            r is Ok ==> secret_key_len(args.sigtype, args.key@.len()),
            args.key@.len() == 32 && args.sigtype != SigType::Ecdsa ==> r is Ok,
            r matches Ok(signature) ==> signature@.len() == signature_len(args.sigtype),
            r matches Ok(signature) ==> match args.sigtype {
                SigType::Ed25519 => ed25519_signature(args.key@, args.message@) == Some(signature@),
                SigType::Sr25519 => true,
                SigType::Ecdsa => ecdsa_signature(args.key@, args.message@) == Some(signature@),
            },
            r is Err && E::obeys_from_spec() ==> r == Err::<Vec<u8>, E>(E::from_spec("Invalid key")),
    {
        let made = match args.sigtype {
            SigType::Sr25519 => sr25519_sign(args.key.as_slice(), args.message.as_slice()),
            SigType::Ed25519 => ed25519_sign(args.key.as_slice(), args.message.as_slice()),
            SigType::Ecdsa => ecdsa_sign(args.key.as_slice(), args.message.as_slice()),
        };
        keyed(made)
    }

    /// Says whether a signature is one of a public key on a message.
    pub fn verify(&self, args: VerifyArgs) -> (r: Result<bool, E>)
        ensures
            r == Ok::<bool, E>(verifies(args.sigtype, args.signature@, args.message@, args.pubkey@)),
            r == Ok::<bool, E>(true) ==> args.signature@.len() == signature_len(args.sigtype)
                && args.pubkey@.len() == public_key_len(args.sigtype),
    {
        let signature = args.signature.as_slice();
        let message = args.message.as_slice();
        let pubkey = args.pubkey.as_slice();
        Ok(
            match args.sigtype {
                SigType::Sr25519 => sr25519_verify(signature, message, pubkey),
                SigType::Ed25519 => ed25519_verify(signature, message, pubkey),
                SigType::Ecdsa => ecdsa_verify(signature, message, pubkey),
            },
        )
    }

    /// The sr25519 secret key that stands for a salt: that of the seed made
    /// of the salt's first 32 bytes, filled up with zeros.
    pub fn derive_sr25519_key(&self, salt: &[u8]) -> (r: Result<Vec<u8>, E>)
        ensures
            r matches Ok(secret) && secret@ == sr25519_secret(seed_of(salt@)) && secret@.len() == 64,
    {
        let seed = seed_from_salt(salt);
        Ok(sr25519_secret_key(&seed))
    }

    /// The public key of a secret key. A key that the scheme does not take
    /// is reported as `Invalid key`.
    pub fn get_public_key(&self, args: PublicKeyForArgs) -> (r: Result<Vec<u8>, E>)
        ensures
            match r {
                Ok(public) => public_key(args.sigtype, args.key@) == Some(public@) && public@.len()
                    == public_key_len(args.sigtype),
                Err(_) => public_key(args.sigtype, args.key@) is None,
            },
            r is Ok ==> secret_key_len(args.sigtype, args.key@.len()),
            args.key@.len() == 32 && args.sigtype != SigType::Ecdsa ==> r is Ok,
            r is Err && E::obeys_from_spec() ==> r == Err::<Vec<u8>, E>(E::from_spec("Invalid key")),
    {
        let made = match args.sigtype {
            SigType::Ed25519 => ed25519_public_key(args.key.as_slice()),
            SigType::Sr25519 => sr25519_public_key(args.key.as_slice()),
            SigType::Ecdsa => ecdsa_public_key(args.key.as_slice()),
        };
        keyed(made)
    }

    /// Random bytes, `length` of them. Where the system gives none, that is
    /// reported as `Failed to get random bytes`.
    pub fn getrandom(&self, length: u8) -> (r: Result<Vec<u8>, E>)
        ensures
            r matches Ok(bytes) ==> bytes@.len() == length,
            r is Err && E::obeys_from_spec() ==> r == Err::<Vec<u8>, E>(
                E::from_spec("Failed to get random bytes"),
            ),
    {
        let mut buf = vec![0u8; length as usize];
        if fill_random(&mut buf) {
            Ok(buf)
        } else {
            Err(E::from("Failed to get random bytes"))
        }
    }
}

} // verus!
