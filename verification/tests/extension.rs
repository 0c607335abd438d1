use headers_cache::extension::{
    keyed, log_level, query_timeout, seed_from_salt, BufferLimitExceeded, DefaultPinkExtension,
    LimitedWriter, LogLevel, PinkRuntimeEnv, PublicKeyForArgs, SigType, SignArgs, VerifyArgs,
    MAX_BODY_SIZE, MAX_QUERY_TIME,
};
use std::time::Duration;

struct Env {
    address: String,
}

impl PinkRuntimeEnv for Env {
    type AccountId = String;

    fn address(&self) -> &String {
        &self.address
    }

    fn call_elapsed(&self) -> Option<Duration> {
        Some(Duration::from_millis(1500))
    }
}

fn env() -> Env {
    Env { address: "5Grw".to_string() }
}

fn hex(text: &str) -> Vec<u8> {
    let digits: Vec<u8> = text
        .bytes()
        .map(|c| match c {
            b'0'..=b'9' => c - b'0',
            b'a'..=b'f' => c - b'a' + 10,
            _ => panic!("no hex digit"),
        })
        .collect();
    digits.chunks(2).map(|pair| pair[0] * 16 + pair[1]).collect()
}

const SEED: &str = "9d61b19deffd5a60ba844af492ec2cc44449c5697b326919703bac031cae7f60";

#[test]
fn extension_keeps_its_runtime() {
    let env = env();
    let extension = DefaultPinkExtension::<Env, String>::new(&env);
    assert_eq!(extension.env.address(), "5Grw");
    assert_eq!(extension.env.call_elapsed(), Some(Duration::from_millis(1500)));
}

#[test]
fn log_levels_go_from_errors_to_traces() {
    assert_eq!(log_level(1), LogLevel::Error);
    assert_eq!(log_level(2), LogLevel::Warn);
    assert_eq!(log_level(3), LogLevel::Info);
    assert_eq!(log_level(4), LogLevel::Debug);
    assert_eq!(log_level(5), LogLevel::Trace);
    assert_eq!(log_level(0), LogLevel::Error);
    assert_eq!(log_level(6), LogLevel::Error);
    assert_eq!(log_level(255), LogLevel::Error);
}

#[test]
fn query_time_is_what_is_left_of_ten_seconds() {
    assert_eq!(MAX_QUERY_TIME, 10);
    assert_eq!(query_timeout(0), Some(10_000_000_000));
    assert_eq!(query_timeout(1_500_000_000), Some(8_500_000_000));
    assert_eq!(query_timeout(9_999_999_999), Some(1));
    assert_eq!(query_timeout(10_000_000_000), Some(0));
    assert_eq!(query_timeout(10_000_000_001), None);
    assert_eq!(query_timeout(u128::MAX), None);
}

#[test]
fn limited_writer_takes_bytes_up_to_its_limit() {
    let mut writer = LimitedWriter::new(vec![9], 5);
    assert_eq!(writer.written, 0);
    assert_eq!(writer.write(&[1, 2, 3]), Ok(3));
    assert_eq!(writer.write(&[]), Ok(0));
    assert_eq!(writer.write(&[4, 5]), Ok(2));
    assert_eq!(writer.written, 5);
    assert_eq!(writer.writer, vec![9, 1, 2, 3, 4, 5]);
    assert_eq!(writer.write(&[6]), Err(BufferLimitExceeded));
    assert_eq!(writer.write(&[]), Ok(0));
    writer.flush();
    assert_eq!(writer.writer, vec![9, 1, 2, 3, 4, 5]);
    assert_eq!(writer.written, 5);
    assert_eq!(writer.limit, 5);
}

#[test]
fn limited_writer_refuses_a_write_that_is_too_long_as_a_whole() {
    let mut writer = LimitedWriter::new(Vec::new(), 4);
    assert_eq!(writer.write(&[1, 2, 3]), Ok(3));
    assert_eq!(writer.write(&[4, 5]), Err(BufferLimitExceeded));
    assert_eq!(writer.writer, vec![1, 2, 3]);
    assert_eq!(writer.written, 3);
    assert_eq!(writer.write(&[4]), Ok(1));
    let mut none = LimitedWriter::new(Vec::new(), 0);
    assert_eq!(none.write(&[1]), Err(BufferLimitExceeded));
    assert_eq!(none.write(&[]), Ok(0));
}

#[test]
fn body_limit_is_a_quarter_mebibyte() {
    assert_eq!(MAX_BODY_SIZE, 262_144);
    let mut writer = LimitedWriter::new(Vec::new(), MAX_BODY_SIZE);
    assert_eq!(writer.write(&vec![0u8; 262_144]), Ok(262_144));
    assert_eq!(writer.write(&[0]), Err(BufferLimitExceeded));
}

#[test]
fn seed_is_the_salt_filled_up_or_cut() {
    assert_eq!(seed_from_salt(&[]), [0u8; 32]);
    let mut expected = [0u8; 32];
    expected[0] = 7;
    expected[1] = 8;
    assert_eq!(seed_from_salt(&[7, 8]), expected);
    let long: Vec<u8> = (1..=40).collect();
    let cut: Vec<u8> = (1..=32).collect();
    assert_eq!(seed_from_salt(&long).to_vec(), cut);
    assert_eq!(seed_from_salt(&cut).to_vec(), cut);
}

#[test]
fn refused_key_is_reported() {
    assert_eq!(keyed::<String>(Some(vec![1, 2])), Ok(vec![1, 2]));
    assert_eq!(keyed::<String>(None), Err("Invalid key".to_string()));
}

#[test]
fn ed25519_signs_the_known_vector() {
    let env = env();
    let extension = DefaultPinkExtension::<Env, String>::new(&env);
    let signature = extension.sign(SignArgs {
        sigtype: SigType::Ed25519,
        key: hex(SEED),
        message: Vec::new(),
    });
    assert_eq!(
        signature,
        Ok(hex(
            "e5564300c360ac729086e2cc806e828a84877f1eb8e5d974d873e065224901555fb8821590a33bacc61e39701cf9b46bd25bf5f0595bbe24655141438e7a100b"
        ))
    );
}

#[test]
fn ecdsa_signs_the_known_vector() {
    let env = env();
    let extension = DefaultPinkExtension::<Env, String>::new(&env);
    let signature = extension.sign(SignArgs {
        sigtype: SigType::Ecdsa,
        key: hex(SEED),
        message: Vec::new(),
    });
    assert_eq!(
        signature,
        Ok(hex(
            "3dde91174bd9359027be59a428b8146513df80a2a3c7eda2194f64de04a69ab97b753169e94db6ffd50921a2668a48b94ca11e3d32c1ff19cfe88890aa7e8f3c00"
        ))
    );
}

#[test]
fn public_keys_of_known_secrets() {
    let env = env();
    let extension = DefaultPinkExtension::<Env, String>::new(&env);
    assert_eq!(
        extension.get_public_key(PublicKeyForArgs { sigtype: SigType::Ed25519, key: hex(SEED) }),
        Ok(hex("d75a980182b10ab7d54bfed3c964073a0ee172f3daa62325af021a68f707511a"))
    );
    assert_eq!(
        extension.get_public_key(PublicKeyForArgs { sigtype: SigType::Ecdsa, key: hex(SEED) }),
        Ok(hex("028db55b05db86c0b1786ca49f095d76344c9e6056b2f02701a7e7f3c20aabfd91"))
    );
    assert_eq!(
        extension.get_public_key(PublicKeyForArgs {
            sigtype: SigType::Sr25519,
            key: b"12345678901234567890123456789012".to_vec(),
        }),
        Ok(hex("741c08a06f41c596608f6774259bd9043304adfa5d3eea62760bd9be97634d63"))
    );
    assert_eq!(
        extension.get_public_key(PublicKeyForArgs {
            sigtype: SigType::Ed25519,
            key: b"12345678901234567890123456789012".to_vec(),
        }),
        Ok(hex("2f8c6129d816cf51c374bc7f08c3e63ed156cf78aefb4a6550d97b87997977ee"))
    );
}

#[test]
fn keys_of_the_wrong_length_are_invalid() {
    let env = env();
    let extension = DefaultPinkExtension::<Env, String>::new(&env);
    for sigtype in [SigType::Ed25519, SigType::Sr25519, SigType::Ecdsa] {
        assert_eq!(
            extension.get_public_key(PublicKeyForArgs { sigtype, key: vec![1; 31] }),
            Err("Invalid key".to_string())
        );
        assert_eq!(
            extension.sign(SignArgs { sigtype, key: vec![1; 33], message: vec![1] }),
            Err("Invalid key".to_string())
        );
        assert_eq!(
            extension.sign(SignArgs { sigtype, key: Vec::new(), message: vec![1] }),
            Err("Invalid key".to_string())
        );
    }
    assert_eq!(
        extension.sign(SignArgs { sigtype: SigType::Ecdsa, key: vec![0; 32], message: vec![1] }),
        Err("Invalid key".to_string())
    );
}

#[test]
fn signatures_verify_under_their_own_key_only() {
    let env = env();
    let extension = DefaultPinkExtension::<Env, String>::new(&env);
    for sigtype in [SigType::Ed25519, SigType::Sr25519, SigType::Ecdsa] {
        let key = hex(SEED);
        let message = b"finality".to_vec();
        let signature = extension
            .sign(SignArgs { sigtype, key: key.clone(), message: message.clone() })
            .unwrap();
        let pubkey = extension.get_public_key(PublicKeyForArgs { sigtype, key }).unwrap();
        let other = extension
            .get_public_key(PublicKeyForArgs { sigtype, key: vec![7; 32] })
            .unwrap();
        assert_eq!(signature.len(), if sigtype == SigType::Ecdsa { 65 } else { 64 });
        assert_eq!(
            extension.verify(VerifyArgs {
                sigtype,
                pubkey: pubkey.clone(),
                message: message.clone(),
                signature: signature.clone(),
            }),
            Ok(true)
        );
        assert_eq!(
            extension.verify(VerifyArgs {
                sigtype,
                pubkey: pubkey.clone(),
                message: b"finalitz".to_vec(),
                signature: signature.clone(),
            }),
            Ok(false)
        );
        assert_eq!(
            extension.verify(VerifyArgs {
                sigtype,
                pubkey: other,
                message: message.clone(),
                signature: signature.clone(),
            }),
            Ok(false)
        );
        assert_eq!(
            extension.verify(VerifyArgs {
                sigtype,
                pubkey: pubkey.clone(),
                message: message.clone(),
                signature: signature[1..].to_vec(),
            }),
            Ok(false)
        );
        assert_eq!(
            extension.verify(VerifyArgs {
                sigtype,
                pubkey: pubkey[1..].to_vec(),
                message,
                signature,
            }),
            Ok(false)
        );
    }
}

#[test]
fn known_ed25519_signature_verifies() {
    let env = env();
    let extension = DefaultPinkExtension::<Env, String>::new(&env);
    assert_eq!(
        extension.verify(VerifyArgs {
            sigtype: SigType::Ed25519,
            pubkey: hex("d75a980182b10ab7d54bfed3c964073a0ee172f3daa62325af021a68f707511a"),
            message: Vec::new(),
            signature: hex(
                "e5564300c360ac729086e2cc806e828a84877f1eb8e5d974d873e065224901555fb8821590a33bacc61e39701cf9b46bd25bf5f0595bbe24655141438e7a100b"
            ),
        }),
        Ok(true)
    );
}

#[test]
fn derived_key_is_that_of_the_padded_salt() {
    let env = env();
    let extension = DefaultPinkExtension::<Env, String>::new(&env);
    let short = extension.derive_sr25519_key(&[1, 2, 3]).unwrap();
    let mut padded = vec![1u8, 2, 3];
    padded.resize(32, 0);
    let same = extension.derive_sr25519_key(&padded).unwrap();
    let mut longer = padded.clone();
    longer.extend_from_slice(&[9, 9]);
    let cut = extension.derive_sr25519_key(&longer).unwrap();
    assert_eq!(short.len(), 64);
    assert_eq!(short, same);
    assert_eq!(short, cut);
    assert_ne!(short, extension.derive_sr25519_key(&[1, 2, 4]).unwrap());
    let public = extension
        .get_public_key(PublicKeyForArgs { sigtype: SigType::Sr25519, key: short.clone() })
        .unwrap();
    let from_seed = extension
        .get_public_key(PublicKeyForArgs { sigtype: SigType::Sr25519, key: padded })
        .unwrap();
    assert_eq!(public, from_seed);
}

#[test]
fn random_bytes_come_in_the_length_asked_for() {
    let env = env();
    let extension = DefaultPinkExtension::<Env, String>::new(&env);
    assert_eq!(extension.getrandom(0), Ok(Vec::new()));
    assert_eq!(extension.getrandom(1).unwrap().len(), 1);
    let a = extension.getrandom(32).unwrap();
    let b = extension.getrandom(32).unwrap();
    assert_eq!(a.len(), 32);
    assert_eq!(b.len(), 32);
    assert_ne!(a, b);
    assert_eq!(extension.getrandom(255).unwrap().len(), 255);
}
