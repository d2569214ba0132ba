use rusthydrus::download::{check_digest, dl_step, hash_bytes, hash_check, hex_string, DlAction, DlEvent, HashCheck};
use rusthydrus::sharedtypes::HashesSupported;

#[test]
fn md5_lowercase_hex() {
    let (digest, ok) = hash_bytes(b"abc", &HashesSupported::Md5("900150983cd24fb0d6963f7d28e17f72".to_string()));
    assert_eq!(digest, "900150983cd24fb0d6963f7d28e17f72");
    assert!(ok);
}

#[test]
fn sha1_uppercase_hex() {
    let (digest, ok) = hash_bytes(b"abc", &HashesSupported::Sha1("nope".to_string()));
    assert_eq!(digest, "A9993E364706816ABA3E25717850C26C9CD0D89D");
    assert!(!ok);
}

#[test]
fn sha256_uppercase_hex() {
    let expected = "BA7816BF8F01CFEA414140DE5DAE2223B00361A396177A9CB410FF61F20015AD";
    let (digest, ok) = hash_bytes(b"abc", &HashesSupported::Sha256(expected.to_string()));
    assert_eq!(digest, expected);
    assert!(ok);
}

#[test]
fn sha512_uppercase_hex() {
    let (digest, _) = hash_bytes(b"", &HashesSupported::Sha512(String::new()));
    assert_eq!(digest.len(), 128);
    assert!(digest.starts_with("CF83E1357EEFB8BDF1542850D66D8007"));
}

#[test]
fn no_hash_never_matches() {
    assert_eq!(hash_bytes(b"abc", &HashesSupported::NoHash), (String::new(), false));
}

#[test]
fn hex_forms() {
    assert_eq!(hex_string(&[0x0a, 0xff, 0x00], false), "0aff00");
    assert_eq!(hex_string(&[0x0a, 0xff, 0x00], true), "0AFF00");
    assert_eq!(hex_string(&[], true), "");
}

#[test]
fn digest_comparison() {
    assert_eq!(check_digest("AB".to_string(), &"AB".to_string()), ("AB".to_string(), true));
    assert_eq!(check_digest("AB".to_string(), &"ab".to_string()), ("AB".to_string(), false));
}


#[test]
fn download_steps() {
    assert_eq!(dl_step(0, DlEvent::SendFailed), (0, DlAction::WaitAndResend));
    assert_eq!(dl_step(1, DlEvent::Answered { client_error: true }), (1, DlAction::DeadUrl));
    assert_eq!(dl_step(1, DlEvent::Answered { client_error: false }), (1, DlAction::ReadBody));
    assert_eq!(dl_step(2, DlEvent::BodyFailed), (3, DlAction::WaitAndResend));
    assert_eq!(dl_step(3, DlEvent::BodyFailed), (3, DlAction::TryLater));
    assert_eq!(dl_step(0, DlEvent::BodyRead(HashCheck::Mismatched)), (1, DlAction::Resend));
    assert_eq!(dl_step(2, DlEvent::BodyRead(HashCheck::Mismatched)), (3, DlAction::TryLater));
    assert_eq!(dl_step(3, DlEvent::BodyRead(HashCheck::Matched)), (3, DlAction::TryLater));
    assert_eq!(dl_step(2, DlEvent::BodyRead(HashCheck::Matched)), (2, DlAction::Done));
    assert_eq!(dl_step(5, DlEvent::BodyRead(HashCheck::NoneExpected)), (5, DlAction::Done));
}

#[test]
fn body_hash_checks() {
    assert_eq!(hash_check(b"abc", &HashesSupported::NoHash), HashCheck::NoneExpected);
    assert_eq!(
        hash_check(b"abc", &HashesSupported::Md5("900150983cd24fb0d6963f7d28e17f72".to_string())),
        HashCheck::Matched
    );
    assert_eq!(hash_check(b"abd", &HashesSupported::Md5("900150983cd24fb0d6963f7d28e17f72".to_string())), HashCheck::Mismatched);
}

#[test]
fn digest_lengths_by_hash() {
    assert_eq!(hash_bytes(b"", &HashesSupported::Md5(String::new())).0.len(), 32);
    assert_eq!(hash_bytes(b"", &HashesSupported::Sha1(String::new())).0.len(), 40);
    assert_eq!(hash_bytes(b"", &HashesSupported::Sha256(String::new())).0.len(), 64);
    assert_eq!(hash_bytes(b"", &HashesSupported::Sha512(String::new())).0.len(), 128);
    assert_eq!(hash_bytes(b"", &HashesSupported::NoHash).0.len(), 0);
}
