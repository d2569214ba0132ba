//! Hashing downloaded bytes and checking the digest against the one a
//! scraper announced.

use crate::sharedtypes::HashesSupported;
use crate::textparse::{all_ascii, decode_utf8};
use sha2::Digest;
use vstd::prelude::*;

verus! {

/// The outcome of a download.
pub enum FileReturnStatus {
    /// The url is dead (a status of 400 or more).
    DeadUrl(String),
    /// The file's hash and extension.
    File((String, String)),
    /// Another issue: try again later.
    TryLater,
}

/// The MD5 digest of a byte string, as `md5::compute` gives it.
pub uninterp spec fn md5_digest(bytes: Seq<u8>) -> Seq<u8>;

/// The SHA-1 digest of a byte string, as `sha1::Sha1` gives it.
pub uninterp spec fn sha1_digest(bytes: Seq<u8>) -> Seq<u8>;

/// The SHA-256 digest of a byte string, as `sha2::Sha256` gives it.
pub uninterp spec fn sha256_digest(bytes: Seq<u8>) -> Seq<u8>;

/// The SHA-512 digest of a byte string, as `sha2::Sha512` gives it.
pub uninterp spec fn sha512_digest(bytes: Seq<u8>) -> Seq<u8>;

/// `md5::compute`. Trusted: the result is `md5_digest` of the bytes, 16
/// bytes long.
#[verifier::external_body]
fn md5_bytes(bytes: &[u8]) -> (res: Vec<u8>)
    ensures
        res@ == md5_digest(bytes@),
        res@.len() == 16,
{
    md5::compute(bytes).0.to_vec()
}

/// `sha1::Sha1`, fed the bytes and finalized. Trusted: the result is
/// `sha1_digest` of the bytes, 20 bytes long.
#[verifier::external_body]
fn sha1_bytes(bytes: &[u8]) -> (res: Vec<u8>)
    ensures
        res@ == sha1_digest(bytes@),
        res@.len() == 20,
{
    let mut hasher = sha1::Sha1::new();
    hasher.update(bytes);
    hasher.finalize().to_vec()
}

/// `sha2::Sha256`, fed the bytes and finalized. Trusted: the result is
/// `sha256_digest` of the bytes, 32 bytes long.
#[verifier::external_body]
fn sha256_bytes(bytes: &[u8]) -> (res: Vec<u8>)
    ensures
        res@ == sha256_digest(bytes@),
        res@.len() == 32,
{
    let mut hasher = sha2::Sha256::new();
    hasher.update(bytes);
    hasher.finalize().to_vec()
}

/// `sha2::Sha512`, fed the bytes and finalized. Trusted: the result is
/// `sha512_digest` of the bytes, 64 bytes long.
#[verifier::external_body]
fn sha512_bytes(bytes: &[u8]) -> (res: Vec<u8>)
    ensures
        res@ == sha512_digest(bytes@),
        res@.len() == 64,
{
    let mut hasher = sha2::Sha512::new();
    hasher.update(bytes);
    hasher.finalize().to_vec()
}

/// The ASCII code of the hex digit for `n` (below 16), in upper or lower
/// case.
pub open spec fn hex_code(n: u8, upper: bool) -> u8 {
    if n < 10 {
        (48 + n) as u8
    } else if upper {
        (55 + n) as u8
    } else {
        (87 + n) as u8
    }
}

/// The ASCII codes of the hex form of `b`: two digits per byte, the high
/// one first, as `{:02x}` or `{:02X}` prints each byte.
pub open spec fn hex_codes(b: Seq<u8>, upper: bool) -> Seq<u8>
    decreases b.len(),
{
    if b.len() == 0 {
        Seq::empty()
    } else {
        hex_codes(b.drop_last(), upper) + seq![
            hex_code(b.last() / 16, upper),
            hex_code(b.last() % 16, upper),
        ]
    }
}

/// The hex form of `b` as characters.
pub open spec fn hex_of(b: Seq<u8>, upper: bool) -> Seq<char> {
    hex_codes(b, upper).map_values(|c: u8| c as char)
}

proof fn lemma_hex_codes_ascii(b: Seq<u8>, upper: bool)
    ensures
        all_ascii(hex_codes(b, upper)),
        hex_codes(b, upper).len() == 2 * b.len(),
    decreases b.len(),
{
    if b.len() > 0 {
        lemma_hex_codes_ascii(b.drop_last(), upper);
    }
}

/// The hex form of `digest`: two digits per byte, in upper or lower case.
pub fn hex_string(digest: &[u8], upper: bool) -> (res: String)
    ensures
        res@ == hex_of(digest@, upper),
{
    let mut codes: Vec<u8> = Vec::new();
    let mut i: usize = 0;
    while i < digest.len()
        invariant
            i <= digest.len(),
            codes@ == hex_codes(digest@.take(i as int), upper),
        decreases digest.len() - i,
    {
        let byte = digest[i];
        let hi = byte / 16;
        let lo = byte % 16;
        let hc = if hi < 10 {
            48 + hi
        } else if upper {
            55 + hi
        } else {
            87 + hi
        };
        let lc = if lo < 10 {
            48 + lo
        } else if upper {
            55 + lo
        } else {
            87 + lo
        };
        codes.push(hc);
        codes.push(lc);
        assert(digest@.take(i + 1).drop_last() =~= digest@.take(i as int));
        assert(codes@ =~= hex_codes(digest@.take(i + 1), upper));
        i = i + 1;
    }
    assert(digest@.take(digest.len() as int) =~= digest@);
    proof {
        lemma_hex_codes_ascii(digest@, upper);
    }
    match decode_utf8(codes.as_slice()) {
        Some(s) => s,
        None => {
            assert(false);
            String::new()
        },
    }
}

/// Compares a computed digest with the expected one: the digest, and
/// whether the two are the same.
pub fn check_digest(digest: String, expected: &String) -> (res: (String, bool))
    ensures
        res.0@ == digest@,
        res.1 == (digest@ == expected@),
{
    let same = digest == *expected;
    (digest, same)
}

/// The hex digest `hash_bytes` computes for `bytes` by the kind of `hash`:
/// lower case for MD5, upper case for the SHA hashes, empty for none.
pub open spec fn digest_hex(bytes: Seq<u8>, hash: HashesSupported) -> Seq<char> {
    match hash {
        HashesSupported::Md5(_) => hex_of(md5_digest(bytes), false),
        HashesSupported::Sha1(_) => hex_of(sha1_digest(bytes), true),
        HashesSupported::Sha256(_) => hex_of(sha256_digest(bytes), true),
        HashesSupported::Sha512(_) => hex_of(sha512_digest(bytes), true),
        HashesSupported::NoHash => Seq::empty(),
    }
}

/// The length of the hex digest of each hash: 32 for MD5, 40 for SHA-1, 64
/// for SHA-256, 128 for SHA-512, none without a hash.
pub open spec fn digest_hex_len(hash: HashesSupported) -> nat {
    match hash {
        HashesSupported::Md5(_) => 32,
        HashesSupported::Sha1(_) => 40,
        HashesSupported::Sha256(_) => 64,
        HashesSupported::Sha512(_) => 128,
        HashesSupported::NoHash => 0,
    }
}

/// Hashes `bytes` with the hash `hash` names and compares the hex digest
/// with the one it carries: the digest, and whether they match. Without a
/// hash the digest is empty and there is no match.
pub fn hash_bytes(bytes: &[u8], hash: &HashesSupported) -> (res: (String, bool))
    ensures
        res.0@ == digest_hex(bytes@, *hash),
        res.0@.len() == digest_hex_len(*hash),
        res.1 == match hash {
            HashesSupported::Md5(h) => res.0@ == h@,
            HashesSupported::Sha1(h) => res.0@ == h@,
            HashesSupported::Sha256(h) => res.0@ == h@,
            HashesSupported::Sha512(h) => res.0@ == h@,
            HashesSupported::NoHash => false,
        },
{
    match hash {
        HashesSupported::Md5(h) => {
            let d = md5_bytes(bytes);
            proof {
                law_hex_length(d@, false);
            }
            check_digest(hex_string(d.as_slice(), false), h)
        },
        HashesSupported::Sha1(h) => {
            let d = sha1_bytes(bytes);
            proof {
                law_hex_length(d@, true);
            }
            check_digest(hex_string(d.as_slice(), true), h)
        },
        HashesSupported::Sha256(h) => {
            let d = sha256_bytes(bytes);
            proof {
                law_hex_length(d@, true);
            }
            check_digest(hex_string(d.as_slice(), true), h)
        },
        HashesSupported::Sha512(h) => {
            let d = sha512_bytes(bytes);
            proof {
                law_hex_length(d@, true);
            }
            check_digest(hex_string(d.as_slice(), true), h)
        },
        HashesSupported::NoHash => {
            let e = String::new();
            assert(e@.len() == 0);
            (e, false)
        },
    }
}


/// How the body of a download compared with the hash the scraper expected.
#[derive(Debug, Clone, Copy, PartialEq, Eq, Structural)]
pub enum HashCheck {
    /// No hash was expected.
    NoneExpected,
    /// The digest matched.
    Matched,
    /// The digest did not match.
    Mismatched,
}

/// What happened at one step of a download.
#[derive(Debug, Clone, Copy, PartialEq, Eq, Structural)]
pub enum DlEvent {
    /// The request could not be sent.
    SendFailed,
    /// The server answered; `client_error` when with a status of the 400s.
    Answered { client_error: bool },
    /// The body of the answer could not be read.
    BodyFailed,
    /// The body was read and checked against the expected hash.
    BodyRead(HashCheck),
}

/// What the downloader does next.
#[derive(Debug, Clone, Copy, PartialEq, Eq, Structural)]
pub enum DlAction {
    /// Wait ten seconds, then send the request again.
    WaitAndResend,
    /// Read the body of the answer.
    ReadBody,
    /// Send the request again at once, after the rate limiter.
    Resend,
    /// Give up: the url is dead.
    DeadUrl,
    /// Give up for now: try again later.
    TryLater,
    /// The file is downloaded.
    Done,
}

/// The retry count and action after `event`, with `cnt` failures counted so
/// far. A failed send is retried without counting; a client error ends the
/// download. A failed read, or a digest that does not match, counts one
/// failure and is retried, up to three; with three counted the download is
/// put off, also when the digest then matches.
pub open spec fn dl_next(cnt: usize, event: DlEvent) -> (usize, DlAction) {
    match event {
        DlEvent::SendFailed => (cnt, DlAction::WaitAndResend),
        DlEvent::Answered { client_error } => if client_error {
            (cnt, DlAction::DeadUrl)
        } else {
            (cnt, DlAction::ReadBody)
        },
        DlEvent::BodyFailed => if cnt >= 3 {
            (cnt, DlAction::TryLater)
        } else {
            ((cnt + 1) as usize, DlAction::WaitAndResend)
        },
        DlEvent::BodyRead(check) => match check {
            HashCheck::NoneExpected => (cnt, DlAction::Done),
            HashCheck::Matched => if cnt >= 3 {
                (cnt, DlAction::TryLater)
            } else {
                (cnt, DlAction::Done)
            },
            HashCheck::Mismatched => if cnt + 1 >= 3 {
                ((cnt + 1) as usize, DlAction::TryLater)
            } else {
                ((cnt + 1) as usize, DlAction::Resend)
            },
        },
    }
}

/// One decision of the downloader: from the failures counted so far and what
/// just happened, the new count and what to do next.
pub fn dl_step(cnt: usize, event: DlEvent) -> (res: (usize, DlAction))
    requires
        cnt < usize::MAX,
    ensures
        res == dl_next(cnt, event),
{
    match event {
        DlEvent::SendFailed => (cnt, DlAction::WaitAndResend),
        DlEvent::Answered { client_error } => {
            if client_error {
                (cnt, DlAction::DeadUrl)
            } else {
                (cnt, DlAction::ReadBody)
            }
        },
        DlEvent::BodyFailed => {
            if cnt >= 3 {
                (cnt, DlAction::TryLater)
            } else {
                (cnt + 1, DlAction::WaitAndResend)
            }
        },
        DlEvent::BodyRead(check) => match check {
            HashCheck::NoneExpected => (cnt, DlAction::Done),
            HashCheck::Matched => {
                if cnt >= 3 {
                    (cnt, DlAction::TryLater)
                } else {
                    (cnt, DlAction::Done)
                }
            },
            HashCheck::Mismatched => {
                let n = cnt + 1;
                if n >= 3 {
                    (n, DlAction::TryLater)
                } else {
                    (n, DlAction::Resend)
                }
            },
        },
    }
}

/// How a body compares with what `hash` expects, from `hash_bytes`.
pub fn hash_check(bytes: &[u8], hash: &HashesSupported) -> (res: HashCheck)
    ensures
        res == match hash {
            HashesSupported::NoHash => HashCheck::NoneExpected,
            HashesSupported::Md5(h) => if digest_hex(bytes@, *hash) == h@ {
                HashCheck::Matched
            } else {
                HashCheck::Mismatched
            },
            HashesSupported::Sha1(h) => if digest_hex(bytes@, *hash) == h@ {
                HashCheck::Matched
            } else {
                HashCheck::Mismatched
            },
            HashesSupported::Sha256(h) => if digest_hex(bytes@, *hash) == h@ {
                HashCheck::Matched
            } else {
                HashCheck::Mismatched
            },
            HashesSupported::Sha512(h) => if digest_hex(bytes@, *hash) == h@ {
                HashCheck::Matched
            } else {
                HashCheck::Mismatched
            },
        },
{
    match hash {
        HashesSupported::NoHash => HashCheck::NoneExpected,
        _ => {
            let (_, ok) = hash_bytes(bytes, hash);
            if ok {
                HashCheck::Matched
            } else {
                HashCheck::Mismatched
            }
        },
    }
}

/// The downloader never goes on past three counted failures: from a count
/// of three or less, any step that does not give up leaves the count at
/// three or less, and once three failures are counted a read or a hash check
/// gives up.
pub proof fn law_dl_gives_up(cnt: usize, event: DlEvent)
    requires
        cnt <= 3,
    ensures
        dl_next(cnt, event).1 != DlAction::TryLater ==> dl_next(cnt, event).0 <= 3,
        cnt == 3 && (event matches DlEvent::BodyFailed || event matches DlEvent::BodyRead(
            HashCheck::Matched,
        ) || event matches DlEvent::BodyRead(HashCheck::Mismatched)) ==> dl_next(cnt, event).1
            == DlAction::TryLater,
{
}

/// The hex form of a digest has two characters per byte, each an ASCII
/// code.
pub proof fn law_hex_length(b: Seq<u8>, upper: bool)
    ensures
        hex_of(b, upper).len() == 2 * b.len(),
        all_ascii(hex_codes(b, upper)),
{
    lemma_hex_codes_ascii(b, upper);
}

/// The hex digits in lower case, and in upper case.
pub open spec fn hex_digits(upper: bool) -> Seq<char> {
    if upper {
        seq!['0', '1', '2', '3', '4', '5', '6', '7', '8', '9', 'A', 'B', 'C', 'D', 'E', 'F']
    } else {
        seq!['0', '1', '2', '3', '4', '5', '6', '7', '8', '9', 'a', 'b', 'c', 'd', 'e', 'f']
    }
}

proof fn lemma_hex_code_digit(n: u8, upper: bool)
    requires
        n < 16,
    ensures
        (hex_code(n, upper) as char) == hex_digits(upper)[n as int],
{
    let d = hex_digits(upper);
    if n == 0 { assert(d[0] == '0'); } else if n == 1 { assert(d[1] == '1'); }
    else if n == 2 { assert(d[2] == '2'); } else if n == 3 { assert(d[3] == '3'); }
    else if n == 4 { assert(d[4] == '4'); } else if n == 5 { assert(d[5] == '5'); }
    else if n == 6 { assert(d[6] == '6'); } else if n == 7 { assert(d[7] == '7'); }
    else if n == 8 { assert(d[8] == '8'); } else if n == 9 { assert(d[9] == '9'); }
    else if n == 10 { assert(d[10] == if upper { 'A' } else { 'a' }); }
    else if n == 11 { assert(d[11] == if upper { 'B' } else { 'b' }); }
    else if n == 12 { assert(d[12] == if upper { 'C' } else { 'c' }); }
    else if n == 13 { assert(d[13] == if upper { 'D' } else { 'd' }); }
    else if n == 14 { assert(d[14] == if upper { 'E' } else { 'e' }); }
    else { assert(d[15] == if upper { 'F' } else { 'f' }); }
}

proof fn lemma_hex_codes_at(b: Seq<u8>, upper: bool, i: int)
    requires
        0 <= i < b.len(),
    ensures
        hex_codes(b, upper).len() == 2 * b.len(),
        hex_codes(b, upper)[2 * i] == hex_code(b[i] / 16, upper),
        hex_codes(b, upper)[2 * i + 1] == hex_code(b[i] % 16, upper),
    decreases b.len(),
{
    lemma_hex_codes_ascii(b, upper);
    let pre = b.drop_last();
    lemma_hex_codes_ascii(pre, upper);
    if i < b.len() - 1 {
        lemma_hex_codes_at(pre, upper, i);
        assert(pre[i] == b[i]);
    }
}

/// The hex form of a digest spells each byte in turn as two hex digits,
/// the high half first, in the case asked for.
pub proof fn law_hex_digits(b: Seq<u8>, upper: bool, i: int)
    requires
        0 <= i < b.len(),
    ensures
        hex_of(b, upper).len() == 2 * b.len(),
        hex_of(b, upper)[2 * i] == hex_digits(upper)[b[i] as int / 16],
        hex_of(b, upper)[2 * i + 1] == hex_digits(upper)[b[i] as int % 16],
{
    lemma_hex_codes_at(b, upper, i);
    lemma_hex_code_digit(b[i] / 16, upper);
    lemma_hex_code_digit(b[i] % 16, upper);
}

} // verus!
