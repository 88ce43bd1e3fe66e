//! Certificate lifecycle decisions: classifying the on-disk certificate as
//! valid, missing, expired or unreadable, and computing the renewal
//! fingerprint an expired certificate is identified by.
//!
//! Reading the certificate file, generating key pairs and submitting the
//! signing request are I/O and stay outside the library; this module holds
//! every decision taken on what those steps produce.

use vstd::prelude::*;
use vstd::string::StringExecFns;

use crate::text::{hex_digit, push_hex_digit};

verus! {

/// What the certificate check found.
#[derive(Clone, Copy, Debug, PartialEq, Eq, Structural)]
pub enum CertStatus {
    /// A certificate exists and is still within its validity window.
    OK,
    /// No certificate file exists; a fresh one must be requested.
    NOCERT,
    /// The certificate has expired; renewal needs its fingerprint.
    EXPIRED,
    /// The certificate could not be read or digested; fatal.
    ERR,
}

/// The SHA-1 digest of a byte sequence, as openssl computes it.
pub uninterp spec fn sha1_of(data: Seq<u8>) -> Seq<u8>;

/// Relies on openssl's `hash` with `MessageDigest::sha1`: the digest is a
/// function of the input bytes alone and is 20 bytes long; `None` only when
/// openssl itself reports a failure.
#[verifier::external_body]
fn sha1(data: &[u8]) -> (r: Option<Vec<u8>>)
    ensures
        r matches Some(d) ==> d@ == sha1_of(data@) && d@.len() == 20,
{
    match openssl::hash::hash(openssl::hash::MessageDigest::sha1(), data) {
        Ok(d) => Some(d.to_vec()),
        Err(_) => None,
    }
}

/// The lower-case hexadecimal rendering of a byte sequence, two digits per
/// byte, high nibble first.
pub open spec fn hex_of(s: Seq<u8>) -> Seq<char>
    decreases s.len(),
{
    if s.len() == 0 {
        Seq::empty()
    } else {
        hex_of(s.drop_last()).push(hex_digit((s.last() / 16) as int)).push(hex_digit((s.last() % 16) as int))
    }
}

/// The content fingerprint: hexadecimal SHA-1 of the given bytes.
/// `None` only when the digest call itself failed.
pub fn sha1_hex(data: &[u8]) -> (r: Option<String>)
    ensures
        r matches Some(s) ==> s@ == hex_of(sha1_of(data@)),
{
    let digest = match sha1(data) {
        Some(d) => d,
        None => {
            return None;
        },
    };
    let ghost full: Seq<u8> = sha1_of(data@);
    let mut s = String::new();
    let mut i: usize = 0;
    while i < digest.len()
        invariant
            i <= digest.len(),
            digest@ == full,
            s@ == hex_of(full.take(i as int)),
        decreases digest.len() - i,
    {
        let b = digest[i];
        push_hex_digit(&mut s, b / 16);
        push_hex_digit(&mut s, b % 16);
        proof {
            let t = full.take(i + 1 as int);
            assert(t.drop_last() =~= full.take(i as int));
            assert(t.last() == full[i as int]);
        }
        i += 1;
    }
    proof {
        assert(full.take(digest.len() as int) =~= full);
    }
    Some(s)
}

/// Hexadecimal rendering doubles the length.
pub proof fn lemma_hex_of_len(s: Seq<u8>)
    ensures
        hex_of(s).len() == 2 * s.len(),
    decreases s.len(),
{
    if s.len() > 0 {
        lemma_hex_of_len(s.drop_last());
    }
}

/// Hexadecimal rendering never confuses two byte sequences.
pub proof fn lemma_hex_of_injective(a: Seq<u8>, b: Seq<u8>)
    requires
        hex_of(a) == hex_of(b),
    ensures
        a == b,
    decreases a.len(),
{
    lemma_hex_of_len(a);
    lemma_hex_of_len(b);
    if a.len() == 0 {
        assert(a =~= b);
    } else {
        assert(forall|x: int, y: int|
            0 <= x < 16 && 0 <= y < 16 && hex_digit(x) == hex_digit(y) ==> x == y);
        let ha = hex_of(a);
        let hb = hex_of(b);
        assert(ha.last() == hex_digit((a.last() % 16) as int));
        assert(ha[ha.len() - 2] == hex_digit((a.last() / 16) as int));
        assert(hb.last() == hex_digit((b.last() % 16) as int));
        assert(hb[hb.len() - 2] == hex_digit((b.last() / 16) as int));
        assert(a.last() == 16 * (a.last() / 16) + a.last() % 16);
        assert(b.last() == 16 * (b.last() / 16) + b.last() % 16);
        assert(a.last() == b.last());
        assert(hex_of(a.drop_last()) =~= ha.take(ha.len() - 2));
        assert(hex_of(b.drop_last()) =~= hb.take(hb.len() - 2));
        lemma_hex_of_injective(a.drop_last(), b.drop_last());
        assert(a =~= b.drop_last().push(b.last()));
        assert(b =~= b.drop_last().push(b.last()));
    }
}

/// Two certificates' fingerprints coincide exactly when their content
/// digests coincide: recomputing the fingerprint of the same bytes always
/// yields the same text, and certificates whose digests differ are told
/// apart by their fingerprints.
pub proof fn lemma_fingerprint_eq_iff_digest_eq(a: Seq<u8>, b: Seq<u8>)
    ensures
        (hex_of(sha1_of(a)) == hex_of(sha1_of(b))) <==> (sha1_of(a) == sha1_of(b)),
{
    if hex_of(sha1_of(a)) == hex_of(sha1_of(b)) {
        lemma_hex_of_injective(sha1_of(a), sha1_of(b));
    }
}

/// Relies on openssl's `X509::from_pem`, `X509Ref::not_after`,
/// `Asn1Time::days_from_now` and `Asn1TimeRef::diff`: parses a PEM
/// certificate and returns the (days, seconds) span from now to its
/// `notAfter` time; `None` when parsing or the comparison fails.  The value
/// depends on the clock, so nothing is assumed about it.
#[verifier::external_body]
fn pem_expiry_diff(pem: &[u8]) -> (d: Option<(i32, i32)>)
{
    let cert = match openssl::x509::X509::from_pem(pem) {
        Ok(c) => c,
        Err(_) => return None,
    };
    let now = match openssl::asn1::Asn1Time::days_from_now(0) {
        Ok(t) => t,
        Err(_) => return None,
    };
    match now.diff(cert.not_after()) {
        Ok(d) => Some((d.days, d.secs)),
        Err(_) => None,
    }
}

/// Seconds from now until expiry, from a (days, seconds) span.
pub open spec fn remaining_secs(d: (i32, i32)) -> int {
    d.0 * 86400 + d.1
}

/// The certificate status a measured expiry span dictates, with the renewal
/// fingerprint when the certificate is expired.  An unparsable certificate
/// is `ERR`; so is an expired one whose digest cannot be computed.
pub fn status_from_diff(diff: Option<(i32, i32)>, pem: &[u8]) -> (r: (CertStatus, Option<String>))
    ensures
        diff is None ==> r.0 == CertStatus::ERR,
        diff matches Some(d) && remaining_secs(d) > 0 ==> r.0 == CertStatus::OK,
        diff matches Some(d) && remaining_secs(d) <= 0 ==> r.0 == CertStatus::EXPIRED || r.0
            == CertStatus::ERR,
        r.1 matches Some(f) ==> f@ == hex_of(sha1_of(pem@)),
        (r.1 is Some) == (r.0 == CertStatus::EXPIRED),
{
    match diff {
        Option::None => (CertStatus::ERR, Option::None),
        Option::Some(d) => {
            let total: i64 = (d.0 as i64) * 86400 + (d.1 as i64);
            if total <= 0 {
                match sha1_hex(pem) {
                    Option::Some(f) => (CertStatus::EXPIRED, Option::Some(f)),
                    Option::None => (CertStatus::ERR, Option::None),
                }
            } else {
                (CertStatus::OK, Option::None)
            }
        },
    }
}

/// The certificate check: `pem` is the certificate file's contents, `None`
/// when no such file exists.  Returns the status and, for an expired
/// certificate, the fingerprint the server replaces it by.
pub fn check(pem: Option<&Vec<u8>>) -> (r: (CertStatus, Option<String>))
    ensures
        (pem is None) == (r.0 == CertStatus::NOCERT),
        pem matches Some(p) ==> (r.1 matches Some(f) ==> f@ == hex_of(sha1_of(p@))),
        (r.1 is Some) == (r.0 == CertStatus::EXPIRED),
{
    match pem {
        Option::None => (CertStatus::NOCERT, Option::None),
        Option::Some(p) => {
            let diff = pem_expiry_diff(p.as_slice());
            status_from_diff(diff, p.as_slice())
        },
    }
}

/// The form fields of a certificate-issuance request: the account
/// credentials, the PEM-encoded signing request, and, when renewing, the
/// expired certificate's fingerprint under the `dev` key.
pub fn request_form(user: &str, pass: &str, csr: &str, fingerprint: Option<&str>) -> (r: Vec<
    (String, String),
>)
    ensures
        r@.len() == if fingerprint is Some {
            4int
        } else {
            3int
        },
        r@[0].0@ == "uname"@ && r@[0].1@ == user@,
        r@[1].0@ == "pass"@ && r@[1].1@ == pass@,
        r@[2].0@ == "csr"@ && r@[2].1@ == csr@,
        fingerprint matches Some(f) ==> r@[3].0@ == "dev"@ && r@[3].1@ == f@,
{
    let mut r: Vec<(String, String)> = Vec::new();
    r.push((String::from_str("uname"), String::from_str(user)));
    r.push((String::from_str("pass"), String::from_str(pass)));
    r.push((String::from_str("csr"), String::from_str(csr)));
    match fingerprint {
        Option::Some(f) => {
            r.push((String::from_str("dev"), String::from_str(f)));
        },
        Option::None => {},
    }
    r
}

} // verus!
