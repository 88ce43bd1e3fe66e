//! Tests of the framing, scheduling, parsing and certificate logic.

use bufr::cert;
use bufr::conf::Conf;
use bufr::cron::{Cron, LineOutcome, ConfigError};
use bufr::msg;
use bufr::msg::{Msg, Response, Sched, ProtoError};
use bufr::point::Point;
use bufr::text;
use openssl::asn1::Asn1Time;
use openssl::bn::BigNum;
use openssl::ec::{EcGroup, EcKey};
use openssl::hash::MessageDigest;
use openssl::nid::Nid;
use openssl::pkey::PKey;
use openssl::x509::X509Builder;

fn point(min: u8, hour: u8, dom: u8, mon: u8, dow: u8) -> Point {
    Point { min, hour, dom, mon, dow }
}

/// A resolver response body mapping `*` tokens to all-ones and numeric
/// tokens to a single flagged cell, for the schedule `30 2 * * *`.
fn backup_body() -> Vec<u8> {
    let mut body = vec![0u8; 136];
    body[30] = 1; // minute 30
    body[60 + 2] = 1; // hour 2
    for i in 0..32 {
        body[84 + i] = 1;
    }
    for i in 0..13 {
        body[116 + i] = 1;
    }
    for i in 0..7 {
        body[129 + i] = 1;
    }
    body
}

#[test]
fn msg_new_empty() {
    let m = Msg::new(None);
    let w = m.wire_bytes();
    assert_eq!(w.len(), 20);
    assert_eq!(w[0], 0);
    assert_eq!(w[1], 0);
    assert_eq!(w[2], 1);
    assert_eq!(w[3], 0);
}

#[test]
fn msg_new_small_body() {
    let body = vec![7u8; 300];
    let m = Msg::new(Some(&body));
    let w = m.wire_bytes();
    assert_eq!(w.len(), 320);
    assert_eq!(w[0], 44);
    assert_eq!(w[1], 1);
    assert_eq!(&w[20..], &body[..]);
}

#[test]
fn msg_oversize_body_truncated_to_512() {
    let body = vec![9u8; 513];
    let m = Msg::new(Some(&body));
    let w = m.wire_bytes();
    assert_eq!(w.len(), 20 + 512);
    assert_eq!(w[0], 0);
    assert_eq!(w[1], 2);
    assert_eq!(msg::declared_len(&w), 512);
    assert_eq!(&w[20..], &body[..512]);
}

#[test]
fn msg_set_type_and_id() {
    let mut m = Msg::new(None);
    m.set_type(msg::TYPE_HBEAT);
    let id: Vec<u8> = (1..=16).collect();
    m.set_id(&id);
    let w = m.wire_bytes();
    assert_eq!(w[3], 0xa3);
    assert_eq!(&w[4..20], &id[..]);
}

#[test]
fn declared_len_little_endian() {
    let hdr = [0x22u8, 0x01, 1, 0, 0, 0, 0, 0, 0, 0, 0, 0, 0, 0, 0, 0, 0, 0, 0, 0];
    assert_eq!(msg::declared_len(&hdr), 0x122);
}

#[test]
fn response_violation_on_oversize_declared_len() {
    // 513 little-endian: 0x01 0x02
    let mut hdr = [0u8; 20];
    hdr[0] = 0x01;
    hdr[1] = 0x02;
    assert_eq!(msg::classify_response(&hdr), Response::Violation);
    // 512 exactly is still accepted
    hdr[0] = 0x00;
    assert_eq!(msg::classify_response(&hdr), Response::Accepted { len: 512 });
}

#[test]
fn response_application_error_code() {
    let mut hdr = [0u8; 20];
    hdr[0] = 5;
    hdr[4] = 0x52;
    assert_eq!(msg::classify_response(&hdr), Response::Application { len: 5 });
    hdr[4] = 0x51;
    assert_eq!(msg::classify_response(&hdr), Response::Accepted { len: 5 });
}

#[test]
fn report_body_layout() {
    let r = msg::report_body("Backup", "hello");
    let mut want = b"Backup".to_vec();
    want.push(0xa2);
    want.extend_from_slice(b"hello");
    assert_eq!(r, want);
}

#[test]
fn sched_parse_fills_bitmaps() {
    let mut s = Sched::new();
    let body = backup_body();
    assert_eq!(s.parse(&body), Ok(0));
    assert_eq!(s.min[30], 1);
    assert_eq!(s.min[31], 0);
    assert_eq!(s.hour[2], 1);
    assert_eq!(s.hour[3], 0);
    for i in 0..32 {
        assert_eq!(s.dom[i], 1);
    }
    for i in 0..13 {
        assert_eq!(s.mon[i], 1);
    }
    for i in 0..7 {
        assert_eq!(s.dow[i], 1);
    }
}

#[test]
fn sched_parse_normalizes_cells() {
    let mut s = Sched::new();
    let mut body = vec![0u8; 136];
    body[0] = 200;
    assert_eq!(s.parse(&body), Ok(0));
    assert_eq!(s.min[0], 1);
}

#[test]
fn sched_parse_rejects_wrong_length() {
    let mut s = Sched::new();
    let body = vec![0u8; 135];
    assert_eq!(s.parse(&body), Err(ProtoError::Violation));
    let body = vec![0u8; 137];
    assert_eq!(s.parse(&body), Err(ProtoError::Violation));
}

#[test]
fn process_line_skips_empty_and_local() {
    let mut c = Cron::new();
    assert_eq!(c.process_line(b""), Ok(LineOutcome::Skipped));
    assert_eq!(c.process_line(b"@USER alice"), Ok(LineOutcome::Skipped));
    assert_eq!(c.process_line(b"#NAME dev1"), Ok(LineOutcome::ForwardRequested));
}

#[test]
fn process_line_backup_schedule() {
    let mut c = Cron::new();
    let r = c.process_line(b"Backup 30 2 * * * tar czf /bk.tgz /data");
    match r {
        Ok(LineOutcome::NeedSchedule { tokens }) => {
            assert_eq!(&tokens[..], b"30 2 * * * ");
        },
        other => panic!("unexpected outcome {:?}", other),
    }
    assert_eq!(c.alias, "Backup");
    assert_eq!(c.cmd, "tar czf /bk.tgz /data");
    assert!(!c.trigger);
}

#[test]
fn process_line_too_few_tokens() {
    let mut c = Cron::new();
    assert_eq!(c.process_line(b"Backup 30 2 * *"), Err(ConfigError::MissingTokens));
    assert_eq!(c.process_line(b"OnlyAlias"), Err(ConfigError::MissingTokens));
}

#[test]
fn process_line_unknown_schedule_word() {
    let mut c = Cron::new();
    assert_eq!(c.process_line(b"Boot @yearly echo hi"), Err(ConfigError::UnknownSchedule));
}

#[test]
fn process_line_reboot_job() {
    let mut c = Cron::new();
    assert_eq!(c.process_line(b"Boot @reboot echo up"), Ok(LineOutcome::RebootLoaded));
    assert_eq!(c.alias, "Boot");
    assert_eq!(c.cmd, " echo up");
    assert!(c.trigger);
    for i in 0..60 {
        assert_eq!(c.min[i], 0);
    }
}

#[test]
fn reboot_job_fires_exactly_once() {
    let mut c = Cron::new();
    c.process_line(b"Boot @reboot echo up").unwrap();
    let p = point(0, 0, 1, 1, 0);
    assert!(c.check_due(&p));
    assert!(!c.trigger);
    assert!(!c.check_due(&p));
}

#[test]
fn scheduled_due_check() {
    let mut c = Cron::new();
    c.process_line(b"Backup 30 2 * * * tar czf /bk.tgz /data").unwrap();
    let mut s = Sched::new();
    s.parse(&backup_body()).unwrap();
    c.apply_schedule(&s);
    assert!(c.check_due(&point(30, 2, 1, 1, 3)));
    assert!(!c.check_due(&point(31, 2, 1, 1, 3)));
    assert!(!c.check_due(&point(30, 3, 1, 1, 3)));
}

#[test]
fn trigger_overrides_bitmaps_once() {
    let mut c = Cron::new();
    c.process_line(b"Backup 30 2 * * * tar czf /bk.tgz /data").unwrap();
    let mut s = Sched::new();
    s.parse(&backup_body()).unwrap();
    c.apply_schedule(&s);
    c.trigger = true;
    // due despite wrong minute, exactly once
    assert!(c.check_due(&point(31, 2, 1, 1, 3)));
    assert!(!c.check_due(&point(31, 2, 1, 1, 3)));
}

#[test]
fn heartbeat_triggers_matching_aliases_only() {
    let mut crons = Vec::new();
    for line in [
        b"Backup 30 2 * * * tar".as_slice(),
        b"OtherJob 1 1 1 1 1 x".as_slice(),
        b"Third 1 1 1 1 1 x".as_slice(),
    ] {
        let mut c = Cron::new();
        c.process_line(line).unwrap();
        crons.push(c);
    }
    msg::apply_triggers(&mut crons, b"Backup OtherJob");
    assert!(crons[0].trigger);
    assert!(crons[1].trigger);
    assert!(!crons[2].trigger);
}

#[test]
fn heartbeat_unknown_alias_has_no_effect() {
    let mut c = Cron::new();
    c.process_line(b"Backup 30 2 * * * tar").unwrap();
    let mut crons = vec![c];
    msg::apply_triggers(&mut crons, b"Nobody KnownNot");
    assert!(!crons[0].trigger);
    // a substring of a token is not a token
    msg::apply_triggers(&mut crons, b"BackupX");
    assert!(!crons[0].trigger);
    msg::apply_triggers(&mut crons, b"say Backup now");
    assert!(crons[0].trigger);
}

#[test]
fn contains_token_splits_on_whitespace() {
    assert!(msg::contains_token(b"a bb\tccc", b"bb"));
    assert!(msg::contains_token(b"a bb\tccc", b"ccc"));
    assert!(!msg::contains_token(b"a bb\tccc", b"cc"));
    assert!(!msg::contains_token(b"", b"a"));
    assert!(!msg::contains_token(b"abc", b""));
}

#[test]
fn sha1_hex_known_value() {
    assert_eq!(cert::sha1_hex(b"").unwrap(), "da39a3ee5e6b4b0d3255bfef95601890afd80709");
    assert_eq!(cert::sha1_hex(b"abc").unwrap(), "a9993e364706816aba3e25717850c26c9cd0d89d");
}

#[test]
fn fingerprint_deterministic_and_distinguishing() {
    let a = cert::sha1_hex(b"cert one contents").unwrap();
    let b = cert::sha1_hex(b"cert one contents").unwrap();
    let c = cert::sha1_hex(b"cert two contents").unwrap();
    assert_eq!(a, b);
    assert_ne!(a, c);
}

#[test]
fn cert_check_missing_file() {
    let (status, fp) = cert::check(None);
    assert_eq!(status, cert::CertStatus::NOCERT);
    assert!(fp.is_none());
}

#[test]
fn cert_status_from_diff() {
    let pem = b"not really a pem".to_vec();
    let (status, fp) = cert::status_from_diff(None, &pem);
    assert_eq!(status, cert::CertStatus::ERR);
    assert!(fp.is_none());
    let (status, fp) = cert::status_from_diff(Some((1, 0)), &pem);
    assert_eq!(status, cert::CertStatus::OK);
    assert!(fp.is_none());
    let (status, fp) = cert::status_from_diff(Some((0, -5)), &pem);
    assert_eq!(status, cert::CertStatus::EXPIRED);
    assert_eq!(fp.unwrap(), cert::sha1_hex(&pem).unwrap());
    // a negative day span with a positive second remainder is still expired
    let (status, _) = cert::status_from_diff(Some((-1, 3600)), &pem);
    assert_eq!(status, cert::CertStatus::EXPIRED);
}

fn self_signed_pem(days: u32, serial: u32) -> Vec<u8> {
    let group = EcGroup::from_curve_name(Nid::X9_62_PRIME256V1).unwrap();
    let key = EcKey::generate(&group).unwrap();
    let pkey = PKey::from_ec_key(key).unwrap();
    let mut b = X509Builder::new().unwrap();
    b.set_not_before(&Asn1Time::days_from_now(0).unwrap()).unwrap();
    b.set_not_after(&Asn1Time::days_from_now(days).unwrap()).unwrap();
    b.set_serial_number(&BigNum::from_u32(serial).unwrap().to_asn1_integer().unwrap())
        .unwrap();
    b.set_pubkey(&pkey).unwrap();
    b.sign(&pkey, MessageDigest::sha256()).unwrap();
    b.build().to_pem().unwrap()
}

#[test]
fn cert_check_valid_certificate() {
    let pem = self_signed_pem(30, 1);
    let (status, fp) = cert::check(Some(&pem));
    assert_eq!(status, cert::CertStatus::OK);
    assert!(fp.is_none());
}

#[test]
fn cert_check_expired_certificate() {
    let pem = self_signed_pem(0, 2);
    let (status, fp) = cert::check(Some(&pem));
    assert_eq!(status, cert::CertStatus::EXPIRED);
    assert_eq!(fp.unwrap(), cert::sha1_hex(&pem).unwrap());
}

#[test]
fn cert_check_unreadable_certificate() {
    let pem = b"garbage".to_vec();
    let (status, fp) = cert::check(Some(&pem));
    assert_eq!(status, cert::CertStatus::ERR);
    assert!(fp.is_none());
}

#[test]
fn expired_fingerprints_differ_for_different_contents() {
    let p1 = self_signed_pem(0, 3);
    let p2 = self_signed_pem(0, 4);
    assert_ne!(p1, p2);
    let (s1, f1) = cert::check(Some(&p1));
    let (s2, f2) = cert::check(Some(&p2));
    assert_eq!(s1, cert::CertStatus::EXPIRED);
    assert_eq!(s2, cert::CertStatus::EXPIRED);
    assert_ne!(f1.unwrap(), f2.unwrap());
}

#[test]
fn request_form_fields() {
    let r = cert::request_form("alice", "s3cret", "CSRPEM", None);
    assert_eq!(r.len(), 3);
    assert_eq!(r[0], ("uname".to_string(), "alice".to_string()));
    assert_eq!(r[1], ("pass".to_string(), "s3cret".to_string()));
    assert_eq!(r[2], ("csr".to_string(), "CSRPEM".to_string()));
    let r = cert::request_form("alice", "s3cret", "CSRPEM", Some("ff00"));
    assert_eq!(r.len(), 4);
    assert_eq!(r[3], ("dev".to_string(), "ff00".to_string()));
}

#[test]
fn conf_apply_and_complete() {
    let mut c = Conf::new();
    assert!(!c.complete());
    assert_eq!(c.apply_line(b"TestCmd * * * * * date"), Ok(()));
    assert_eq!(c.apply_line(b"@USER alice"), Ok(()));
    assert!(!c.complete());
    assert_eq!(c.apply_line(b"@PASS deadbeef"), Ok(()));
    assert!(c.complete());
    assert_eq!(c.user, "alice");
    assert_eq!(c.pass, "deadbeef");
    assert_eq!(c.apply_line(b"@NAME dev"), Err(ConfigError::UnknownDirective));
    assert_eq!(c.apply_line(b"@USER"), Err(ConfigError::MissingTokens));
    // errors leave the fields untouched
    assert_eq!(c.user, "alice");
}

#[test]
fn conf_to_string_layout() {
    let mut c = Conf::new();
    assert!(c.to_string().is_none());
    c.user = "alice".to_string();
    c.pass = "deadbeef".to_string();
    assert!(c.to_string().is_none());
    c.name = "dev1".to_string();
    assert_eq!(
        c.to_string().unwrap(),
        "@USER alice\n@PASS deadbeef\n#NAME dev1\nTestCmd * * * * * date\nHelloCmd */2 * * * * echo Hello World!\n"
    );
}

#[test]
fn timestamp_rendering() {
    let p = point(30, 2, 1, 1, 3);
    assert_eq!(p.timestamp(), "Wed Jan 1 02:30");
    let p = point(5, 23, 31, 12, 6);
    assert_eq!(p.timestamp(), "Sat Dec 31 23:05");
    let p = point(0, 0, 9, 2, 0);
    assert_eq!(p.timestamp(), "Sun Feb 9 00:00");
}

#[test]
fn stamped_output_layout() {
    let p = point(30, 2, 1, 1, 3);
    assert_eq!(bufr::cron::stamped_output(&p, "done\n"), "[Wed Jan 1 02:30]\ndone\n");
}

#[test]
fn point_now_in_ranges() {
    let p = Point::now();
    assert!(p.min < 60);
    assert!(p.hour < 24);
    assert!((1..=31).contains(&p.dom));
    assert!((1..=12).contains(&p.mon));
    assert!(p.dow < 7);
    assert!(Point::get_secs() < 60);
}

#[test]
fn bytes_and_text_helpers() {
    assert!(text::bytes_eq(b"abc", b"abc"));
    assert!(!text::bytes_eq(b"abc", b"abd"));
    assert!(!text::bytes_eq(b"abc", b"ab"));
    assert_eq!(text::utf8_string(b"hello").unwrap(), "hello");
    assert!(text::utf8_string(&[0xff, 0xfe]).is_none());
}

#[test]
fn process_line_rejects_bad_utf8_alias() {
    let mut c = Cron::new();
    let mut line = vec![0xffu8, 0xfe];
    line.extend_from_slice(b" 1 2 3 4 5 cmd");
    assert_eq!(c.process_line(&line), Err(ConfigError::BadText));
    assert_eq!(c.alias, "");
}
