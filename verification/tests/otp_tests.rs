use fundverse::otp::{code_matches_exec, issue, verify, OtpVerifier};

#[test]
fn issued_code_verifies_exactly_once() {
    let mut otp = OtpVerifier::new();
    let email = "a@x.com".to_string();
    let code = issue(&mut otp, &email);
    let submitted = format!("{}", code);
    assert!(verify(&mut otp, &email, &submitted));
    // the entry was consumed: the very same submission now fails
    assert!(!verify(&mut otp, &email, &submitted));
}

#[test]
fn failed_attempt_also_consumes_the_code() {
    let mut otp = OtpVerifier::new();
    let email = "a@x.com".to_string();
    let code = issue(&mut otp, &email);
    let wrong = format!("{}", code + 1);
    assert!(!verify(&mut otp, &email, &wrong));
    // even the right code fails now: the attempt removed the entry
    let right = format!("{}", code);
    assert!(!verify(&mut otp, &email, &right));
}

#[test]
fn reissue_overwrites_the_old_code() {
    let mut otp = OtpVerifier::new();
    let email = "a@x.com".to_string();
    let first = issue(&mut otp, &email);
    let second = issue(&mut otp, &email);
    if first != second {
        // the first code was overwritten and no longer verifies; its
        // failed attempt consumes the entry, so the second fails after it
        assert!(!verify(&mut otp, &email, &format!("{}", first)));
        assert!(!verify(&mut otp, &email, &format!("{}", second)));
    } else {
        assert!(verify(&mut otp, &email, &format!("{}", second)));
    }
}

#[test]
fn codes_are_independent_per_email() {
    let mut otp = OtpVerifier::new();
    let a = "a@x.com".to_string();
    let b = "b@x.com".to_string();
    issue(&mut otp, &a);
    let code_b = issue(&mut otp, &b);
    // consuming a's entry leaves b's outstanding
    assert!(!verify(&mut otp, &a, &"000000".to_string()));
    assert!(verify(&mut otp, &b, &format!("{}", code_b)));
}

#[test]
fn issued_codes_are_six_digits() {
    let mut otp = OtpVerifier::new();
    for i in 0..50 {
        let email = format!("user{}@x.com", i);
        let code = issue(&mut otp, &email);
        assert!((100000..=999998).contains(&code));
        assert_eq!(format!("{}", code).len(), 6);
    }
}

#[test]
fn code_matching_trims_whitespace() {
    assert!(code_matches_exec(123456, "123456"));
    assert!(code_matches_exec(123456, "  123456"));
    assert!(code_matches_exec(123456, "123456  "));
    assert!(code_matches_exec(123456, "\t 123456 \r\n"));
    assert!(code_matches_exec(100000, " 100000 "));
}

#[test]
fn code_matching_trims_unicode_whitespace() {
    // no-break space, ideographic space, line separator, narrow no-break
    // space: all of the Unicode white-space set is trimmed
    assert!(code_matches_exec(123456, "\u{00A0}123456\u{00A0}"));
    assert!(code_matches_exec(123456, "\u{3000}123456"));
    assert!(code_matches_exec(123456, "123456\u{2028}"));
    assert!(code_matches_exec(123456, "\u{202F}\u{2009}123456\u{0085}"));
    // but a non-whitespace character is not
    assert!(!code_matches_exec(123456, "x123456"));
    assert!(!code_matches_exec(123456, "\u{200B}123456"));
}

#[test]
fn code_matching_rejects_mismatches() {
    assert!(!code_matches_exec(123456, "123457"));
    assert!(!code_matches_exec(123456, "12345"));
    assert!(!code_matches_exec(123456, "1234567"));
    assert!(!code_matches_exec(123456, ""));
    assert!(!code_matches_exec(123456, "   "));
    assert!(!code_matches_exec(123456, "123 456"));
    // a leading zero is not the stored six-digit form
    assert!(!code_matches_exec(123456, "0123456"));
}
