use chachamir::reconcile::ThresholdPolicy;
use chachamir::signing::SigningIdentity;
use chachamir::text::{
    absolute_path, hex_id, parse_threshold, policy_from_reply, share_file_name,
    share_number_text, stringify_path, strip_newline,
};

#[test]
fn a_line_ending_is_stripped_once() {
    assert_eq!(strip_newline("7\n"), "7");
    assert_eq!(strip_newline("7\r\n"), "7");
    assert_eq!(strip_newline("7"), "7");
    assert_eq!(strip_newline(""), "");
    assert_eq!(strip_newline("\n"), "");
    assert_eq!(strip_newline("\r\n"), "");
    assert_eq!(strip_newline("7\n\n"), "7\n");
    assert_eq!(strip_newline("7\r"), "7\r");
    assert_eq!(strip_newline("7\n\r"), "7\n\r");
    assert_eq!(strip_newline("\r\r\n"), "\r");
    assert_eq!(strip_newline("a b \n"), "a b ");
    assert_eq!(strip_newline("größe\r\n"), "größe");
}

#[test]
fn the_absolute_path_is_the_path_or_the_joined_one() {
    assert_eq!(absolute_path("/x", true, "/cwd//x"), "/x");
    assert_eq!(absolute_path("x", false, "/cwd/x"), "/cwd/x");
}

#[test]
fn paths_are_shown_absolute_and_clean() {
    if std::path::Path::new("/").is_absolute() {
        assert_eq!(stringify_path("/a/b/../c/./d", "/home"), "/a/c/d");
        assert_eq!(stringify_path("shares/../x.ccm", "/home/me"), "/home/me/x.ccm");
        assert_eq!(stringify_path(".", "/home/me/"), "/home/me");
    }
}

#[test]
fn thresholds_are_read_like_numbers() {
    assert_eq!(parse_threshold("5"), Some(5));
    assert_eq!(parse_threshold("+5"), Some(5));
    assert_eq!(parse_threshold("0"), Some(0));
    assert_eq!(parse_threshold("255"), Some(255));
    assert_eq!(parse_threshold("256"), None);
    assert_eq!(parse_threshold("007"), Some(7));
    assert_eq!(parse_threshold("000000000000000000000000255"), Some(255));
    assert_eq!(parse_threshold("99999999999999999999999"), None);
    assert_eq!(parse_threshold(""), None);
    assert_eq!(parse_threshold("+"), None);
    assert_eq!(parse_threshold("++5"), None);
    assert_eq!(parse_threshold("-1"), None);
    assert_eq!(parse_threshold("-0"), None);
    assert_eq!(parse_threshold(" 5"), None);
    assert_eq!(parse_threshold("5 "), None);
    assert_eq!(parse_threshold("5\n"), None);
    assert_eq!(parse_threshold("1e1"), None);
    assert_eq!(parse_threshold("0x10"), None);
    assert_eq!(parse_threshold("three"), None);
    assert_eq!(parse_threshold("\u{0663}"), None);
    assert_eq!(parse_threshold("2560"), None);
    assert_eq!(parse_threshold("25a"), None);
}

#[test]
fn thresholds_are_read_as_the_standard_library_reads_them() {
    let samples = [
        "", "+", "-", "0", "+0", "-0", "1", "9", "10", "99", "100", "199", "200", "249", "250",
        "255", "256", "260", "300", "999", "1000", "0255", "00256", "+255", "+256", "+-1", "1+",
        "1 ", " 1", "१", "1.0", "٣", "a", "2a", "a2", "/", ":", "25:", "2/5",
    ];
    for sample in samples {
        assert_eq!(parse_threshold(sample), sample.parse::<u8>().ok(), "{:?}", sample);
    }
    for n in 0..=300u32 {
        let text = n.to_string();
        assert_eq!(parse_threshold(&text), text.parse::<u8>().ok());
    }
}

#[test]
fn a_reply_is_a_policy() {
    assert_eq!(policy_from_reply("\n"), ThresholdPolicy::UseFile);
    assert_eq!(policy_from_reply("\r\n"), ThresholdPolicy::UseFile);
    assert_eq!(policy_from_reply(""), ThresholdPolicy::UseFile);
    assert_eq!(policy_from_reply("4\n"), ThresholdPolicy::Override(4));
    assert_eq!(policy_from_reply("4\r\n"), ThresholdPolicy::Override(4));
    assert_eq!(policy_from_reply("255"), ThresholdPolicy::Override(255));
    assert_eq!(policy_from_reply("0\n"), ThresholdPolicy::Override(0));
    assert_eq!(policy_from_reply("256\n"), ThresholdPolicy::Abort);
    assert_eq!(policy_from_reply("yes\n"), ThresholdPolicy::Abort);
    assert_eq!(policy_from_reply("\n\n"), ThresholdPolicy::Abort);
    assert_eq!(policy_from_reply(" \n"), ThresholdPolicy::Abort);
    assert_eq!(policy_from_reply("4 \n"), ThresholdPolicy::Abort);
}

#[test]
fn a_nonce_names_its_set_in_hexadecimal() {
    assert_eq!(hex_id(&[]), "");
    assert_eq!(hex_id(&[0x00, 0xff, 0x1a, 0xa1, 0x09, 0x90]), "00ff1aa10990");
    let nonce: Vec<u8> = (0..12u8).map(|i| i * 21 + 3).collect();
    assert_eq!(hex_id(&nonce), hex::encode(&nonce));
    assert_eq!(hex_id(&nonce).len(), 24);
    let all: Vec<u8> = (0..=255u8).collect();
    assert_eq!(hex_id(&all), hex::encode(&all));
}

#[test]
fn share_numbers_in_base_ten() {
    assert_eq!(share_number_text(0), "0");
    assert_eq!(share_number_text(7), "7");
    assert_eq!(share_number_text(10), "10");
    assert_eq!(share_number_text(99), "99");
    assert_eq!(share_number_text(100), "100");
    assert_eq!(share_number_text(105), "105");
    assert_eq!(share_number_text(255), "255");
    for n in 0..=255u8 {
        assert_eq!(share_number_text(n), n.to_string());
    }
}

#[test]
fn share_files_are_named_by_number_and_nonce() {
    let nonce = [1, 2, 3, 4, 5, 6, 7, 8, 9, 10, 171, 255];
    assert_eq!(share_file_name(1, &nonce), "1-0102030405060708090aabff.ccms");
    assert_eq!(share_file_name(255, &nonce), "255-0102030405060708090aabff.ccms");
}

#[test]
fn an_absolute_path_does_not_depend_on_the_current_directory() {
    if std::path::Path::new("/").is_absolute() {
        assert_eq!(stringify_path("/x/y", "/cwd"), "/x/y");
        assert_eq!(stringify_path("/x/y", "/elsewhere/deep"), "/x/y");
        assert_eq!(stringify_path("/x//y/", "/cwd"), "/x/y");
        assert_eq!(stringify_path("x/y", "/cwd"), "/cwd/x/y");
        assert_eq!(stringify_path("x/y", "/elsewhere/deep"), "/elsewhere/deep/x/y");
        assert_eq!(stringify_path("../y", "/cwd/sub"), "/cwd/y");
        assert_eq!(stringify_path("/..", "/cwd"), "/");
        assert_eq!(stringify_path("", "/cwd"), "/cwd");
    }
}

#[test]
fn a_fresh_identity_is_a_key_pair() {
    let id = SigningIdentity::generate().unwrap();
    let public = id.public_key();
    assert_eq!(public.len(), 32);
    // its public half decodes: it is accepted as the second half of a key pair
    let mut pair = vec![7u8; 32];
    pair.extend_from_slice(&public);
    let again = SigningIdentity::from_keypair_bytes(&pair).unwrap();
    assert_eq!(again.public_key(), public);
}
