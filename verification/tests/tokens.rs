use weconn::bridge::{
    answer_upgrade, answer_with_pairs, authorization_value, shows_token, UpgradeAnswer,
};
use weconn::text::{
    chars_of, concat3, decimal_text, find_char, has_char, parse_port, same_text, starts_with_char,
};

fn text(s: &str) -> Option<String> {
    Some(s.to_string())
}

#[test]
fn the_dialing_side_shows_what_the_listening_side_checks() {
    let header = authorization_value("secret");
    assert_eq!(header, "Bearer secret");
    assert_eq!(
        answer_upgrade("/ws", &text("secret"), "/ws", &Some(header), &None),
        UpgradeAnswer::Accept
    );
}

#[test]
fn a_token_can_come_in_the_query() {
    let ask = |query: &str| answer_upgrade("/ws", &text("a b&c"), "/ws", &None, &text(query));
    assert_eq!(ask("token=a%20b%26c"), UpgradeAnswer::Accept);
    assert_eq!(ask("x=1&token=a+b%26c"), UpgradeAnswer::Accept);
    assert_eq!(ask("token=wrong&token=a+b%26c"), UpgradeAnswer::Accept);
    assert_eq!(ask("token=a+b"), UpgradeAnswer::Unauthorized);
    assert_eq!(ask("Token=a+b%26c"), UpgradeAnswer::Unauthorized);
    assert_eq!(ask(""), UpgradeAnswer::Unauthorized);
}

#[test]
fn wrong_and_missing_tokens_are_refused() {
    let ask = |auth: Option<String>| answer_upgrade("/", &text("t"), "/", &auth, &None);
    assert_eq!(ask(None), UpgradeAnswer::Unauthorized);
    assert_eq!(ask(text("t")), UpgradeAnswer::Unauthorized);
    assert_eq!(ask(text("Bearer tt")), UpgradeAnswer::Unauthorized);
    assert_eq!(ask(text("Bearer t")), UpgradeAnswer::Accept);
}

#[test]
fn without_a_token_everybody_is_admitted() {
    assert_eq!(
        answer_upgrade("/p", &None, "/p", &text("anything"), &text("token=x")),
        UpgradeAnswer::Accept
    );
    assert_eq!(answer_upgrade("/p", &None, "/p", &None, &None), UpgradeAnswer::Accept);
}

#[test]
fn other_paths_are_not_served() {
    assert_eq!(
        answer_upgrade("/p", &text("t"), "/q", &text("Bearer t"), &None),
        UpgradeAnswer::NotFound
    );
    assert_eq!(answer_upgrade("/p", &None, "/p/", &None, &None), UpgradeAnswer::NotFound);
}

#[test]
fn pairs_decide() {
    let pairs = vec![("token".to_string(), "t".to_string())];
    assert!(shows_token(&text("t"), &None, &pairs));
    assert!(!shows_token(&text("u"), &None, &pairs));
    assert!(shows_token(&None, &None, &Vec::new()));
    assert_eq!(
        answer_with_pairs("/p", &text("t"), "/p", &None, &pairs),
        UpgradeAnswer::Accept
    );
    assert_eq!(
        answer_with_pairs("/p", &text("u"), "/p", &None, &pairs),
        UpgradeAnswer::Unauthorized
    );
}

#[test]
fn texts_are_compared_and_searched_by_character() {
    assert!(same_text("caf\u{e9}", "caf\u{e9}"));
    assert!(!same_text("a", "b"));
    assert!(!same_text("a", "ab"));
    assert_eq!(chars_of("a\u{e9}b"), vec!['a', '\u{e9}', 'b']);
    assert_eq!(find_char(&chars_of("a:b:c"), ':', 2), 3);
    assert_eq!(find_char(&chars_of("abc"), ':', 0), 3);
    assert!(has_char("::1", ':'));
    assert!(!has_char("", ':'));
    assert!(starts_with_char("[x", '['));
    assert!(!starts_with_char("", '['));
    assert_eq!(concat3("a", "", "c"), "ac");
}

#[test]
fn decimals_are_written_and_read() {
    for n in [0u64, 9, 10, 80, 65535, 65536, u64::MAX] {
        assert_eq!(decimal_text(n), n.to_string());
    }
    for n in 0..=u16::MAX {
        assert_eq!(parse_port(&decimal_text(n as u64)), Some(n));
    }
    assert_eq!(parse_port("00080"), Some(80));
    assert_eq!(parse_port("000000000000000000000065535"), Some(65535));
    for bad in ["", "65536", "99999999999999999999", "-1", "+1", "1 ", "8\u{661}", "0x1"] {
        assert_eq!(parse_port(bad), None);
    }
}
