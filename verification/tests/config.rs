use ya_world_time::config::{
    parse_config, Config, ConfigParseError, DEFAULT_MAX_AT_ONCE, DEFAULT_MAX_TIMEOUT_MS,
    DEFAULT_MAX_TOTAL,
};
use ya_world_time::hosts::{default_hosts, is_whitespace_char, parse_hosts, HOST_SEPARATOR};
use ya_world_time::text::{parse_u64, parse_usize};

const DEFAULT_HOSTS: [&str; 9] = [
    "time.google.com",
    "ntp.qix.ca",
    "ntp.nict.jp",
    "pool.ntp.org",
    "time.cloudflare.com",
    "ntp.fizyka.umk.pl",
    "time.apple.com",
    "time.fu-berlin.de",
    "time.facebook.com",
];

#[test]
fn defaults() {
    assert_eq!(DEFAULT_MAX_AT_ONCE, 50);
    assert_eq!(DEFAULT_MAX_TOTAL, 100);
    assert_eq!(DEFAULT_MAX_TIMEOUT_MS, 300);
    assert_eq!(default_hosts(), DEFAULT_HOSTS.to_vec());
    let config = Config::default();
    assert_eq!(config.hosts, DEFAULT_HOSTS.to_vec());
    assert_eq!(config.max_at_once, 50);
    assert_eq!(config.max_total, 100);
    assert_eq!(config.max_timeout_ms, 300);
}

#[test]
fn nothing_configured_gives_the_defaults() {
    let config = parse_config(None, None, None, None).unwrap();
    assert_eq!(config.hosts, DEFAULT_HOSTS.to_vec());
    assert_eq!(config.max_at_once, 50);
    assert_eq!(config.max_total, 100);
    assert_eq!(config.max_timeout_ms, 300);
}

#[test]
fn everything_configured() {
    let config =
        parse_config(Some("7"), Some("+12"), Some("0015"), Some(" a.example ;b.example")).unwrap();
    assert_eq!(config.hosts, vec!["a.example", "b.example"]);
    assert_eq!(config.max_at_once, 7);
    assert_eq!(config.max_total, 12);
    assert_eq!(config.max_timeout_ms, 15);
}

#[test]
fn zero_is_a_number() {
    let config = parse_config(Some("0"), Some("0"), Some("0"), None).unwrap();
    assert_eq!(config.max_at_once, 0);
    assert_eq!(config.max_total, 0);
    assert_eq!(config.max_timeout_ms, 0);
}

#[test]
fn invalid_numbers_are_errors() {
    assert_eq!(
        parse_config(Some("fifty"), None, None, None).unwrap_err(),
        ConfigParseError::MaxAtOnce
    );
    assert_eq!(parse_config(None, Some(""), None, None).unwrap_err(), ConfigParseError::MaxTotal);
    assert_eq!(
        parse_config(None, None, Some("-1"), None).unwrap_err(),
        ConfigParseError::MaxTimeout
    );
    assert_eq!(
        parse_config(None, None, Some("18446744073709551616"), None).unwrap_err(),
        ConfigParseError::MaxTimeout
    );
    assert_eq!(
        parse_config(Some(" 5"), Some("x"), Some("y"), None).unwrap_err(),
        ConfigParseError::MaxAtOnce
    );
    assert_eq!(
        parse_config(Some("5"), Some("x"), Some("y"), None).unwrap_err(),
        ConfigParseError::MaxTotal
    );
}

#[test]
fn numbers_are_read_as_the_standard_library_reads_them() {
    let texts = [
        "", "+", "-", "0", "00", "+0", "-0", "1", "+1", "++1", "+-1", "1+", "12a", "a12", " 12",
        "12 ", "1 2", "1_000", "0x10", "1e3", "1.0", "٣", "１２", "18446744073709551615",
        "18446744073709551616", "+18446744073709551615", "00018446744073709551615",
        "99999999999999999999999999", "184467440737095516150", "4294967295", "4294967296",
        "9223372036854775807", "9223372036854775808", "\u{0}", "5\n",
    ];
    for text in texts.iter() {
        assert_eq!(parse_u64(text), text.parse::<u64>().ok(), "u64 of {:?}", text);
        assert_eq!(parse_usize(text), text.parse::<usize>().ok(), "usize of {:?}", text);
    }
    for n in 0..2000u64 {
        assert_eq!(parse_u64(&n.to_string()), Some(n));
        assert_eq!(parse_usize(&format!("+{}", n)), Some(n as usize));
    }
    assert_eq!(parse_u64("18446744073709551615"), Some(u64::MAX));
    assert_eq!(parse_u64("18446744073709551616"), None);
}

#[test]
fn host_list_is_split_and_trimmed() {
    assert_eq!(HOST_SEPARATOR, ';');
    assert_eq!(parse_hosts("a.example;b.example"), vec!["a.example", "b.example"]);
    assert_eq!(parse_hosts("  a.example ;\tb.example\n"), vec!["a.example", "b.example"]);
    assert_eq!(parse_hosts("single"), vec!["single"]);
    assert_eq!(parse_hosts(""), vec![""]);
    assert_eq!(parse_hosts(";"), vec!["", ""]);
    assert_eq!(parse_hosts("a;;b;"), vec!["a", "", "b", ""]);
    assert_eq!(parse_hosts(" ; \u{3000} ;x y"), vec!["", "", "x y"]);
    assert_eq!(parse_hosts("zeit.example;\u{a0}día.example\u{2003}"), vec![
        "zeit.example",
        "día.example"
    ]);
}

#[test]
fn host_list_is_read_as_split_and_trim_read_it() {
    let lists = [
        "", ";", ";;", " ", " ; ", "a", "a;b", "a ; b ;c", ";a;", "  lead;trail  ;  both  ",
        "in ner;\t\r\n;x", "ünï;cödé ;\u{2028}z\u{205f}", "a;b;c;d;e;f;g;h", "\u{1680}\u{85}q",
        "no-separator , here", "tab\tinside;nl\ninside",
    ];
    for list in lists.iter() {
        let expected: Vec<String> = list.split(';').map(|part| part.trim().to_string()).collect();
        assert_eq!(parse_hosts(list), expected, "hosts of {:?}", list);
    }
}

#[test]
fn white_space_is_what_the_standard_library_calls_white_space() {
    for code in 0..=0x10FFFFu32 {
        if let Some(c) = char::from_u32(code) {
            assert_eq!(is_whitespace_char(c), c.is_whitespace(), "U+{:04X}", code);
        }
    }
}
