use rss_digest::freshrss_fever::Article;
use rss_digest::http::{HttpStatus, Reply, ReplyError};
use rss_digest::json::Json;
use rss_digest::ordering::sort_largest_first;
use rss_digest::text::{
    decimal_string, from_chars, is_white_space, join, leading_digits_exceed, parse_i64, parse_unsigned,
    preview, replace, split, to_chars, trim, trim_end_matches,
};

fn strings(parts: &[&str]) -> Vec<String> {
    parts.iter().map(|s| s.to_string()).collect()
}

#[test]
fn white_space_is_that_of_unicode() {
    for code in 0..0x11_0000u32 {
        if let Some(c) = char::from_u32(code) {
            assert_eq!(is_white_space(c), c.is_whitespace(), "{:x}", code);
        }
    }
}

#[test]
fn trimming_is_that_of_std() {
    for s in ["", " ", "a", " a ", "\t\u{a0}a b\u{2003}\n", "ünï "] {
        assert_eq!(trim(s), s.trim());
    }
    for s in ["", "/", "a", "a/", "a//", "/a/b///"] {
        assert_eq!(trim_end_matches(s, '/'), s.trim_end_matches('/'));
    }
}

#[test]
fn a_preview_counts_characters() {
    assert_eq!(preview("  äöüß  ", 3), "äöü");
    assert_eq!(preview("  ab  ", 3), "ab");
    assert_eq!(preview("ab", 0), "");
}

#[test]
fn characters_make_a_text_again() {
    let chars = to_chars("aäb📰c");
    assert_eq!(chars.len(), 5);
    assert_eq!(from_chars(&chars, 1, 4), "äb📰");
}

#[test]
fn joining_undoes_splitting() {
    for s in ["", ",", "a", "a,b", ",a,,b,", "ä,📰"] {
        let pieces = split(s, ',');
        assert_eq!(pieces, s.split(',').collect::<Vec<_>>());
        assert_eq!(join(&pieces, ","), s);
        assert!(pieces.iter().all(|p| !p.contains(',')));
    }
    assert_eq!(join(&strings(&["a", "", "b"]), "\n\n"), "a\n\n\n\nb");
    assert_eq!(join(&Vec::new(), ", "), "");
}

#[test]
fn replacing_is_that_of_std() {
    for (s, from, to) in [
        ("", "a", "b"),
        ("{x}{x}", "{x}", "y"),
        ("aaa", "aa", "b"),
        ("abc", "x", "y"),
        ("{x}", "{x}", "{x}{x}"),
        ("äöä", "ä", "📰"),
    ] {
        assert_eq!(replace(s, from, to), s.replace(from, to));
    }
}

#[test]
fn numbers_are_read_as_std_reads_them() {
    for s in [
        "", "0", "7", "007", "+7", "-7", "+", "-", "++7", " 7", "7 ", "1_0", "٧",
        "18446744073709551615", "18446744073709551616", "99999999999999999999999",
        "9223372036854775807", "9223372036854775808", "-9223372036854775808",
        "-9223372036854775809", "65535", "65536",
    ] {
        assert_eq!(parse_unsigned(s, u64::MAX), s.parse::<u64>().ok(), "{}", s);
        assert_eq!(
            parse_unsigned(s, 65535),
            s.parse::<u16>().ok().map(|n| n as u64),
            "{}",
            s
        );
        assert_eq!(parse_i64(s), s.parse::<i64>().ok(), "{}", s);
    }
    assert!(leading_digits_exceed("99999999999999999999999", u64::MAX));
    assert!(leading_digits_exceed("+11x", 10));
    assert!(!leading_digits_exceed("10x", 10));
    assert!(!leading_digits_exceed("x11", 10));
    assert!(!leading_digits_exceed("-11", 10));
    assert!(!leading_digits_exceed("", 0));
}

#[test]
fn a_written_number_reads_back() {
    for n in [0, 9, 10, 101, 1_000, u64::MAX] {
        assert_eq!(decimal_string(n), n.to_string());
        assert_eq!(parse_unsigned(&decimal_string(n), u64::MAX), Some(n));
    }
}

fn article(id: u64, published: i64) -> Article {
    Article {
        id,
        title: String::new(),
        author: None,
        content: String::new(),
        url: String::new(),
        feed_title: String::new(),
        feed_url: None,
        language: None,
        published,
    }
}

#[test]
fn sorting_is_stable() {
    let sorted = sort_largest_first(vec![
        article(1, 5),
        article(2, 9),
        article(3, 5),
        article(4, -1),
        article(5, 9),
    ]);
    let ids: Vec<u64> = sorted.iter().map(|a| a.id).collect();
    assert_eq!(ids, vec![2, 5, 1, 3, 4]);
    let again: Vec<u64> = sort_largest_first(sorted).iter().map(|a| a.id).collect();
    assert_eq!(again, ids);
}

#[test]
fn documents_are_read_by_member_and_element() {
    let document = Json::object()
        .with("name", Json::text("x"))
        .with("list", Json::list(vec![Json::Int(-3), Json::UInt(4), Json::UInt(u64::MAX)]))
        .with("real", Json::Real(0))
        .with("none", Json::text_or_null(&None))
        .with("some", Json::text_or_null(&Some("y".to_string())));
    assert_eq!(document.get_str("name"), Some("x"));
    assert_eq!(document.get_str("some"), Some("y"));
    assert_eq!(document.get_str("none"), None);
    assert_eq!(document.get_str("missing"), None);
    let list = document.get("list").unwrap();
    assert_eq!(list.as_list().unwrap().len(), 3);
    assert_eq!(list.at(0).unwrap().as_i64(), Some(-3));
    assert_eq!(list.at(1).unwrap().as_i64(), Some(4));
    assert_eq!(list.at(2).unwrap().as_i64(), None);
    assert!(list.at(3).is_none());
    assert!(document.at(0).is_none());
    assert!(document.as_list().is_none());
    assert!(list.get("name").is_none());
    assert_eq!(document.get("real").unwrap().as_i64(), None);
}

fn reply(code: u16, document: Option<Json>) -> Reply {
    Reply {
        status: HttpStatus {
            code,
            text: "status".to_string(),
        },
        body: "body".to_string(),
        document,
    }
}

#[test]
fn a_reply_is_read_by_status_and_document() {
    for code in [200, 204, 299] {
        assert!(reply(code, Some(Json::Null)).read().is_ok());
    }
    for code in [199, 300, 404, 503] {
        match reply(code, Some(Json::Null)).read() {
            Err(ReplyError::Status { status, body }) => {
                assert_eq!(status, "status");
                assert_eq!(body, "body");
            }
            other => panic!("{:?}", other),
        }
    }
    let error = reply(200, None).read().unwrap_err();
    assert!(matches!(error, ReplyError::NotJson));
    assert_eq!(error.message("Service", "format"), "error decoding response body");
    assert_eq!(ReplyError::Format.message("Service", "format"), "format");
    let status = ReplyError::Status {
        status: "404 Not Found".to_string(),
        body: "gone".to_string(),
    };
    assert_eq!(
        status.message("Service", "format"),
        "Service error: 404 Not Found - gone"
    );
}
