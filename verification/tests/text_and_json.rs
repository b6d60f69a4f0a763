use dynamo_llm::clock::{seconds_of, seconds_or_epoch};
use dynamo_llm::ids::{new_id, new_prefixed_id};
use dynamo_llm::json::{find_text, JsonMember, JsonNumber, JsonValue};
use dynamo_llm::text::{
    ascii_lower_is, has_prefix, is_blank, is_white_space, parse_unsigned, split_lines, text_eq,
    text_less, trim,
};
use dynamo_llm::time::{Duration, Instant};

#[test]
fn white_space_is_what_the_standard_library_takes_for_it() {
    for u in 0..=0x10ffffu32 {
        if let Some(c) = char::from_u32(u) {
            assert_eq!(is_white_space(c), c.is_whitespace());
        }
    }
}

#[test]
fn text_helpers_agree_with_the_standard_library() {
    let samples = [
        "", " ", "a", " a ", "\u{2003}é x\u{85}", "a\nb", "a\r\nb\r\n", "\n\n", "a\r", "\r\n",
        "true", "TRUE", "42", "+42", "-1", "+", "18446744073709551615", "18446744073709551616",
        "007", "4 2", "日本", "日本語",
    ];
    for s in samples {
        assert_eq!(trim(s), s.trim());
        assert_eq!(is_blank(s), s.trim().is_empty());
        assert_eq!(split_lines(s), s.lines().collect::<Vec<_>>());
        assert_eq!(parse_unsigned(s, u64::MAX), s.parse::<u64>().ok());
        assert_eq!(ascii_lower_is(s, "true"), s.to_ascii_lowercase() == "true");
        for t in samples {
            assert_eq!(text_eq(s, t), s == t);
            assert_eq!(text_less(s, t), s < t);
            assert_eq!(has_prefix(s, t), s.starts_with(t));
        }
    }
}

#[test]
fn durations() {
    assert_eq!(Duration::new(1, 999_999_999).as_secs(), 1);
    assert_eq!(Duration::new(1, 5).subsec_nanos(), 5);
    assert_eq!(Duration::from_millis(1500).as_millis(), 1500);
    assert!(Duration::from_secs(1).at_least(Duration::from_millis(1000)));
    assert_eq!(
        Duration::from_secs(2).min(Duration::from_secs(1)),
        Duration::from_secs(1)
    );
    let early = Instant { nanos: 5 };
    let late = Instant { nanos: 3_000_004 };
    assert_eq!(late.millis_since(early), 2);
    assert_eq!(early.millis_since(late), 0);
}

#[test]
fn json_values() {
    let members = vec![
        JsonMember {
            name: "a".to_string(),
            value: JsonValue::String("x".to_string()),
        },
        JsonMember {
            name: "b".to_string(),
            value: JsonValue::Array(vec![
                JsonValue::Null,
                JsonValue::Bool(true),
                JsonValue::Number(JsonNumber::NegInt(-3)),
            ]),
        },
        JsonMember {
            name: "a".to_string(),
            value: JsonValue::Null,
        },
    ];
    assert_eq!(find_text(&members, "a"), Some("x"));
    assert_eq!(find_text(&members, "b"), None);
    assert_eq!(find_text(&members, "c"), None);
    let value = JsonValue::Object(members);
    assert_eq!(value.duplicate(), value);
    assert_eq!(value.get("a").and_then(|v| v.as_str()), Some("x"));
    assert!(value.get("z").is_none());
    assert!(JsonValue::Null.get("a").is_none());
    assert!(value.as_str().is_none());
}

#[test]
fn identifiers_and_times() {
    assert!(new_prefixed_id("x_").starts_with("x_"));
    assert_eq!(new_prefixed_id("").len(), 32);
    assert_eq!(new_id().len(), 36);
    assert_eq!(seconds_or_epoch(Some(5)), 5);
    assert_eq!(seconds_or_epoch(None), 0);
}

#[test]
fn a_span_since_the_epoch_is_read_in_whole_seconds() {
    let epoch = std::time::UNIX_EPOCH;
    let later = epoch + std::time::Duration::new(5, 999_999_999);
    let own = |span: std::time::Duration| Duration::new(span.as_secs(), span.subsec_nanos());
    assert_eq!(seconds_of(later.duration_since(epoch).map(own)), Some(5));
    assert_eq!(seconds_of(epoch.duration_since(epoch).map(own)), Some(0));
    assert_eq!(seconds_of(epoch.duration_since(later).map(own)), None);
    assert_eq!(seconds_of(Ok(Duration::new(u64::MAX, 0))), Some(u64::MAX));
}
