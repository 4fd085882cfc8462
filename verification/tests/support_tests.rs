use xiaoshi::config::{
    default_cleanup_days, default_evaluation_enabled, default_evaluation_prompt, default_lists,
    default_max_tool_iterations, default_prompt, McpConfig, VectorIndexConfig,
};
use xiaoshi::prompt::{format_time, PromptTemplate};
use xiaoshi::retention::RetentionDuration;
use xiaoshi::evaluation::parse_evaluation_score;
use xiaoshi::text::{contains_str, ends_with_str, i64_to_string, parse_i32, replace_str, starts_with_str, str_eq, trim_str, u64_to_string};

#[test]
fn test_build_simple_system_prompt() {
    let character = "你是一个友好的AI助手。";
    let prompt = PromptTemplate::build_simple_system_prompt(character);

    assert!(prompt.contains("当前时间"));
    assert!(prompt.contains(character));
}

#[test]
fn test_format_time_epoch() {
    assert_eq!(format_time(0), "1970-01-01 00:00:00");
}

#[test]
fn test_format_time_known_instants() {
    // leap year day
    assert_eq!(format_time(951826154), "2000-02-29 12:09:14");
    // an ordinary recent second
    assert_eq!(format_time(1760227200), "2025-10-12 00:00:00");
    // end of the rendered range
    assert_eq!(format_time(253402300799), "9999-12-31 23:59:59");
    assert_eq!(format_time(253402300800), "时间超出可显示范围");
}

#[test]
fn test_retention_from_score_bands() {
    assert_eq!(RetentionDuration::from_score(0), RetentionDuration::Discard);
    assert_eq!(RetentionDuration::from_score(25), RetentionDuration::Discard);
    assert_eq!(RetentionDuration::from_score(26), RetentionDuration::OneWeek);
    assert_eq!(RetentionDuration::from_score(60), RetentionDuration::OneWeek);
    assert_eq!(RetentionDuration::from_score(61), RetentionDuration::OneMonth);
    assert_eq!(RetentionDuration::from_score(85), RetentionDuration::OneMonth);
    assert_eq!(RetentionDuration::from_score(86), RetentionDuration::Forever);
    assert_eq!(RetentionDuration::from_score(100), RetentionDuration::Forever);
    assert_eq!(RetentionDuration::from_score(101), RetentionDuration::Discard);
    assert_eq!(RetentionDuration::from_score(-1), RetentionDuration::Discard);
}

#[test]
fn test_retention_expiry() {
    let now = 1000u64;
    assert_eq!(RetentionDuration::Discard.calculate_expiry(now), Some(1000));
    assert_eq!(RetentionDuration::OneWeek.calculate_expiry(now), Some(1000 + 604800));
    assert_eq!(RetentionDuration::OneMonth.calculate_expiry(now), Some(1000 + 2592000));
    assert_eq!(RetentionDuration::Forever.calculate_expiry(now), None);
}

#[test]
fn test_retention_labels() {
    assert_eq!(RetentionDuration::Discard.as_str(), "不保存");
    assert_eq!(RetentionDuration::OneWeek.as_str(), "1周");
    assert_eq!(RetentionDuration::OneMonth.as_str(), "1个月");
    assert_eq!(RetentionDuration::Forever.as_str(), "永久");
}

#[test]
fn test_config_defaults() {
    assert_eq!(default_max_tool_iterations(), 10);
    assert_eq!(default_lists(), 100);
    assert_eq!(default_cleanup_days(), 30);
    assert!(default_evaluation_enabled());
    assert_eq!(default_prompt(), "你是一个可爱的虚拟女仆");
    assert!(!default_evaluation_prompt().is_empty());

    let mcp = McpConfig::default();
    assert!(!mcp.enabled);
    assert!(mcp.path.is_empty());
    assert_eq!(mcp.max_tool_iterations, 10);

    let vec_cfg = VectorIndexConfig::default();
    assert_eq!(vec_cfg.lists, 100);
}

#[test]
fn test_integer_rendering() {
    assert_eq!(u64_to_string(0), "0");
    assert_eq!(u64_to_string(18446744073709551615), "18446744073709551615");
    assert_eq!(i64_to_string(0), "0");
    assert_eq!(i64_to_string(-1), "-1");
    assert_eq!(i64_to_string(i64::MIN), "-9223372036854775808");
    assert_eq!(i64_to_string(i64::MAX), "9223372036854775807");
}

#[test]
fn test_text_helpers() {
    assert!(str_eq("同一个", "同一个"));
    assert!(!str_eq("abc", "abd"));
    assert!(contains_str("text/event-stream; charset", "event-stream"));
    assert!(!contains_str("short", "much longer needle"));
    assert!(contains_str("anything", ""));
    assert!(ends_with_str("a/sse", "/sse"));
    assert!(!ends_with_str("sse", "/sse"));
    assert!(starts_with_str("data: x", "data: "));
    assert_eq!(replace_str("/sse/a/sse", "/sse", "/message"), "/message/a/message");
    assert_eq!(replace_str("nothing here", "/sse", "/message"), "nothing here");
}

#[test]
fn test_parse_i32_cases() {
    assert_eq!(parse_i32("0"), Some(0));
    assert_eq!(parse_i32("+7"), Some(7));
    assert_eq!(parse_i32("-5"), Some(-5));
    assert_eq!(parse_i32("2147483647"), Some(i32::MAX));
    assert_eq!(parse_i32("2147483648"), None);
    assert_eq!(parse_i32("-2147483648"), Some(i32::MIN));
    assert_eq!(parse_i32("-2147483649"), None);
    assert_eq!(parse_i32(""), None);
    assert_eq!(parse_i32("-"), None);
    assert_eq!(parse_i32("12a"), None);
    assert_eq!(parse_i32(" 12"), None);
}

#[test]
fn test_trim_str_cases() {
    assert_eq!(trim_str("  hello \t\r\n"), "hello");
    assert_eq!(trim_str("内容"), "内容");
    assert_eq!(trim_str(" \n "), "");
}

#[test]
fn test_parse_evaluation_score_json() {
    assert_eq!(parse_evaluation_score("{\"score\": 75, \"reason\": \"ok\"}"), 75);
    // a fenced reply still has its JSON block between the braces
    assert_eq!(parse_evaluation_score("```json\n{\"score\": 88}\n```"), 88);
    // out-of-band scores are clamped
    assert_eq!(parse_evaluation_score("{\"score\": 1000}"), 100);
    assert_eq!(parse_evaluation_score("{\"score\": -3}"), 0);
}

#[test]
fn test_parse_evaluation_score_fallbacks() {
    // a bare number
    assert_eq!(parse_evaluation_score(" 42 "), 42);
    // a negative number clamps to the bottom of the band
    assert_eq!(parse_evaluation_score("-5"), 0);
    // digits buried in prose
    assert_eq!(parse_evaluation_score("评分为 90 分"), 90);
    assert_eq!(parse_evaluation_score("150"), 100);
    // nothing usable at all
    assert_eq!(parse_evaluation_score("no digits here"), 50);
    assert_eq!(parse_evaluation_score(""), 50);
}
