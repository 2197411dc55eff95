use bomb::patterns::grammar::PatternKind;
use bomb::patterns::{
    datetime, datetime_range, float_patterns, int_range, replace_floats, resolve_after_floats,
    resolve_before_floats, resolve_pass, timestamp, timestamp_range, uuid, FloatPattern,
};
use chrono::Utc;
use rand::Rng;

/// The float step of the resolution, as the application performs it.
fn draw_float(p: &FloatPattern) -> String {
    let min = p.min_text.parse::<f64>().unwrap_or(0.0);
    let max = p.max_text.parse::<f64>().unwrap_or(1.0);
    float_range(min, max, p.precision)
}

fn float_range(min: f64, max: f64, precision: usize) -> String {
    let (actual_min, actual_max) = if min <= max { (min, max) } else { (max, min) };
    let value = rand::rng().random_range(actual_min..=actual_max);
    format!("{:.precision$}", value, precision = precision)
}

/// All seven passes, in order.
fn resolve(input: &str) -> String {
    let before = resolve_before_floats(input);
    let floats = float_patterns(&before);
    let drawn: Vec<String> = floats.iter().map(draw_float).collect();
    let with_floats = replace_floats(&before, &drawn);
    resolve_after_floats(&with_floats)
}

#[test]
fn test_resolve_uuid() {
    let input = "test-<rnd:uuid>-end";
    let result = resolve(input);

    assert!(result.starts_with("test-"));
    assert!(result.ends_with("-end"));
    assert_ne!(result, input);

    let uuid_part = &result[5..41];
    assert_eq!(uuid_part.len(), 36);
    assert_eq!(uuid_part.matches('-').count(), 4);
}

#[test]
fn test_resolve_int_range() {
    let input = "value: <rnd:int[10, 20]>";
    let result = resolve(input);

    assert!(result.starts_with("value: "));
    let value_str = result.strip_prefix("value: ").unwrap();
    let value: i32 = value_str.parse().expect("Should be a valid integer");
    assert!((10..=20).contains(&value));
}

#[test]
fn test_resolve_int_range_reversed() {
    let input = "value: <rnd:int[20, 10]>";
    let result = resolve(input);

    let value_str = result.strip_prefix("value: ").unwrap();
    let value: i32 = value_str.parse().expect("Should be a valid integer");
    assert!(
        (10..=20).contains(&value),
        "Value {} should be between 10 and 20",
        value
    );
}

#[test]
fn test_resolve_float_range() {
    let input = "score: <rnd:float[0.0, 1.0]>";
    let result = resolve(input);

    let value_str = result.strip_prefix("score: ").unwrap();
    let value: f64 = value_str.parse().expect("Should be a valid float");
    assert!((0.0..=1.0).contains(&value));
}

#[test]
fn test_resolve_timestamp_simple() {
    let input = "ts: <rnd:ts>";
    let result = resolve(input);

    let ts_str = result.strip_prefix("ts: ").unwrap();
    let ts: i64 = ts_str.parse().expect("Should be a valid timestamp");

    let now = Utc::now().timestamp();
    let thirty_days_ago = now - (30 * 24 * 60 * 60);
    assert!(ts >= thirty_days_ago && ts <= now);
}

#[test]
fn test_resolve_datetime_simple() {
    let input = "dt: <rnd:datetime>";
    let result = resolve(input);

    assert!(result.starts_with("dt: "));
    let dt_str = result.strip_prefix("dt: ").unwrap();

    assert!(chrono::DateTime::parse_from_rfc3339(dt_str).is_ok());
}

#[test]
fn test_resolve_multiple_patterns() {
    let input =
        r#"{"id": "<rnd:uuid>", "value": <rnd:int[1, 10]>, "score": <rnd:float[0.0, 1.0]>}"#;
    let result = resolve(input);

    let json: serde_json::Value = serde_json::from_str(&result).expect("Should be valid JSON");

    assert!(json["id"].is_string());
    assert!(json["value"].is_number());
    assert!(json["score"].is_number());

    let value = json["value"].as_i64().unwrap();
    assert!((1..=10).contains(&value));

    let score = json["score"].as_f64().unwrap();
    assert!((0.0..=1.0).contains(&score));
}

#[test]
fn test_no_patterns_unchanged() {
    let input = "plain text with no patterns";
    let result = resolve(input);
    assert_eq!(result, input);
}

#[test]
fn test_malformed_patterns_ignored() {
    let input = "test <rnd:invalid> <rnd> <rnd:>";
    let result = resolve(input);
    assert_eq!(result, input);
}

#[test]
fn test_helper_functions() {
    let uuid = uuid();
    assert_eq!(uuid.len(), 36);
    assert_eq!(uuid.matches('-').count(), 4);

    let int_val = int_range(5, 15);
    assert!((5..=15).contains(&int_val));

    let float_val = float_range(0.0, 1.0, 2);
    assert!(float_val.contains('.'));
    let parsed: f64 = float_val.parse().unwrap();
    assert!((0.0..=1.0).contains(&parsed));

    let ts = timestamp();
    let now = Utc::now().timestamp();
    let thirty_days_ago = now - (30 * 24 * 60 * 60);
    assert!(ts >= thirty_days_ago && ts <= now);

    let dt = datetime();
    assert!(chrono::DateTime::parse_from_rfc3339(&dt).is_ok());
}

#[test]
fn range_helpers_accept_bounds_in_either_order() {
    for _ in 0..50 {
        let v = timestamp_range(1_690_000_000, 1_680_000_000);
        assert!((1_680_000_000..=1_690_000_000).contains(&v));
        let v = int_range(-3, -7);
        assert!((-7..=-3).contains(&v));
    }
    assert_eq!(int_range(4, 4), 4);
    assert_eq!(datetime_range(0, 0), "1970-01-01T00:00:00+00:00");
}

#[test]
fn int_pass_allows_whitespace_and_negative_bounds() {
    for _ in 0..50 {
        let out = resolve_pass(PatternKind::IntRange, "<rnd:int[ -5 ,  -1 ]>");
        let v: i64 = out.parse().unwrap();
        assert!((-5..=-1).contains(&v));
    }
    assert_eq!(
        resolve_pass(PatternKind::IntRange, "<rnd:int[1.5, 2]>"),
        "<rnd:int[1.5, 2]>"
    );
    assert_eq!(resolve_pass(PatternKind::IntRange, "x<rnd:int[3,3]>y"), "x3y");
}

#[test]
fn unparsable_int_bounds_fall_back_to_defaults() {
    for _ in 0..50 {
        let out = resolve_pass(PatternKind::IntRange, "<rnd:int[99999999999999999999, 0]>");
        let v: i64 = out.parse().unwrap();
        assert!((0..=0).contains(&v));
        let out = resolve_pass(PatternKind::IntRange, "<rnd:int[5, 99999999999999999999]>");
        let v: i64 = out.parse().unwrap();
        assert!((5..=100).contains(&v));
    }
}

#[test]
fn timestamp_range_pass_keeps_its_bounds() {
    for _ in 0..50 {
        let out = resolve(r#"<rnd:ts[1680000000, 1690000000]>"#);
        let v: i64 = out.parse().unwrap();
        assert!((1_680_000_000..=1_690_000_000).contains(&v));
    }
    assert_eq!(resolve("<rnd:ts[-1, 2]>"), "<rnd:ts[-1, 2]>");
}

#[test]
fn datetime_range_pass_reads_rfc3339_and_seconds() {
    for _ in 0..20 {
        let out = resolve("<rnd:datetime[2024-01-01T00:00:00Z, 2024-01-01T00:00:05Z]>");
        let t = chrono::DateTime::parse_from_rfc3339(&out).unwrap().timestamp();
        assert!((1_704_067_200..=1_704_067_205).contains(&t));
        let out = resolve("<rnd:datetime[10, 0]>");
        let t = chrono::DateTime::parse_from_rfc3339(&out).unwrap().timestamp();
        assert!((0..=10).contains(&t));
    }
    assert_eq!(
        resolve("<rnd:datetime[1, 1]>"),
        "1970-01-01T00:00:01+00:00"
    );
}

#[test]
fn far_datetimes_print_an_error_marker() {
    let far = 9_000_000_000_000i64;
    assert_eq!(
        datetime_range(far, far),
        format!("{{datetime_error: invalid_timestamp_{}}}", far)
    );
}

#[test]
fn float_patterns_report_bounds_and_precision() {
    let text = "a <rnd:float[ -0.125 , 3]> b <rnd:float[2, 1.5]>";
    let found = float_patterns(text);
    assert_eq!(found.len(), 2);
    assert_eq!(found[0].min_text, "-0.125");
    assert_eq!(found[0].max_text, "3");
    assert_eq!(found[0].precision, 3);
    assert_eq!(found[1].min_text, "2");
    assert_eq!(found[1].precision, 0);
    assert_eq!(
        replace_floats(text, &vec!["X".to_string(), "YY".to_string()]),
        "a X b YY"
    );
}

#[test]
fn later_passes_see_the_values_of_earlier_ones() {
    let out = resolve("<rnd:ts[<rnd:int[7, 7]>, 7]>");
    assert_eq!(out, "7");
}

#[test]
fn uuid_pass_replaces_every_placeholder() {
    let out = resolve_pass(PatternKind::Uuid, "<rnd:uuid>/<rnd:uuid>");
    assert_eq!(out.len(), 73);
    let parts: Vec<&str> = out.split('/').collect();
    assert_eq!(parts.len(), 2);
    assert_ne!(parts[0], parts[1]);
    assert_eq!(&parts[0][14..15], "4");
}
