//! Values, points and their statuses, topics, texts and the log.

use bacnet_republisher::address::Ipv4Addr;
use bacnet_republisher::config::MqttConfig;
use bacnet_republisher::log::{Elapsed, LogBuffer, LogLevel};
use bacnet_republisher::model::{
    default_object_type, default_poll_interval_secs, default_property, default_true, now_millis,
    timestamp_from_millis, Numeric, PointConfig, PointIdentity, PointSample, PointStatus,
    PublishStats, TelemetryValue,
};
use bacnet_republisher::mqtt::value_payload;
use bacnet_republisher::numerals::{
    decimal_text, number_list_text, parse_unsigned, signed_decimal_text,
};
use bacnet_republisher::order::{sorted_set, sorted_unique};
use bacnet_republisher::statuses::StatusTable;
use bacnet_republisher::text::{is_whitespace, join_texts, split_chars, trim};
use bacnet_republisher::topic::{
    default_tag_path, normalize_prefix, sanitize_segment, telemetry_topic,
};
use bacnet_republisher::value::{
    decode_object_identifier_value, decode_scalar_value, decode_unsigned_value, hex,
    object_type_from_text, object_type_name, property_identifier_from_text, property_name,
    DecodeError, ObjectType, PropertyIdentifier,
};
use bacnet_types::enums::{ObjectType as OutsideType, PropertyIdentifier as OutsideProperty};
use std::collections::HashSet;

fn number(value: f64) -> TelemetryValue {
    TelemetryValue::Number(Numeric::Double(value.to_bits()))
}

fn text(value: &str) -> TelemetryValue {
    TelemetryValue::Text(value.to_string())
}

#[test]
fn telemetry_value_encodes_json_scalars() {
    let encoded = serde_json::to_vec(&12.5).map_err(|error| error.to_string());
    assert_eq!(value_payload(&number(12.5), encoded), Ok(b"12.5".to_vec()));
    let unused = Err("no number".to_string());
    assert_eq!(value_payload(&text("active"), unused), Ok(b"\"active\"".to_vec()));
}

#[test]
fn text_payloads_are_escaped() {
    let unused = || Err(String::new());
    assert_eq!(value_payload(&text("a\"b\\"), unused()), Ok(br#""a\"b\\""#.to_vec()));
    assert_eq!(value_payload(&text("\n"), unused()), Ok(b"\"\\n\"".to_vec()));
    assert_eq!(
        value_payload(&text("\u{8}\t\u{b}\u{c}\r\u{1f}\u{7f}"), unused()),
        Ok(b"\"\\b\\t\\u000b\\f\\r\\u001f\x7f\"".to_vec())
    );
    assert_eq!(value_payload(&text("é"), unused()), Ok("\"é\"".as_bytes().to_vec()));
    assert_eq!(value_payload(&text(""), unused()), Ok(b"\"\"".to_vec()));
    assert_eq!(
        value_payload(&number(1.0), Err("not a number".to_string())),
        Err("not a number".to_string())
    );
}

#[test]
fn point_status_success_clears_stale_state() {
    let point =
        PointConfig { device_instance: 100, object_instance: 1, ..PointConfig::default() };
    let sample = PointSample {
        point,
        value: number(10.0),
        topic: "Netix/Site/device_100/analog_input_1/present_value".to_string(),
        timestamp_ms: 42,
    };
    let mut status = PointStatus::default();
    status.record_read_failure("timeout");

    status.record_sample(&sample);

    assert!(!status.stale);
    assert_eq!(status.consecutive_failures, 0);
    assert_eq!(status.last_error, None);
    assert_eq!(status.last_value, Some(number(10.0)));
}

#[test]
fn point_status_failure_marks_stale() {
    let mut status = PointStatus::default();

    status.record_read_failure("timeout");
    status.record_read_failure("timeout again");

    assert!(status.stale);
    assert_eq!(status.consecutive_failures, 2);
    assert_eq!(status.last_error.as_deref(), Some("timeout again"));
}

#[test]
fn publication_errors_come_and_go() {
    let mut status = PointStatus::default();
    status.record_publish_failure("broker gone");
    assert_eq!(status.last_publish_error.as_deref(), Some("broker gone"));
    status.record_publish_success();
    assert_eq!(status, PointStatus::default());
}

#[test]
fn statuses_are_kept_by_point() {
    let mut table = StatusTable::new();
    let first = PointConfig { object_instance: 1, ..PointConfig::default() };
    let second = PointConfig { object_instance: 2, ..PointConfig::default() };
    table.record_read_failure(&first, "timeout");
    table.record_publication(&PointIdentity::from_point(&second), Some("gone"));
    assert_eq!(table.len(), 2);
    assert_eq!(table.stale_count(), 2);
    assert!(table.any_read_error());
    assert!(table.any_stale_or_unpublished());
    for point in [first, second.clone()] {
        let sample =
            PointSample { point, value: text("x"), topic: String::new(), timestamp_ms: 1 };
        table.record_sample(&sample);
    }
    assert!(!table.any_read_error());
    assert_eq!(table.stale_count(), 0);
    assert!(table.any_stale_or_unpublished());
    table.record_publication(&PointIdentity::from_point(&second), None);
    assert!(!table.any_stale_or_unpublished());
    table.clear();
    assert_eq!(table.len(), 0);
}

#[test]
fn identities_ignore_spelling() {
    let point = PointConfig {
        device_instance: 7,
        object_type: " Analog-Input ".to_string(),
        object_instance: 3,
        property: "Present Value".to_string(),
        ..PointConfig::default()
    };
    let identity = PointIdentity::from_point(&point);
    assert_eq!(identity.object_type, "analog_input");
    assert_eq!(identity.property, "present_value");
    let plain = PointConfig {
        device_instance: 7,
        object_instance: 3,
        ..PointConfig::default()
    };
    assert!(identity.same_as(&PointIdentity::from_point(&plain)));
    assert_eq!(identity.to_text(), "7:analog_input:3:present_value");
}

#[test]
fn defaults_of_points() {
    assert!(default_true());
    assert_eq!(default_object_type(), "analog_input");
    assert_eq!(default_property(), "present_value");
    assert_eq!(default_poll_interval_secs(), 10);
    assert_eq!(PointConfig::default().display_name(), "analog_input 0 present_value");
    let mut stats = PublishStats::empty();
    stats.record_failure("a");
    stats.record_failure("b");
    assert_eq!((stats.failed, stats.last_error.as_deref()), (2, Some("b")));
}

#[test]
fn the_clock_is_past_the_year_2020() {
    assert!(now_millis() > 1_577_836_800_000);
    assert_eq!(timestamp_from_millis(Some(5)), 5);
    assert_eq!(timestamp_from_millis(Some(u128::MAX)), i64::MAX);
    assert_eq!(timestamp_from_millis(None), 0);
}

#[test]
fn normalizes_abstract_subscription_prefix() {
    assert_eq!(normalize_prefix("Netix/NC-9/#"), "Netix/NC-9");
    assert_eq!(normalize_prefix("/Netix//Site/"), "Netix/Site");
}

#[test]
fn generates_topic_from_default_point_path() {
    let config =
        MqttConfig { topic_prefix: "Netix/NC-9/#".to_string(), ..MqttConfig::default() };
    let point = PointConfig {
        device_instance: 100,
        device_label: "Jace Neo".to_string(),
        object_type: "analog input".to_string(),
        object_instance: 2,
        property: "present_value".to_string(),
        ..PointConfig::default()
    };

    assert_eq!(
        telemetry_topic(&config, &point),
        "Netix/NC-9/Jace_Neo/analog_input/2/present_value"
    );
}

#[test]
fn custom_tag_path_wins() {
    let config = MqttConfig::default();
    let point =
        PointConfig { tag_path: "AHU1/Supply Temp".to_string(), ..PointConfig::default() };

    assert_eq!(telemetry_topic(&config, &point), "Netix/Site/AHU1/Supply_Temp");
}

#[test]
fn topics_hold_no_wildcards() {
    let config = MqttConfig::default();
    let point =
        PointConfig { tag_path: "/a+b//#c/ ".to_string(), ..PointConfig::default() };
    let topic = telemetry_topic(&config, &point);
    assert!(!topic.contains('+') && !topic.contains('#'), "{topic}");
    assert!(topic.starts_with("Netix/Site/"), "{topic}");
    assert_eq!(
        default_tag_path(&PointConfig { device_instance: 4, ..PointConfig::default() }),
        "device_4/analog_input/0/present_value"
    );
    assert_eq!(sanitize_segment("+"), "");
    assert_eq!(sanitize_segment(" _a / b#"), "a_b");
    for segment in ["a b", "+", "", "x/y", "__q__"] {
        let clean = sanitize_segment(segment);
        assert_eq!(sanitize_segment(&clean), clean, "{segment}");
    }
    assert_eq!(normalize_prefix(&normalize_prefix("/A//B/#")), "A/B");
}

#[test]
fn decodes_real_value() {
    let value = decode_scalar_value(&[0x44, 0x42, 0x90, 0x00, 0x00]).unwrap();
    assert_eq!(value, TelemetryValue::Number(Numeric::Real(72.0f32.to_bits())));
}

#[test]
fn decodes_boolean_as_text() {
    assert_eq!(decode_scalar_value(&[0x11]).unwrap(), text("true"));
}

#[test]
fn maps_named_identifiers_from_text() {
    assert_eq!(
        property_identifier_from_text("present value").map(|found| found.to_raw()),
        Some(OutsideProperty::PRESENT_VALUE.to_raw())
    );
    assert_eq!(
        object_type_from_text("analog_input").map(|found| found.to_raw()),
        Some(OutsideType::ANALOG_INPUT.to_raw())
    );
}

#[test]
fn spelling_ignores_case_space_and_separators() {
    let texts =
        ["analog_input", "Analog Input", " ANALOG-INPUT ", "\tanalogInput\n", "_analog__input"];
    for text in texts {
        assert_eq!(
            object_type_from_text(text).map(|found| found.to_raw()),
            Some(OutsideType::ANALOG_INPUT.to_raw())
        );
    }
    assert!(object_type_from_text("_\tanalog_input").is_none());
}

#[test]
fn every_named_identifier_reads_back() {
    for (name, item) in OutsideType::ALL_NAMED {
        let found = object_type_from_text(name).unwrap();
        assert_eq!(found.to_raw(), item.to_raw(), "{name}");
        assert_eq!(object_type_from_text(&object_type_name(found)), Some(found));
        assert_eq!(object_type_name(found), name.to_ascii_lowercase());
    }
    for (name, item) in OutsideProperty::ALL_NAMED {
        let found = property_identifier_from_text(name).unwrap();
        assert_eq!(found.to_raw(), item.to_raw(), "{name}");
        assert_eq!(property_identifier_from_text(&property_name(found)), Some(found));
    }
}

#[test]
fn numbers_are_identifiers_too() {
    assert_eq!(object_type_from_text("  8 ").map(|found| found.to_raw()), Some(8));
    assert_eq!(object_type_from_text("700").map(|found| found.to_raw()), Some(700));
    assert_eq!(object_type_name(ObjectType::from_raw(700)), "700");
    assert_eq!(property_name(PropertyIdentifier::from_raw(1_000_000)), "1000000");
    assert_eq!(object_type_from_text("no such type"), None);
    assert_eq!(property_identifier_from_text(""), None);
    assert_eq!(property_identifier_from_text("PRESENT-Value").map(|found| found.to_raw()), Some(85));
}

#[test]
fn decodes_every_scalar() {
    assert_eq!(decode_scalar_value(&[0x00]), Ok(text("null")));
    assert_eq!(decode_scalar_value(&[0x10]), Ok(text("false")));
    assert_eq!(
        decode_scalar_value(&[0x22, 0x01, 0x00]),
        Ok(TelemetryValue::Number(Numeric::Unsigned(256)))
    );
    assert_eq!(
        decode_scalar_value(&[0x31, 0xff]),
        Ok(TelemetryValue::Number(Numeric::Signed(-1)))
    );
    assert_eq!(
        decode_scalar_value(&[0x32, 0x7f, 0xff]),
        Ok(TelemetryValue::Number(Numeric::Signed(32767)))
    );
    let mut double = vec![0x55, 8];
    double.extend(1.5f64.to_be_bytes());
    assert_eq!(decode_scalar_value(&double), Ok(number(1.5)));
    assert_eq!(decode_scalar_value(&[0x73, 0x00, b'o', b'k']), Ok(text("ok")));
    assert_eq!(decode_scalar_value(&[0x91, 0x02]), Ok(text("2")));
    assert_eq!(
        decode_scalar_value(&[0xc4, 0x02, 0x00, 0x00, 0x05]),
        Ok(text("device,5"))
    );
}

#[test]
fn each_decoding_error_has_its_input() {
    assert_eq!(decode_scalar_value(&[]), Err(DecodeError::Empty));
    assert_eq!(decode_scalar_value(&[0x61]), Err(DecodeError::UnsupportedTag(6)));
    assert_eq!(decode_scalar_value(&[0x44, 0x42]), Err(DecodeError::Truncated));
    assert_eq!(
        decode_scalar_value(&[0x73, 0x00, 0xff, 0xfe]),
        Err(DecodeError::InvalidUtf8)
    );
    assert_eq!(DecodeError::Empty.to_text(), "empty BACnet value");
    assert_eq!(DecodeError::UnsupportedTag(6).to_text(), "unsupported BACnet application tag 6");
    assert_eq!(DecodeError::Truncated.to_text(), "truncated BACnet value");
    assert_eq!(
        DecodeError::InvalidUtf8.to_text(),
        "invalid BACnet character string"
    );
}

#[test]
fn counts_and_identifiers_are_decoded() {
    assert_eq!(decode_unsigned_value(&[0x21, 9]), Ok(9));
    assert_eq!(decode_unsigned_value(&[]), Err(DecodeError::Empty));
    assert_eq!(decode_unsigned_value(&[0x25, 2, 1, 0]), Ok(256));
    assert_eq!(decode_unsigned_value(&[0x26]), Err(DecodeError::UnsupportedTag(2)));
    assert_eq!(decode_unsigned_value(&[0x25]), Err(DecodeError::Truncated));
    let (object_type, instance) =
        decode_object_identifier_value(&[0xc4, 0x00, 0x80, 0x00, 0x01]).unwrap();
    assert_eq!((object_type.to_raw(), instance), (2, 1));
    assert_eq!(hex(&[0x0a, 0xff]), "0AFF");
}

#[test]
fn numbers_read_back() {
    for value in [0, 7, 10, 65535, u64::MAX] {
        assert_eq!(decimal_text(value), value.to_string());
        assert_eq!(parse_unsigned(&decimal_text(value), u64::MAX), Some(value));
    }
    assert_eq!(parse_unsigned("007", 9), Some(7));
    assert_eq!(parse_unsigned("256", 255), None);
    assert_eq!(parse_unsigned("+1", 9), Some(1));
    assert_eq!(parse_unsigned("-1", 9), None);
    assert_eq!(parse_unsigned("", 9), None);
    assert_eq!(signed_decimal_text(i64::MIN), i64::MIN.to_string());
    assert_eq!(number_list_text(&[1, 22]), "[1, 22]");
    assert_eq!(number_list_text(&[]), "[]");
}

#[test]
fn addresses_read_back() {
    let address = Ipv4Addr::new(10, 0, 255, 1);
    assert_eq!(address.to_text(), "10.0.255.1");
    assert_eq!(Ipv4Addr::parse("10.0.255.1"), Some(address));
    assert_eq!(Ipv4Addr::from_bits(address.to_bits()), address);
    assert_eq!(Ipv4Addr::parse("10.0.255"), None);
    assert_eq!(Ipv4Addr::parse("10.0.255.01"), None);
    assert_eq!(Ipv4Addr::parse("10.0.255.1 "), None);
    assert!(Ipv4Addr::new(127, 0, 0, 1).is_loopback());
}

#[test]
fn texts_are_taken_apart_as_std_does() {
    for sample in ["", " a ", "\u{a0}b\u{2003}", "\tx y\n", "\u{200b}z"] {
        assert_eq!(trim(sample), sample.trim());
    }
    for code in 0..0x3100u32 {
        if let Some(character) = char::from_u32(code) {
            assert_eq!(is_whitespace(character), character.is_whitespace(), "{code:x}");
        }
    }
    let chars = "a//b".chars().collect::<Vec<_>>();
    let pieces = split_chars(&chars, '/');
    assert_eq!(pieces, vec![vec!['a'], vec![], vec!['b']]);
    assert_eq!(join_texts(&vec!["a".to_string(), "b".to_string()], " | "), "a | b");
}

#[test]
fn numbers_are_sorted_once_each() {
    assert_eq!(sorted_unique(&[3, 1, 3, 2]), vec![1, 2, 3]);
    assert_eq!(sorted_set(&HashSet::from([9, 4, 7])), vec![4, 7, 9]);
}

#[test]
fn the_log_drops_the_oldest() {
    let mut log = LogBuffer::new(2);
    log.push(LogLevel::Info, "a");
    log.push(LogLevel::Warning, "b");
    log.push(LogLevel::Error, "c");
    let entries = log
        .entries()
        .iter()
        .map(|entry| (entry.sequence, entry.level, entry.message.as_str()))
        .collect::<Vec<_>>();
    assert_eq!(entries, vec![(2, LogLevel::Warning, "b"), (3, LogLevel::Error, "c")]);
    log.clear();
    log.push(LogLevel::Info, "d");
    assert_eq!(log.entries()[0].sequence, 4);
    assert!(log.entries()[0].elapsed.nanos < 1_000_000_000);
    assert_eq!(log.entries()[0].elapsed.as_secs(), log.entries()[0].elapsed.secs);
    assert_eq!(Elapsed { secs: 61, nanos: 5 }.as_secs(), 61);
    assert_eq!(LogLevel::Warning.to_text(), "WARN");
}

#[test]
fn the_log_keeps_fractions_of_a_second() {
    let mut log = LogBuffer::new(1);
    log.push(LogLevel::Info, "a");
    let first = log.entries()[0].elapsed;
    while log.entries()[0].elapsed == first {
        log.push(LogLevel::Info, "b");
    }
    let later = log.entries()[0].elapsed;
    assert!((later.secs, later.nanos) > (first.secs, first.nanos));
}
