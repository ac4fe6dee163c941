use std::collections::BTreeMap;

use base64::Engine;
use std::str;

use xmlrpc::{Date, DateTime, DoubleText, Time, Value};

fn render(value: &Value) -> String {
    let mut output: Vec<u8> = Vec::new();
    value.format(&mut output);
    String::from_utf8(output).unwrap()
}

#[test]
fn escapes_strings() {
    let mut output: Vec<u8> = Vec::new();

    Value::from("<xml>&nbsp;string").format(&mut output);
    assert_eq!(
        str::from_utf8(&output).unwrap(),
        "<value>\n<string>&lt;xml>&amp;nbsp;string</string>\n</value>\n"
    );
}

#[test]
fn escapes_struct_member_names() {
    let mut output: Vec<u8> = Vec::new();
    let mut map: BTreeMap<String, Value> = BTreeMap::new();
    map.insert("x&<x".to_string(), Value::from(true));

    Value::Struct(map.into_iter().collect()).format(&mut output);
    assert_eq!(
        str::from_utf8(&output).unwrap(),
        "<value>\n<struct>\n<member>\n<name>x&amp;&lt;x</name>\n<value>\n<boolean>1</boolean>\n</value>\n</member>\n</struct>\n</value>\n"
    );
}

#[test]
fn negative_int() {
    assert_eq!(render(&Value::Int(-7)), "<value>\n<i4>-7</i4>\n</value>\n");
}

#[test]
fn int_extremes() {
    assert_eq!(render(&Value::Int(0)), "<value>\n<i4>0</i4>\n</value>\n");
    assert_eq!(render(&Value::from(42)), "<value>\n<i4>42</i4>\n</value>\n");
    assert_eq!(
        render(&Value::Int(i32::MIN)),
        "<value>\n<i4>-2147483648</i4>\n</value>\n"
    );
    assert_eq!(
        render(&Value::Int(i32::MAX)),
        "<value>\n<i4>2147483647</i4>\n</value>\n"
    );
}

#[test]
fn int64_extremes() {
    assert_eq!(
        render(&Value::Int64(i64::MIN)),
        "<value>\n<i8>-9223372036854775808</i8>\n</value>\n"
    );
    assert_eq!(
        render(&Value::Int64(i64::MAX)),
        "<value>\n<i8>9223372036854775807</i8>\n</value>\n"
    );
    assert_eq!(render(&Value::Int64(100)), "<value>\n<i8>100</i8>\n</value>\n");
}

#[test]
fn array_of_int_and_nil() {
    let value = Value::Array(vec![Value::Int(1), Value::Nil]);
    assert_eq!(
        render(&value),
        "<value>\n<array>\n<data>\n<value>\n<i4>1</i4>\n</value>\n<value>\n<nil/>\n</value>\n</data>\n</array>\n</value>\n"
    );
}

#[test]
fn empty_struct() {
    assert_eq!(
        render(&Value::Struct(Vec::new())),
        "<value>\n<struct>\n</struct>\n</value>\n"
    );
}

#[test]
fn empty_array() {
    assert_eq!(
        render(&Value::Array(Vec::new())),
        "<value>\n<array>\n<data>\n</data>\n</array>\n</value>\n"
    );
}

#[test]
fn booleans() {
    assert_eq!(
        render(&Value::Bool(true)),
        "<value>\n<boolean>1</boolean>\n</value>\n"
    );
    assert_eq!(
        render(&Value::from(false)),
        "<value>\n<boolean>0</boolean>\n</value>\n"
    );
}

#[test]
fn nil_is_three_lines() {
    assert_eq!(render(&Value::Nil), "<value>\n<nil/>\n</value>\n");
}

#[test]
fn string_escaping_replaces_every_markup_byte() {
    let text = render(&Value::from(String::from("a&&b<<c>d")));
    assert_eq!(text, "<value>\n<string>a&amp;&amp;b&lt;&lt;c>d</string>\n</value>\n");
    let body = &text["<value>\n<string>".len()..text.len() - "</string>\n</value>\n".len()];
    assert!(!body.contains('<'));
    for (i, _) in body.match_indices('&') {
        assert!(body[i..].starts_with("&amp;") || body[i..].starts_with("&lt;"));
    }
}

#[test]
fn string_bytes_need_not_be_utf8() {
    let value = Value::String(vec![0xff, b'&', 0x00, b'<', 0x80]);
    let mut output: Vec<u8> = Vec::new();
    value.format(&mut output);
    let mut expected: Vec<u8> = b"<value>\n<string>".to_vec();
    expected.extend_from_slice(&[0xff, b'&', b'a', b'm', b'p', b';', 0x00, b'&', b'l', b't', b';', 0x80]);
    expected.extend_from_slice(b"</string>\n</value>\n");
    assert_eq!(output, expected);
}

#[test]
fn string_constructors_keep_bytes() {
    match Value::string("h\u{e9}") {
        Value::String(bytes) => assert_eq!(bytes, "h\u{e9}".as_bytes().to_vec()),
        other => panic!("unexpected {:?}", other),
    }
    match Value::from_string(String::from("plain")) {
        Value::String(bytes) => assert_eq!(bytes, b"plain".to_vec()),
        other => panic!("unexpected {:?}", other),
    }
}

#[test]
fn struct_keeps_duplicate_names_in_order() {
    let value = Value::Struct(vec![
        ("k".to_string(), Value::Int(1)),
        ("a<b".to_string(), Value::Nil),
        ("k".to_string(), Value::Int(2)),
    ]);
    assert_eq!(
        render(&value),
        "<value>\n<struct>\n\
<member>\n<name>k</name>\n<value>\n<i4>1</i4>\n</value>\n</member>\n\
<member>\n<name>a&lt;b</name>\n<value>\n<nil/>\n</value>\n</member>\n\
<member>\n<name>k</name>\n<value>\n<i4>2</i4>\n</value>\n</member>\n\
</struct>\n</value>\n"
    );
}

#[test]
fn nested_arrays_keep_depth_and_order() {
    let value = Value::Array(vec![
        Value::Array(vec![Value::Bool(false)]),
        Value::Struct(vec![("n".to_string(), Value::Array(Vec::new()))]),
        Value::Int64(-3),
    ]);
    assert_eq!(
        render(&value),
        "<value>\n<array>\n<data>\n\
<value>\n<array>\n<data>\n<value>\n<boolean>0</boolean>\n</value>\n</data>\n</array>\n</value>\n\
<value>\n<struct>\n<member>\n<name>n</name>\n<value>\n<array>\n<data>\n</data>\n</array>\n</value>\n</member>\n</struct>\n</value>\n\
<value>\n<i8>-3</i8>\n</value>\n\
</data>\n</array>\n</value>\n"
    );
}

#[test]
fn double_text_passes_through() {
    let value = Value::Double(DoubleText::new(format!("{}", 1.5f64)).unwrap());
    assert_eq!(render(&value), "<value>\n<double>1.5</double>\n</value>\n");
    let value = Value::Double(DoubleText::new(format!("{}", f64::NAN)).unwrap());
    assert_eq!(render(&value), "<value>\n<double>NaN</double>\n</value>\n");
    let value = Value::Double(DoubleText::new(format!("{}", f64::NEG_INFINITY)).unwrap());
    assert_eq!(render(&value), "<value>\n<double>-inf</double>\n</value>\n");
    let value = Value::Double(DoubleText::new(format!("{}", -1e-7f64)).unwrap());
    assert_eq!(render(&value), "<value>\n<double>-0.0000001</double>\n</value>\n");
}

#[test]
fn base64_known_encoding() {
    let value = Value::Base64(b"hello".to_vec());
    assert_eq!(render(&value), "<value>\n<base64>aGVsbG8=</base64>\n</value>\n");
    assert_eq!(
        render(&Value::Base64(Vec::new())),
        "<value>\n<base64></base64>\n</value>\n"
    );
}

#[test]
fn base64_round_trip() {
    let samples: Vec<Vec<u8>> = vec![
        Vec::new(),
        vec![0u8],
        vec![0xff, 0x00, 0x80, 0x7f, b'&', b'<'],
        (0u8..=255).collect(),
    ];
    for data in samples {
        let text = render(&Value::Base64(data.clone()));
        let inner = &text["<value>\n<base64>".len()..text.len() - "</base64>\n</value>\n".len()];
        let decoded = base64::engine::general_purpose::STANDARD.decode(inner).unwrap();
        assert_eq!(decoded, data);
    }
}

fn time(hour: u32, minute: u32, second: u32, millisecond: u32, tzh: i32, tzm: i32) -> Time {
    Time {
        hour,
        minute,
        second,
        millisecond,
        tz_offset_hours: tzh,
        tz_offset_minutes: tzm,
    }
}

#[test]
fn datetime_iso8601_text() {
    let dt = DateTime::new(
        Date::YMD { year: 2023, month: 2, day: 18 },
        time(17, 8, 8, 793, 0, 0),
    )
    .unwrap();
    assert_eq!(
        render(&Value::from(dt)),
        "<value>\n<dateTime.iso8601>2023-02-18T17:08:08.793+00:00</dateTime.iso8601>\n</value>\n"
    );
    let dt = DateTime::new(
        Date::Ordinal { year: -44, ddd: 75 },
        time(9, 30, 0, 0, -5, -30),
    )
    .unwrap();
    assert_eq!(
        render(&Value::DateTime(dt)),
        "<value>\n<dateTime.iso8601>-0044-075T09:30:00.000-05:30</dateTime.iso8601>\n</value>\n"
    );
}

#[test]
fn datetime_rejects_unwritable_parts() {
    let t = time(0, 0, 0, 0, 0, 0);
    assert!(DateTime::new(Date::YMD { year: i32::MIN, month: 1, day: 1 }, t).is_none());
    assert!(DateTime::new(Date::Week { year: 2020, ww: 1, d: 1 }, time(0, 0, 0, 0, i32::MIN, 0)).is_none());
    assert!(DateTime::new(Date::Week { year: 2020, ww: 1, d: 1 }, time(0, 0, 0, 0, 0, i32::MIN)).is_none());
    let dt = DateTime::new(Date::Week { year: 2020, ww: 53, d: 7 }, t).unwrap();
    assert_eq!(dt.date(), Date::Week { year: 2020, ww: 53, d: 7 });
    assert_eq!(dt.time(), t);
}

#[test]
fn escape_xml_appends() {
    let mut out: Vec<u8> = b"x".to_vec();
    xmlrpc::escape::escape_xml(b"a<b>&c", &mut out);
    assert_eq!(out, b"xa&lt;b>&amp;c".to_vec());
}

#[test]
fn format_appends_to_existing_output() {
    let mut out: Vec<u8> = b"head\n".to_vec();
    Value::Nil.format(&mut out);
    Value::Int(3).format(&mut out);
    assert_eq!(
        str::from_utf8(&out).unwrap(),
        "head\n<value>\n<nil/>\n</value>\n<value>\n<i4>3</i4>\n</value>\n"
    );
}

#[test]
fn double_text_rejects_markup() {
    assert!(DoubleText::new("1<2".to_string()).is_none());
    assert!(DoubleText::new("&".to_string()).is_none());
    assert!(DoubleText::new("1.0 ".to_string()).is_none());
    let text = DoubleText::new("-2.5e3".to_string()).unwrap();
    assert_eq!(text.as_str(), "-2.5e3");
    assert_eq!(text.clone(), text);
}

#[test]
fn from_text_keeps_bytes() {
    assert_eq!(Value::from("a&b"), Value::String(b"a&b".to_vec()));
    assert_eq!(Value::from(String::from("<x>")), Value::String(b"<x>".to_vec()));
    assert_eq!(Value::from(-1), Value::Int(-1));
    assert_eq!(Value::from(true), Value::Bool(true));
}

#[test]
fn clone_renders_the_same() {
    let value = Value::Struct(vec![
        ("a".to_string(), Value::Array(vec![Value::from("s<"), Value::Base64(vec![1, 2, 3])])),
        ("a".to_string(), Value::Double(DoubleText::new("0.5".to_string()).unwrap())),
    ]);
    let copy = value.clone();
    assert_eq!(copy, value);
    assert_eq!(render(&copy), render(&value));
}
