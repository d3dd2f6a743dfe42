use symphony_rust::json::Json;
use symphony_rust::keyed::StringMap;
use symphony_rust::model::{
    later_by, millis_between, normalize_state, state_in, Issue, LiveSession, Timestamp,
};
use symphony_rust::text::{decimal_text, int_text, less_text, split_lines};

#[test]
fn json_survives_the_way_out_and_back() {
    let text = r#"{"a":[null,true,-1,18446744073709551615,1.5,"x"],"b":{}}"#;
    let value = Json::parse(text).unwrap();
    assert!(value.is_well_formed());
    assert_eq!(value.to_text(), text);
    assert_eq!(value.to_bytes().unwrap(), text.as_bytes());
    assert_eq!(value.clone().to_text(), text);
    assert_eq!(Json::from_value(value.to_value()).to_text(), text);
    assert_eq!(Json::parse("[1]").unwrap().to_pretty().unwrap(), "[\n  1\n]");
    assert!(Json::parse("[1").unwrap_err().contains("EOF"));
}

#[test]
fn members_are_put_and_read() {
    let value = Json::object().with("b", Json::text("1")).with("a", Json::Null).with(
        "b",
        Json::PosInt(2),
    );
    assert_eq!(value.to_text(), r#"{"a":null,"b":2}"#);
    assert_eq!(value.get("b").unwrap().as_u64(), Some(2));
    assert_eq!(value.get("b").unwrap().as_i64(), Some(2));
    assert!(value.get("c").is_none());
    assert_eq!(Json::Bool(true).as_bool(), Some(true));
    assert!(Json::Null.with("a", Json::Null).get("a").is_none());
    let bad = Json::Object(vec![
        ("b".to_string(), Json::Null),
        ("a".to_string(), Json::Null),
    ]);
    assert!(!bad.is_well_formed());
    assert!(!Json::Array(vec![Json::NegInt(3)]).is_well_formed());
}

#[test]
fn maps_keep_one_value_for_a_key() {
    let mut map = StringMap::new();
    map.insert("a".to_string(), 1usize);
    map.insert("b".to_string(), 2);
    map.insert("a".to_string(), 3);
    assert_eq!(map.len(), 2);
    assert_eq!(map.get("a"), Some(&3));
    let copy = map.clone();
    assert_eq!(map.remove("a"), Some(3));
    assert_eq!(map.remove("a"), None);
    assert!(!map.contains_key("a"));
    assert!(copy.contains_key("a"));
    assert_eq!(copy.entry(0).0, "b");
}

#[test]
fn states_are_compared_without_case() {
    assert_eq!(normalize_state("In PROGRESS"), "in progress");
    assert_eq!(normalize_state("ÄÖ"), "äö");
    let states = vec!["Todo".to_string(), "Été".to_string()];
    assert!(state_in("TODO", &states));
    assert!(state_in("éTÉ", &states));
    assert!(!state_in("Done", &states));
}

#[test]
fn instants_are_counted_in_milliseconds() {
    let a = Timestamp { seconds: -1, nanos: 999_000_000 };
    let b = Timestamp { seconds: 1, nanos: 500_000 };
    assert_eq!(a.timestamp_millis(), -1);
    assert_eq!(millis_between(&b, &a), 1001);
    assert_eq!(millis_between(&a, &b), -1001);
    assert_eq!(
        later_by(&a, 1_001),
        Timestamp { seconds: 1, nanos: 0 }
    );
}

#[test]
fn required_fields_hold_more_than_space() {
    let mut issue = Issue {
        id: "a".to_string(),
        identifier: "b".to_string(),
        title: "c".to_string(),
        description: None,
        priority: None,
        state: "d".to_string(),
        branch_name: None,
        url: None,
        labels: Vec::new(),
        blocked_by: Vec::new(),
        created_at: None,
        updated_at: None,
    };
    assert!(issue.has_required_fields());
    issue.state = "\u{3000}\t".to_string();
    assert!(!issue.has_required_fields());
    assert!(LiveSession::default().session_id.is_none());
}

#[test]
fn texts_are_split_and_compared() {
    assert_eq!(split_lines("a\r\nb\n\nc\r"), vec!["a", "b", "", "c\r"]);
    assert!(split_lines("").is_empty());
    assert!(less_text("a", "ab"));
    assert!(less_text("Z", "a"));
    assert!(!less_text("b", "ab"));
    assert_eq!(decimal_text(0), "0");
    assert_eq!(decimal_text(1_203), "1203");
    assert_eq!(int_text(i64::MIN), i64::MIN.to_string());
}

#[test]
fn an_integer_is_no_float() {
    let five = serde_json::Number::from(5u64);
    assert!(!Json::Float(five.clone()).is_well_formed());
    assert!(!Json::Array(vec![Json::Float(five)]).is_well_formed());
    let half = Json::Float(serde_json::Number::from_f64(0.5).unwrap());
    assert!(half.is_well_formed());
    assert_eq!(half.to_text(), "0.5");
    let whole = Json::parse("5.0").unwrap();
    assert!(matches!(whole, Json::Float(_)));
    assert!(matches!(Json::from_value(whole.to_value()), Json::Float(_)));
    assert!(matches!(Json::parse("5").unwrap(), Json::PosInt(5)));
}

#[test]
fn members_can_stand_in_any_order() {
    let value = Json::object().followed_by("b", Json::Null).followed_by("a", Json::Bool(true));
    assert!(!value.is_well_formed());
    match &value {
        Json::Object(members) => assert_eq!(members[0].0, "b"),
        _ => panic!("no object"),
    }
    assert_eq!(value.get("a").and_then(Json::as_bool), Some(true));
    assert!(matches!(Json::Null.followed_by("a", Json::Null), Json::Null));
}
