use tune::json::{from_value, parse, parse_list, render_list, Json};

#[test]
fn values_of_every_kind_are_read() {
    let v = parse("{\"n\": null, \"b\": true, \"t\": \"x\\n\", \"a\": [1, -2, 1.5], \"o\": {}}").unwrap();
    assert!(matches!(v.get("n"), Some(Json::Null)));
    assert_eq!(v.get("b").unwrap().as_bool(), Some(true));
    assert_eq!(v.get_str("t"), Some("x\n"));
    let a = v.get("a").unwrap().as_array().unwrap();
    assert_eq!(a.iter().map(|x| x.as_u64()).collect::<Vec<_>>(), [Some(1), None, None]);
    let texts: Vec<String> = a
        .iter()
        .map(|x| match x {
            Json::Number(t, _) => t.clone(),
            other => panic!("{:?}", other),
        })
        .collect();
    assert_eq!(texts, ["1", "-2", "1.5"]);
    assert!(matches!(v.get("o"), Some(Json::Object(o)) if o.is_empty()));
    assert!(v.get("missing").is_none());
    assert!(v.get("t").unwrap().get("x").is_none());
}

#[test]
fn a_whole_number_is_read_up_to_the_largest() {
    let v = parse("{\"n\": 18446744073709551615, \"f\": 2.0}").unwrap();
    assert_eq!(v.get_u64("n"), Some(u64::MAX));
    assert_eq!(v.get_u64("f"), None);
}

#[test]
fn what_is_not_json_is_refused() {
    assert_eq!(parse("{").unwrap_err(), "EOF while parsing an object at line 1 column 1");
    assert_eq!(parse_list("{}").unwrap_err(), "invalid type: map, expected a sequence at line 1 column 0");
}

#[test]
fn a_list_is_written_on_one_line_and_reads_back() {
    let words = vec!["loadfile".to_string(), "a \"b\"\n\\ é\u{1}".to_string()];
    let text = render_list(&words);
    assert_eq!(text, "[\"loadfile\",\"a \\\"b\\\"\\n\\\\ é\\u0001\"]");
    let back: Vec<String> = parse_list(&text).unwrap().iter().map(|v| v.as_str().unwrap().to_string()).collect();
    assert_eq!(back, words);
}

#[test]
fn a_value_of_serde_json_is_taken_over() {
    let list = serde_json::Value::Array(vec![serde_json::Value::from(7u64), serde_json::Value::from("x")]);
    let v = from_value(list);
    let a = v.as_array().unwrap();
    assert_eq!((a[0].as_u64(), a[1].as_str()), (Some(7), Some("x")));
}
