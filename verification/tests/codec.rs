//! The wire format and the descriptor codec, exercised on concrete values.

use notify_core::digits::{lit_to_u8, u8_to_lit};
use notify_core::job::{NotificationDeQueue, NotificationEnQueue};
use notify_core::json::{json_wf, parse_json, str_eq, to_json_string, Json};

fn sample_json() -> Json {
    Json::Obj(vec![
        (String::from("name"), Json::Str(String::from("a \"b\" \\ c"))),
        (String::from("count"), Json::Num(String::from("-120"))),
        (String::from("flag"), Json::Bool(true)),
        (String::from("nothing"), Json::Null),
        (
            String::from("items"),
            Json::Arr(vec![
                Json::Num(String::from("0")),
                Json::Str(String::new()),
                Json::Arr(vec![]),
                Json::Obj(vec![]),
            ]),
        ),
    ])
}

#[test]
fn serializer_is_canonical() {
    let text = to_json_string(&sample_json());
    assert_eq!(
        text,
        r#"{"name":"a \"b\" \\ c","count":-120,"flag":true,"nothing":null,"items":[0,"",[],{}]}"#
    );
}

#[test]
fn parse_of_serialized_value_round_trips() {
    let v = sample_json();
    assert!(json_wf(&v));
    let text = to_json_string(&v);
    let back = parse_json(&text).expect("canonical text parses");
    assert_eq!(to_json_string(&back), text);
}

#[test]
fn parser_rejects_malformed_text() {
    assert!(parse_json("{not valid json").is_none());
    assert!(parse_json("").is_none());
    assert!(parse_json("{\"a\":1,}").is_none());
    assert!(parse_json("[1 2]").is_none());
    assert!(parse_json("01").is_none());
    assert!(parse_json("\"unterminated").is_none());
    assert!(parse_json("true false").is_none());
}

#[test]
fn parser_accepts_each_value_kind() {
    assert!(matches!(parse_json("null"), Some(Json::Null)));
    assert!(matches!(parse_json("true"), Some(Json::Bool(true))));
    assert!(matches!(parse_json("false"), Some(Json::Bool(false))));
    match parse_json("-42") {
        Some(Json::Num(s)) => assert_eq!(s, "-42"),
        _ => panic!("expected a number"),
    }
    match parse_json(r#""hi\\there""#) {
        Some(Json::Str(s)) => assert_eq!(s, "hi\\there"),
        _ => panic!("expected a string"),
    }
    assert!(matches!(parse_json("[]"), Some(Json::Arr(_))));
    assert!(matches!(parse_json("{}"), Some(Json::Obj(_))));
}

#[test]
fn descriptor_wire_round_trip() {
    let job = NotificationDeQueue {
        notification_id: String::from("id-1"),
        recipient: String::from("dev-abc"),
        recipient_type: Some(String::from("token")),
        sender: None,
        channel: String::from("push"),
        template_id: Some(String::from("tmpl-7")),
        payload: Json::Obj(vec![
            (String::from("title"), Json::Str(String::from("Hi"))),
            (String::from("body"), Json::Str(String::from("World"))),
        ]),
        retry_count: 2,
    };
    let text = to_json_string(&job.to_json());
    let parsed = parse_json(&text).expect("descriptor text parses");
    let back = NotificationDeQueue::from_json(&parsed).expect("descriptor reads back");
    assert_eq!(back.notification_id, job.notification_id);
    assert_eq!(back.recipient, job.recipient);
    assert_eq!(back.recipient_type, job.recipient_type);
    assert_eq!(back.sender, job.sender);
    assert_eq!(back.channel, job.channel);
    assert_eq!(back.template_id, job.template_id);
    assert_eq!(back.retry_count, job.retry_count);
    assert_eq!(to_json_string(&back.payload), to_json_string(&job.payload));
}

#[test]
fn enqueue_descriptor_reads_back_with_zero_retries() {
    let enq = NotificationEnQueue {
        notification_id: String::from("id-2"),
        recipient: String::from("to@example.com"),
        recipient_type: None,
        sender: Some(String::from("from@example.com")),
        channel: String::from("email"),
        template_id: None,
        payload: Json::Obj(vec![
            (String::from("subject"), Json::Str(String::from("S"))),
            (String::from("content"), Json::Str(String::from("C"))),
        ]),
    };
    let text = to_json_string(&enq.to_json());
    // The ingestion side writes no retry counter at all.
    assert!(!text.contains("retry_count"));
    let parsed = parse_json(&text).expect("descriptor text parses");
    let back = NotificationDeQueue::from_json(&parsed).expect("descriptor reads back");
    assert_eq!(back.retry_count, 0);
    assert_eq!(back.notification_id, "id-2");
    assert_eq!(back.sender.as_deref(), Some("from@example.com"));
}

#[test]
fn descriptor_with_missing_field_is_refused() {
    let parsed = parse_json(r#"{"recipient":"r","channel":"push"}"#).expect("parses");
    assert!(NotificationDeQueue::from_json(&parsed).is_none());
    let parsed = parse_json(r#"{"notification_id":7,"recipient":"r"}"#).expect("parses");
    assert!(NotificationDeQueue::from_json(&parsed).is_none());
}

#[test]
fn retry_counter_literals_round_trip() {
    for n in [0u8, 1, 2, 3, 9, 10, 99, 100, 255] {
        let lit = u8_to_lit(n);
        assert_eq!(lit_to_u8(&lit), Some(n));
    }
    assert_eq!(u8_to_lit(0), "0");
    assert_eq!(u8_to_lit(255), "255");
    assert_eq!(lit_to_u8("256"), None);
    assert_eq!(lit_to_u8("999"), None);
    assert_eq!(lit_to_u8(""), None);
    assert_eq!(lit_to_u8("-1"), None);
    assert_eq!(lit_to_u8("12a"), None);
    assert_eq!(lit_to_u8("007"), Some(7));
}

#[test]
fn wf_accepts_every_string_and_checks_number_literals() {
    assert!(json_wf(&Json::Str(String::from("a\u{1}b"))));
    assert!(json_wf(&Json::Str(String::from("tab\tand\nnewline"))));
    assert!(json_wf(&Json::Str(String::from("plain"))));
    assert!(json_wf(&Json::Num(String::from("-0"))));
    assert!(json_wf(&Json::Num(String::from("1.5"))));
    assert!(json_wf(&Json::Num(String::from("-12.25e+3"))));
    assert!(json_wf(&Json::Num(String::from("0.5E7"))));
    assert!(!json_wf(&Json::Num(String::from("01"))));
    assert!(!json_wf(&Json::Num(String::from("-"))));
    assert!(!json_wf(&Json::Num(String::from(""))));
    assert!(!json_wf(&Json::Num(String::from("1."))));
    assert!(!json_wf(&Json::Num(String::from(".5"))));
    assert!(!json_wf(&Json::Num(String::from("1e"))));
    assert!(!json_wf(&Json::Num(String::from("1e+"))));
    assert!(!json_wf(&Json::Num(String::from("1.5.2"))));
}

#[test]
fn strings_escape_and_unescape_standardly() {
    let v = Json::Str(String::from("a\"b\\c\nd\te\u{1}f"));
    let text = to_json_string(&v);
    assert_eq!(text, r#""a\"b\\c\nd\te\u0001f""#);
    match parse_json(&text) {
        Some(Json::Str(s)) => assert_eq!(s, "a\"b\\c\nd\te\u{1}f"),
        _ => panic!("expected the string back"),
    }
    // Foreign spellings of the standard escapes are read too.
    match parse_json(r#""a\u0041\/\b\f\r""#) {
        Some(Json::Str(s)) => assert_eq!(s, "aA/\u{8}\u{c}\r"),
        _ => panic!("expected the unescaped string"),
    }
    // Any basic-plane code point may be spelled as an escape.
    match parse_json(r#""\u0458 \u20AC""#) {
        Some(Json::Str(s)) => assert_eq!(s, "\u{458} \u{20ac}"),
        _ => panic!("expected the unescaped string"),
    }
    // Escapes the grammar does not know are refused.
    assert!(parse_json(r#""\x41""#).is_none());
    assert!(parse_json(r#""\u12""#).is_none());
    // A lone surrogate is no scalar value.
    assert!(parse_json(r#""\uD800""#).is_none());
    // A raw control character in a string is not JSON.
    assert!(parse_json("\"a\u{1}b\"").is_none());
}

#[test]
fn numbers_keep_their_spelling() {
    for lit in ["0", "-0", "7", "-120", "1.5", "-0.25", "2e10", "2E10", "1.5e-3", "10e+2"] {
        let v = Json::Num(String::from(lit));
        assert!(json_wf(&v));
        let text = to_json_string(&v);
        assert_eq!(text, lit);
        match parse_json(&text) {
            Some(Json::Num(s)) => assert_eq!(s, lit),
            _ => panic!("expected the literal back"),
        }
    }
    assert!(parse_json("1.").is_none());
    assert!(parse_json("01").is_none());
    assert!(parse_json("1e").is_none());
    assert!(parse_json("+1").is_none());
}

#[test]
fn str_eq_compares_by_characters() {
    assert!(str_eq("abc", "abc"));
    assert!(!str_eq("abc", "abd"));
    assert!(!str_eq("abc", "ab"));
    assert!(str_eq("", ""));
}

#[test]
fn whitespace_between_tokens_is_accepted() {
    let text = " { \"a\" : [ 1 , true , null ] ,\n\t\"b\" : { } } ";
    let v = parse_json(text).expect("whitespace is insignificant");
    assert_eq!(to_json_string(&v), r#"{"a":[1,true,null],"b":{}}"#);
    assert!(parse_json("  42  ").is_some());
    assert!(parse_json("[ ]").is_some());
    // Whitespace splits no token.
    assert!(parse_json("tr ue").is_none());
    assert!(parse_json("1 2").is_none());
}
