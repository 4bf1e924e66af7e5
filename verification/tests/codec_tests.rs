use femur::record::{Avatar, MediaType, UserData};

fn assert_round_trip(r: UserData) {
    let text = r.serialize();
    let back = UserData::parse(&text).expect("serialized record must parse");
    assert_eq!(back, r);
}

#[test]
fn serialize_exact_single_field() {
    let mut r = UserData::new();
    r.status = Some("hi".to_string());
    assert_eq!(r.serialize(), "{\"status\":\"hi\"}");
}

#[test]
fn serialize_exact_empty_record() {
    assert_eq!(UserData::new().serialize(), "{}");
}

#[test]
fn serialize_exact_two_fields_in_order() {
    let mut r = UserData::new();
    r.name = Some("Alice".to_string());
    r.media_type = Some(MediaType::Movie);
    assert_eq!(r.serialize(), "{\"name\":\"Alice\",\"mediaType\":\"Movie\"}");
}

#[test]
fn serialize_exact_avatar() {
    let mut r = UserData::new();
    r.avatar = Some(Avatar { original: "pic".to_string() });
    assert_eq!(r.serialize(), "{\"avatar\":{\"original\":\"pic\"}}");
}

#[test]
fn round_trip_full_record() {
    assert_round_trip(UserData {
        avatar: Some(Avatar { original: "https://example.org/a.png".to_string() }),
        name: Some("Alice".to_string()),
        status: Some("around".to_string()),
        emoji: Some('\u{1F642}'),
        media: Some("Radio".to_string()),
        media_type: Some(MediaType::Music),
    });
}

#[test]
fn round_trip_empty_record() {
    assert_round_trip(UserData::new());
}

#[test]
fn round_trip_each_media_type() {
    for m in [
        MediaType::Unspecified,
        MediaType::Text,
        MediaType::Movie,
        MediaType::TVShow,
        MediaType::Music,
        MediaType::Speech,
        MediaType::Game,
    ] {
        let mut r = UserData::new();
        r.media_type = Some(m);
        assert_round_trip(r);
    }
}

#[test]
fn round_trip_escapes_and_empties() {
    let mut r = UserData::new();
    r.status = Some("say \"hi\" \\ twice".to_string());
    r.name = Some(String::new());
    r.media = Some("tab\tand\nnewline".to_string());
    assert_round_trip(r);
}

#[test]
fn round_trip_keeps_absent_fields_absent() {
    let mut r = UserData::new();
    r.emoji = Some('x');
    let back = UserData::parse(&r.serialize()).unwrap();
    assert_eq!(back.avatar, None);
    assert_eq!(back.name, None);
    assert_eq!(back.status, None);
    assert_eq!(back.media, None);
    assert_eq!(back.media_type, None);
    assert_eq!(back.emoji, Some('x'));
}

#[test]
fn parse_accepts_any_field_order() {
    let parsed = UserData::parse("{\"emoji\":\"e\",\"status\":\"hi\"}").unwrap();
    assert_eq!(parsed.status, Some("hi".to_string()));
    assert_eq!(parsed.emoji, Some('e'));
}

#[test]
fn parse_ignores_unknown_fields() {
    let parsed =
        UserData::parse("{\"future\":{\"a\":[1,2,{\"b\":\"c\"}]},\"status\":\"hi\",\"n\":null}")
            .unwrap();
    assert_eq!(parsed.status, Some("hi".to_string()));
    assert_eq!(parsed.name, None);
}

#[test]
fn parse_decodes_escapes() {
    let parsed = UserData::parse("{\"status\":\"a\\\"b\\\\c\\n\\t\\r\\/\"}").unwrap();
    assert_eq!(parsed.status, Some("a\"b\\c\n\t\r/".to_string()));
}

#[test]
fn parse_rejects_malformed_documents() {
    assert!(UserData::parse("").is_err());
    assert!(UserData::parse("   ").is_err());
    assert!(UserData::parse("{").is_err());
    assert!(UserData::parse("nonsense").is_err());
    assert!(UserData::parse("{\"status\":}").is_err());
    assert!(UserData::parse("{\"status\":\"hi\"").is_err());
    assert!(UserData::parse("{\"status\":\"hi\"} x").is_err());
    assert!(UserData::parse("{\"status\":42}").is_err());
    assert!(UserData::parse("{\"status\":\"a\", }").is_err());
    assert!(UserData::parse("{\"emoji\":\"two\"}").is_err());
    assert!(UserData::parse("{\"mediaType\":\"Opera\"}").is_err());
    assert!(UserData::parse("{\"avatar\":\"flat\"}").is_err());
    assert!(UserData::parse("{\"status\":\"unterminated").is_err());
}

#[test]
fn parse_tolerates_whitespace_between_tokens() {
    let parsed = UserData::parse(" {\t\"status\" : \"hi\" ,\n \"emoji\" : \"e\" }\r\n").unwrap();
    assert_eq!(parsed.status, Some("hi".to_string()));
    assert_eq!(parsed.emoji, Some('e'));
    assert_eq!(UserData::parse("{ }\n").unwrap(), UserData::new());
    assert_eq!(UserData::parse("{\"status\":\"hi\"}\n").unwrap().status, Some("hi".to_string()));
    let nested = UserData::parse("{ \"avatar\" : { \"original\" : \"pic\" } }").unwrap();
    assert_eq!(nested.avatar, Some(Avatar { original: "pic".to_string() }));
    let unknown = UserData::parse("{ \"future\" : [ 1 , 2 , { \"a\" : true } ] , \"status\":\"x\" }")
        .unwrap();
    assert_eq!(unknown.status, Some("x".to_string()));
}

#[test]
fn parse_null_member_means_absent() {
    let parsed = UserData::parse("{\"status\":null}").unwrap();
    assert_eq!(parsed, UserData::new());
    let parsed = UserData::parse("{\"avatar\":null,\"emoji\":null,\"mediaType\":null}").unwrap();
    assert_eq!(parsed, UserData::new());
    let parsed = UserData::parse("{\"status\":\"hi\",\"status\":null}").unwrap();
    assert_eq!(parsed.status, None);
    let parsed = UserData::parse("{ \"name\" : null , \"status\" : \"s\" }").unwrap();
    assert_eq!(parsed.name, None);
    assert_eq!(parsed.status, Some("s".to_string()));
}

#[test]
fn parse_unicode_escapes() {
    let parsed = UserData::parse("{\"status\":\"\\u0041\\u00e9\\u002F\"}").unwrap();
    assert_eq!(parsed.status, Some("A\u{e9}/".to_string()));
    let parsed = UserData::parse("{\"emoji\":\"\\uD83D\\uDE42\"}").unwrap();
    assert_eq!(parsed.emoji, Some('\u{1F642}'));
    assert!(UserData::parse("{\"status\":\"\\uD800\"}").is_err());
    assert!(UserData::parse("{\"status\":\"\\uDC00\\uD800\"}").is_err());
    assert!(UserData::parse("{\"status\":\"\\u12G4\"}").is_err());
    assert!(UserData::parse("{\"status\":\"\\u00\"}").is_err());
}

#[test]
fn serialize_escapes_control_characters() {
    let mut r = UserData::new();
    r.status = Some("a\nb\tc\rd".to_string());
    assert_eq!(r.serialize(), "{\"status\":\"a\\nb\\tc\\rd\"}");
    let mut r = UserData::new();
    r.status = Some("\u{1}\u{1f}".to_string());
    assert_eq!(r.serialize(), "{\"status\":\"\\u0001\\u001f\"}");
}

#[test]
fn round_trip_exotic_control_characters() {
    let mut r = UserData::new();
    r.status = Some("\u{0}\u{1}\u{1f}\r\n\t".to_string());
    r.name = Some("\u{b}".to_string());
    assert_round_trip(r);
}

#[test]
fn parse_last_duplicate_wins() {
    let parsed = UserData::parse("{\"status\":\"first\",\"status\":\"second\"}").unwrap();
    assert_eq!(parsed.status, Some("second".to_string()));
}
