use femur::record::{Avatar, MediaType, UserData};
use femur::validate_username;

fn full_record() -> UserData {
    UserData {
        avatar: Some(Avatar { original: "https://example.org/me.png".to_string() }),
        name: Some("Alice".to_string()),
        status: Some("reading".to_string()),
        emoji: Some('\u{1F642}'),
        media: Some("Some Book".to_string()),
        media_type: Some(MediaType::Text),
    }
}

fn empty_update() -> UserData {
    UserData { avatar: None, name: None, status: None, emoji: None, media: None, media_type: None }
}

#[test]
fn merge_identity_keeps_record() {
    let r = full_record();
    let merged = r.update_status_fields(empty_update());
    assert_eq!(merged, full_record());
}

#[test]
fn merge_identity_on_empty_record() {
    let r = UserData::new();
    let merged = r.update_status_fields(empty_update());
    assert_eq!(merged, UserData::new());
}

#[test]
fn merge_overwrites_present_fields_per_field() {
    let base = full_record();
    let mut update = empty_update();
    update.status = Some("napping".to_string());
    let merged = base.update_status_fields(update);
    assert_eq!(merged.status, Some("napping".to_string()));
    assert_eq!(merged.name, Some("Alice".to_string()));
    assert_eq!(merged.emoji, Some('\u{1F642}'));

    let mut u2 = empty_update();
    u2.avatar = Some(Avatar { original: "x".to_string() });
    u2.name = Some(String::new());
    u2.emoji = Some('z');
    u2.media = Some("Song".to_string());
    u2.media_type = Some(MediaType::Music);
    let m2 = full_record().update_status_fields(u2);
    assert_eq!(m2.avatar, Some(Avatar { original: "x".to_string() }));
    assert_eq!(m2.name, Some(String::new()));
    assert_eq!(m2.status, Some("reading".to_string()));
    assert_eq!(m2.emoji, Some('z'));
    assert_eq!(m2.media, Some("Song".to_string()));
    assert_eq!(m2.media_type, Some(MediaType::Music));
}

#[test]
fn merge_is_idempotent() {
    let base = full_record();
    let mut update = empty_update();
    update.status = Some("twice".to_string());
    update.emoji = Some('!');
    let once = base.update_status_fields(update);
    let mut update_again = empty_update();
    update_again.status = Some("twice".to_string());
    update_again.emoji = Some('!');
    let twice = once.update_status_fields(update_again);
    assert_eq!(once, twice);
}

#[test]
fn merge_distinguishes_absent_from_empty() {
    let mut base = UserData::new();
    base.status = Some("set".to_string());
    let mut update = empty_update();
    update.status = Some(String::new());
    let merged = base.update_status_fields(update);
    assert_eq!(merged.status, Some(String::new()));
}

#[test]
fn disjoint_updates_both_survive() {
    let base = UserData::new();
    let mut u1 = empty_update();
    u1.status = Some("hello".to_string());
    let mut u2 = empty_update();
    u2.emoji = Some('e');
    let merged = base.update_status_fields(u1).update_status_fields(u2);
    assert_eq!(merged.status, Some("hello".to_string()));
    assert_eq!(merged.emoji, Some('e'));
}

#[test]
fn usernames_valid_and_invalid() {
    assert!(validate_username("alice"));
    assert!(validate_username("bob-2_0"));
    assert!(validate_username("a"));
    assert!(validate_username(&"x".repeat(64)));
    assert!(!validate_username(""));
    assert!(!validate_username(&"x".repeat(65)));
    assert!(!validate_username("Alice"));
    assert!(!validate_username("a/b"));
    assert!(!validate_username("../etc"));
    assert!(!validate_username("a b"));
    assert!(!validate_username("caf\u{e9}"));
}
