use imglaze::cooldown::{CooldownTracker, COOLDOWN_NANOS};
use imglaze::irc::{delivery_reply, handle_chat_message, plan_image_change, ChatAction, ChatMessage, ImagePlan};
use imglaze::ivr::{check_mod, modvip_url, Moderator};
use imglaze::messages::OverlayCommandData;
use imglaze::metrics::register_metrics;
use imglaze::recorder::MetricKind;
use imglaze::models::Overlay;
use imglaze::numbers::parse_i32;
use imglaze::routes::{authorize_creation, callback_params, callback_url, conflict_error, ensure_creator, ensure_secret, generate_secret, needs_mod_check, normalize_channel, on_create_error, parse_overlay_id, reset_secret, secret_from, CreateFailure};
use imglaze::sql::{json_error_from_sql, JsonError, SqlFailure, SqlReason};

fn msg(text: &str, badges: &[&str]) -> ChatMessage {
    ChatMessage {
        channel_login: "chan".to_string(),
        message_text: text.to_string(),
        badges: badges.iter().map(|b| b.to_string()).collect(),
    }
}

#[test]
fn moderator_img_command_changes_image() {
    let mut t = CooldownTracker::new();
    match handle_chat_message(&mut t, &msg("::img https://a.com/x.png please", &["moderator"]), 0) {
        ChatAction::ChangeImage(link) => assert_eq!(link, "https://a.com/x.png"),
        ChatAction::Ignore => panic!("expected an image change"),
    }
}

#[test]
fn non_privileged_or_malformed_messages_are_ignored() {
    let mut t = CooldownTracker::new();
    assert!(matches!(handle_chat_message(&mut t, &msg("::img https://a.com/x.png", &["vip"]), 0), ChatAction::Ignore));
    assert!(matches!(handle_chat_message(&mut t, &msg("img https://a.com/x.png", &["broadcaster"]), 0), ChatAction::Ignore));
    assert!(matches!(handle_chat_message(&mut t, &msg("::i", &["broadcaster"]), 0), ChatAction::Ignore));
    assert!(matches!(handle_chat_message(&mut t, &msg("::img", &["broadcaster"]), 0), ChatAction::Ignore));
    // ignored candidates before the cooldown check left it untouched; "::img" passed it
    assert!(matches!(handle_chat_message(&mut t, &msg("::img a.png", &["broadcaster"]), 1), ChatAction::Ignore));
    assert!(matches!(handle_chat_message(&mut t, &msg("::img a.png", &["broadcaster"]), COOLDOWN_NANOS), ChatAction::ChangeImage(_)));
}

#[test]
fn four_byte_minimum_counts_bytes() {
    let mut t = CooldownTracker::new();
    // "::é" is three characters but four bytes: a candidate, though no command
    assert!(matches!(handle_chat_message(&mut t, &msg("::é", &["moderator"]), 0), ChatAction::Ignore));
    assert!(!t.check_update_cooldown("chan", 1));
}

#[test]
fn image_plan_answers() {
    match plan_image_change("https://a.com/x.gif", "https://p") {
        ImagePlan::Reply(t) => assert_eq!(t, "Bad image: Extension not found or whitelisted"),
        _ => panic!(),
    }
    match plan_image_change("nope", "https://p") {
        ImagePlan::Reply(t) => assert_eq!(t, "Bad image: relative URL without a base"),
        _ => panic!(),
    }
    match plan_image_change("https://a.com/x.png", "https://p") {
        ImagePlan::Show(l) => assert_eq!(l, "https://p/?url=https%3A%2F%2Fa.com%2Fx.png"),
        _ => panic!(),
    }
    let long = format!("https://a.com/{}.png", "a".repeat(240));
    match plan_image_change(&long, "https://p") {
        ImagePlan::Reply(t) => assert_eq!(t, "Link is too long"),
        _ => panic!(),
    }
    assert_eq!(delivery_reply(true), "Ok");
    assert_eq!(delivery_reply(false), "Too much traffic");
}

#[test]
fn moderator_lists() {
    let mods = Some(vec![Moderator { id: "1".to_string(), login: "alice".to_string() }]);
    assert!(check_mod(&mods, "alice"));
    assert!(!check_mod(&mods, "bob"));
    assert!(!check_mod(&None, "alice"));
    assert_eq!(modvip_url("a b"), "https://api.ivr.fi/v2/twitch/modvip/a%20b");
}

#[test]
fn overlay_ids_parse_like_std() {
    for s in ["42", "-2147483648", "2147483647", "2147483648", "-2147483649", "+5", "-", "+", "", "1a", "+-1", "007", "99999999999999999999", "٣"] {
        assert_eq!(parse_i32(s), s.parse::<i32>().ok(), "{}", s);
    }
    assert_eq!(parse_overlay_id("12").ok(), Some(12));
    let e = parse_overlay_id("x").err().unwrap();
    assert_eq!((e.status, e.message.as_str()), (400, "bad id"));
}

#[test]
fn ownership_and_secrets() {
    let o = Overlay { id: 1, created_by: "u1".to_string(), for_user: "chan".to_string(), secret: "s3cret".to_string(), last_image: None };
    assert!(ensure_creator(&o, "u1").is_ok());
    let e = ensure_creator(&o, "u2").err().unwrap();
    assert_eq!((e.status, e.message.as_str()), (403, "arnoldHalt you are not the creator!"));
    assert!(ensure_secret(&o, "s3cret").is_ok());
    let e = ensure_secret(&o, "s3cre").err().unwrap();
    assert_eq!((e.status, e.message.as_str()), (401, "No, I don't think so"));
}

#[test]
fn creation_permissions() {
    assert!(!needs_mod_check("chan", "chan"));
    assert!(needs_mod_check("me", "chan"));
    assert!(authorize_creation("chan", "chan", false).is_ok());
    assert!(authorize_creation("me", "chan", true).is_ok());
    let e = authorize_creation("me", "chan", false).err().unwrap();
    assert_eq!((e.status, e.message.as_str()), (403, "You aren't a moderator."));
    assert_eq!(normalize_channel("FooBAR"), "foobar");
}

#[test]
fn creation_failures() {
    let dup = JsonError::new(SqlReason::Duplicate("overlays_created_by_for_user_uindex".to_string()), 409);
    assert!(matches!(on_create_error(&dup), CreateFailure::AskCreator));
    let other = JsonError::new(SqlReason::Duplicate("other".to_string()), 409);
    match on_create_error(&other) {
        CreateFailure::Reject(e) => assert_eq!((e.status, e.message.as_str()), (400, "This channel already exists")),
        _ => panic!(),
    }
    let e = conflict_error(Some("bob"));
    assert_eq!((e.status, e.message.as_str()), (409, "This channel already exists. It's managed by bob"));
    let e = conflict_error(None);
    assert_eq!(e.message, "This channel already exists but there's no further info.");
}

#[test]
fn sql_errors_classified() {
    let e = json_error_from_sql(SqlFailure::RowNotFound);
    assert!(matches!(e.error, SqlReason::NotFound));
    assert_eq!(e.status, 404);
    assert_eq!(e.error.message(), "SQL: NotFound");
    let e = json_error_from_sql(SqlFailure::Database(Some("c".to_string())));
    assert!(matches!(e.error, SqlReason::Duplicate(ref c) if c == "c"));
    assert_eq!(e.status, 409);
    let e = json_error_from_sql(SqlFailure::Database(None));
    assert!(matches!(e.error, SqlReason::Internal));
    assert_eq!(e.status, 500);
    assert!(matches!(json_error_from_sql(SqlFailure::Other).error, SqlReason::Internal));
    assert!(matches!(json_error_from_sql(SqlFailure::ColumnNotFound).error, SqlReason::NotFound));
}

#[test]
fn twitch_callback_params() {
    assert_eq!(callback_params(Some("c".into()), Some("s".into()), None, None), Ok(("c".to_string(), "s".to_string())));
    assert_eq!(callback_params(None, Some("s".into()), Some("e".into()), Some("d".into())), Err(Some("d".to_string())));
    assert_eq!(callback_params(Some("c".into()), None, Some("e".into()), None), Err(Some("e".to_string())));
    assert_eq!(callback_params(None, None, None, None), Err(None));
    assert_eq!(callback_url("https://x"), "https://x/api/v1/auth/twitch-callback");
}

#[test]
fn secrets_are_thirty_alphanumerics() {
    let a = generate_secret();
    let b = generate_secret();
    assert_eq!(a.len(), 30);
    assert!(a.chars().all(|c| c.is_ascii_alphanumeric()));
    assert_ne!(a, b);
}

#[test]
fn metrics_register_without_recorder() {
    let registered = register_metrics();
    assert_eq!(registered.len(), 2);
    assert!(registered[0].kind() == MetricKind::Gauge);
    assert_eq!((registered[0].name(), registered[0].description()), ("imglaze_active_sockets", "Active Sockets"));
    assert!(registered[1].kind() == MetricKind::Counter);
    assert_eq!((registered[1].name(), registered[1].description()), ("imglaze_images_changed", "Amount of images changed"));
}

fn overlay(last_image: Option<&str>) -> Overlay {
    Overlay {
        id: 4,
        created_by: "u1".to_string(),
        for_user: "chan".to_string(),
        secret: "old".to_string(),
        last_image: last_image.map(|s| s.to_string()),
    }
}

#[test]
fn overlay_remembers_shown_image() {
    let mut o = overlay(Some("https://x/old.png"));
    o.remember(&OverlayCommandData::Image("https://x/new.png".to_string()));
    assert_eq!(o.last_image.as_deref(), Some("https://x/new.png"));
    assert_eq!((o.id, o.secret.as_str(), o.for_user.as_str()), (4, "old", "chan"));
    let mut fresh = overlay(None);
    fresh.remember(&OverlayCommandData::Image("https://x/a.png".to_string()));
    assert_eq!(fresh.last_image.as_deref(), Some("https://x/a.png"));
}

#[test]
fn reset_secret_closes_old_sockets() {
    let mut o = overlay(Some("https://x/a.png"));
    let close = reset_secret(&mut o, "n3w".to_string());
    assert_eq!(close.0, 4);
    assert_eq!(o.secret, "n3w");
    assert_eq!(o.last_image.as_deref(), Some("https://x/a.png"));
    assert!(ensure_secret(&o, "old").is_err());
    assert!(ensure_secret(&o, "n3w").is_ok());
}

#[test]
fn secret_keeps_drawn_characters_in_order() {
    assert_eq!(secret_from(&vec!['a', 'Z', '0', 'q']), "aZ0q");
    assert_eq!(secret_from(&Vec::new()), "");
}
