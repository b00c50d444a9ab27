use command_engine::chat::{range_line, Delivery, MsgBuilder};
use command_engine::dialog::{DialogBuilder, DialogManager, DialogResponse};
use command_engine::encode::to_cp1252;
use command_engine::text::{contains_str, parse_i32, split_words};
use command_engine::validate::{
    ArgError, ArgKind, ArgValidator, NumberConstraints, PlayerConstraints, PlayerDirectory,
    PlayerInfo, StringConstraints, Violation,
};

#[test]
fn parses_i32_like_std() {
    assert_eq!(parse_i32("42"), Some(42));
    assert_eq!(parse_i32("+7"), Some(7));
    assert_eq!(parse_i32("-2147483648"), Some(i32::MIN));
    assert_eq!(parse_i32("2147483647"), Some(i32::MAX));
    assert_eq!(parse_i32("2147483648"), None);
    assert_eq!(parse_i32("99999999999999999999x"), None);
    assert_eq!(parse_i32("-"), None);
    assert_eq!(parse_i32(""), None);
    assert_eq!(parse_i32("1a"), None);
    assert_eq!(parse_i32(" 1"), None);
    for s in ["0", "-0", "007", "123456", "-99"] {
        assert_eq!(parse_i32(s), s.parse::<i32>().ok());
    }
}

#[test]
fn substring_search() {
    assert!(contains_str("hello world", "lo w"));
    assert!(contains_str("abc", ""));
    assert!(!contains_str("abc", "abcd"));
    assert!(!contains_str("abc", "ac"));
    assert!(contains_str("añb", "ñ"));
}

#[test]
fn splits_on_unicode_whitespace() {
    assert_eq!(split_words("a\u{3000}b\u{a0}c d"), vec!["a", "b", "c", "d"]);
    assert!(split_words("").is_empty());
}

#[test]
fn number_checks_in_order() {
    let c = NumberConstraints::new().positive().min(10).max(20);
    assert_eq!(c.validate(0), Err(Violation::NotPositive));
    assert_eq!(c.validate(5), Err(Violation::BelowMin(10)));
    assert_eq!(c.validate(21), Err(Violation::AboveMax(20)));
    assert_eq!(c.validate(15), Ok(()));
    assert_eq!(NumberConstraints::new().validate(-100), Ok(()));
}

#[test]
fn string_checks_in_order_with_byte_length() {
    let c = StringConstraints::new().min_length(3).max_length(5).pattern("ab");
    assert_eq!(c.validate("ab"), Err(Violation::TooShort(3)));
    assert_eq!(c.validate("abcdef"), Err(Violation::TooLong(5)));
    assert_eq!(c.validate("xyzw"), Err(Violation::MissingPattern("ab".to_string())));
    assert_eq!(c.validate("xaby"), Ok(()));
    // "éé" is two characters but four bytes
    assert_eq!(StringConstraints::new().max_length(3).validate("éé"), Err(Violation::TooLong(3)));
    assert_eq!(StringConstraints::new().validate(""), Ok(()));
}

#[test]
fn player_checks_in_order() {
    let p = PlayerInfo { id: 1, spawned: true, name: "SpeedRacer".to_string(), health: 40 };
    let c = PlayerConstraints::new().must_be_spawned().with_nick("Racer").min_health(50);
    assert_eq!(c.validate(&p), Err(Violation::HealthBelow(50)));
    let c = PlayerConstraints::new().with_nick("Slow").max_health(10);
    assert_eq!(c.validate(&p), Err(Violation::NickMismatch("Slow".to_string())));
    let c = PlayerConstraints::new().max_health(10);
    assert_eq!(c.validate(&p), Err(Violation::HealthAbove(10)));
    assert_eq!(PlayerConstraints::new().min_health(40).max_health(40).validate(&p), Ok(()));
}

#[test]
fn validator_outcomes() {
    let mut dir = PlayerDirectory::new();
    dir.insert(PlayerInfo { id: 2, spawned: false, name: "x".to_string(), health: 1 });
    let pv = ArgValidator::Player(PlayerConstraints::new());
    assert_eq!(pv.validate("2", &dir), Ok(()));
    assert_eq!(pv.validate("5", &dir), Err(ArgError::EntryNotFound(5)));
    assert_eq!(pv.validate("two", &dir), Err(ArgError::ParseError(ArgKind::Player)));
    assert_eq!(ArgValidator::Text.validate("anything", &dir), Ok(()));
    assert_eq!(
        ArgValidator::String(StringConstraints::new().min_length(2)).validate("a", &dir),
        Err(ArgError::ConstraintViolation(Violation::TooShort(2)))
    );
    assert_eq!(ArgValidator::Number(NumberConstraints::new()).kind(), ArgKind::Number);
    assert_eq!(dir.resolve(2).unwrap().name, "x");
    assert!(dir.resolve(3).is_none());
}

#[test]
fn messages_carry_numbers_and_patterns() {
    assert_eq!(Violation::BelowMin(-5).message(), "Number must be at least -5");
    assert_eq!(Violation::TooShort(12).message(), "String must be at least 12 characters");
    assert_eq!(Violation::MissingPattern("ab".to_string()).message(), "String must contain 'ab'");
    assert_eq!(Violation::HealthAbove(100).message(), "Player health must be at most 100");
    assert_eq!(ArgError::EntryNotFound(77).message(), "Player 77 not found");
    assert_eq!(ArgError::ParseError(ArgKind::Player).message(), "Invalid player id");
}

#[test]
fn message_delivery() {
    assert_eq!(MsgBuilder::new().delivery(), Delivery::Nothing);
    assert_eq!(MsgBuilder::new().text("hi").delivery(), Delivery::Everyone("hi".to_string()));
    assert_eq!(
        MsgBuilder::new().select(3).text("yo").delivery(),
        Delivery::Player(3, "yo".to_string())
    );
    assert_eq!(range_line("Ana", "oi"), "Ana disse: oi");
}

#[test]
fn dialog_ids_pair_requests_with_answers() {
    let mut m: DialogManager<&str> = DialogManager::new();
    assert_eq!(m.send("first"), Some(1));
    assert_eq!(m.send("second"), Some(2));
    let (w, resp) = m.notify(2, 7, 1, -1, "yes".to_string()).unwrap();
    assert_eq!(w, "second");
    assert_eq!(
        resp,
        DialogResponse {
            dialog_id: 2,
            player_id: 7,
            button_response: 1,
            selected_item: -1,
            answer: "yes".to_string()
        }
    );
    assert!(m.notify(2, 7, 1, -1, "again".to_string()).is_none());
    assert!(m.notify(9, 7, 1, -1, "no".to_string()).is_none());
    assert_eq!(m.notify(1, 3, 0, 0, String::new()).unwrap().0, "first");
}

#[test]
fn dialog_builder_sets_fields() {
    let d = DialogBuilder::new().set_title("T").set_message("M");
    assert_eq!(d.title, "T");
    assert_eq!(d.message, "M");
    assert_eq!(DialogBuilder::new().title, "");
}

#[test]
fn cp1252_encoding() {
    assert_eq!(to_cp1252("abc"), b"abc".to_vec());
    assert_eq!(to_cp1252("é€"), vec![0xE9, 0x80]);
}
