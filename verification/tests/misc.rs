use bot_runner::botscript::message_info::{MessageInfo, MessageInfoBuilder};
use bot_runner::botscript::ResolveError;
use bot_runner::config::result::ConfigError;
use bot_runner::config::value::RawValue;
use bot_runner::message_answerer::{
    answer_kind, get_text, group_caption, variant_is_missing, AnswerKind,
};
use bot_runner::mongodb_storage::Dialogue;
use bot_runner::runtimes::mlua::LuaInit;
use bot_runner::runtimes::v8::{ActorError, EventType, RuntimeReturn, V8Init, ValueHandler};
use bot_runner::utils::table::Table;

#[test]
fn message_info_builder() {
    let empty: MessageInfo = MessageInfoBuilder::new().build();
    assert_eq!(empty.variant(), None);
    let info = MessageInfoBuilder::new().set_variant(Some("v".to_string())).build();
    assert_eq!(info.variant(), Some("v"));
    let cleared = MessageInfoBuilder::new()
        .set_variant(Some("v".to_string()))
        .set_variant(None)
        .build();
    assert_eq!(cleared.variant(), None);

    let raw: RawValue<()> = info.to_raw();
    match raw {
        RawValue::Object(fields) => {
            assert_eq!(fields.len(), 1);
            assert_eq!(fields[0].0, "variant");
            assert!(matches!(&fields[0].1, RawValue::Text(t) if t == "v"));
        }
        _ => panic!("the info is no object"),
    }
    let raw: RawValue<()> = empty.to_raw();
    assert!(matches!(raw, RawValue::Object(fields) if matches!(fields[0].1, RawValue::Null)));
}

#[test]
fn runtime_answers_are_told_apart() {
    type Answer = RuntimeReturn<i32, String>;
    assert_eq!(Answer::Value(1).as_value(), Some(1));
    assert_eq!(Answer::OptionalValue(Some(1)).as_value(), None);
    assert_eq!(Answer::Config("c".to_string()).as_value(), None);
    assert_eq!(Answer::OptionalValue(Some(2)).as_optional_value(), Some(Some(2)));
    assert_eq!(Answer::OptionalValue(None).as_optional_value(), Some(None));
    assert_eq!(Answer::Value(2).as_optional_value(), None);
    assert_eq!(Answer::Config("c".to_string()).as_config(), Some("c".to_string()));
    assert_eq!(Answer::Value(3).as_config(), None);

    assert_eq!(Answer::call_result(None), Err(ActorError::RuntimeUnavailable));
    assert_eq!(Answer::call_result(Some(Answer::OptionalValue(Some(4)))), Ok(Some(4)));
    assert_eq!(Answer::call_result(Some(Answer::OptionalValue(None))), Ok(None));
    assert_eq!(Answer::call_result(Some(Answer::Value(4))), Err(ActorError::UnexpectedAnswer));
    assert_eq!(Answer::config_result(None), Err(ActorError::RuntimeUnavailable));
    assert_eq!(
        Answer::config_result(Some(Answer::Config("c".to_string()))),
        Ok("c".to_string())
    );
    assert_eq!(
        Answer::config_result(Some(Answer::OptionalValue(None))),
        Err(ActorError::UnexpectedAnswer)
    );

    let request: EventType<ValueHandler, i32> =
        EventType::ExecuteFunction(ValueHandler::new("key".to_string()), vec![1, 2]);
    match request {
        EventType::ExecuteFunction(f, args) => {
            assert_eq!(f.get_value(), "key");
            assert_eq!(args, vec![1, 2]);
        }
        EventType::GetScriptConfig(_) => panic!("the request changed its kind"),
    }
    assert_eq!(V8Init::new("code".to_string()).code(), "code");
    assert_eq!(LuaInit::new("lua".to_string()).config(), "lua");
}

#[test]
fn dialogue_bytes_round_trip() {
    let bytes: Vec<u8> = vec![0, 1, 127, 128, 255];
    let record = Dialogue::from_bytes(-5, &bytes);
    assert_eq!(record.chat_id, -5);
    assert_eq!(record.dialogue, vec![0u32, 1, 127, 128, 255]);
    assert_eq!(record.to_bytes(), bytes);
    let wide = Dialogue { chat_id: 1, dialogue: vec![256, 257, 511, 65_536 + 7] };
    assert_eq!(wide.to_bytes(), vec![0u8, 1, 255, 7]);
    assert!(Dialogue::from_bytes(0, &[]).to_bytes().is_empty());
}

#[test]
fn answers_by_text_and_media() {
    assert_eq!(get_text(Some("v".to_string()), Some("l".to_string())), "v");
    assert_eq!(get_text(None, Some("l".to_string())), "l");
    assert_eq!(get_text(Some("v".to_string()), None), "v");
    assert_eq!(get_text(None, None), "Please, set content of this message");
    assert!(variant_is_missing(true, false, false));
    assert!(!variant_is_missing(true, true, false));
    assert!(!variant_is_missing(true, false, true));
    assert!(!variant_is_missing(false, false, false));
    assert_eq!(answer_kind(0), AnswerKind::Text);
    assert_eq!(answer_kind(1), AnswerKind::SingleMedia);
    assert_eq!(answer_kind(2), AnswerKind::MediaGroup);
    assert_eq!(answer_kind(10), AnswerKind::MediaGroup);
    assert_eq!(group_caption(0, "cap"), Some("cap".to_string()));
    assert_eq!(group_caption(0, ""), None);
    assert_eq!(group_caption(1, "cap"), None);
}

#[test]
fn tables_hold_each_name_once() {
    let mut table: Table<i32> = Table::new();
    assert_eq!(table.len(), 0);
    assert_eq!(table.insert("a".to_string(), 1), None);
    assert_eq!(table.insert("b".to_string(), 2), None);
    assert_eq!(table.insert("a".to_string(), 3), Some(1));
    assert_eq!(table.len(), 2);
    assert_eq!(table.get("a"), Some(&3));
    assert_eq!(table.get("b"), Some(&2));
    assert_eq!(table.get("c"), None);
    assert!(table.contains_key("b"));
    assert!(!table.contains_key(""));
    assert_eq!(table.position("b"), Some(1));
    assert_eq!(table.remove("a"), Some(3));
    assert_eq!(table.remove("a"), None);
    assert_eq!(table.get("b"), Some(&2));
    assert_eq!(table.len(), 1);
}

#[test]
fn errors_carry_their_texts() {
    assert!(matches!(
        ConfigError::provider_err("boom"),
        ConfigError::ProviderError(msg) if msg == "ProviderError: boom"
    ));
    assert!(matches!(ConfigError::other("x"), ConfigError::Other(msg) if msg == "x"));
    assert!(matches!(
        ResolveError::IncorrectLiteral("l".to_string()),
        ResolveError::IncorrectLiteral(msg) if msg == "l"
    ));
}
