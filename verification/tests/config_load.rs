use bot_runner::bot_handler::{
    callback_message, callback_reply, command_message, is_propagate, message_info,
    meta_to_insert, propagate_after, CallbackReply,
};
use bot_runner::bot_manager::{notificator_step, NotificatorStep};
use bot_runner::clock::Timestamp;
use bot_runner::config::dialog::button::{ButtonDefinition, ButtonLayout, ButtonName, ButtonRaw};
use bot_runner::config::dialog::keyboard::{KeyboardDefinition, RowDefinition};
use bot_runner::config::dialog::message::BotMessage;
use bot_runner::config::function::{BotFunction, FunctionSlot};
use bot_runner::config::notification::{
    MessageSource, NotificationFilter, NotificationMessage, Recipients,
};
use bot_runner::config::result::{ConfigError, LoadError};
use bot_runner::config::time::NotificationTime;
use bot_runner::config::traits::provider::{
    Provider, ProviderCall, ProviderDeserialize, ProviderError, ProviderSerialize,
};
use bot_runner::config::traits::resolve_value::ResolveValue;
use bot_runner::config::value::{child_path, find_field, Number, RawValue};
use bot_runner::config::RunnerConfig;
use bot_runner::db::User;
use bot_runner::runtimes::v8::value_replace::replace;
use bot_runner::utils::parcelable::{ParcelFault, ParcelType, Parcelable, ParcelableError};
use std::sync::atomic::{AtomicUsize, Ordering};
use std::sync::Arc;

/// Plain data of the test engine.
#[derive(Clone, Debug, PartialEq)]
enum Datum {
    Null,
    Bool(bool),
    Int(i64),
    Text(String),
    List(Vec<Datum>),
    Object(Vec<(String, Datum)>),
    /// A value that the engine cannot turn into plain data of the host.
    Opaque,
}

#[derive(Debug)]
struct EngineError(String);

/// A callable of the test engine: it counts its calls and answers with what
/// it was made with.
struct Callable {
    calls: Arc<AtomicUsize>,
    answer: Answer,
}

enum Answer {
    Nothing,
    Data(Datum),
    Fail(String),
    /// The first name of the user that is handed in.
    FirstName,
    /// The number of arguments.
    Count,
}

#[derive(Clone)]
struct Engine;

impl Provider for Engine {
    type Function = Callable;
    type Value = Datum;
    type Error = EngineError;
    type InitData = RawValue<Callable>;

    fn init_config(&self, d: RawValue<Callable>) -> Result<RunnerConfig<Self>, EngineError> {
        match RunnerConfig::load(d, Timestamp::new(0, 0).unwrap()) {
            Ok((config, _)) => Ok(config),
            Err(e) => Err(EngineError(format!("{e:?}"))),
        }
    }
}

impl ProviderCall<Engine> for Callable {
    fn call(&self, args: &[&Datum]) -> Result<Option<Datum>, EngineError> {
        self.calls.fetch_add(1, Ordering::SeqCst);
        match &self.answer {
            Answer::Nothing => Ok(None),
            Answer::Data(d) => Ok(Some(d.clone())),
            Answer::Fail(why) => Err(EngineError(why.clone())),
            Answer::Count => Ok(Some(Datum::Int(args.len() as i64))),
            Answer::FirstName => match args.first() {
                Some(Datum::Object(fields)) => Ok(fields
                    .iter()
                    .find(|(k, _)| k == "first_name")
                    .map(|(_, v)| v.clone())),
                _ => Err(EngineError("no user".to_string())),
            },
        }
    }
}

impl ProviderDeserialize<Engine> for Datum {
    fn de_into(&self) -> Result<RawValue<Callable>, EngineError> {
        Ok(match self {
            Datum::Null => RawValue::Null,
            Datum::Bool(b) => RawValue::Bool(*b),
            Datum::Int(n) => RawValue::Int(*n),
            Datum::Text(s) => RawValue::Text(s.clone()),
            Datum::List(items) => {
                let mut out = Vec::new();
                for item in items {
                    out.push(item.de_into()?);
                }
                RawValue::List(out)
            }
            Datum::Object(fields) => {
                let mut out = Vec::new();
                for (k, v) in fields {
                    out.push((k.clone(), v.de_into()?));
                }
                RawValue::Object(out)
            }
            Datum::Opaque => return Err(EngineError("opaque".to_string())),
        })
    }
}

impl ProviderSerialize<Engine> for Datum {
    fn se_from(from: &RawValue<Callable>) -> Result<Self, EngineError> {
        Ok(match from {
            RawValue::Null => Datum::Null,
            RawValue::Bool(b) => Datum::Bool(*b),
            RawValue::Int(n) => Datum::Int(*n),
            RawValue::Float(_) => return Err(EngineError("float".to_string())),
            RawValue::Text(s) => Datum::Text(s.clone()),
            RawValue::List(items) => {
                let mut out = Vec::new();
                for item in items {
                    out.push(Datum::se_from(item)?);
                }
                Datum::List(out)
            }
            RawValue::Object(fields) => {
                let mut out = Vec::new();
                for (k, v) in fields {
                    out.push((k.clone(), Datum::se_from(v)?));
                }
                Datum::Object(out)
            }
            RawValue::Function(_) | RawValue::Placeholder(_) => {
                return Err(EngineError("callable".to_string()))
            }
        })
    }
}

impl ProviderError for EngineError {
    fn describe(&self) -> String {
        self.0.clone()
    }
}

type Raw = RawValue<Callable>;

fn text(s: &str) -> Raw {
    RawValue::Text(s.to_string())
}

fn object(fields: Vec<(&str, Raw)>) -> Raw {
    RawValue::Object(fields.into_iter().map(|(k, v)| (k.to_string(), v)).collect())
}

fn function(answer: Answer) -> (Raw, Arc<AtomicUsize>) {
    let calls = Arc::new(AtomicUsize::new(0));
    (RawValue::Function(Callable { calls: calls.clone(), answer }), calls)
}

fn datum_object(fields: Vec<(&str, Datum)>) -> Datum {
    Datum::Object(fields.into_iter().map(|(k, v)| (k.to_string(), v)).collect())
}

fn created() -> Timestamp {
    Timestamp::new(1_710_028_800, 0).unwrap()
}

/// A script's configuration with the given commands and notifications.
fn script(commands: Vec<(&str, Raw)>, notifications: Vec<Raw>) -> Raw {
    object(vec![
        ("config", object(vec![("version", RawValue::Int(1)), ("timezone", RawValue::Int(3))])),
        ("dialog", object(vec![("commands", object(commands))])),
        ("notifications", RawValue::List(notifications)),
    ])
}

fn load(raw: Raw) -> (RunnerConfig<Engine>, Vec<String>) {
    match RunnerConfig::load(raw, created()) {
        Ok(loaded) => loaded,
        Err(e) => panic!("the configuration was refused: {e:?}"),
    }
}

fn user() -> User {
    User {
        id: 7,
        is_admin: false,
        first_name: "Nick".to_string(),
        last_name: None,
        username: Some("nick".to_string()),
        language_code: None,
        metas: vec!["promo".to_string()],
    }
}

#[test]
fn command_literal_defaults_to_the_command_name() {
    let raw = script(
        vec![
            ("start", object(vec![])),
            ("help", object(vec![("literal", text("s"))])),
        ],
        vec![],
    );
    let (rc, skipped) = load(raw);
    assert!(skipped.is_empty());

    let start = rc.get_command_message("start").unwrap();
    assert_eq!(start.literal(), Some(&"start".to_string()));
    // the message `start` counts as onboarding by default
    assert!(start.meta());
    assert!(!start.is_replace());
    assert!(start.get_handler().is_none());

    let help = rc.get_command_message("help").unwrap();
    assert_eq!(help.literal(), Some(&"s".to_string()));
    assert!(!help.meta());

    assert!(rc.get_command_message("missing").is_none());
    assert!(rc.get_command_message("").is_none());
}

#[test]
fn explicit_literal_start_gets_the_default_meta() {
    let raw = script(
        vec![
            ("begin", object(vec![("literal", text("start"))])),
            ("start", object(vec![("meta", RawValue::Bool(false))])),
        ],
        vec![],
    );
    let (rc, _) = load(raw);
    assert!(rc.get_command_message("begin").unwrap().meta());
    assert!(!rc.get_command_message("start").unwrap().meta());
}

#[test]
fn handler_is_reattached_and_callable() {
    let (handler, calls) = function(Answer::Data(Datum::Bool(false)));
    let raw = script(vec![("start", object(vec![("handler", handler)]))], vec![]);
    let (rc, skipped) = load(raw);
    assert!(skipped.is_empty());

    let message = rc.get_command_message("start").unwrap();
    let handler = message.get_handler().unwrap();
    assert!(handler.is_live());
    assert!(matches!(handler.resolve(), ParcelType::Function));
    assert_eq!(calls.load(Ordering::SeqCst), 0);
    let answer = handler.call().unwrap();
    assert_eq!(answer, Some(Datum::Bool(false)));
    assert_eq!(calls.load(Ordering::SeqCst), 1);

    // every copy of the message shares the one callable of the script
    let again = rc.get_command_message("start").unwrap();
    again.get_handler().unwrap().call().unwrap();
    assert_eq!(calls.load(Ordering::SeqCst), 2);
}

#[test]
fn extraction_leaves_placeholders_with_dotted_paths() {
    let (f, _) = function(Answer::Nothing);
    let (g, _) = function(Answer::Nothing);
    let raw = object(vec![
        ("a", object(vec![("b", f)])),
        ("list", RawValue::List(vec![RawValue::Int(1), g])),
        ("plain", text("x")),
    ]);
    let mut found = Vec::new();
    let plain = replace(raw, "", &mut found);
    let paths: Vec<&str> = found.iter().map(|(p, _)| p.as_str()).collect();
    assert_eq!(paths, vec!["a.b", "list.1"]);

    let fields = plain.as_object().unwrap();
    let a = find_field(fields, "a").unwrap().as_object().unwrap();
    assert!(matches!(find_field(a, "b"), Some(RawValue::Placeholder(p)) if p == "a.b"));
    let list = find_field(fields, "list").unwrap().as_list().unwrap();
    assert!(matches!(&list[0], RawValue::Int(1)));
    assert!(matches!(&list[1], RawValue::Placeholder(p) if p == "list.1"));
    assert!(matches!(find_field(fields, "plain"), Some(RawValue::Text(t)) if t == "x"));

    assert_eq!(child_path("", "a"), "a");
    assert_eq!(child_path("a", "b"), "a.b");
    assert_eq!(child_path("a.b", "0"), "a.b.0");

    let (root, _) = function(Answer::Nothing);
    let mut found = Vec::new();
    let plain = replace(root, "here", &mut found);
    assert!(matches!(plain, RawValue::Placeholder(p) if p == "here"));
    assert_eq!(found.len(), 1);
    assert_eq!(found[0].0, "here");
}

#[test]
fn unresolvable_paths_are_skipped_not_fatal() {
    let (dropped, dropped_calls) = function(Answer::Nothing);
    let (kept, _) = function(Answer::Data(Datum::Int(1)));
    let raw = script(
        vec![("start", object(vec![("unknown_field", dropped), ("handler", kept)]))],
        vec![],
    );
    let (rc, skipped) = load(raw);
    assert_eq!(skipped, vec!["dialog.commands.start.unknown_field".to_string()]);
    assert!(rc.get_command_message("start").unwrap().get_handler().unwrap().is_live());
    assert_eq!(dropped_calls.load(Ordering::SeqCst), 0);
}

#[test]
fn a_name_with_a_dot_cannot_be_addressed() {
    let (handler, _) = function(Answer::Nothing);
    let raw = script(vec![("a.b", object(vec![("handler", handler)]))], vec![]);
    let (rc, skipped) = load(raw);
    assert_eq!(skipped, vec!["dialog.commands.a.b.handler".to_string()]);
    let message = rc.get_command_message("a.b").unwrap();
    let handler = message.get_handler().unwrap();
    assert!(!handler.is_live());
    // a placeholder that survives errors only when it is invoked
    match handler.call() {
        Err(ConfigError::Other(msg)) => {
            assert_eq!(msg, "function is not attached: dialog.commands.a.b.handler")
        }
        _ => panic!("a placeholder was called"),
    }
}

#[test]
fn malformed_parts_are_told() {
    let load_err = |raw: Raw| match RunnerConfig::<Engine>::load(raw, created()) {
        Err(e) => e,
        Ok(_) => panic!("a malformed configuration was taken"),
    };
    assert_eq!(load_err(text("nope")), LoadError::Root);
    assert_eq!(load_err(object(vec![("dialog", object(vec![]))])), LoadError::Config);
    assert_eq!(
        load_err(object(vec![("config", object(vec![])), ("dialog", object(vec![]))])),
        LoadError::Config
    );
    assert_eq!(
        load_err(object(vec![
            ("config", object(vec![("version", RawValue::Int(1)), ("timezone", RawValue::Int(128))])),
            ("dialog", object(vec![])),
        ])),
        LoadError::Config
    );
    assert_eq!(
        load_err(object(vec![("config", object(vec![("version", RawValue::Int(1))]))])),
        LoadError::Dialog
    );
    assert_eq!(
        load_err(object(vec![
            ("config", object(vec![("version", RawValue::Float(0x3ff0000000000000))])),
            ("dialog", object(vec![("commands", object(vec![("start", text("oops"))]))])),
        ])),
        LoadError::Dialog
    );
    assert_eq!(
        load_err(object(vec![
            ("config", object(vec![("version", RawValue::Int(1))])),
            ("dialog", object(vec![("commands", object(vec![
                ("start", object(vec![])),
                ("start", object(vec![])),
            ]))])),
        ])),
        LoadError::Dialog
    );
    assert_eq!(
        load_err(object(vec![
            ("config", object(vec![("version", RawValue::Int(1))])),
            ("dialog", object(vec![])),
            ("notifications", RawValue::List(vec![object(vec![("time", text("18:00"))])])),
        ])),
        LoadError::Notifications
    );
    assert_eq!(
        load_err(script(vec![], vec![object(vec![
            ("time", text("half past six")),
            ("message", object(vec![("text", text("x"))])),
        ])])),
        LoadError::Notifications
    );
    // a callable where data must stand fails the structural pass
    let (f, _) = function(Answer::Nothing);
    assert_eq!(
        load_err(script(vec![("start", object(vec![("literal", f)]))], vec![])),
        LoadError::Dialog
    );
}

#[test]
fn minimal_configuration_loads() {
    let raw = object(vec![
        ("config", object(vec![("version", RawValue::Float(0x3ff8000000000000))])),
        ("dialog", object(vec![])),
    ]);
    let (rc, skipped) = load(raw);
    assert!(skipped.is_empty());
    assert_eq!(rc.config.version, Number::Float(0x3ff8000000000000));
    assert_eq!(rc.config.timezone, 0);
    assert_eq!(rc.dialog.commands.len(), 0);
    assert_eq!(rc.dialog.buttons.len(), 0);
    assert_eq!(rc.notifications.len(), 0);
    assert_eq!(rc.created_at.at, created());
    assert!(matches!(notificator_step(&rc), NotificatorStep::Retire));
}

#[test]
fn init_config_of_a_provider() {
    let (handler, _) = function(Answer::Nothing);
    let rc = Engine
        .init_config(script(vec![("start", object(vec![("handler", handler)]))], vec![]))
        .unwrap();
    assert!(rc.get_command_message("start").unwrap().get_handler().unwrap().is_live());
    assert!(Engine.init_config(RawValue::Null).is_err());
}

#[test]
fn variants_fall_back_to_the_command() {
    let raw = object(vec![
        ("config", object(vec![("version", RawValue::Int(1))])),
        (
            "dialog",
            object(vec![
                (
                    "commands",
                    object(vec![
                        ("start", object(vec![("state", text("begin"))])),
                        ("plain", object(vec![])),
                    ]),
                ),
                (
                    "variants",
                    object(vec![
                        (
                            "start",
                            object(vec![(
                                "promo",
                                object(vec![("literal", text("start_promo")), ("replace", RawValue::Bool(true))]),
                            )]),
                        ),
                        ("orphan", object(vec![("x", object(vec![]))])),
                    ]),
                ),
                ("buttons", object(vec![("more", object(vec![("replace", RawValue::Bool(true))]))])),
            ]),
        ),
    ]);
    let (rc, _) = load(raw);

    let promo = rc.get_command_message_varianted("start", "promo").unwrap();
    assert_eq!(promo.literal(), Some(&"start_promo".to_string()));
    assert!(promo.is_replace());
    assert!(!promo.meta());

    let other = rc.get_command_message_varianted("start", "other").unwrap();
    assert_eq!(other.literal(), Some(&"start".to_string()));
    assert_eq!(other.state(), Some(&"begin".to_string()));
    assert!(other.meta());

    let plain = rc.get_command_message_varianted("plain", "promo").unwrap();
    assert_eq!(plain.literal(), Some(&"plain".to_string()));
    assert!(rc.get_command_message_varianted("orphan", "x").is_none());
    assert!(rc.get_command_message_varianted("missing", "promo").is_none());

    let more = rc.get_callback_message("more").unwrap();
    assert_eq!(more.literal(), Some(&"more".to_string()));
    assert!(more.is_replace());
    assert!(!more.meta());
    assert!(rc.get_callback_message("start").is_none());

    assert_eq!(
        command_message(&rc, "/start promo").unwrap().literal(),
        Some(&"start_promo".to_string())
    );
    assert_eq!(
        command_message(&rc, "/start").unwrap().literal(),
        Some(&"start".to_string())
    );
    assert_eq!(
        command_message(&rc, "/start other stuff").unwrap().literal(),
        Some(&"start".to_string())
    );
    assert!(command_message(&rc, "start").is_none());
    assert!(command_message(&rc, "/unknown").is_none());
    assert!(callback_message(&rc, Some("more")).is_some());
    assert!(callback_message(&rc, Some("less")).is_none());
    assert!(callback_message(&rc, None).is_none());
}

#[test]
fn keyboards_resolve_through_the_script() {
    let (row_fn, row_calls) = function(Answer::Data(Datum::List(vec![
        Datum::Text("from_row".to_string()),
        datum_object(vec![
            ("name", datum_object(vec![("name", Datum::Text("Shown".to_string()))])),
            ("callback_name", Datum::Text("cb".to_string())),
        ]),
    ])));
    let (button_fn, _) = function(Answer::Data(Datum::Text("from_button".to_string())));
    let keyboard = RawValue::List(vec![
        RawValue::List(vec![
            text("first"),
            object(vec![
                ("name", object(vec![("literal", text("lit"))])),
                ("callback_name", text("second")),
            ]),
            button_fn,
        ]),
        row_fn,
    ]);
    let raw = script(vec![("menu", object(vec![("buttons", keyboard)]))], vec![]);
    let (rc, skipped) = load(raw);
    assert!(skipped.is_empty());

    let menu = rc.get_command_message("menu").unwrap();
    let rows = menu.resolve_buttons().unwrap().unwrap();
    assert_eq!(row_calls.load(Ordering::SeqCst), 1);
    assert_eq!(rows.len(), 2);
    let shape: Vec<Vec<(Option<String>, &str)>> = rows
        .iter()
        .map(|r| r.iter().map(|b| (b.literal(), b.callback_name())).collect())
        .collect();
    assert_eq!(
        shape,
        vec![
            vec![
                (Some("first".to_string()), "first"),
                (Some("lit".to_string()), "second"),
                (Some("from_button".to_string()), "from_button"),
            ],
            vec![(Some("from_row".to_string()), "from_row"), (None, "cb")],
        ]
    );
    assert!(matches!(rows[1][1].name(), ButtonName::Value { name } if name == "Shown"));

    let plain = rc.get_command_message("missing");
    assert!(plain.is_none());
}

#[test]
fn keyboard_from_a_callable() {
    let (keyboard_fn, _) = function(Answer::Data(Datum::List(vec![Datum::List(vec![
        Datum::Text("only".to_string()),
    ])])));
    let raw = script(
        vec![
            ("menu", object(vec![("buttons", keyboard_fn)])),
            ("bare", object(vec![])),
        ],
        vec![],
    );
    let (rc, _) = load(raw);
    let rows = rc.get_command_message("menu").unwrap().resolve_buttons().unwrap().unwrap();
    assert_eq!(rows.len(), 1);
    assert_eq!(rows[0].len(), 1);
    assert_eq!(rows[0][0].callback_name(), "only");
    assert!(rc.get_command_message("bare").unwrap().resolve_buttons().unwrap().is_none());
}

#[test]
fn resolution_errors() {
    let live = |answer: Answer| BotFunction::<Engine>::live(Callable {
        calls: Arc::new(AtomicUsize::new(0)),
        answer,
    });
    match ButtonDefinition::Function(live(Answer::Nothing)).resolve() {
        Err(ConfigError::Other(msg)) => assert_eq!(msg, "Function didn't return value"),
        _ => panic!("no value was taken as a button"),
    }
    match ButtonDefinition::Function(live(Answer::Fail("boom".to_string()))).resolve() {
        Err(ConfigError::ProviderError(msg)) => assert_eq!(msg, "ProviderError: boom"),
        _ => panic!("a failed call was taken as a button"),
    }
    match ButtonDefinition::Function(live(Answer::Data(Datum::Opaque))).resolve() {
        Err(ConfigError::ProviderError(msg)) => assert_eq!(msg, "ProviderError: opaque"),
        _ => panic!("an opaque value was taken as a button"),
    }
    match ButtonDefinition::Function(live(Answer::Data(Datum::Int(3)))).resolve() {
        Err(ConfigError::ProviderError(msg)) => {
            assert_eq!(msg, "ProviderError: the function returned data of the wrong shape")
        }
        _ => panic!("a number was taken as a button"),
    }
    match RowDefinition::Function(live(Answer::Data(Datum::Text("x".to_string())))).resolve() {
        Err(ConfigError::ProviderError(_)) => {}
        _ => panic!("a text was taken as a row"),
    }
    match KeyboardDefinition::Function(live(Answer::Data(Datum::List(vec![Datum::Int(1)]))))
        .resolve()
    {
        Err(ConfigError::ProviderError(_)) => {}
        _ => panic!("a list of numbers was taken as a keyboard"),
    }
    let unattached = ButtonDefinition::<Engine>::Function(BotFunction::placeholder("p.q".to_string()));
    match unattached.resolve() {
        Err(ConfigError::Other(msg)) => assert_eq!(msg, "function is not attached: p.q"),
        _ => panic!("a placeholder was resolved"),
    }
    let rows = KeyboardDefinition::<Engine>::Rows(vec![
        RowDefinition::Buttons(vec![ButtonDefinition::ButtonLiteral("a".to_string())]),
        RowDefinition::Function(BotFunction::placeholder("k.1".to_string())),
        RowDefinition::Function(BotFunction::placeholder("k.2".to_string())),
    ]);
    match rows.resolve() {
        Err(ConfigError::Other(msg)) => assert_eq!(msg, "function is not attached: k.1"),
        _ => panic!("a placeholder was resolved"),
    }
    let settled = KeyboardDefinition::<Engine>::Rows(vec![RowDefinition::Buttons(vec![
        ButtonDefinition::ButtonLiteral("a".to_string()),
        ButtonDefinition::Button(ButtonRaw::from_literal("b".to_string())),
    ])]);
    let rows = settled.resolve_settled().unwrap();
    assert_eq!(rows[0][0].callback_name(), "a");
    assert_eq!(rows[0][1].callback_name(), "b");
}

#[test]
fn button_names_and_layouts() {
    let literal = ButtonRaw::from_literal("more".to_string());
    assert_eq!(literal.callback_name(), "more");
    assert_eq!(literal.literal(), Some("more".to_string()));
    assert_eq!(literal.name().literal_key(), Some("more"));
    assert!(matches!(literal.name(), ButtonName::Literal { literal } if literal == "more"));

    match ButtonLayout::resolve_raw(literal.duplicate(), Some("More info".to_string())) {
        Ok(ButtonLayout::Callback { name, literal, callback }) => {
            assert_eq!(name, "More info");
            assert_eq!(literal, Some("more".to_string()));
            assert_eq!(callback, "more");
        }
        Err(_) => panic!("a literal that the store holds was refused"),
    }
    match ButtonLayout::resolve_raw(literal, None) {
        Err(ConfigError::Other(msg)) => assert_eq!(msg, "not found literal `more` in DB"),
        _ => panic!("a literal that the store does not hold was taken"),
    }

    let value = ButtonRaw {
        name: ButtonName::Value { name: "Plain".to_string() },
        callback_name: "cb".to_string(),
    };
    assert_eq!(value.literal(), None);
    assert_eq!(value.name().literal_key(), None);
    match ButtonLayout::resolve_raw(value, None) {
        Ok(ButtonLayout::Callback { name, literal, callback }) => {
            assert_eq!(name, "Plain");
            assert_eq!(literal, None);
            assert_eq!(callback, "cb");
        }
        Err(_) => panic!("a button with a text of its own was refused"),
    }
    let shown = ButtonName::Value { name: "x".to_string() }.resolve_name(Some("y".to_string()));
    assert_eq!(shown.unwrap(), "x");
}

#[test]
fn notification_filters_and_messages() {
    let (ids, _) = function(Answer::Data(Datum::List(vec![Datum::Int(3), Datum::Int(-4)])));
    let (bad_ids, _) = function(Answer::Data(Datum::List(vec![Datum::Text("3".to_string())])));
    let (greeting, _) = function(Answer::FirstName);
    let (silent, _) = function(Answer::Nothing);
    let (null, _) = function(Answer::Data(Datum::Null));
    let (number, _) = function(Answer::Data(Datum::Int(1)));
    let note = |filter: Option<Raw>, message: Raw| {
        let mut fields = vec![("time", object(vec![("delta_minutes", RawValue::Int(5))]))];
        if let Some(f) = filter {
            fields.push(("filter", f));
        }
        fields.push(("message", message));
        object(fields)
    };
    let raw = script(
        vec![],
        vec![
            note(None, object(vec![("literal", text("daily"))])),
            note(Some(text("all")), object(vec![("text", text("hello"))])),
            note(Some(object(vec![("random", RawValue::Int(2))])), greeting),
            note(Some(ids), silent),
            note(Some(bad_ids), null),
            note(Some(RawValue::Null), number),
        ],
    );
    let (rc, skipped) = load(raw);
    assert!(skipped.is_empty());
    let rules = &rc.notifications;
    assert_eq!(rules.len(), 6);
    assert!(matches!(rules[0].time, NotificationTime::Delta { delta_hours: 0, delta_minutes: 5 }));

    assert!(matches!(rules[0].get_users(), Ok(Recipients::All)));
    assert!(matches!(rules[1].get_users(), Ok(Recipients::All)));
    assert!(matches!(rules[2].get_users(), Ok(Recipients::Random(2))));
    assert!(matches!(rules[3].get_users(), Ok(Recipients::Ids(ids)) if ids == vec![3, -4]));
    assert!(matches!(rules[4].get_users(), Err(ConfigError::ProviderError(_))));
    assert!(matches!(rules[5].get_users(), Ok(Recipients::All)));

    let who = user();
    assert!(matches!(rules[0].resolve_message(&who), Ok(MessageSource::Literal(k)) if k == "daily"));
    assert!(matches!(rules[1].resolve_message(&who), Ok(MessageSource::Text(Some(t))) if t == "hello"));
    assert!(matches!(rules[2].resolve_message(&who), Ok(MessageSource::Text(Some(t))) if t == "Nick"));
    assert!(matches!(rules[3].resolve_message(&who), Ok(MessageSource::Text(None))));
    assert!(matches!(rules[4].resolve_message(&who), Ok(MessageSource::Text(None))));
    assert!(matches!(rules[5].resolve_message(&who), Err(ConfigError::ProviderError(_))));

    assert!(matches!(rules[3].filter, NotificationFilter::BotFunction(_)));
    assert!(matches!(rules[2].message, NotificationMessage::BotFunction(_)));
    assert!(!matches!(notificator_step(&rc), NotificatorStep::Retire));

    // a filter whose callable was never put back cannot be asked
    let inert: NotificationFilter<Engine> =
        NotificationFilter::BotFunction(BotFunction::placeholder("notifications.0.filter".to_string()));
    match inert.get_users() {
        Err(ConfigError::Other(msg)) => {
            assert_eq!(msg, "function is not attached: notifications.0.filter")
        }
        other => panic!("an inert filter gave {other:?}"),
    }

    let err = |raw: Raw| RunnerConfig::<Engine>::load(script(vec![], vec![raw]), created()).is_err();
    assert!(err(note(Some(text("some")), object(vec![("text", text("x"))]))));
    assert!(err(note(Some(object(vec![])), object(vec![("text", text("x"))]))));
    assert!(err(note(None, object(vec![]))));
    assert!(err(note(None, text("bare"))));
}

#[test]
fn handlers_decide_whether_handling_goes_on() {
    assert!(propagate_after::<()>(&RawValue::Bool(true)));
    assert!(!propagate_after::<()>(&RawValue::Bool(false)));
    assert!(propagate_after::<()>(&RawValue::Int(2)));
    assert!(!propagate_after::<()>(&RawValue::Int(0)));
    assert!(propagate_after::<()>(&RawValue::Text("no".to_string())));
    assert!(propagate_after::<()>(&RawValue::Null));

    let message = |answer: Answer| {
        let (handler, calls) = function(answer);
        let raw = script(vec![("start", object(vec![("handler", handler)]))], vec![]);
        (load(raw).0.get_command_message("start").unwrap(), calls)
    };
    let who: Raw = user().to_raw();
    let info = message_info(Some("promo".to_string()));
    assert_eq!(info.variant(), Some("promo"));

    let (stops, calls) = message(Answer::Data(Datum::Bool(false)));
    assert!(!is_propagate(&stops, &who, &info));
    assert_eq!(calls.load(Ordering::SeqCst), 1);
    let (zero, _) = message(Answer::Count);
    // the handler is called with the user and the info: two arguments
    assert!(is_propagate(&zero, &who, &info));
    let (goes, _) = message(Answer::Data(Datum::Bool(true)));
    assert!(is_propagate(&goes, &who, &info));
    let (fails, _) = message(Answer::Fail("x".to_string()));
    assert!(is_propagate(&fails, &who, &info));
    let (nothing, _) = message(Answer::Nothing);
    assert!(is_propagate(&nothing, &who, &info));
    let (opaque, _) = message(Answer::Data(Datum::Opaque));
    assert!(is_propagate(&opaque, &who, &info));

    let plain = load(script(vec![("start", object(vec![]))], vec![])).0;
    let no_handler = plain.get_command_message("start").unwrap();
    assert!(is_propagate(&no_handler, &who, &info));

    let variant = Some("promo".to_string());
    assert_eq!(meta_to_insert(&no_handler, &variant), Some("promo"));
    assert_eq!(meta_to_insert(&no_handler, &None), None);
    let help = load(script(vec![("help", object(vec![]))], vec![])).0;
    assert_eq!(meta_to_insert(&help.get_command_message("help").unwrap(), &variant), None);

    assert_eq!(callback_reply(true, Some(5)), CallbackReply::Replace(5));
    assert_eq!(callback_reply(true, None), CallbackReply::Answer);
    assert_eq!(callback_reply(false, Some(5)), CallbackReply::Answer);
    assert_eq!(callback_reply(false, None), CallbackReply::Answer);
}

#[test]
fn attach_reports_what_stands_in_the_way() {
    let (rc, _) = load(script(
        vec![(
            "start",
            object(vec![
                ("literal", text("hi")),
                ("buttons", RawValue::List(vec![RawValue::List(vec![text("a")])])),
            ]),
        )],
        vec![object(vec![
            ("time", text("18:00")),
            ("message", object(vec![("text", text("x"))])),
        ])],
    ));
    let mut rc = rc;
    let mut fault = |path: Option<&str>| {
        let f = Arc::new(Callable { calls: Arc::new(AtomicUsize::new(0)), answer: Answer::Nothing });
        match rc.attach(path, f) {
            Err(e) => e.fault(),
            Ok(()) => panic!("a callable was put where no slot is"),
        }
    };
    assert_eq!(fault(None), ParcelFault::Resolve);
    assert_eq!(fault(Some("")), ParcelFault::Field);
    assert_eq!(fault(Some("nothing")), ParcelFault::Field);
    assert_eq!(fault(Some("config")), ParcelFault::Resolve);
    assert_eq!(fault(Some("config.version")), ParcelFault::Nest);
    assert_eq!(fault(Some("dialog")), ParcelFault::Resolve);
    assert_eq!(fault(Some("dialog.commands")), ParcelFault::Resolve);
    assert_eq!(fault(Some("dialog.commands.stop")), ParcelFault::Field);
    assert_eq!(fault(Some("dialog.commands.start")), ParcelFault::Resolve);
    assert_eq!(fault(Some("dialog.commands.start.literal")), ParcelFault::Resolve);
    assert_eq!(fault(Some("dialog.commands.start.literal.x")), ParcelFault::Nest);
    assert_eq!(fault(Some("dialog.commands.start.replace")), ParcelFault::Resolve);
    // an empty place resolves to nothing
    assert_eq!(fault(Some("dialog.commands.start.handler")), ParcelFault::Resolve);
    assert_eq!(fault(Some("dialog.commands.start.state.x")), ParcelFault::Resolve);
    assert_eq!(fault(Some("dialog.commands.start.buttons")), ParcelFault::Resolve);
    assert_eq!(fault(Some("dialog.commands.start.buttons.0")), ParcelFault::Resolve);
    assert_eq!(fault(Some("dialog.commands.start.buttons.1")), ParcelFault::Field);
    // a place may be written with a plus sign
    assert_eq!(fault(Some("dialog.commands.start.buttons.+0")), ParcelFault::Resolve);
    assert_eq!(fault(Some("dialog.commands.start.buttons.+0.0.x")), ParcelFault::Nest);
    assert_eq!(fault(Some("dialog.commands.start.buttons.+1")), ParcelFault::Field);
    assert_eq!(fault(Some("dialog.commands.start.buttons.-0")), ParcelFault::Field);
    assert_eq!(fault(Some("dialog.commands.start.buttons.x")), ParcelFault::Field);
    assert_eq!(fault(Some("dialog.commands.start.buttons.0.0")), ParcelFault::Resolve);
    assert_eq!(fault(Some("dialog.commands.start.buttons.0.0.x")), ParcelFault::Nest);
    assert_eq!(fault(Some("notifications.0")), ParcelFault::Resolve);
    assert_eq!(fault(Some("notifications.1.message")), ParcelFault::Field);
    assert_eq!(fault(Some("notifications.0.time")), ParcelFault::Resolve);
    assert_eq!(fault(Some("notifications.0.filter")), ParcelFault::Resolve);
    assert_eq!(fault(Some("notifications.0.message")), ParcelFault::Resolve);
    assert_eq!(fault(Some("notifications.0.message.text")), ParcelFault::Nest);
    assert_eq!(fault(Some("notifications.0.else")), ParcelFault::Field);

    assert!(matches!(rc.resolve(), ParcelType::Parcelable));
    assert!(matches!(rc.dialog.commands.resolve(), ParcelType::Parcelable));
    assert!(matches!(Parcelable::resolve(&rc.notifications[0].message), ParcelType::Other));
    assert!(matches!(
        Parcelable::<Callable>::resolve(&"leaf".to_string()),
        ParcelType::Other
    ));
    assert!(matches!(
        ParcelableError::end_of_nesting("x"),
        ParcelableError::NestError(msg) if msg == "Failed to get field x. End of nestment"
    ));
    assert!(matches!(
        ParcelableError::no_field("x"),
        ParcelableError::FieldError(msg) if msg == "no such field: x"
    ));
    assert!(matches!(
        ParcelableError::not_a_slot(),
        ParcelableError::ResolveError(msg) if msg == "not a slot for a callable"
    ));
    assert!(matches!(ParcelableError::at_leaf(None), ParcelableError::ResolveError(_)));
    assert!(matches!(ParcelableError::at_leaf(Some("x")), ParcelableError::NestError(_)));
}

#[test]
fn attach_replaces_a_slot_in_place() {
    let mut slot = BotFunction::<Engine>::placeholder("a".to_string());
    assert!(!slot.is_live());
    let calls = Arc::new(AtomicUsize::new(0));
    let f = Arc::new(Callable { calls: calls.clone(), answer: Answer::Data(Datum::Int(9)) });
    assert!(matches!(slot.attach(Some("deeper"), f.clone()), Err(ParcelableError::NestError(_))));
    assert!(!slot.is_live());
    slot.attach(None, f).unwrap();
    assert!(slot.is_live());
    assert_eq!(slot.call_args(&[&Datum::Null]).unwrap(), Some(Datum::Int(9)));
    assert_eq!(calls.load(Ordering::SeqCst), 1);
    let copy = slot.duplicate();
    assert!(matches!(copy.0, FunctionSlot::Live(_)));
    copy.call().unwrap();
    assert_eq!(calls.load(Ordering::SeqCst), 2);

    let mut message: BotMessage<Engine> = BotMessage {
        literal: None,
        replace: false,
        buttons: Some(KeyboardDefinition::Function(BotFunction::placeholder("k".to_string()))),
        state: None,
        meta: None,
        handler: Some(BotFunction::placeholder("h".to_string())),
    };
    let g = Arc::new(Callable { calls: Arc::new(AtomicUsize::new(0)), answer: Answer::Nothing });
    message.attach(Some("buttons"), g.clone()).unwrap();
    assert!(matches!(&message.buttons, Some(KeyboardDefinition::Function(f)) if f.is_live()));
    assert!(!message.handler.as_ref().unwrap().is_live());
    message.attach(Some("handler"), g).unwrap();
    assert!(message.handler.as_ref().unwrap().is_live());
}

#[test]
fn user_as_plain_data() {
    let raw: Raw = user().to_raw();
    let fields = raw.as_object().unwrap();
    let names: Vec<&str> = fields.iter().map(|(k, _)| k.as_str()).collect();
    assert_eq!(
        names,
        vec!["id", "is_admin", "first_name", "last_name", "username", "language_code", "metas"]
    );
    assert!(matches!(find_field(fields, "id"), Some(RawValue::Int(7))));
    assert!(matches!(find_field(fields, "is_admin"), Some(RawValue::Bool(false))));
    assert!(matches!(find_field(fields, "first_name"), Some(RawValue::Text(t)) if t == "Nick"));
    // a missing name is `Null`, which counts as a missing field
    assert!(find_field(fields, "last_name").is_none());
    assert!(matches!(&fields[3].1, RawValue::Null));
    assert!(matches!(find_field(fields, "username"), Some(RawValue::Text(t)) if t == "nick"));
    let metas = find_field(fields, "metas").unwrap().as_list().unwrap();
    assert_eq!(metas.len(), 1);
    assert!(matches!(&metas[0], RawValue::Text(t) if t == "promo"));

    let updated = user().update_user_tg(
        "Nicholas".to_string(),
        Some("F".to_string()),
        None,
        Some("en".to_string()),
    );
    assert_eq!(updated.id, 7);
    assert_eq!(updated.first_name, "Nicholas");
    assert_eq!(updated.last_name, Some("F".to_string()));
    assert_eq!(updated.username, None);
    assert_eq!(updated.language_code, Some("en".to_string()));
    assert_eq!(updated.metas, vec!["promo".to_string()]);
}
