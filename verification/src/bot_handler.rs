//! What a bot decides on a message or on the click of a button: which
//! message of the configuration answers it, whether its handler lets the
//! default handling go on, and how the answer goes out.

use vstd::prelude::*;

use crate::botscript::message_info::{MessageInfo, MessageInfoBuilder};
use crate::commands::{is_command_text, starts_with_slash, BotCommand};
use crate::config::dialog::message::{with_defaults, with_literal, BotMessage};
use crate::config::result::ConfigResult;
use crate::config::traits::provider::{
    Provider, ProviderCall, ProviderDeserialize, ProviderError, ProviderSerialize,
};
use crate::config::value::{RawModel, RawValue};
use crate::config::RunnerConfig;

verus! {

/// How a callback is answered.
#[derive(Clone, Copy, Debug, PartialEq, Eq, Structural)]
pub enum CallbackReply {
    /// The message with this id is edited in place.
    Replace(i32),
    /// A new message is sent.
    Answer,
}

/// Whether the default handling goes on after a handler gave `data`: a
/// truth value decides by itself, a whole number decides by being other
/// than 0, and anything else lets the handling go on.
pub open spec fn propagates<F>(data: RawModel<F>) -> bool {
    match data {
        RawModel::Bool(b) => b,
        RawModel::Int(n) => n != 0,
        _ => true,
    }
}

/// The message of the configuration for the command that a text holds:
/// the message of the variant that the arguments name, where the command
/// has arguments, and the message of the command itself otherwise. None
/// for a text that is no command, and for a command that the configuration
/// does not hold.
pub fn command_message<P: Provider>(rc: &RunnerConfig<P>, text: &str) -> (message: Option<
    BotMessage<P>,
>)
    requires
        rc.wf(),
    ensures
        !starts_with_slash(text@) ==> message is None,
        forall|command: Seq<char>, args: Option<Seq<char>>| #[trigger]
            is_command_text(text@, command, args) ==> match rc.command_entry(command) {
                Some(entry) => message matches Some(m) && m.model() == with_defaults(
                    with_literal(
                        match args {
                            Some(variant) => match rc.variant_entry(command, variant) {
                                Some(varianted) => varianted.model(),
                                None => entry.model(),
                            },
                            None => entry.model(),
                        },
                        command,
                    ),
                ),
                None => message is None,
            },
{
    // check if message is command
    let bc = match BotCommand::from_str(text) {
        Ok(bc) => bc,
        Err(_) => {
            proof {
                assert forall|command: Seq<char>, args: Option<Seq<char>>| #[trigger]
                    is_command_text(text@, command, args) implies false by {
                    assert(text@[0] == '/');
                }
            }
            return None;
        },
    };
    proof {
        assert forall|command: Seq<char>, args: Option<Seq<char>>| #[trigger]
            is_command_text(text@, command, args) implies command == bc.spec_command() && args
            == bc.spec_args() by {
            crate::commands::lemma_command_text_unique(
                text@,
                command,
                args,
                bc.spec_command(),
                bc.spec_args(),
            );
        }
    }
    // check if command is presented in config
    let command = bc.command();
    match bc.args() {
        Some(variant) => rc.get_command_message_varianted(command, variant),
        None => rc.get_command_message(command),
    }
}

/// The message of the configuration for the button whose callback carries
/// the literal `literal`; none for a callback without a literal.
pub fn callback_message<P: Provider>(rc: &RunnerConfig<P>, literal: Option<&str>) -> (message:
    Option<BotMessage<P>>)
    requires
        rc.wf(),
    ensures
        match literal {
            Some(data) => match rc.dialog.buttons.spec_get(data@) {
                Some(entry) => message matches Some(m) && m.model() == with_literal(
                    entry.model(),
                    data@,
                ),
                None => message is None,
            },
            None => message is None,
        },
{
    match literal {
        Some(data) => rc.get_callback_message(data),
        None => None,
    }
}

/// The variant that a text names: the arguments of the command that it
/// holds; none for a text that is no command.
pub fn variant_of(text: &str) -> (variant: Option<String>)
    ensures
        !starts_with_slash(text@) ==> variant is None,
        forall|command: Seq<char>, args: Option<Seq<char>>| #[trigger]
            is_command_text(text@, command, args) ==> match args {
                Some(a) => variant matches Some(v) && v@ == a,
                None => variant is None,
            },
{
    match BotCommand::from_str(text) {
        Ok(cmd) => {
            proof {
                assert forall|command: Seq<char>, args: Option<Seq<char>>| #[trigger]
                    is_command_text(text@, command, args) implies args == cmd.spec_args() by {
                    crate::commands::lemma_command_text_unique(
                        text@,
                        command,
                        args,
                        cmd.spec_command(),
                        cmd.spec_args(),
                    );
                }
            }
            match cmd.args() {
                Some(m) => Some(m.to_owned()),
                None => None,
            }
        },
        Err(_) => {
            proof {
                assert forall|command: Seq<char>, args: Option<Seq<char>>| #[trigger]
                    is_command_text(text@, command, args) implies false by {
                    assert(text@[0] == '/');
                }
            }
            None
        },
    }
}

/// The meta that is to be appended to the user's metas: the variant, for a
/// message that counts as onboarding.
pub fn meta_to_insert<'a, P: Provider>(bm: &BotMessage<P>, variant: &'a Option<String>) -> (meta:
    Option<&'a str>)
    ensures
        match meta {
            Some(m) => bm.model().meta == Some(true) && (*variant matches Some(v) && v@ == m@),
            None => !(bm.model().meta == Some(true)) || *variant is None,
        },
{
    if bm.meta() {
        match variant {
            Some(meta) => Some(meta.as_str()),
            None => None,
        }
    } else {
        None
    }
}

/// Whether the default handling goes on after a handler gave `data`.
pub fn propagate_after<F>(data: &RawValue<F>) -> (propagate: bool)
    ensures
        propagate == propagates(data.model()),
{
    match data {
        RawValue::Bool(b) => *b,
        RawValue::Int(n) => *n != 0,
        // falling back to propagation
        _ => true,
    }
}

/// Whether the default handling goes on, for the answer `answer` of the
/// handler's call: an error, an answer without a value, and a value that
/// the engine cannot turn into plain data let the handling go on.
pub fn propagate_answered<P: Provider>(answer: ConfigResult<Option<P::Value>>) -> (propagate:
    bool) where P::Value: ProviderDeserialize<P>
    ensures
        answer is Err ==> propagate,
        answer matches Ok(None) ==> propagate,
{
    match answer {
        Ok(Some(value)) => match value.de_into() {
            Ok(data) => propagate_after(&data),
            // falling back to propagation
            Err(_) => true,
        },
        Ok(None) => true,
        Err(_) => true,
    }
}

/// Asks the handler of a message whether the default handling is to go
/// on. The handler is called with the user and with the info of the
/// message. A message without a handler lets the handling go on, and so
/// does a handler that cannot be asked.
pub fn is_propagate<P: Provider>(
    bm: &BotMessage<P>,
    user: &RawValue<P::Function>,
    info: &MessageInfo,
) -> (propagate: bool) where
    P::Function: ProviderCall<P>,
    P::Value: ProviderDeserialize<P> + ProviderSerialize<P>,
    P::Error: ProviderError,

    ensures
        bm.handler is None ==> propagate,
        (bm.handler matches Some(f) && f.model() is Placeholder) ==> propagate,
{
    match bm.get_handler() {
        Some(handler) => {
            let puser = match <P::Value as ProviderSerialize<P>>::se_from(user) {
                Ok(puser) => puser,
                Err(_) => {
                    return true;
                },
            };
            let data: RawValue<P::Function> = info.to_raw();
            let pmi = match <P::Value as ProviderSerialize<P>>::se_from(&data) {
                Ok(pmi) => pmi,
                Err(_) => {
                    return true;
                },
            };
            let mut args: Vec<&P::Value> = Vec::new();
            args.push(&puser);
            args.push(&pmi);
            propagate_answered::<P>(handler.call_args(args.as_slice()))
        },
        None => true,
    }
}

/// The info of a message that names the variant `variant`.
pub fn message_info(variant: Option<String>) -> (info: MessageInfo)
    ensures
        info.spec_variant() == match variant {
            Some(v) => Some(v@),
            None => None,
        },
{
    MessageInfoBuilder::new().set_variant(variant).build()
}

/// How the callback of a button is answered: the message that holds the
/// button is edited where the button's message asks for it and the id of
/// that message is known; a new message is sent otherwise.
pub fn callback_reply(is_replace: bool, message_id: Option<i32>) -> (reply: CallbackReply)
    ensures
        reply == match (is_replace, message_id) {
            (true, Some(id)) => CallbackReply::Replace(id),
            _ => CallbackReply::Answer,
        },
{
    match is_replace {
        true => match message_id {
            Some(msg_id) => CallbackReply::Replace(msg_id),
            None => CallbackReply::Answer,
        },
        false => CallbackReply::Answer,
    }
}

} // verus!
