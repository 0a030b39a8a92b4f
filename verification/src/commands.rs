//! Commands as users send them: `/name arguments`.

use vstd::prelude::*;

use crate::text::{split_once_char, split_words, str_eq, strip_prefix_char, views_of, words_of};

verus! {

/// Why a text was not taken as a command.
#[derive(Debug)]
pub enum CommandError {
    /// The text does not have the shape of a command.
    ParseError(String),
    /// The text names a command that is not among those allowed.
    ValidationError(String),
}

/// A command as a user sends it: a name after a slash, and what follows the
/// first space.
#[derive(Clone)]
pub struct BotCommand {
    command: String,
    args: Option<String>,
}

/// Whether the text `s` is the command `command` with the arguments `args`:
/// a slash, the name up to the first space, and after that space the
/// arguments.
pub open spec fn is_command_text(s: Seq<char>, command: Seq<char>, args: Option<Seq<char>>) -> bool {
    &&& !command.contains(' ')
    &&& match args {
        None => s == seq!['/'] + command,
        Some(a) => s == seq!['/'] + command + seq![' '] + a,
    }
}

/// Whether the text starts with a slash.
pub open spec fn starts_with_slash(s: Seq<char>) -> bool {
    s.len() > 0 && s[0] == '/'
}

/// A text is a command in one way only.
pub proof fn lemma_command_text_unique(
    s: Seq<char>,
    c1: Seq<char>,
    a1: Option<Seq<char>>,
    c2: Seq<char>,
    a2: Option<Seq<char>>,
)
    requires
        is_command_text(s, c1, a1),
        is_command_text(s, c2, a2),
    ensures
        c1 == c2,
        a1 == a2,
        starts_with_slash(s),
{
    let t = s.skip(1);
    let rest = |c: Seq<char>, a: Option<Seq<char>>|
        match a {
            None => c,
            Some(x) => c + seq![' '] + x,
        };
    assert(t =~= rest(c1, a1));
    assert(t =~= rest(c2, a2));
    if c1.len() < c2.len() {
        assert(a1 is Some);
        assert(t[c1.len() as int] == ' ');
        assert(c2[c1.len() as int] == ' ');
        assert(c2.contains(' '));
    } else if c2.len() < c1.len() {
        assert(a2 is Some);
        assert(t[c2.len() as int] == ' ');
        assert(c1[c2.len() as int] == ' ');
        assert(c1.contains(' '));
    }
    assert(c1 =~= t.take(c1.len() as int));
    assert(c2 =~= t.take(c2.len() as int));
    if a1 is Some {
        assert(t.len() > c1.len());
        assert(a2 is Some);
        assert(a1->0 =~= t.skip(c1.len() as int + 1));
        assert(a2->0 =~= t.skip(c2.len() as int + 1));
    } else {
        assert(t.len() == c1.len());
        assert(a2 is None);
    }
}

/// Whether `cmds` holds the name `command`.
pub open spec fn lists_command(cmds: Seq<&str>, command: Seq<char>) -> bool {
    exists|i: int| 0 <= i < cmds.len() && (#[trigger] cmds[i])@ == command
}

/// The text of the error for a command that is not allowed.
pub open spec fn invalid_command_text(command: Seq<char>) -> Seq<char> {
    "invalid command "@ + command
}

impl BotCommand {
    /// The name of the command, without the slash.
    pub closed spec fn spec_command(&self) -> Seq<char> {
        self.command@
    }

    /// What follows the first space, if there is one.
    pub closed spec fn spec_args(&self) -> Option<Seq<char>> {
        match self.args {
            Some(a) => Some(a@),
            None => None,
        }
    }

    /// Reads a command from a text. A text is a command exactly when it
    /// starts with a slash; what stands before the first space is the name,
    /// what stands after it the arguments.
    pub fn from_str(s: &str) -> (parsed: Result<Self, CommandError>)
        ensures
            parsed is Ok <==> starts_with_slash(s@),
            match parsed {
                Ok(bc) => is_command_text(s@, bc.spec_command(), bc.spec_args()),
                Err(CommandError::ParseError(msg)) => msg@ == "Not a command"@,
                Err(CommandError::ValidationError(_)) => false,
            },
    {
        let (head, args): (&str, Option<&str>) = match split_once_char(s, ' ') {
            Some((head, rest)) => (head, Some(rest)),
            None => (s, None),
        };
        proof {
            if args is None {
                assert(head@ == s@);
            } else {
                assert(s@ == head@ + seq![' '] + args->0@);
                if head@.len() > 0 {
                    assert(s@[0] == head@[0]);
                } else {
                    assert(s@[0] == ' ');
                }
            }
        }
        match strip_prefix_char(head, '/') {
            Some(command) => {
                let bc = BotCommand {
                    command: command.to_owned(),
                    args: match args {
                        Some(a) => Some(a.to_owned()),
                        None => None,
                    },
                };
                proof {
                    assert(head@ =~= seq!['/'] + command@);
                    assert forall|k: int| 0 <= k < command@.len() implies command@[k] != ' ' by {
                        assert(command@[k] == head@[k + 1]);
                    }
                    if args is Some {
                        assert(s@ =~= seq!['/'] + command@ + seq![' '] + args->0@);
                    }
                }
                Ok(bc)
            },
            None => Err(CommandError::ParseError("Not a command".to_owned())),
        }
    }

    /// Reads a command and checks that it is one of `cmds`.
    pub fn from_validate(s: &str, cmds: &[&str]) -> (parsed: Result<Self, CommandError>)
        ensures
            match parsed {
                Ok(bc) => is_command_text(s@, bc.spec_command(), bc.spec_args()) && lists_command(
                    cmds@,
                    bc.spec_command(),
                ),
                Err(CommandError::ParseError(msg)) => !starts_with_slash(s@) && msg@
                    == "Not a command"@,
                Err(CommandError::ValidationError(msg)) => exists|
                    command: Seq<char>,
                    args: Option<Seq<char>>,
                |
                    is_command_text(s@, command, args) && !lists_command(cmds@, command) && msg@
                        == invalid_command_text(command),
            },
    {
        let bc = match Self::from_str(s) {
            Ok(bc) => bc,
            Err(e) => {
                return Err(e);
            },
        };
        let mut i: usize = 0;
        while i < cmds.len()
            invariant
                i <= cmds@.len(),
                is_command_text(s@, bc.spec_command(), bc.spec_args()),
                forall|k: int| 0 <= k < i ==> (#[trigger] cmds@[k])@ != bc.command@,
            decreases cmds@.len() - i,
        {
            if str_eq(cmds[i], bc.command.as_str()) {
                return Ok(bc);
            }
            i += 1;
        }
        let msg = "invalid command ".to_owned().concat(bc.command.as_str());
        proof {
            assert(!lists_command(cmds@, bc.command@));
        }
        Err(CommandError::ValidationError(msg))
    }

    pub fn command(&self) -> (name: &str)
        ensures
            name@ == self.spec_command(),
    {
        self.command.as_str()
    }

    pub fn args(&self) -> (args: Option<&str>)
        ensures
            match args {
                Some(a) => self.spec_args() == Some(a@),
                None => self.spec_args() is None,
            },
    {
        match &self.args {
            Some(a) => Some(a.as_str()),
            None => None,
        }
    }

    /// The words of the arguments; none where the command has no arguments.
    pub fn args_list(&self) -> (list: Vec<&str>)
        ensures
            views_of(list@) == words_of(
                match self.spec_args() {
                    Some(a) => a,
                    None => Seq::empty(),
                },
            ),
    {
        match &self.args {
            Some(a) => split_words(a.as_str()),
            None => {
                let list: Vec<&str> = Vec::new();
                proof {
                    assert(views_of(list@) =~= words_of(Seq::<char>::empty()));
                }
                list
            },
        }
    }
}

impl std::str::FromStr for BotCommand {
    type Err = CommandError;

    fn from_str(s: &str) -> (parsed: Result<Self, Self::Err>)
        ensures
            parsed is Ok <==> starts_with_slash(s@),
            match parsed {
                Ok(bc) => is_command_text(s@, bc.spec_command(), bc.spec_args()),
                Err(CommandError::ParseError(msg)) => msg@ == "Not a command"@,
                Err(CommandError::ValidationError(_)) => false,
            },
    {
        BotCommand::from_str(s)
    }
}

} // verus!
