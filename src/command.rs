//! Commands, their builder, and the cursor that hands arguments to a handler.
use vstd::prelude::*;

use crate::bindings::{ascending, bound_at, ArgBindings};
use crate::text::{i32_of, parse_i32};
use crate::validate::{ArgError, ArgKind, ArgValidator, PlayerDirectory, PlayerInfo};

verus! {

/// The character sequences that a vector of strings holds.
pub open spec fn strs(v: Seq<String>) -> Seq<Seq<char>> {
    v.map_values(|s: String| s@)
}

/// Words joined with single spaces.
pub open spec fn join_words(s: Seq<Seq<char>>) -> Seq<char>
    decreases s.len(),
{
    if s.len() == 0 {
        seq![]
    } else if s.len() == 1 {
        s[0]
    } else {
        join_words(s.drop_last()) + seq![' '] + s.last()
    }
}

/// A named entry of the command tree: an optional handler, the validators of
/// its argument positions, and its subcommands.
pub struct Command<H> {
    pub identifier: String,
    pub handler: Option<H>,
    pub validators: ArgBindings,
    pub subcommands: Vec<Command<H>>,
}

/// Why a command was refused when it was built or registered.
#[derive(Clone, Debug, PartialEq, Eq)]
pub enum RegistrationError {
    /// Two commands at one level of the tree share this identifier.
    DuplicateIdentifier(String),
}

/// No two commands of `s` share an identifier.
pub open spec fn distinct_identifiers<H>(s: Seq<Command<H>>) -> bool {
    forall|i: int, j: int| 0 <= i < j < s.len() ==> s[i].identifier@ != s[j].identifier@
}

/// Gathers a command's parts before it is frozen by `build`.
pub struct CommandBuilder<H> {
    command: Command<H>,
}

impl<H> View for CommandBuilder<H> {
    type V = Command<H>;

    closed spec fn view(&self) -> Command<H> {
        self.command
    }
}

impl<H> CommandBuilder<H> {
    pub fn new(identifier: &str) -> (r: Self)
        ensures
            r@.identifier@ == identifier@,
            r@.handler is None,
            r@.validators@.len() == 0,
            r@.subcommands@.len() == 0,
    {
        CommandBuilder {
            command: Command {
                identifier: identifier.to_owned(),
                handler: None,
                validators: ArgBindings::new(),
                subcommands: Vec::new(),
            },
        }
    }

    /// Binds `validator` to argument position `index`, replacing an earlier one.
    pub fn validator(self, index: u32, validator: ArgValidator) -> (r: Self)
        ensures
            r@.identifier == self@.identifier,
            r@.handler == self@.handler,
            r@.subcommands == self@.subcommands,
            ascending(r@.validators@),
            forall|p: u32|
                bound_at(r@.validators@, p) == if p == index {
                    Some(validator)
                } else {
                    bound_at(self@.validators@, p)
                },
    {
        let Command { identifier, handler, validators, subcommands } = self.command;
        CommandBuilder {
            command: Command {
                identifier,
                handler,
                validators: validators.bind(index, validator),
                subcommands,
            },
        }
    }

    pub fn handler(self, handler: H) -> (r: Self)
        ensures
            r@ == (Command { handler: Some(handler), ..self@ }),
    {
        CommandBuilder { command: Command { handler: Some(handler), ..self.command } }
    }

    pub fn subcommand(self, subcommand: Command<H>) -> (r: Self)
        ensures
            r@.identifier == self@.identifier,
            r@.handler == self@.handler,
            r@.validators == self@.validators,
            r@.subcommands@ == self@.subcommands@.push(subcommand),
    {
        let mut command = self.command;
        command.subcommands.push(subcommand);
        CommandBuilder { command }
    }

    /// The finished command; refused when two subcommands share an identifier.
    pub fn build(self) -> (r: Result<Command<H>, RegistrationError>)
        ensures
            r is Ok <==> distinct_identifiers(self@.subcommands@),
            r matches Ok(c) ==> c == self@,
            r matches Err(RegistrationError::DuplicateIdentifier(name)) ==> exists|i: int, j: int|
                0 <= i < j < self@.subcommands@.len() && self@.subcommands@[i].identifier@
                    == name@ && self@.subcommands@[j].identifier@ == name@,
    {
        let command = self.command;
        let n = command.subcommands.len();
        let mut j: usize = 0;
        while j < n
            invariant
                command == self@,
                n == command.subcommands@.len(),
                j <= n,
                forall|a: int, b: int|
                    0 <= a < b < j ==> command.subcommands@[a].identifier@
                        != command.subcommands@[b].identifier@,
            decreases n - j,
        {
            let mut i: usize = 0;
            while i < j
                invariant
                    command == self@,
                    n == command.subcommands@.len(),
                    i <= j < n,
                    forall|a: int|
                        0 <= a < i ==> command.subcommands@[a].identifier@
                            != command.subcommands@[j as int].identifier@,
                decreases j - i,
            {
                if command.subcommands[i].identifier == command.subcommands[j].identifier {
                    proof {
                        assert(command.subcommands@[i as int].identifier@
                            == command.subcommands@[j as int].identifier@);
                    }
                    return Err(
                        RegistrationError::DuplicateIdentifier(
                            command.subcommands[j].identifier.clone(),
                        ),
                    );
                }
                i = i + 1;
            }
            j = j + 1;
        }
        Ok(command)
    }
}

/// A reader over the arguments of one command line. Each extraction checks
/// that the validator bound at the current position, if any, is of the kind
/// requested, and fails without consuming anything when it is not.
pub struct CommandArgHandler<'a> {
    pub args: Vec<String>,
    pub index: usize,
    pub validators: &'a ArgBindings,
    pub players: &'a PlayerDirectory,
}

impl<'a> CommandArgHandler<'a> {
    pub open spec fn tokens(&self) -> Seq<Seq<char>> {
        strs(self.args@)
    }

    /// The mismatch reported when `requested` is asked for at the current position.
    pub open spec fn mismatch(&self, requested: ArgKind) -> Option<ArgError> {
        if self.index <= u32::MAX {
            match bound_at(self.validators@, self.index as u32) {
                Some(v) => if v.spec_kind() != requested {
                    Some(
                        ArgError::ValidatorMismatch {
                            bound: v.spec_kind(),
                            requested,
                            position: self.index,
                        },
                    )
                } else {
                    None
                },
                None => None,
            }
        } else {
            None
        }
    }

    /// Only the position moved, to `index`.
    pub open spec fn moved_to(&self, other: &Self, index: usize) -> bool {
        &&& other.args == self.args
        &&& other.validators == self.validators
        &&& other.players == self.players
        &&& other.index == index
    }

    /// A cursor at the first of `args`.
    pub fn new(args: Vec<String>, validators: &'a ArgBindings, players: &'a PlayerDirectory) -> (r:
        Self)
        ensures
            r.args == args,
            r.index == 0,
            r.validators == validators,
            r.players == players,
    {
        CommandArgHandler { args, index: 0, validators, players }
    }

    fn check_validator_type(&self, requested: ArgKind) -> (r: Result<(), ArgError>)
        ensures
            match self.mismatch(requested) {
                Some(e) => r == Err::<(), ArgError>(e),
                None => r is Ok,
            },
    {
        if self.index > u32::MAX as usize {
            return Ok(());
        }
        if let Some(validator) = self.validators.get(self.index as u32) {
            let bound = validator.kind();
            if bound != requested {
                return Err(
                    ArgError::ValidatorMismatch { bound, requested, position: self.index },
                );
            }
        }
        Ok(())
    }

    /// All remaining arguments joined by single spaces; the cursor moves to the end.
    pub fn next_text(&mut self) -> (r: Result<Option<String>, ArgError>)
        ensures
            match old(self).mismatch(ArgKind::Text) {
                Some(e) => r == Err::<Option<String>, ArgError>(e) && *final(self) == *old(self),
                None => if old(self).index >= old(self).args@.len() {
                    r == Ok::<Option<String>, ArgError>(None) && *final(self) == *old(self)
                } else {
                    &&& r matches Ok(Some(t)) && t@ == join_words(
                        old(self).tokens().skip(old(self).index as int),
                    )
                    &&& old(self).moved_to(final(self), old(self).args@.len() as usize)
                },
            },
    {
        self.check_validator_type(ArgKind::Text)?;
        let n = self.args.len();
        if self.index >= n {
            return Ok(None);
        }
        let start = self.index;
        let ghost rest = self.tokens().skip(start as int);
        let mut text = self.args[start].clone();
        let mut i: usize = start + 1;
        proof {
            assert(rest.take(1).drop_last().len() == 0);
            assert(rest.take(1) =~= seq![rest[0]]);
        }
        while i < n
            invariant
                n == self.args@.len(),
                start < i <= n,
                rest == strs(self.args@).skip(start as int),
                text@ == join_words(rest.take(i - start)),
            decreases n - i,
        {
            text.append(" ");
            text.append(self.args[i].as_str());
            proof {
                assert(rest.take(i + 1 - start).drop_last() =~= rest.take(i - start));
                assert(rest.take(i + 1 - start).last() == self.args@[i as int]@);
                assert(" "@ =~= seq![' ']) by {
                    reveal_strlit(" ");
                }
            }
            i = i + 1;
        }
        proof {
            assert(rest.take(n - start) =~= rest);
        }
        self.index = n;
        Ok(Some(text))
    }

    /// The player whose id is the current argument.
    pub fn next_player(&mut self) -> (r: Result<&'a PlayerInfo, ArgError>)
        ensures
            match old(self).mismatch(ArgKind::Player) {
                Some(e) => r == Err::<&PlayerInfo, ArgError>(e) && *final(self) == *old(self),
                None => if old(self).index >= old(self).args@.len() {
                    &&& r == Err::<&PlayerInfo, ArgError>(
                        ArgError::MissingArgument {
                            kind: ArgKind::Player,
                            position: old(self).index,
                        },
                    )
                    &&& *final(self) == *old(self)
                } else {
                    match i32_of(old(self).tokens()[old(self).index as int]) {
                        None => r == Err::<&PlayerInfo, ArgError>(
                            ArgError::ParseError(ArgKind::Player),
                        ) && *final(self) == *old(self),
                        Some(id) => if !old(self).players@.contains_key(id) {
                            r == Err::<&PlayerInfo, ArgError>(ArgError::EntryNotFound(id))
                                && *final(self) == *old(self)
                        } else {
                            &&& r matches Ok(p) && *p == old(self).players@[id]
                            &&& old(self).moved_to(final(self), (old(self).index + 1) as usize)
                        },
                    }
                },
            },
    {
        self.check_validator_type(ArgKind::Player)?;
        if self.index >= self.args.len() {
            return Err(ArgError::MissingArgument { kind: ArgKind::Player, position: self.index });
        }
        let id = match parse_i32(self.args[self.index].as_str()) {
            Some(id) => id,
            None => return Err(ArgError::ParseError(ArgKind::Player)),
        };
        let players: &'a PlayerDirectory = self.players;
        let player = match players.resolve(id) {
            Some(p) => p,
            None => return Err(ArgError::EntryNotFound(id)),
        };
        self.index = self.index + 1;
        Ok(player)
    }

    /// The current argument read as an `i32`.
    pub fn next_number(&mut self) -> (r: Result<i32, ArgError>)
        ensures
            match old(self).mismatch(ArgKind::Number) {
                Some(e) => r == Err::<i32, ArgError>(e) && *final(self) == *old(self),
                None => if old(self).index >= old(self).args@.len() {
                    &&& r == Err::<i32, ArgError>(
                        ArgError::MissingArgument {
                            kind: ArgKind::Number,
                            position: old(self).index,
                        },
                    )
                    &&& *final(self) == *old(self)
                } else {
                    match i32_of(old(self).tokens()[old(self).index as int]) {
                        None => r == Err::<i32, ArgError>(ArgError::ParseError(ArgKind::Number))
                            && *final(self) == *old(self),
                        Some(v) => r == Ok::<i32, ArgError>(v) && old(self).moved_to(
                            final(self),
                            (old(self).index + 1) as usize,
                        ),
                    }
                },
            },
    {
        self.check_validator_type(ArgKind::Number)?;
        if self.index >= self.args.len() {
            return Err(ArgError::MissingArgument { kind: ArgKind::Number, position: self.index });
        }
        let value = match parse_i32(self.args[self.index].as_str()) {
            Some(v) => v,
            None => return Err(ArgError::ParseError(ArgKind::Number)),
        };
        self.index = self.index + 1;
        Ok(value)
    }

    /// The current argument as it was written.
    pub fn next_string(&mut self) -> (r: Result<String, ArgError>)
        ensures
            match old(self).mismatch(ArgKind::String) {
                Some(e) => r == Err::<String, ArgError>(e) && *final(self) == *old(self),
                None => if old(self).index >= old(self).args@.len() {
                    &&& r == Err::<String, ArgError>(
                        ArgError::MissingArgument {
                            kind: ArgKind::String,
                            position: old(self).index,
                        },
                    )
                    &&& *final(self) == *old(self)
                } else {
                    &&& r matches Ok(s) && s@ == old(self).tokens()[old(self).index as int]
                    &&& old(self).moved_to(final(self), (old(self).index + 1) as usize)
                },
            },
    {
        self.check_validator_type(ArgKind::String)?;
        if self.index >= self.args.len() {
            return Err(ArgError::MissingArgument { kind: ArgKind::String, position: self.index });
        }
        let arg = self.args[self.index].clone();
        self.index = self.index + 1;
        Ok(arg)
    }
}

/// What a handler receives: the caller's id, the raw line, and the cursor.
pub struct CommandContext<'a> {
    pub player: i32,
    pub raw: String,
    pub arg: CommandArgHandler<'a>,
}

impl<'a> CommandContext<'a> {
    pub fn new(player: i32, raw: &str, arg: CommandArgHandler<'a>) -> (r: Self)
        ensures
            r.player == player,
            r.raw@ == raw@,
            r.arg == arg,
    {
        CommandContext { player, raw: raw.to_owned(), arg }
    }
}

} // verus!
