//! Constraints on single values, the per-position validators built from them,
//! and the errors that argument handling reports.
use std::collections::HashMap;
use vstd::prelude::*;
use vstd::utf8::encode_utf8;

use crate::text::{contains_seq, contains_str, i32_of, parse_i32};

verus! {

broadcast use vstd::std_specs::hash::group_hash_axioms;

/// The kinds of argument a validator can describe and a handler can request.
#[derive(Clone, Copy, Debug, PartialEq, Eq, Structural)]
pub enum ArgKind {
    Player,
    Number,
    String,
    Text,
}

/// Why a value failed a constraint; the first violated check wins.
#[derive(Clone, Debug, PartialEq, Eq)]
pub enum Violation {
    NotPositive,
    BelowMin(i32),
    AboveMax(i32),
    TooShort(usize),
    TooLong(usize),
    MissingPattern(String),
    NotSpawned,
    NickMismatch(String),
    HealthBelow(i32),
    HealthAbove(i32),
}

/// Failures of argument validation and extraction.
#[derive(Clone, Debug, PartialEq, Eq)]
pub enum ArgError {
    /// A token could not be read as the integer that the kind needs.
    ParseError(ArgKind),
    /// No token stands at a position that needs one.
    MissingArgument { kind: ArgKind, position: usize },
    /// A player id that names no connected player.
    EntryNotFound(i32),
    /// A value that failed a declared constraint.
    ConstraintViolation(Violation),
    /// The validator bound at `position` is of kind `bound`, but the handler
    /// asked for a `requested` argument there.
    ValidatorMismatch { bound: ArgKind, requested: ArgKind, position: usize },
}

/// Bounds on an integer argument.
#[derive(Clone, Debug, PartialEq, Eq)]
pub struct NumberConstraints {
    pub min: Option<i32>,
    pub max: Option<i32>,
    pub positive: bool,
}

impl NumberConstraints {
    /// Positivity, then the minimum, then the maximum.
    pub open spec fn check(self, v: int) -> Result<(), Violation> {
        if self.positive && v <= 0 {
            Err(Violation::NotPositive)
        } else if self.min is Some && v < self.min->0 {
            Err(Violation::BelowMin(self.min->0))
        } else if self.max is Some && v > self.max->0 {
            Err(Violation::AboveMax(self.max->0))
        } else {
            Ok(())
        }
    }

    pub fn new() -> (r: Self)
        ensures
            r.min is None,
            r.max is None,
            !r.positive,
    {
        NumberConstraints { min: None, max: None, positive: false }
    }

    pub fn validate(&self, value: i32) -> (r: Result<(), Violation>)
        ensures
            r == self.check(value as int),
    {
        if self.positive && value <= 0 {
            return Err(Violation::NotPositive);
        }
        if let Some(min) = self.min {
            if value < min {
                return Err(Violation::BelowMin(min));
            }
        }
        if let Some(max) = self.max {
            if value > max {
                return Err(Violation::AboveMax(max));
            }
        }
        Ok(())
    }

    pub fn min(self, value: i32) -> (r: Self)
        ensures
            r == (NumberConstraints { min: Some(value), ..self }),
    {
        NumberConstraints { min: Some(value), ..self }
    }

    pub fn max(self, value: i32) -> (r: Self)
        ensures
            r == (NumberConstraints { max: Some(value), ..self }),
    {
        NumberConstraints { max: Some(value), ..self }
    }

    pub fn positive(self) -> (r: Self)
        ensures
            r == (NumberConstraints { positive: true, ..self }),
    {
        NumberConstraints { positive: true, ..self }
    }
}

/// Length in bytes of the UTF-8 encoding of `s`, as `str::len` counts it.
pub open spec fn byte_len(s: Seq<char>) -> nat {
    encode_utf8(s).len()
}

/// Bounds on a string argument: its length in bytes and a required substring.
#[derive(Clone, Debug, PartialEq, Eq)]
pub struct StringConstraints {
    pub min_length: Option<usize>,
    pub max_length: Option<usize>,
    pub pattern: Option<String>,
}

impl StringConstraints {
    /// Minimum length, then maximum length, then the pattern.
    pub open spec fn check(self, s: Seq<char>) -> Result<(), Violation> {
        if self.min_length is Some && byte_len(s) < self.min_length->0 {
            Err(Violation::TooShort(self.min_length->0))
        } else if self.max_length is Some && byte_len(s) > self.max_length->0 {
            Err(Violation::TooLong(self.max_length->0))
        } else if self.pattern is Some && !contains_seq(s, self.pattern->0@) {
            Err(Violation::MissingPattern(self.pattern->0))
        } else {
            Ok(())
        }
    }

    pub fn new() -> (r: Self)
        ensures
            r.min_length is None,
            r.max_length is None,
            r.pattern is None,
    {
        StringConstraints { min_length: None, max_length: None, pattern: None }
    }

    pub fn validate(&self, value: &str) -> (r: Result<(), Violation>)
        ensures
            r == self.check(value@),
    {
        if let Some(min) = self.min_length {
            if value.as_bytes().len() < min {
                return Err(Violation::TooShort(min));
            }
        }
        if let Some(max) = self.max_length {
            if value.as_bytes().len() > max {
                return Err(Violation::TooLong(max));
            }
        }
        if let Some(pattern) = &self.pattern {
            if !contains_str(value, pattern.as_str()) {
                return Err(Violation::MissingPattern(pattern.clone()));
            }
        }
        Ok(())
    }

    pub fn min_length(self, length: usize) -> (r: Self)
        ensures
            r == (StringConstraints { min_length: Some(length), ..self }),
    {
        StringConstraints { min_length: Some(length), ..self }
    }

    pub fn max_length(self, length: usize) -> (r: Self)
        ensures
            r == (StringConstraints { max_length: Some(length), ..self }),
    {
        StringConstraints { max_length: Some(length), ..self }
    }

    pub fn pattern(self, pattern: &str) -> (r: Self)
        ensures
            r.pattern matches Some(p) && p@ == pattern@,
            r.min_length == self.min_length,
            r.max_length == self.max_length,
    {
        StringConstraints { pattern: Some(pattern.to_owned()), ..self }
    }
}


/// What the constraints read of a connected player.
#[derive(Clone, Debug, PartialEq, Eq)]
pub struct PlayerInfo {
    pub id: i32,
    pub spawned: bool,
    pub name: String,
    pub health: i32,
}

/// The connected players, by id, as seen when a command line is dispatched.
pub struct PlayerDirectory {
    players: HashMap<i32, PlayerInfo>,
}

impl View for PlayerDirectory {
    type V = Map<i32, PlayerInfo>;

    closed spec fn view(&self) -> Map<i32, PlayerInfo> {
        self.players@
    }
}

impl PlayerDirectory {
    pub fn new() -> (r: Self)
        ensures
            r@ == Map::<i32, PlayerInfo>::empty(),
    {
        PlayerDirectory { players: HashMap::new() }
    }

    /// Records `info` under its id, replacing what was there.
    pub fn insert(&mut self, info: PlayerInfo)
        ensures
            final(self)@ == old(self)@.insert(info.id, info),
    {
        self.players.insert(info.id, info);
    }

    /// The player with this id, if connected.
    pub fn resolve(&self, id: i32) -> (r: Option<&PlayerInfo>)
        ensures
            r matches Some(p) ==> self@.contains_key(id) && *p == self@[id],
            r is None ==> !self@.contains_key(id),
    {
        self.players.get(&id)
    }
}

/// Conditions on the player that an argument names.
#[derive(Clone, Debug, PartialEq, Eq)]
pub struct PlayerConstraints {
    pub min_health: Option<i32>,
    pub max_health: Option<i32>,
    pub spawned: bool,
    pub nick: Option<String>,
}

impl PlayerConstraints {
    /// Spawned state, then the name filter, then minimum and maximum health.
    pub open spec fn check(self, p: PlayerInfo) -> Result<(), Violation> {
        if self.spawned && !p.spawned {
            Err(Violation::NotSpawned)
        } else if self.nick is Some && !contains_seq(p.name@, self.nick->0@) {
            Err(Violation::NickMismatch(self.nick->0))
        } else if self.min_health is Some && p.health < self.min_health->0 {
            Err(Violation::HealthBelow(self.min_health->0))
        } else if self.max_health is Some && p.health > self.max_health->0 {
            Err(Violation::HealthAbove(self.max_health->0))
        } else {
            Ok(())
        }
    }

    pub fn new() -> (r: Self)
        ensures
            r.min_health is None,
            r.max_health is None,
            !r.spawned,
            r.nick is None,
    {
        PlayerConstraints { min_health: None, max_health: None, nick: None, spawned: false }
    }

    pub fn validate(&self, player: &PlayerInfo) -> (r: Result<(), Violation>)
        ensures
            r == self.check(*player),
    {
        if self.spawned && !player.spawned {
            return Err(Violation::NotSpawned);
        }
        if let Some(nick) = &self.nick {
            if !contains_str(player.name.as_str(), nick.as_str()) {
                return Err(Violation::NickMismatch(nick.clone()));
            }
        }
        if let Some(min) = self.min_health {
            if player.health < min {
                return Err(Violation::HealthBelow(min));
            }
        }
        if let Some(max) = self.max_health {
            if player.health > max {
                return Err(Violation::HealthAbove(max));
            }
        }
        Ok(())
    }

    pub fn min_health(self, health: i32) -> (r: Self)
        ensures
            r == (PlayerConstraints { min_health: Some(health), ..self }),
    {
        PlayerConstraints { min_health: Some(health), ..self }
    }

    pub fn max_health(self, health: i32) -> (r: Self)
        ensures
            r == (PlayerConstraints { max_health: Some(health), ..self }),
    {
        PlayerConstraints { max_health: Some(health), ..self }
    }

    pub fn must_be_spawned(self) -> (r: Self)
        ensures
            r == (PlayerConstraints { spawned: true, ..self }),
    {
        PlayerConstraints { spawned: true, ..self }
    }

    pub fn with_nick(self, nick: &str) -> (r: Self)
        ensures
            r.nick matches Some(n) && n@ == nick@,
            r.min_health == self.min_health,
            r.max_health == self.max_health,
            r.spawned == self.spawned,
    {
        PlayerConstraints { nick: Some(nick.to_owned()), ..self }
    }
}

/// The check bound to one argument position.
#[derive(Clone, Debug, PartialEq, Eq)]
pub enum ArgValidator {
    Player(PlayerConstraints),
    String(StringConstraints),
    Number(NumberConstraints),
    Text,
}

impl ArgValidator {
    pub open spec fn spec_kind(self) -> ArgKind {
        match self {
            ArgValidator::Player(_) => ArgKind::Player,
            ArgValidator::String(_) => ArgKind::String,
            ArgValidator::Number(_) => ArgKind::Number,
            ArgValidator::Text => ArgKind::Text,
        }
    }

    /// The outcome of checking the token `arg` against this validator, with
    /// `players` as the connected players.
    pub open spec fn verdict(self, arg: Seq<char>, players: Map<i32, PlayerInfo>) -> Result<
        (),
        ArgError,
    > {
        match self {
            ArgValidator::Player(c) => match i32_of(arg) {
                None => Err(ArgError::ParseError(ArgKind::Player)),
                Some(id) => if !players.contains_key(id) {
                    Err(ArgError::EntryNotFound(id))
                } else {
                    match c.check(players[id]) {
                        Ok(()) => Ok(()),
                        Err(v) => Err(ArgError::ConstraintViolation(v)),
                    }
                },
            },
            ArgValidator::Number(c) => match i32_of(arg) {
                None => Err(ArgError::ParseError(ArgKind::Number)),
                Some(v) => match c.check(v as int) {
                    Ok(()) => Ok(()),
                    Err(v) => Err(ArgError::ConstraintViolation(v)),
                },
            },
            ArgValidator::String(c) => match c.check(arg) {
                Ok(()) => Ok(()),
                Err(v) => Err(ArgError::ConstraintViolation(v)),
            },
            ArgValidator::Text => Ok(()),
        }
    }

    pub fn kind(&self) -> (r: ArgKind)
        ensures
            r == self.spec_kind(),
    {
        match self {
            ArgValidator::Player(_) => ArgKind::Player,
            ArgValidator::String(_) => ArgKind::String,
            ArgValidator::Number(_) => ArgKind::Number,
            ArgValidator::Text => ArgKind::Text,
        }
    }

    /// Checks one token; a player id is looked up in `players`.
    pub fn validate(&self, arg: &str, players: &PlayerDirectory) -> (r: Result<(), ArgError>)
        ensures
            r == self.verdict(arg@, players@),
    {
        match self {
            ArgValidator::Player(constraints) => {
                let id = match parse_i32(arg) {
                    Some(id) => id,
                    None => return Err(ArgError::ParseError(ArgKind::Player)),
                };
                let player = match players.resolve(id) {
                    Some(p) => p,
                    None => return Err(ArgError::EntryNotFound(id)),
                };
                match constraints.validate(player) {
                    Ok(()) => Ok(()),
                    Err(v) => Err(ArgError::ConstraintViolation(v)),
                }
            },
            ArgValidator::Number(constraints) => {
                let number = match parse_i32(arg) {
                    Some(n) => n,
                    None => return Err(ArgError::ParseError(ArgKind::Number)),
                };
                match constraints.validate(number) {
                    Ok(()) => Ok(()),
                    Err(v) => Err(ArgError::ConstraintViolation(v)),
                }
            },
            ArgValidator::String(constraints) => match constraints.validate(arg) {
                Ok(()) => Ok(()),
                Err(v) => Err(ArgError::ConstraintViolation(v)),
            },
            ArgValidator::Text => Ok(()),
        }
    }
}

} // verus!
