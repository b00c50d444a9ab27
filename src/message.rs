//! The texts that report failures to the player who ran a command.
use vstd::prelude::*;

use crate::text::{decimal, int_text};
use crate::validate::{ArgError, ArgKind, Violation};

verus! {

/// The kind as the handler's extraction methods spell it (`next_number`).
pub open spec fn kind_word(k: ArgKind) -> Seq<char> {
    match k {
        ArgKind::Player => "player"@,
        ArgKind::Number => "number"@,
        ArgKind::String => "string"@,
        ArgKind::Text => "text"@,
    }
}

/// The kind as a validator's name (`Number`).
pub open spec fn kind_name(k: ArgKind) -> Seq<char> {
    match k {
        ArgKind::Player => "Player"@,
        ArgKind::Number => "Number"@,
        ArgKind::String => "String"@,
        ArgKind::Text => "Text"@,
    }
}

pub open spec fn violation_text(v: Violation) -> Seq<char> {
    match v {
        Violation::NotPositive => "Number must be positive"@,
        Violation::BelowMin(m) => "Number must be at least "@ + int_text(m as int),
        Violation::AboveMax(m) => "Number must be at most "@ + int_text(m as int),
        Violation::TooShort(m) => "String must be at least "@ + int_text(m as int)
            + " characters"@,
        Violation::TooLong(m) => "String must be at most "@ + int_text(m as int) + " characters"@,
        Violation::MissingPattern(p) => "String must contain '"@ + p@ + "'"@,
        Violation::NotSpawned => "Player must be spawned"@,
        Violation::NickMismatch(n) => "Player name must contain '"@ + n@ + "'"@,
        Violation::HealthBelow(m) => "Player health must be at least "@ + int_text(m as int),
        Violation::HealthAbove(m) => "Player health must be at most "@ + int_text(m as int),
    }
}

pub open spec fn error_text(e: ArgError) -> Seq<char> {
    match e {
        ArgError::ParseError(k) => match k {
            ArgKind::Player => "Invalid player id"@,
            ArgKind::Number => "Invalid number"@,
            _ => "Invalid argument"@,
        },
        ArgError::MissingArgument { kind, position } => "Missing "@ + kind_word(kind)
            + " argument at position "@ + int_text(position as int),
        ArgError::EntryNotFound(id) => "Player "@ + int_text(id as int) + " not found"@,
        ArgError::ConstraintViolation(v) => violation_text(v),
        ArgError::ValidatorMismatch { bound, requested, position } => "Validator mismatch at position "@
            + int_text(position as int) + ": expected "@ + kind_name(bound) + ", but you used next_"@
            + kind_word(requested) + "()"@,
    }
}

fn kind_word_of(k: ArgKind) -> (r: &'static str)
    ensures
        r@ == kind_word(k),
{
    match k {
        ArgKind::Player => "player",
        ArgKind::Number => "number",
        ArgKind::String => "string",
        ArgKind::Text => "text",
    }
}

fn kind_name_of(k: ArgKind) -> (r: &'static str)
    ensures
        r@ == kind_name(k),
{
    match k {
        ArgKind::Player => "Player",
        ArgKind::Number => "Number",
        ArgKind::String => "String",
        ArgKind::Text => "Text",
    }
}

/// `head` followed by the decimal writing of `n` and then `tail`.
fn with_number(head: &str, n: i128, tail: &str) -> (r: String)
    ensures
        r@ == head@ + int_text(n as int) + tail@,
{
    let mut s = String::from_str(head);
    let d = decimal(n);
    s.append(d.as_str());
    s.append(tail);
    s
}

/// `head` followed by the decimal writing of `n`.
fn prefixed_number(head: &str, n: i128) -> (r: String)
    ensures
        r@ == head@ + int_text(n as int),
{
    let mut s = String::from_str(head);
    let d = decimal(n);
    s.append(d.as_str());
    s
}

/// `head` followed by `middle` and then `tail`.
fn enclosed(head: &str, middle: &str, tail: &str) -> (r: String)
    ensures
        r@ == head@ + middle@ + tail@,
{
    let mut s = String::from_str(head);
    s.append(middle);
    s.append(tail);
    s
}

impl Violation {
    pub fn message(&self) -> (r: String)
        ensures
            r@ == violation_text(*self),
    {
        match self {
            Violation::NotPositive => String::from_str("Number must be positive"),
            Violation::BelowMin(m) => prefixed_number("Number must be at least ", *m as i128),
            Violation::AboveMax(m) => prefixed_number("Number must be at most ", *m as i128),
            Violation::TooShort(m) => with_number(
                "String must be at least ",
                *m as i128,
                " characters",
            ),
            Violation::TooLong(m) => with_number(
                "String must be at most ",
                *m as i128,
                " characters",
            ),
            Violation::MissingPattern(p) => enclosed("String must contain '", p.as_str(), "'"),
            Violation::NotSpawned => String::from_str("Player must be spawned"),
            Violation::NickMismatch(n) => enclosed("Player name must contain '", n.as_str(), "'"),
            Violation::HealthBelow(m) => prefixed_number("Player health must be at least ", *m as i128),
            Violation::HealthAbove(m) => prefixed_number("Player health must be at most ", *m as i128),
        }
    }
}

impl ArgError {
    /// The text reported to the player.
    pub fn message(&self) -> (r: String)
        ensures
            r@ == error_text(*self),
    {
        match self {
            ArgError::ParseError(k) => match k {
                ArgKind::Player => String::from_str("Invalid player id"),
                ArgKind::Number => String::from_str("Invalid number"),
                _ => String::from_str("Invalid argument"),
            },
            ArgError::MissingArgument { kind, position } => {
                let mut s = String::from_str("Missing ");
                s.append(kind_word_of(*kind));
                let rest = prefixed_number(" argument at position ", *position as i128);
                s.append(rest.as_str());
                s
            },
            ArgError::EntryNotFound(id) => with_number("Player ", *id as i128, " not found"),
            ArgError::ConstraintViolation(v) => v.message(),
            ArgError::ValidatorMismatch { bound, requested, position } => {
                let mut s = with_number("Validator mismatch at position ", *position as i128, ": expected ");
                s.append(kind_name_of(*bound));
                s.append(", but you used next_");
                s.append(kind_word_of(*requested));
                s.append("()");
                s
            },
        }
    }
}

} // verus!
