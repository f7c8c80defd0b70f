//! The errors shown to the person who asked, and those kept for the log.

use vstd::prelude::*;
use vstd::string::*;
use std::time::Duration;

verus! {

/// Something the person who asked did, or may not do.
#[derive(Debug)]
pub enum UserError {
    InvalidInput { message: String },
    AccessDenied { reason: String },
    CooldownHit { remaining: Duration },
    NotFound { message: String },
}

impl UserError {
    pub fn invalid_input(msg: &str) -> (e: UserError)
        ensures
            e matches UserError::InvalidInput { message } && message@ == msg@,
    {
        UserError::InvalidInput { message: msg.to_string() }
    }

    pub fn access_denied(reason: &str) -> (e: UserError)
        ensures
            e matches UserError::AccessDenied { reason: r } && r@ == reason@,
    {
        UserError::AccessDenied { reason: reason.to_string() }
    }

    pub fn cooldown_hit(remaining: Duration) -> (e: UserError)
        ensures
            e == (UserError::CooldownHit { remaining }),
    {
        UserError::CooldownHit { remaining }
    }

    pub fn not_found(message: &str) -> (e: UserError)
        ensures
            e matches UserError::NotFound { message: m } && m@ == message@,
    {
        UserError::NotFound { message: message.to_string() }
    }

    /// The text of the error, where it is made of words alone.
    pub open spec fn text(self) -> Option<Seq<char>> {
        match self {
            UserError::InvalidInput { message } => Some("Invalid input: "@ + message@),
            UserError::AccessDenied { reason } => Some("Access denied: "@ + reason@),
            UserError::CooldownHit { .. } => None,
            UserError::NotFound { message } => Some("Not Found: "@ + message@),
        }
    }

    /// The message shown for the error. A cooldown has none here: its
    /// message counts seconds in fractions.
    pub fn message(&self) -> (s: Option<String>)
        ensures
            s.is_some() == self.text().is_some(),
            s.is_some() ==> s.unwrap()@ == self.text().unwrap(),
    {
        match self {
            UserError::InvalidInput { message } => Some(
                "Invalid input: ".to_string().concat(message.as_str()),
            ),
            UserError::AccessDenied { reason } => Some(
                "Access denied: ".to_string().concat(reason.as_str()),
            ),
            UserError::CooldownHit { .. } => None,
            UserError::NotFound { message } => Some(
                "Not Found: ".to_string().concat(message.as_str()),
            ),
        }
    }
}

/// Something that went wrong inside.
#[derive(Debug)]
pub enum InternalError {
    UnexpectedInteraction(String),
    UnknownPersona(String),
    Timeout(String),
}

impl InternalError {
    pub fn unknown_persona(msg: &str) -> (e: InternalError)
        ensures
            e matches InternalError::UnknownPersona(m) && m@ == msg@,
    {
        InternalError::UnknownPersona(msg.to_string())
    }

    /// The text of the error.
    pub open spec fn text(self) -> Seq<char> {
        match self {
            InternalError::UnexpectedInteraction(m) => "Unexpected interaction: "@ + m@,
            InternalError::UnknownPersona(m) => "Unknown persona: "@ + m@,
            InternalError::Timeout(m) => "Timeout: "@ + m@,
        }
    }

    /// The message written for the error.
    pub fn message(&self) -> (s: String)
        ensures
            s@ == self.text(),
    {
        match self {
            InternalError::UnexpectedInteraction(m) => "Unexpected interaction: ".to_string().concat(
                m.as_str(),
            ),
            InternalError::UnknownPersona(m) => "Unknown persona: ".to_string().concat(m.as_str()),
            InternalError::Timeout(m) => "Timeout: ".to_string().concat(m.as_str()),
        }
    }
}

} // verus!
