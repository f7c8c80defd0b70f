//! The choices a command offers, and what each stands for.

use vstd::prelude::*;
use vstd::string::*;
use crate::error::UserError;
use crate::permissions::Permission;
use crate::policy::{Effect, Principle};
use crate::time::Timestamp;

verus! {

/// The effect to give a policy, or `Unset` to clear it.
#[derive(Debug, Copy, Clone, Eq, PartialEq, Hash, Structural)]
pub enum EffectChoice {
    Allow,
    Deny,
    Unset,
}

impl EffectChoice {
    pub fn into_effect(self) -> (r: Option<Effect>)
        ensures
            r == match self {
                EffectChoice::Unset => None::<Effect>,
                EffectChoice::Allow => Some(Effect::Allow),
                EffectChoice::Deny => Some(Effect::Deny),
            },
    {
        match self {
            EffectChoice::Unset => None,
            EffectChoice::Allow => Some(Effect::Allow),
            EffectChoice::Deny => Some(Effect::Deny),
        }
    }
}

/// The permissions by the names they are offered under.
#[derive(Debug, Copy, Clone, Eq, PartialEq, Hash, Structural)]
pub enum PermissionChoice {
    Chat,
    ManagePermissions,
    GetPermissions,
    ManageSettings,
    GetSettings,
    SendFeedback,
    CreatePersona,
    ListPersona,
    EditPersona,
    UsePersona,
    DeletePersona,
}

impl PermissionChoice {
    /// The permission a choice stands for. The specifier is dropped where
    /// the permission takes none.
    pub fn into_permission(self, specifier: Option<String>) -> (r: Permission)
        ensures
            r == match self {
                PermissionChoice::Chat => Permission::Chat(specifier),
                PermissionChoice::ManagePermissions => Permission::SetPermission(specifier),
                PermissionChoice::GetPermissions => Permission::GetPermission(specifier),
                PermissionChoice::ManageSettings => Permission::SetSetting(specifier),
                PermissionChoice::GetSettings => Permission::GetSetting(specifier),
                PermissionChoice::SendFeedback => Permission::SendFeedback(specifier),
                PermissionChoice::CreatePersona => Permission::CreatePersona,
                PermissionChoice::ListPersona => Permission::ListPersona,
                PermissionChoice::EditPersona => Permission::EditPersona(specifier),
                PermissionChoice::UsePersona => Permission::UsePersona(specifier),
                PermissionChoice::DeletePersona => Permission::DeletePersona(specifier),
            },
    {
        match self {
            PermissionChoice::Chat => Permission::Chat(specifier),
            PermissionChoice::ManagePermissions => Permission::SetPermission(specifier),
            PermissionChoice::GetPermissions => Permission::GetPermission(specifier),
            PermissionChoice::ManageSettings => Permission::SetSetting(specifier),
            PermissionChoice::GetSettings => Permission::GetSetting(specifier),
            PermissionChoice::SendFeedback => Permission::SendFeedback(specifier),
            PermissionChoice::CreatePersona => Permission::CreatePersona,
            PermissionChoice::ListPersona => Permission::ListPersona,
            PermissionChoice::EditPersona => Permission::EditPersona(specifier),
            PermissionChoice::UsePersona => Permission::UsePersona(specifier),
            PermissionChoice::DeletePersona => Permission::DeletePersona(specifier),
        }
    }
}

/// The kinds of feedback that can be sent.
#[derive(Debug, Copy, Clone, Eq, PartialEq, Hash, Structural)]
pub enum FeedbackTypeChoice {
    Bug,
    Suggestion,
}

impl FeedbackTypeChoice {
    /// The label an issue of this kind is filed under.
    pub fn label(self) -> (s: String)
        ensures
            s@ == match self {
                FeedbackTypeChoice::Bug => "bug"@,
                FeedbackTypeChoice::Suggestion => "enhancement"@,
            },
    {
        match self {
            FeedbackTypeChoice::Bug => "bug".to_string(),
            FeedbackTypeChoice::Suggestion => "enhancement".to_string(),
        }
    }
}

/// The language models on offer.
#[derive(Debug, Copy, Clone, Eq, PartialEq, Hash, Structural)]
pub enum ModelChoice {
    Gpt35,
    Gpt4,
}

impl ModelChoice {
    /// The name a model is shown under.
    pub open spec fn name_text(self) -> Seq<char> {
        match self {
            ModelChoice::Gpt35 => "GPT 3.5"@,
            ModelChoice::Gpt4 => "GPT 3"@,
        }
    }

    pub fn to_string(&self) -> (s: String)
        ensures
            s@ == self.name_text(),
    {
        match self {
            ModelChoice::Gpt35 => "GPT 3.5".to_string(),
            ModelChoice::Gpt4 => "GPT 3".to_string(),
        }
    }

    /// The permission that using a model asks for: none where no model is
    /// chosen or the chosen one is the default.
    pub fn required_permission(choice: &Option<ModelChoice>) -> (r: Option<Permission>)
        ensures
            match *choice {
                Some(ModelChoice::Gpt4) => r matches Some(Permission::UseModel(Some(name)))
                    && name@ == ModelChoice::Gpt4.name_text(),
                _ => r.is_none(),
            },
    {
        match choice {
            Some(ModelChoice::Gpt4) => Some(Permission::UseModel(Some(ModelChoice::Gpt4.to_string()))),
            _ => None,
        }
    }
}

impl Default for ModelChoice {
    fn default() -> (r: ModelChoice)
        ensures
            r == ModelChoice::Gpt35,
    {
        ModelChoice::Gpt35
    }
}

/// The commands known by name.
#[derive(Debug, Copy, Clone, Eq, PartialEq, Hash, Structural)]
pub enum SlashCommands {
    Ping,
}

impl SlashCommands {
    /// The command of this name, if there is one.
    pub fn parse(command: &str) -> (r: Result<SlashCommands, ()>)
        ensures
            r.is_ok() == (command@ == "ping"@),
            r.is_ok() ==> r.unwrap() == SlashCommands::Ping,
    {
        if crate::store::is_same_text(command, "ping") {
            Ok(SlashCommands::Ping)
        } else {
            Err(())
        }
    }
}

impl std::str::FromStr for SlashCommands {
    type Err = ();

    fn from_str(command: &str) -> (r: Result<SlashCommands, ()>)
        ensures
            r.is_ok() == (command@ == "ping"@),
            r.is_ok() ==> r.unwrap() == SlashCommands::Ping,
    {
        SlashCommands::parse(command)
    }
}

/// What a persona form is filled in with.
#[derive(Debug)]
pub struct PersonaModal {
    pub name: String,
    pub description: String,
    pub prompt: String,
}

/// The principle a command is aimed at, from the scopes it was given: at
/// most one of channel, user and role. A user needs a guild around it. With
/// no scope given it is the guild, or outside a guild the channel the
/// command came from.
pub open spec fn principle_of(
    guild_id: Option<u64>,
    current_channel: u64,
    channel: Option<u64>,
    user: Option<u64>,
    role: Option<u64>,
) -> Option<Principle> {
    match (channel, user, role) {
        (Some(c), None, None) => Some(Principle::Channel(c)),
        (None, Some(u), None) => match guild_id {
            Some(g) => Some(Principle::Member(g, u)),
            None => None,
        },
        (None, None, Some(r)) => Some(Principle::Role(r)),
        (None, None, None) => match guild_id {
            Some(g) => Some(Principle::Guild(g)),
            None => Some(Principle::Channel(current_channel)),
        },
        _ => None,
    }
}

/// Picks the principle a command is aimed at, or says that the scopes
/// given do not name one.
pub fn get_principle(
    guild_id: Option<u64>,
    current_channel: u64,
    channel: Option<u64>,
    user: Option<u64>,
    role: Option<u64>,
) -> (r: Result<Principle, UserError>)
    ensures
        match principle_of(guild_id, current_channel, channel, user, role) {
            Some(p) => r == Ok::<Principle, UserError>(p),
            None => r matches Err(UserError::InvalidInput { message }) && message@
                == "Please specify only one scope"@,
        },
{
    match (channel, user, role) {
        (Some(channel_id), None, None) => Ok(Principle::Channel(channel_id)),
        (None, Some(user_id), None) => {
            if let Some(guild_id) = guild_id {
                Ok(Principle::Member(guild_id, user_id))
            } else {
                Err(UserError::invalid_input("Please specify only one scope"))
            }
        },
        (None, None, Some(role_id)) => Ok(Principle::Role(role_id)),
        (None, None, None) => {
            if let Some(guild_id) = guild_id {
                Ok(Principle::Guild(guild_id))
            } else {
                Ok(Principle::Channel(current_channel))
            }
        },
        _ => Err(UserError::invalid_input("Please specify only one scope")),
    }
}

/// When a policy set by a command expires: at `until` where that is
/// given, after the time `span` (seconds and nanoseconds) from `now` where
/// that is given, never where neither is. Both at once is refused.
pub open spec fn expiry_of(
    span: Option<(u64, u32)>,
    until: Option<Timestamp>,
    now: Timestamp,
) -> Option<Option<Timestamp>> {
    match (span, until) {
        (Some(d), None) => Some(Some(shifted(now, d.0, d.1))),
        (None, Some(u)) => Some(Some(u)),
        (None, None) => Some(None),
        _ => None,
    }
}

/// Whether `now` moved on by the span is an instant that can be written
/// down.
pub open spec fn shift_fits(now: Timestamp, secs: u64, nanos: u32) -> bool {
    now.secs + secs + (now.nanos + nanos) / 1_000_000_000 <= i64::MAX
}

/// The instant the span after `now`: whole seconds of nanoseconds carry
/// over.
pub open spec fn shifted(now: Timestamp, secs: u64, nanos: u32) -> Timestamp {
    Timestamp {
        secs: (now.secs + secs + (now.nanos + nanos) / 1_000_000_000) as i64,
        nanos: ((now.nanos + nanos) % 1_000_000_000) as u32,
    }
}

/// Works out the expiry of a policy from what a command was given.
pub fn expiry(span: Option<(u64, u32)>, until: Option<Timestamp>, now: Timestamp) -> (r: Result<
    Option<Timestamp>,
    UserError,
>)
    requires
        span matches Some(d) ==> shift_fits(now, d.0, d.1),
    ensures
        match expiry_of(span, until, now) {
            Some(e) => r == Ok::<Option<Timestamp>, UserError>(e),
            None => r matches Err(UserError::InvalidInput { message }) && message@
                == "Cannot provide `for` and `until` simultaneously"@,
        },
{
    match (span, until) {
        (Some(d), None) => {
            let total: u64 = now.nanos as u64 + d.1 as u64;
            let carry: u64 = total / 1_000_000_000;
            let secs: i128 = now.secs as i128 + d.0 as i128 + carry as i128;
            Ok(Some(Timestamp { secs: secs as i64, nanos: (total % 1_000_000_000) as u32 }))
        },
        (None, Some(u)) => Ok(Some(u)),
        (None, None) => Ok(None),
        _ => Err(UserError::invalid_input("Cannot provide `for` and `until` simultaneously")),
    }
}

} // verus!
