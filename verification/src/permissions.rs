//! The actions that can be asked for, and the enforcer that allows or
//! denies them.

use vstd::prelude::*;
use vstd::string::*;
use crate::error::UserError;
use crate::policy::{combine, Effect, Policy, PolicyContext, PolicyView};
use crate::policy_manager::PolicyManager;
use crate::roles::RoleOrder;
use crate::text::principle_text;
use crate::time::Timestamp;

verus! {

/// An action, some with a specifier that narrows it.
#[derive(Debug)]
pub enum Permission {
    Chat(Option<String>),
    SetPermission(Option<String>),
    GetPermission(Option<String>),
    SetSetting(Option<String>),
    GetSetting(Option<String>),
    SendFeedback(Option<String>),
    CreatePersona,
    ListPersona,
    EditPersona(Option<String>),
    UsePersona(Option<String>),
    DeletePersona(Option<String>),
    UseModel(Option<String>),
}

impl Permission {
    /// The dotted name of the action.
    pub open spec fn action_text(self) -> Seq<char> {
        match self {
            Permission::Chat(_) => "chat"@,
            Permission::SetPermission(_) => "permissions.set"@,
            Permission::GetPermission(_) => "permissions.get"@,
            Permission::SetSetting(_) => "settings.set"@,
            Permission::GetSetting(_) => "settings.get"@,
            Permission::SendFeedback(_) => "feedback.send"@,
            Permission::CreatePersona => "persona.create"@,
            Permission::ListPersona => "persona.list"@,
            Permission::EditPersona(_) => "persona.edit"@,
            Permission::UsePersona(_) => "persona.use"@,
            Permission::DeletePersona(_) => "persona.delete"@,
            Permission::UseModel(_) => "model.use"@,
        }
    }

    /// The specifier, where the action takes one and one is given.
    pub open spec fn specifier_text(self) -> Option<Seq<char>> {
        match self {
            Permission::Chat(Some(s)) => Some(s@),
            Permission::SetPermission(Some(s)) => Some(s@),
            Permission::GetPermission(Some(s)) => Some(s@),
            Permission::SetSetting(Some(s)) => Some(s@),
            Permission::GetSetting(Some(s)) => Some(s@),
            Permission::SendFeedback(Some(s)) => Some(s@),
            Permission::EditPersona(Some(s)) => Some(s@),
            Permission::UsePersona(Some(s)) => Some(s@),
            Permission::DeletePersona(Some(s)) => Some(s@),
            Permission::UseModel(Some(s)) => Some(s@),
            _ => None,
        }
    }

    /// The action as it is looked up: the name, then a colon and the
    /// specifier where there is one.
    pub open spec fn full_text(self) -> Seq<char> {
        match self.specifier_text() {
            Some(s) => self.action_text() + ":"@ + s,
            None => self.action_text(),
        }
    }

    pub fn action(&self) -> (r: &'static str)
        ensures
            r@ == self.action_text(),
    {
        match self {
            Permission::Chat(_) => "chat",
            Permission::SetPermission(_) => "permissions.set",
            Permission::GetPermission(_) => "permissions.get",
            Permission::SetSetting(_) => "settings.set",
            Permission::GetSetting(_) => "settings.get",
            Permission::SendFeedback(_) => "feedback.send",
            Permission::CreatePersona => "persona.create",
            Permission::ListPersona => "persona.list",
            Permission::EditPersona(_) => "persona.edit",
            Permission::UsePersona(_) => "persona.use",
            Permission::DeletePersona(_) => "persona.delete",
            Permission::UseModel(_) => "model.use",
        }
    }

    pub fn specifier(&self) -> (r: Option<&str>)
        ensures
            r.is_some() == self.specifier_text().is_some(),
            r.is_some() ==> r.unwrap()@ == self.specifier_text().unwrap(),
    {
        let specifier = match self {
            Permission::Chat(specifier) => specifier,
            Permission::SetPermission(specifier) => specifier,
            Permission::GetPermission(specifier) => specifier,
            Permission::SetSetting(specifier) => specifier,
            Permission::GetSetting(specifier) => specifier,
            Permission::SendFeedback(specifier) => specifier,
            Permission::EditPersona(specifier) => specifier,
            Permission::UsePersona(specifier) => specifier,
            Permission::DeletePersona(specifier) => specifier,
            Permission::UseModel(specifier) => specifier,
            _ => &None,
        };
        match specifier {
            Some(s) => Some(s.as_str()),
            None => None,
        }
    }

    /// The action as it is looked up and shown.
    pub fn to_string(&self) -> (s: String)
        ensures
            s@ == self.full_text(),
    {
        let action = self.action().to_string();
        match self.specifier() {
            Some(specifier) => action.concat(":").concat(specifier),
            None => action,
        }
    }
}

/// Why a request was denied: the principle whose policy decided, and the
/// action that was asked for.
pub open spec fn denial_reason(policy: PolicyView, permission: Permission) -> Seq<char> {
    principle_text(policy.principle) + " does not have permissions for "@ + permission.full_text()
}

/// The decision `r` is the one that follows from the effective policy:
/// allowed exactly by an allow, else denied with the reason.
pub open spec fn decision_follows(
    r: Result<(), UserError>,
    effective: PolicyView,
    permission: Permission,
) -> bool {
    &&& r.is_ok() == (effective.effect == Effect::Allow)
    &&& r matches Err(e) ==> e matches UserError::AccessDenied { reason } && reason@
        == denial_reason(effective, permission)
}

/// The context of a request by a user in a channel.
pub open spec fn request_context(
    user_id: u64,
    channel_id: u64,
    guild_id: Option<u64>,
    roles: Vec<u64>,
) -> PolicyContext {
    PolicyContext { guild_id, channel_id: Some(channel_id), roles, user_id: Some(user_id) }
}

/// Whether `user_id` is among the owners.
pub fn is_owner(owners: &Vec<u64>, user_id: u64) -> (r: bool)
    ensures
        r == owners@.contains(user_id),
{
    let mut i: usize = 0;
    while i < owners.len()
        invariant
            i <= owners.len(),
            forall|k: int| 0 <= k < i ==> owners@[k] != user_id,
        decreases owners.len() - i,
    {
        if owners[i] == user_id {
            return true;
        }
        i += 1;
    }
    false
}

/// Only an owner passes.
pub fn validate_owner(owners: &Vec<u64>, user_id: u64) -> (r: Result<(), UserError>)
    ensures
        r.is_ok() == owners@.contains(user_id),
        r matches Err(e) ==> e matches UserError::AccessDenied { reason } && reason@
            == "Only the bot owner can do that"@,
{
    if is_owner(owners, user_id) {
        return Ok(());
    }
    Err(UserError::access_denied("Only the bot owner can do that"))
}

/// The enforcer: the policy manager, asked on behalf of a user.
#[derive(Debug)]
pub struct PermissionsManager {
    pub policy_manager: PolicyManager,
}

impl PermissionsManager {
    pub fn new() -> (m: PermissionsManager)
        ensures
            m.policy_manager.wf(),
            forall|kind: crate::policy_manager::ScopeKind| #[trigger]
                m.policy_manager.rows(kind) == Seq::<PolicyView>::empty(),
    {
        PermissionsManager { policy_manager: PolicyManager::new() }
    }

    /// The decision that follows from the effective policy: allowed only
    /// by an explicit allow, else denied with the reason.
    pub fn decide(policy: &Policy, permission: &Permission) -> (r: Result<(), UserError>)
        ensures
            decision_follows(r, policy@, *permission),
    {
        match policy.effect {
            Effect::Allow => Ok(()),
            _ => {
                let reason = policy.principle.describe().concat(
                    " does not have permissions for ",
                ).concat(permission.to_string().as_str());
                Err(UserError::AccessDenied { reason })
            },
        }
    }

    /// Allows or denies `permission` to a user in a channel at the instant
    /// `now`. An owner is allowed at once. For anyone else the effective
    /// policy of the request decides.
    pub fn enforce_at<O: RoleOrder>(
        &self,
        owners: &Vec<u64>,
        user_id: u64,
        channel_id: u64,
        guild_id: Option<u64>,
        roles: Vec<u64>,
        permission: &Permission,
        now: Timestamp,
        order: &O,
    ) -> (r: Result<(), UserError>)
        ensures
            owners@.contains(user_id) ==> r.is_ok(),
            !owners@.contains(user_id) ==> decision_follows(
                r,
                combine(
                    self.policy_manager.candidates(
                        request_context(user_id, channel_id, guild_id, roles),
                        permission.full_text(),
                    ),
                    now,
                    order,
                ),
                *permission,
            ),
    {
        if is_owner(owners, user_id) {
            return Ok(());
        }
        let ctx = PolicyContext { guild_id, channel_id: Some(channel_id), roles, user_id: Some(user_id) };
        let action = permission.to_string();
        let policy = self.policy_manager.effective_policy_at(&ctx, action.as_str(), now, order);
        PermissionsManager::decide(&policy, permission)
    }

    /// Allows or denies at the clock's current instant.
    pub fn enforce<O: RoleOrder>(
        &self,
        owners: &Vec<u64>,
        user_id: u64,
        channel_id: u64,
        guild_id: Option<u64>,
        roles: Vec<u64>,
        permission: &Permission,
        order: &O,
    ) -> (r: Result<(), UserError>)
        ensures
            owners@.contains(user_id) ==> r.is_ok(),
            !owners@.contains(user_id) ==> exists|now: Timestamp|
                decision_follows(
                    r,
                    combine(
                        self.policy_manager.candidates(
                            request_context(user_id, channel_id, guild_id, roles),
                            permission.full_text(),
                        ),
                        now,
                        order,
                    ),
                    *permission,
                ),
    {
        let now = Timestamp::now();
        self.enforce_at(owners, user_id, channel_id, guild_id, roles, permission, now, order)
    }
}

} // verus!
