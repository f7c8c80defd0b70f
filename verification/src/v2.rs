//! Resources and the actions on them: the model behind permissions that
//! name what they protect.

use vstd::prelude::*;
use vstd::std_specs::cmp::PartialEqSpec;
use crate::choices::ModelChoice;

verus! {

/// Where a resource policy applies: each part narrows it.
#[derive(Debug, Copy, Clone, Eq, PartialEq, Hash, Structural)]
pub struct Principle {
    pub guild_id: Option<u64>,
    pub channel_id: Option<u64>,
    pub role_id: Option<u64>,
    pub user_id: Option<u64>,
}

impl Default for Principle {
    fn default() -> (r: Principle)
        ensures
            r == (Principle { guild_id: None, channel_id: None, role_id: None, user_id: None }),
    {
        Principle { guild_id: None, channel_id: None, role_id: None, user_id: None }
    }
}

#[derive(Debug, Copy, Clone, Eq, PartialEq, Hash, Structural)]
pub enum Effect {
    Allow,
    Deny,
}

impl Default for Effect {
    fn default() -> (r: Effect)
        ensures
            r == Effect::Deny,
    {
        Effect::Deny
    }
}

/// What a policy has to say on a request.
#[derive(Debug, Copy, Clone, Eq, PartialEq, Hash, Structural)]
pub enum AuthDecision {
    Allow,
    Deny,
    NoOpinion,
}

/// Something that can be protected. Its specifier, where it has one,
/// names one resource among those of its kind.
pub trait Resource {
    type Action;

    type Specifier: Eq;

    spec fn specifier_of(&self) -> Option<Self::Specifier>;

    fn specifier(&self) -> (r: &Option<Self::Specifier>)
        ensures
            *r == self.specifier_of(),
    ;
}

/// Whether `base` covers `other`: a resource without specifier covers all
/// of its kind, one with a specifier only the resource of the same
/// specifier.
pub open spec fn covers<R: Resource>(base: &R, other: &R, r: bool) -> bool {
    match (base.specifier_of(), other.specifier_of()) {
        (None, _) => r,
        (Some(a), Some(b)) => R::Specifier::obeys_eq_spec() ==> r == a.eq_spec(&b),
        _ => !r,
    }
}

pub fn resource_matches<R: Resource>(base: &R, other: &R) -> (r: bool)
    ensures
        covers(base, other, r),
{
    match (base.specifier(), other.specifier()) {
        (None, _) => true,
        (Some(specifier), Some(other)) => specifier == other,
        _ => false,
    }
}

/// A resource together with one action on it.
#[derive(Debug)]
pub struct ResourceAction<R: Resource> {
    pub resource: R,
    pub action: R::Action,
}

/// A resource together with the actions a policy speaks of.
#[derive(Debug)]
pub struct ResourcePolicy<T: Resource> {
    pub resource: T,
    pub actions: Vec<T::Action>,
}

#[derive(Debug, Copy, Clone, Eq, PartialEq, Hash, Structural)]
pub enum PersonaActions {
    Chat,
    Create,
    Edit,
    Delete,
}

/// A persona, by name.
#[derive(Debug)]
pub struct Persona {
    pub name: Option<String>,
}

impl Resource for Persona {
    type Action = PersonaActions;

    type Specifier = String;

    open spec fn specifier_of(&self) -> Option<String> {
        self.name
    }

    fn specifier(&self) -> (r: &Option<String>) {
        &self.name
    }
}

#[derive(Debug, Copy, Clone, Eq, PartialEq, Hash, Structural)]
pub enum PermissionActions {
    Assign,
    Get,
}

/// A permission, by the action it is about.
#[derive(Debug)]
pub struct Permission {
    pub action: Option<String>,
}

impl Resource for Permission {
    type Action = PermissionActions;

    type Specifier = String;

    open spec fn specifier_of(&self) -> Option<String> {
        self.action
    }

    fn specifier(&self) -> (r: &Option<String>) {
        &self.action
    }
}

#[derive(Debug, Copy, Clone, Eq, PartialEq, Hash, Structural)]
pub enum SettingActions {
    Assign,
    Get,
}

/// A setting, by name.
#[derive(Debug)]
pub struct Setting {
    pub name: Option<String>,
}

impl Resource for Setting {
    type Action = SettingActions;

    type Specifier = String;

    open spec fn specifier_of(&self) -> Option<String> {
        self.name
    }

    fn specifier(&self) -> (r: &Option<String>) {
        &self.name
    }
}

#[derive(Debug, Copy, Clone, Eq, PartialEq, Hash, Structural)]
pub enum FeedbackKind {
    Bug,
    Suggestion,
}

#[derive(Debug, Copy, Clone, Eq, PartialEq, Hash, Structural)]
pub enum FeedbackActions {
    Send,
}

/// Feedback, by kind.
#[derive(Debug)]
pub struct Feedback {
    pub kind: Option<FeedbackKind>,
}

impl Resource for Feedback {
    type Action = FeedbackActions;

    type Specifier = FeedbackKind;

    open spec fn specifier_of(&self) -> Option<FeedbackKind> {
        self.kind
    }

    fn specifier(&self) -> (r: &Option<FeedbackKind>) {
        &self.kind
    }
}

/// The language models a persona can run on.
#[derive(Debug, Copy, Clone, Eq, PartialEq, Hash, Structural)]
pub enum LlmModel {
    Gpt35Turbo,
    Gpt4,
}

impl LlmModel {
    /// The model a choice stands for.
    pub fn from_choice(choice: ModelChoice) -> (r: LlmModel)
        ensures
            r == match choice {
                ModelChoice::Gpt35 => LlmModel::Gpt35Turbo,
                ModelChoice::Gpt4 => LlmModel::Gpt4,
            },
    {
        match choice {
            ModelChoice::Gpt35 => LlmModel::Gpt35Turbo,
            ModelChoice::Gpt4 => LlmModel::Gpt4,
        }
    }
}

#[derive(Debug, Copy, Clone, Eq, PartialEq, Hash, Structural)]
pub enum ModelActions {
    Use,
}

/// A language model, by kind.
#[derive(Debug)]
pub struct Model {
    pub kind: Option<LlmModel>,
}

impl Resource for Model {
    type Action = ModelActions;

    type Specifier = LlmModel;

    open spec fn specifier_of(&self) -> Option<LlmModel> {
        self.kind
    }

    fn specifier(&self) -> (r: &Option<LlmModel>) {
        &self.kind
    }
}

} // verus!
