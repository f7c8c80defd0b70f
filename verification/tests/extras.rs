use std::str::FromStr;
use std::time::Duration;

use faultybot::choices::{
    expiry, get_principle, EffectChoice, FeedbackTypeChoice, ModelChoice, PermissionChoice,
    PersonaModal, SlashCommands,
};
use faultybot::cooldowns::{CooldownConfig, CooldownContext};
use faultybot::error::{InternalError, UserError};
use faultybot::permissions::Permission;
use faultybot::policy::{Effect, Principle};
use faultybot::settings::{
    merge_values, Largest, MergeDecision, MergeFn, MostSpecific, SettingsContext, SettingsScopeKind,
    SettingsValue, Smallest,
};
use faultybot::time::Timestamp;
use faultybot::util::{Fromi64, OptionExt, Toi64};
use faultybot::v2;
use faultybot::v2::Resource;

#[test]
fn effect_choices() {
    assert_eq!(EffectChoice::Allow.into_effect(), Some(Effect::Allow));
    assert_eq!(EffectChoice::Deny.into_effect(), Some(Effect::Deny));
    assert_eq!(EffectChoice::Unset.into_effect(), None);
}

#[test]
fn permission_choices() {
    let s = || Some("x".to_string());
    assert_eq!(PermissionChoice::Chat.into_permission(s()).to_string(), "chat:x");
    assert_eq!(PermissionChoice::ManagePermissions.into_permission(s()).to_string(), "permissions.set:x");
    assert_eq!(PermissionChoice::GetPermissions.into_permission(s()).to_string(), "permissions.get:x");
    assert_eq!(PermissionChoice::ManageSettings.into_permission(s()).to_string(), "settings.set:x");
    assert_eq!(PermissionChoice::GetSettings.into_permission(s()).to_string(), "settings.get:x");
    assert_eq!(PermissionChoice::SendFeedback.into_permission(s()).to_string(), "feedback.send:x");
    assert_eq!(PermissionChoice::CreatePersona.into_permission(s()).to_string(), "persona.create");
    assert_eq!(PermissionChoice::ListPersona.into_permission(s()).to_string(), "persona.list");
    assert_eq!(PermissionChoice::EditPersona.into_permission(s()).to_string(), "persona.edit:x");
    assert_eq!(PermissionChoice::UsePersona.into_permission(s()).to_string(), "persona.use:x");
    assert_eq!(PermissionChoice::DeletePersona.into_permission(None).to_string(), "persona.delete");
}

#[test]
fn feedback_labels() {
    assert_eq!(FeedbackTypeChoice::Bug.label(), "bug");
    assert_eq!(FeedbackTypeChoice::Suggestion.label(), "enhancement");
}

#[test]
fn model_choices() {
    assert_eq!(ModelChoice::default(), ModelChoice::Gpt35);
    assert_eq!(ModelChoice::Gpt35.to_string(), "GPT 3.5");
    assert_eq!(ModelChoice::Gpt4.to_string(), "GPT 3");
    assert!(ModelChoice::required_permission(&None).is_none());
    assert!(ModelChoice::required_permission(&Some(ModelChoice::Gpt35)).is_none());
    match ModelChoice::required_permission(&Some(ModelChoice::Gpt4)) {
        Some(Permission::UseModel(Some(name))) => assert_eq!(name, "GPT 3"),
        _ => panic!("expected a model permission"),
    }
    assert_eq!(v2::LlmModel::from_choice(ModelChoice::Gpt35), v2::LlmModel::Gpt35Turbo);
    assert_eq!(v2::LlmModel::from_choice(ModelChoice::Gpt4), v2::LlmModel::Gpt4);
}

#[test]
fn slash_commands_by_name() {
    assert_eq!(SlashCommands::from_str("ping"), Ok(SlashCommands::Ping));
    assert_eq!(SlashCommands::from_str("pong"), Err(()));
    assert_eq!(SlashCommands::from_str("pin"), Err(()));
    assert_eq!(SlashCommands::parse("ping"), Ok(SlashCommands::Ping));
    assert_eq!(SlashCommands::parse(""), Err(()));
}

#[test]
fn persona_modal_holds_its_fields() {
    let m = PersonaModal { name: "n".to_string(), description: "d".to_string(), prompt: "p".to_string() };
    assert_eq!(m.name, "n");
    assert_eq!(m.description, "d");
    assert_eq!(m.prompt, "p");
}

fn invalid_message(r: Result<Principle, UserError>) -> String {
    match r {
        Err(UserError::InvalidInput { message }) => message,
        _ => panic!("expected invalid input"),
    }
}

#[test]
fn principle_from_scopes() {
    assert_eq!(get_principle(Some(1), 2, Some(3), None, None).unwrap(), Principle::Channel(3));
    assert_eq!(get_principle(Some(1), 2, None, Some(4), None).unwrap(), Principle::Member(1, 4));
    assert_eq!(get_principle(Some(1), 2, None, None, Some(5)).unwrap(), Principle::Role(5));
    assert_eq!(get_principle(Some(1), 2, None, None, None).unwrap(), Principle::Guild(1));
    assert_eq!(get_principle(None, 2, None, None, None).unwrap(), Principle::Channel(2));
    assert_eq!(invalid_message(get_principle(None, 2, None, Some(4), None)), "Please specify only one scope");
    assert_eq!(
        invalid_message(get_principle(Some(1), 2, Some(3), Some(4), None)),
        "Please specify only one scope"
    );
    assert_eq!(
        invalid_message(get_principle(Some(1), 2, Some(3), Some(4), Some(5))),
        "Please specify only one scope"
    );
}

#[test]
fn expiry_from_span_or_instant() {
    let now = Timestamp::new(1000, 600_000_000);
    assert_eq!(expiry(None, None, now).unwrap(), None);
    assert_eq!(expiry(None, Some(Timestamp::new(5, 6)), now).unwrap(), Some(Timestamp::new(5, 6)));
    assert_eq!(expiry(Some((60, 0)), None, now).unwrap(), Some(Timestamp::new(1060, 600_000_000)));
    assert_eq!(expiry(Some((60, 500_000_000)), None, now).unwrap(), Some(Timestamp::new(1061, 100_000_000)));
    assert_eq!(
        expiry(Some((0, 399_999_999)), None, now).unwrap(),
        Some(Timestamp::new(1000, 999_999_999))
    );
    assert_eq!(
        expiry(Some((10, 0)), None, Timestamp::new(-20, 0)).unwrap(),
        Some(Timestamp::new(-10, 0))
    );
    match expiry(Some((60, 0)), Some(Timestamp::new(5, 6)), now) {
        Err(UserError::InvalidInput { message }) => {
            assert_eq!(message, "Cannot provide `for` and `until` simultaneously")
        }
        _ => panic!("expected invalid input"),
    }
}

#[test]
fn user_error_messages() {
    assert_eq!(UserError::invalid_input("bad").message().unwrap(), "Invalid input: bad");
    assert_eq!(UserError::access_denied("no").message().unwrap(), "Access denied: no");
    assert_eq!(UserError::not_found("it").message().unwrap(), "Not Found: it");
    let hit = UserError::cooldown_hit(Duration::from_millis(1500));
    assert!(hit.message().is_none());
    match hit {
        UserError::CooldownHit { remaining } => assert_eq!(remaining, Duration::from_millis(1500)),
        _ => panic!("expected a cooldown"),
    }
}

#[test]
fn internal_error_messages() {
    assert_eq!(InternalError::unknown_persona("bob").message(), "Unknown persona: bob");
    assert_eq!(
        InternalError::UnexpectedInteraction("x".to_string()).message(),
        "Unexpected interaction: x"
    );
    assert_eq!(InternalError::Timeout("t".to_string()).message(), "Timeout: t");
}

#[test]
fn ids_round_trip_through_i64() {
    assert_eq!(5u64.to_i64(), 5i64);
    assert_eq!(u64::MAX.to_i64(), -1i64);
    assert_eq!(0x8000_0000_0000_0000u64.to_i64(), i64::MIN);
    assert_eq!(0x7fff_ffff_ffff_ffffu64.to_i64(), i64::MAX);
    assert_eq!(u64::from_i64(-1), u64::MAX);
    assert_eq!(u64::from_i64(i64::MIN), 0x8000_0000_0000_0000u64);
    assert_eq!(u64::from_i64(7), 7);
    assert_eq!(u64::from_i64(1234567890123456789u64.to_i64()), 1234567890123456789u64);
    assert_eq!(u64::from_i64(u64::MAX.to_i64()), u64::MAX);
}

#[test]
fn option_text() {
    assert_eq!(OptionExt::to_string(Some(5u64)), "5");
    assert_eq!(OptionExt::to_string(None::<u64>), "None");
    assert_eq!(OptionExt::to_string(Some("x")), "x");
}

#[test]
fn settings_scopes_and_values() {
    assert_eq!(SettingsScopeKind::Global.describe(), "Global");
    assert_eq!(SettingsScopeKind::Guild(1).describe(), "this server");
    assert_eq!(SettingsScopeKind::Channel(42).describe(), "<#42>");
    assert_eq!(SettingsScopeKind::Member(1, 77).describe(), "<@77> in this server");
    let v = SettingsValue::new(Some(3u32), SettingsScopeKind::Channel(9));
    assert_eq!(v.value(), &Some(3));
    assert_eq!(v.scope(), &SettingsScopeKind::Channel(9));
    let ctx = SettingsContext { guild_id: Some(1), channel_id: None, user_id: Some(2) };
    assert_eq!(ctx.guild_id, Some(1));
    assert_eq!(ctx.channel_id, None);
    assert_eq!(ctx.user_id, Some(2));
}

#[test]
fn merge_strategies() {
    assert_eq!(MergeFn::<u32>::merge(&MostSpecific, &5, &1), MergeDecision::Right);
    assert_eq!(MergeFn::<u32>::merge(&Largest, &5, &1), MergeDecision::Left);
    assert_eq!(MergeFn::<u32>::merge(&Largest, &1, &5), MergeDecision::Right);
    assert_eq!(MergeFn::<u32>::merge(&Largest, &5, &5), MergeDecision::Left);
    assert_eq!(MergeFn::<u32>::merge(&Smallest, &1, &5), MergeDecision::Right);
    assert_eq!(MergeFn::<u32>::merge(&Smallest, &5, &1), MergeDecision::Left);
}

#[test]
fn merging_settings_values() {
    let global = || SettingsValue::new(Some(10u32), SettingsScopeKind::Global);
    let guild = || SettingsValue::new(Some(3u32), SettingsScopeKind::Guild(1));
    let absent = || SettingsValue::new(None::<u32>, SettingsScopeKind::Channel(2));
    let r = merge_values(&MostSpecific, global(), guild());
    assert_eq!((r.value(), r.scope()), (&Some(3), &SettingsScopeKind::Guild(1)));
    let r = merge_values(&Largest, global(), guild());
    assert_eq!((r.value(), r.scope()), (&Some(10), &SettingsScopeKind::Global));
    let r = merge_values(&MostSpecific, global(), absent());
    assert_eq!((r.value(), r.scope()), (&Some(10), &SettingsScopeKind::Global));
    let r = merge_values(&MostSpecific, absent(), guild());
    assert_eq!((r.value(), r.scope()), (&Some(3), &SettingsScopeKind::Guild(1)));
    let r = merge_values(&MostSpecific, absent(), absent());
    assert_eq!((r.value(), r.scope()), (&None, &SettingsScopeKind::Channel(2)));
}

#[test]
fn cooldown_config_defaults_to_none() {
    let c = CooldownConfig::default();
    assert_eq!(c.global, None);
    assert_eq!(c.user, None);
    assert_eq!(c.guild, None);
    assert_eq!(c.channel, None);
    assert_eq!(c.member, None);
    let ctx = CooldownContext { user_id: 1, guild_id: None, channel_id: 2 };
    assert_eq!(ctx, CooldownContext { user_id: 1, guild_id: None, channel_id: 2 });
}

#[test]
fn resources_cover_by_specifier() {
    let any = v2::Persona { name: None };
    let bob = v2::Persona { name: Some("bob".to_string()) };
    let amy = v2::Persona { name: Some("amy".to_string()) };
    assert!(v2::resource_matches(&any, &bob));
    assert!(v2::resource_matches(&any, &any));
    assert!(v2::resource_matches(&bob, &bob));
    assert!(!v2::resource_matches(&bob, &amy));
    assert!(!v2::resource_matches(&bob, &any));
    let bug = v2::Feedback { kind: Some(v2::FeedbackKind::Bug) };
    let idea = v2::Feedback { kind: Some(v2::FeedbackKind::Suggestion) };
    assert!(!v2::resource_matches(&bug, &idea));
    assert!(v2::resource_matches(&bug, &bug));
    assert_eq!(bug.specifier(), &Some(v2::FeedbackKind::Bug));
    let setting = v2::Setting { name: Some("cooldown".to_string()) };
    assert_eq!(setting.specifier(), &Some("cooldown".to_string()));
    let permission = v2::Permission { action: None };
    assert_eq!(permission.specifier(), &None);
    let model = v2::Model { kind: Some(v2::LlmModel::Gpt4) };
    assert!(v2::resource_matches(&v2::Model { kind: None }, &model));
}

#[test]
fn resource_defaults() {
    assert_eq!(v2::Effect::default(), v2::Effect::Deny);
    let p = v2::Principle::default();
    assert_eq!(p.guild_id, None);
    assert_eq!(p.channel_id, None);
    assert_eq!(p.role_id, None);
    assert_eq!(p.user_id, None);
    let ra = v2::ResourceAction { resource: v2::Setting { name: None }, action: v2::SettingActions::Get };
    assert_eq!(ra.action, v2::SettingActions::Get);
    let rp = v2::ResourcePolicy {
        resource: v2::Persona { name: None },
        actions: vec![v2::PersonaActions::Chat, v2::PersonaActions::Edit],
    };
    assert_eq!(rp.actions.len(), 2);
    assert_ne!(v2::AuthDecision::Allow, v2::AuthDecision::NoOpinion);
}

#[test]
fn database_address() {
    let ready = faultybot::config::Database {
        url: Some("postgresql://elsewhere/db".to_string()),
        host: Some("ignored".to_string()),
        port: Some(1),
        name: None,
        user: None,
        password: None,
        params: Vec::new(),
    };
    assert_eq!(ready.connection_url(), "postgresql://elsewhere/db");
    let bare = faultybot::config::Database {
        url: None,
        host: None,
        port: None,
        name: Some("bot".to_string()),
        user: None,
        password: None,
        params: Vec::new(),
    };
    assert_eq!(bare.connection_url(), "postgresql:///bot?host=localhost");
    let full = faultybot::config::Database {
        url: None,
        host: Some("db.local".to_string()),
        port: Some(5432),
        name: Some("bot".to_string()),
        user: Some("me".to_string()),
        password: Some("pw".to_string()),
        params: vec![
            ("sslmode".to_string(), "require".to_string()),
            ("a".to_string(), "b".to_string()),
        ],
    };
    assert_eq!(
        full.connection_url(),
        "postgresql:///bot?host=db.local&port=5432&user=me&password=pw&sslmode=require&a=b"
    );
}
