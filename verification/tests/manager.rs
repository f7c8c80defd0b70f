use faultybot::error::UserError;
use faultybot::permissions::{is_owner, validate_owner, Permission, PermissionsManager};
use faultybot::policy::{Effect, Policy, PolicyContext, Principle};
use faultybot::policy_manager::{InvalidScopeError, PolicyManager};
use faultybot::roles::{RoleEntry, RoleHierarchy, Unranked};
use faultybot::store::{is_action_prefix, is_same_text, PolicyTable};
use faultybot::time::Timestamp;

fn policy(principle: Principle, action: &str, effect: Effect, until: Option<Timestamp>) -> Policy {
    Policy { principle, action: action.to_string(), effect, until }
}

fn at(secs: i64) -> Timestamp {
    Timestamp::new(secs, 0)
}

fn context(guild: Option<u64>, channel: Option<u64>, roles: Vec<u64>, user: Option<u64>) -> PolicyContext {
    PolicyContext { guild_id: guild, channel_id: channel, roles, user_id: user }
}

#[test]
fn action_prefix_matching() {
    assert!(is_action_prefix("permissions", "permissions.set"));
    assert!(is_action_prefix("permissions", "permissions"));
    assert!(!is_action_prefix("permissions.set", "permissions"));
    assert!(is_action_prefix("", "chat"));
    assert!(is_action_prefix("perm", "permissions"));
    assert!(!is_action_prefix("chat", "cha"));
    assert!(!is_action_prefix("chat", "chbt"));
    assert!(is_same_text("chat", "chat"));
    assert!(!is_same_text("chat", "chat."));
    assert!(!is_same_text("chat", "chbt"));
}

#[test]
fn lookup_finds_prefix_rows_of_the_scope() {
    let mut m = PolicyManager::new();
    let a = policy(Principle::Guild(1), "permissions", Effect::Allow, None);
    let b = policy(Principle::Guild(1), "permissions.set", Effect::Deny, Some(at(1)));
    let c = policy(Principle::Guild(2), "permissions", Effect::Deny, None);
    assert_eq!(m.save_policy(&a), Ok(()));
    assert_eq!(m.save_policy(&b), Ok(()));
    assert_eq!(m.save_policy(&c), Ok(()));
    assert_eq!(m.guild_policies(1, "permissions.set"), vec![a.clone(), b]);
    assert_eq!(m.guild_policies(1, "permissions"), vec![a]);
    assert_eq!(m.guild_policies(2, "permissions.get"), vec![c]);
    assert_eq!(m.guild_policies(3, "permissions"), Vec::new());
    assert_eq!(m.channel_policies(1, "permissions"), Vec::new());
}

#[test]
fn save_overwrites_the_row_of_the_same_key() {
    let mut m = PolicyManager::new();
    let first = policy(Principle::Role(4), "chat", Effect::Allow, None);
    let other = policy(Principle::Role(4), "chat.more", Effect::Allow, None);
    let second = policy(Principle::Role(4), "chat", Effect::Deny, Some(at(50)));
    m.save_policy(&first).unwrap();
    m.save_policy(&other).unwrap();
    m.save_policy(&second).unwrap();
    assert_eq!(m.role_policies(4, "chat.more"), vec![second.clone(), other.clone()]);
    m.save_policy(&second).unwrap();
    assert_eq!(m.role_policies(4, "chat.more"), vec![second, other]);
}

#[test]
fn global_scope_is_refused_and_nothing_written() {
    let mut m = PolicyManager::new();
    let kept = policy(Principle::Guild(1), "chat", Effect::Allow, None);
    m.save_policy(&kept).unwrap();
    let global = policy(Principle::Global, "chat", Effect::Allow, None);
    assert_eq!(m.save_policy(&global), Err(InvalidScopeError));
    assert_eq!(m.clear_policy(Principle::Global, "chat".to_string()), Err(InvalidScopeError));
    assert_eq!(m.guild_policies(1, "chat"), vec![kept]);
    let ctx = context(None, None, Vec::new(), None);
    assert_eq!(m.effective_policy_at(&ctx, "chat", at(0), &Unranked), Policy::default());
    assert_eq!(
        InvalidScopeError.message(),
        "Changing global bot permissions not currently supported"
    );
}

#[test]
fn clear_of_absent_row_changes_nothing() {
    let mut m = PolicyManager::new();
    let kept = policy(Principle::Member(1, 2), "chat", Effect::Allow, None);
    m.save_policy(&kept).unwrap();
    assert_eq!(m.clear_policy(Principle::Member(1, 2), "chat.other".to_string()), Ok(()));
    assert_eq!(m.clear_policy(Principle::Member(1, 3), "chat".to_string()), Ok(()));
    assert_eq!(m.clear_policy(Principle::Channel(1), "chat".to_string()), Ok(()));
    assert_eq!(m.member_policies(1, 2, "chat"), vec![kept]);
}

#[test]
fn clear_removes_the_row() {
    let mut m = PolicyManager::new();
    let a = policy(Principle::Channel(9), "chat", Effect::Allow, None);
    let b = policy(Principle::Channel(9), "ch", Effect::Deny, None);
    m.save_policy(&a).unwrap();
    m.save_policy(&b).unwrap();
    assert_eq!(m.clear_policy(Principle::Channel(9), "chat".to_string()), Ok(()));
    assert_eq!(m.channel_policies(9, "chat"), vec![b]);
}

#[test]
fn table_upsert_delete_position() {
    let mut t = PolicyTable::new();
    assert_eq!(t.len(), 0);
    t.upsert(policy(Principle::Guild(1), "a", Effect::Allow, None));
    t.upsert(policy(Principle::Guild(1), "b", Effect::Allow, None));
    t.upsert(policy(Principle::Guild(1), "a", Effect::Deny, None));
    assert_eq!(t.len(), 2);
    assert_eq!(t.position(Principle::Guild(1), "b"), Some(1));
    assert_eq!(t.position(Principle::Guild(1), "c"), None);
    assert_eq!(
        t.lookup_candidates(Principle::Guild(1), "ab"),
        vec![policy(Principle::Guild(1), "a", Effect::Deny, None)]
    );
    t.delete(Principle::Guild(1), "a");
    assert_eq!(t.len(), 1);
    assert_eq!(t.position(Principle::Guild(1), "b"), Some(0));
    t.delete(Principle::Guild(1), "a");
    assert_eq!(t.len(), 1);
}

#[test]
fn gather_orders_default_channel_guild_member_roles() {
    let mut m = PolicyManager::new();
    let g = policy(Principle::Guild(1), "chat", Effect::Allow, None);
    let c = policy(Principle::Channel(2), "chat", Effect::Deny, None);
    let u = policy(Principle::Member(1, 3), "chat", Effect::Allow, None);
    let r1 = policy(Principle::Role(4), "chat", Effect::Allow, None);
    let r2 = policy(Principle::Role(5), "chat", Effect::Deny, None);
    for p in [&g, &c, &u, &r1, &r2] {
        m.save_policy(p).unwrap();
    }
    let ctx = context(Some(1), Some(2), vec![5, 4], Some(3));
    assert_eq!(
        m.gather(&ctx, "chat"),
        vec![Policy::default(), c.clone(), g.clone(), u.clone(), r2.clone(), r1.clone()]
    );
    let no_guild = context(None, Some(2), vec![4], Some(3));
    assert_eq!(m.gather(&no_guild, "chat"), vec![Policy::default(), c, r1]);
    let no_user = context(Some(1), None, Vec::new(), None);
    assert_eq!(m.gather(&no_user, "chat"), vec![Policy::default(), g]);
}

#[test]
fn effective_policy_defaults_to_deny() {
    let m = PolicyManager::new();
    let ctx = context(Some(1), Some(2), vec![3], Some(4));
    assert_eq!(m.effective_policy_at(&ctx, "chat", at(0), &Unranked), Policy::default());
    assert_eq!(m.effective_policy(&ctx, "chat", &Unranked), Policy::default());
}

#[test]
fn effective_policy_channel_over_guild() {
    let mut m = PolicyManager::new();
    m.save_policy(&policy(Principle::Guild(1), "chat", Effect::Allow, None)).unwrap();
    let channel = policy(Principle::Channel(2), "chat", Effect::Deny, None);
    m.save_policy(&channel).unwrap();
    let ctx = context(Some(1), Some(2), Vec::new(), Some(3));
    let r = m.effective_policy_at(&ctx, "chat", at(0), &Unranked);
    assert_eq!(r.effect, Effect::Deny);
    assert_eq!(r, channel);
}

#[test]
fn effective_policy_role_over_default() {
    let mut m = PolicyManager::new();
    let role = policy(Principle::Role(8), "persona.edit", Effect::Allow, None);
    m.save_policy(&role).unwrap();
    let ctx = context(Some(1), Some(2), vec![8], Some(3));
    let r = m.effective_policy(&ctx, "persona.edit", &Unranked);
    assert_eq!(r.effect, Effect::Allow);
    assert_eq!(r, role);
}

#[test]
fn effective_policy_role_tie_break() {
    let mut m = PolicyManager::new();
    let high = policy(Principle::Role(10), "chat", Effect::Allow, None);
    let low = policy(Principle::Role(20), "chat", Effect::Deny, None);
    m.save_policy(&high).unwrap();
    m.save_policy(&low).unwrap();
    let order = RoleHierarchy::new(vec![
        RoleEntry { id: 20, position: 1 },
        RoleEntry { id: 10, position: 2 },
    ]);
    let one = context(Some(1), None, vec![10, 20], Some(3));
    let two = context(Some(1), None, vec![20, 10], Some(3));
    assert_eq!(m.effective_policy_at(&one, "chat", at(0), &order), high);
    assert_eq!(m.effective_policy_at(&two, "chat", at(0), &order), high);
}

#[test]
fn effective_policy_skips_expired_rows() {
    let mut m = PolicyManager::new();
    let guild = policy(Principle::Guild(1), "chat", Effect::Allow, None);
    let member = policy(Principle::Member(1, 3), "chat", Effect::Deny, Some(at(100)));
    m.save_policy(&guild).unwrap();
    m.save_policy(&member).unwrap();
    let ctx = context(Some(1), None, Vec::new(), Some(3));
    assert_eq!(m.effective_policy_at(&ctx, "chat", at(99), &Unranked), member);
    assert_eq!(m.effective_policy_at(&ctx, "chat", at(100), &Unranked), guild);
    assert_eq!(m.effective_policy(&ctx, "chat", &Unranked), guild);
}

#[test]
fn write_is_seen_by_the_next_resolution() {
    let mut m = PolicyManager::new();
    let ctx = context(Some(1), None, Vec::new(), None);
    assert_eq!(m.effective_policy_at(&ctx, "chat", at(0), &Unranked).effect, Effect::Deny);
    m.save_policy(&policy(Principle::Guild(1), "chat", Effect::Allow, None)).unwrap();
    assert_eq!(m.effective_policy_at(&ctx, "chat", at(0), &Unranked).effect, Effect::Allow);
    m.clear_policy(Principle::Guild(1), "chat".to_string()).unwrap();
    assert_eq!(m.effective_policy_at(&ctx, "chat", at(0), &Unranked).effect, Effect::Deny);
}

#[test]
fn permission_names() {
    assert_eq!(Permission::Chat(None).action(), "chat");
    assert_eq!(Permission::SetPermission(None).action(), "permissions.set");
    assert_eq!(Permission::GetPermission(None).action(), "permissions.get");
    assert_eq!(Permission::SetSetting(None).action(), "settings.set");
    assert_eq!(Permission::GetSetting(None).action(), "settings.get");
    assert_eq!(Permission::SendFeedback(None).action(), "feedback.send");
    assert_eq!(Permission::CreatePersona.action(), "persona.create");
    assert_eq!(Permission::ListPersona.action(), "persona.list");
    assert_eq!(Permission::EditPersona(None).action(), "persona.edit");
    assert_eq!(Permission::UsePersona(None).action(), "persona.use");
    assert_eq!(Permission::DeletePersona(None).action(), "persona.delete");
    assert_eq!(Permission::UseModel(None).action(), "model.use");
    assert_eq!(Permission::UseModel(Some("gpt".to_string())).specifier(), Some("gpt"));
    assert_eq!(Permission::Chat(None).specifier(), None);
    assert_eq!(Permission::ListPersona.specifier(), None);
    assert_eq!(Permission::EditPersona(Some("bob".to_string())).to_string(), "persona.edit:bob");
    assert_eq!(Permission::CreatePersona.to_string(), "persona.create");
}

#[test]
fn principle_names() {
    assert_eq!(Principle::Global.describe(), "Global");
    assert_eq!(Principle::Guild(4).describe(), "This guild");
    assert_eq!(Principle::Channel(0).describe(), "<#0>");
    assert_eq!(Principle::Channel(1234567890).describe(), "<#1234567890>");
    assert_eq!(Principle::Role(u64::MAX).describe(), "<@&18446744073709551615>");
    assert_eq!(Principle::Member(5, 907).describe(), "<@907>");
    assert_eq!(faultybot::text::decimal_string(10), "10");
    assert_eq!(faultybot::text::digit_str(7), "7");
}

#[test]
fn owners_bypass_the_policies() {
    let pm = PermissionsManager::new();
    let owners = vec![7, 8];
    assert!(is_owner(&owners, 8));
    assert!(!is_owner(&owners, 9));
    assert!(validate_owner(&owners, 7).is_ok());
    match validate_owner(&owners, 9) {
        Err(UserError::AccessDenied { reason }) => assert_eq!(reason, "Only the bot owner can do that"),
        _ => panic!("expected a denial"),
    }
    let r = pm.enforce_at(&owners, 8, 1, Some(2), Vec::new(), &Permission::Chat(None), at(0), &Unranked);
    assert!(r.is_ok());
    assert!(pm.enforce(&owners, 7, 1, None, Vec::new(), &Permission::Chat(None), &Unranked).is_ok());
}

#[test]
fn enforce_denies_by_default_with_reason() {
    let pm = PermissionsManager::new();
    let owners = vec![7];
    let r = pm.enforce_at(&owners, 9, 1, Some(2), vec![3], &Permission::Chat(None), at(0), &Unranked);
    match r {
        Err(UserError::AccessDenied { reason }) => {
            assert_eq!(reason, "Global does not have permissions for chat")
        }
        _ => panic!("expected a denial"),
    }
    assert!(pm.enforce(&owners, 9, 1, Some(2), vec![3], &Permission::Chat(None), &Unranked).is_err());
}

#[test]
fn enforce_follows_the_effective_policy() {
    let mut pm = PermissionsManager::new();
    let owners = Vec::new();
    pm.policy_manager.save_policy(&policy(Principle::Guild(2), "persona", Effect::Allow, None)).unwrap();
    pm.policy_manager
        .save_policy(&policy(Principle::Channel(1), "persona.edit:bob", Effect::Deny, None))
        .unwrap();
    let edit_bob = Permission::EditPersona(Some("bob".to_string()));
    let edit_amy = Permission::EditPersona(Some("amy".to_string()));
    let r = pm.enforce_at(&owners, 9, 1, Some(2), Vec::new(), &edit_bob, at(0), &Unranked);
    match r {
        Err(UserError::AccessDenied { reason }) => {
            assert_eq!(reason, "<#1> does not have permissions for persona.edit:bob")
        }
        _ => panic!("expected a denial"),
    }
    assert!(pm.enforce_at(&owners, 9, 1, Some(2), Vec::new(), &edit_amy, at(0), &Unranked).is_ok());
    assert!(pm.enforce(&owners, 9, 1, Some(2), Vec::new(), &edit_amy, &Unranked).is_ok());
    assert!(pm.enforce_at(&owners, 9, 1, None, Vec::new(), &edit_amy, at(0), &Unranked).is_err());
}
