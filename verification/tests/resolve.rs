use faultybot::chunks::{chars_to_take, find_last_whitespace_before_index, MAX_MESSAGE_SIZE};
use faultybot::policy::{Effect, Policy, Principle};
use faultybot::policy_manager::{InvalidScopeError, PolicyManager, ScopeKind};
use faultybot::roles::{RoleEntry, RoleHierarchy, Unranked};
use faultybot::settings::{cascade, Largest, MostSpecific, SettingsContext, SettingsScopeKind};
use faultybot::text::{build_prompt, write_mentionables};
use faultybot::time::Timestamp;

fn policy(principle: Principle, action: &str, effect: Effect, until: Option<Timestamp>) -> Policy {
    Policy { principle, action: action.to_string(), effect, until }
}

fn at(secs: i64) -> Timestamp {
    Timestamp::new(secs, 0)
}

#[test]
fn tables_by_principle() {
    assert_eq!(PolicyManager::table_of(&Principle::Global), Err(InvalidScopeError));
    assert_eq!(PolicyManager::table_of(&Principle::Guild(1)), Ok(ScopeKind::Guild));
    assert_eq!(PolicyManager::table_of(&Principle::Channel(1)), Ok(ScopeKind::Channel));
    assert_eq!(PolicyManager::table_of(&Principle::Role(1)), Ok(ScopeKind::Role));
    assert_eq!(PolicyManager::table_of(&Principle::Member(1, 2)), Ok(ScopeKind::Member));
}

#[test]
fn strict_fold_reports_the_conflict() {
    let a = policy(Principle::Guild(1), "chat", Effect::Allow, None);
    let b = policy(Principle::Guild(2), "chat", Effect::Deny, None);
    let c = policy(Principle::Member(1, 2), "chat", Effect::Allow, None);
    let all = vec![Policy::default(), a.clone(), b.clone(), c.clone()];
    match Policy::try_combined_at(all.clone(), at(0), &Unranked) {
        Err(e) => {
            assert_eq!(e.current, a);
            assert_eq!(e.candidate, b);
        }
        Ok(_) => panic!("expected a conflict"),
    }
    assert_eq!(Policy::combined_at(all, at(0), &Unranked), c);
    let settled = Policy::combined_at(vec![Policy::default(), a.clone(), b.clone()], at(0), &Unranked);
    assert_eq!(settled, b);
    let clean = Policy::try_combined_at(vec![Policy::default(), a, c.clone()], at(0), &Unranked);
    assert_eq!(clean.unwrap(), c);
    assert_eq!(Policy::try_combined_at(Vec::new(), at(0), &Unranked).unwrap(), Policy::default());
}

#[test]
fn expired_conflict_is_no_conflict() {
    let a = policy(Principle::Guild(1), "chat", Effect::Allow, None);
    let b = policy(Principle::Guild(2), "chat", Effect::Deny, Some(at(5)));
    let r = Policy::try_combined_at(vec![a.clone(), b.clone()], at(5), &Unranked);
    assert_eq!(r.unwrap(), a);
    assert!(Policy::try_combined_at(vec![a, b], at(4), &Unranked).is_err());
}

#[test]
fn role_conflict_is_ranked_not_ambiguous() {
    let mut m = PolicyManager::new();
    let order = RoleHierarchy::new(vec![RoleEntry { id: 10, position: 2 }, RoleEntry { id: 20, position: 1 }]);
    m.save_policy(&policy(Principle::Role(10), "chat", Effect::Allow, None)).unwrap();
    m.save_policy(&policy(Principle::Role(20), "chat", Effect::Deny, None)).unwrap();
    let ctx = faultybot::policy::PolicyContext {
        guild_id: Some(1),
        channel_id: None,
        roles: vec![20, 10],
        user_id: None,
    };
    let r = m.try_effective_policy_at(&ctx, "chat", at(0), &order).unwrap();
    assert_eq!(r.principle, Principle::Role(10));
    let unranked = m.try_effective_policy_at(&ctx, "chat", at(0), &Unranked).unwrap();
    assert_eq!(unranked.principle, Principle::Role(20));
}

#[test]
fn resolve_guards_against_an_expired_first_policy() {
    let expired = policy(Principle::Member(1, 2), "chat", Effect::Allow, Some(at(5)));
    assert_eq!(Policy::combined_at(vec![expired.clone()], at(9), &Unranked), expired);
    assert_eq!(Policy::resolve_at(vec![expired.clone()], at(9), &Unranked), Policy::default());
    assert_eq!(Policy::resolve_at(vec![expired.clone()], at(4), &Unranked), expired);
    assert_eq!(Policy::resolve_at(Vec::new(), at(4), &Unranked), Policy::default());
}

#[test]
fn last_whitespace_before_a_byte() {
    assert_eq!(find_last_whitespace_before_index("hello world again", 12), Some(11));
    assert_eq!(find_last_whitespace_before_index("hello world again", 11), Some(5));
    assert_eq!(find_last_whitespace_before_index("hello world again", 5), None);
    assert_eq!(find_last_whitespace_before_index("hello world again", 6), Some(5));
    assert_eq!(find_last_whitespace_before_index("helloworld", 100), None);
    assert_eq!(find_last_whitespace_before_index("", 3), None);
    assert_eq!(find_last_whitespace_before_index("a b", 0), None);
    assert_eq!(find_last_whitespace_before_index("é\u{3000}x y", 100), Some(6));
    assert_eq!(find_last_whitespace_before_index("é\u{3000}x y", 6), Some(2));
    assert_eq!(find_last_whitespace_before_index("é\u{3000}x y", 2), None);
    assert_eq!(find_last_whitespace_before_index("a\tb\nc", 4), Some(3));
}

#[test]
fn cut_of_a_long_reply() {
    assert_eq!(MAX_MESSAGE_SIZE, 1950);
    let solid = "x".repeat(3000);
    assert_eq!(chars_to_take(&solid), 1949);
    let mut spaced = "x".repeat(1000);
    spaced.push(' ');
    spaced.push_str(&"y".repeat(2000));
    assert_eq!(chars_to_take(&spaced), 1001);
    let mut late = "x".repeat(1950);
    late.push(' ');
    late.push_str("tail");
    assert_eq!(chars_to_take(&late), 1949);
    let mut edge = "x".repeat(1949);
    edge.push(' ');
    edge.push_str("tail");
    assert_eq!(chars_to_take(&edge), 1950);
}

#[test]
fn settings_cascade() {
    let all = SettingsContext { guild_id: Some(1), channel_id: Some(2), user_id: Some(3) };
    let r = cascade(&MostSpecific, &all, Some(1u32), Some(2), Some(3), Some(4));
    assert_eq!((r.value(), r.scope()), (&Some(4), &SettingsScopeKind::Member(1, 3)));
    let r = cascade(&MostSpecific, &all, Some(1u32), Some(2), None, None);
    assert_eq!((r.value(), r.scope()), (&Some(2), &SettingsScopeKind::Guild(1)));
    let r = cascade(&MostSpecific, &all, None::<u32>, None, Some(3), None);
    assert_eq!((r.value(), r.scope()), (&Some(3), &SettingsScopeKind::Channel(2)));
    let r = cascade(&MostSpecific, &all, None::<u32>, None, None, None);
    assert_eq!((r.value(), r.scope()), (&None, &SettingsScopeKind::Global));
    let r = cascade(&Largest, &all, Some(5u32), Some(9), Some(3), Some(9));
    assert_eq!((r.value(), r.scope()), (&Some(9), &SettingsScopeKind::Guild(1)));
    let dm = SettingsContext { guild_id: None, channel_id: Some(2), user_id: Some(3) };
    let r = cascade(&MostSpecific, &dm, Some(1u32), Some(2), Some(3), Some(4));
    assert_eq!((r.value(), r.scope()), (&Some(3), &SettingsScopeKind::Channel(2)));
    let nowhere = SettingsContext { guild_id: None, channel_id: None, user_id: None };
    let r = cascade(&MostSpecific, &nowhere, Some(1u32), Some(2), Some(3), Some(4));
    assert_eq!((r.value(), r.scope()), (&Some(1), &SettingsScopeKind::Global));
}

#[test]
fn prompts_list_the_picked_scopes() {
    assert_eq!(build_prompt("Pick:", &vec![], &vec![], &vec![]), "Pick:\nServer-wide");
    assert_eq!(build_prompt("Pick:", &vec![5], &vec![], &vec![]), "Pick:\nChannels: <#5>");
    assert_eq!(
        build_prompt("Pick:", &vec![5, 60], &vec![7], &vec![8, 9, 10]),
        "Pick:\nChannels: <#5>, <#60>\nRoles: <@&7>\nUsers: <@8>, <@9>, <@10>"
    );
    assert_eq!(build_prompt("", &vec![], &vec![0], &vec![]), "\nRoles: <@&0>");
    let mut s = "x".to_string();
    write_mentionables(&mut s, "Users", "<@", &vec![]);
    assert_eq!(s, "x");
    write_mentionables(&mut s, "Users", "<@", &vec![1, 2]);
    assert_eq!(s, "x\nUsers: <@1>, <@2>");
}

#[test]
fn scopes_of_a_context_in_reading_order() {
    let ctx = faultybot::policy::PolicyContext {
        guild_id: Some(1),
        channel_id: Some(2),
        roles: vec![5, 4],
        user_id: Some(3),
    };
    assert_eq!(
        ctx.scopes(),
        vec![
            Principle::Channel(2),
            Principle::Guild(1),
            Principle::Member(1, 3),
            Principle::Role(5),
            Principle::Role(4)
        ]
    );
    let dm = faultybot::policy::PolicyContext {
        guild_id: None,
        channel_id: Some(2),
        roles: Vec::new(),
        user_id: Some(3),
    };
    assert_eq!(dm.scopes(), vec![Principle::Channel(2)]);
    let bare = faultybot::policy::PolicyContext {
        guild_id: Some(1),
        channel_id: None,
        roles: Vec::new(),
        user_id: None,
    };
    assert_eq!(bare.scopes(), vec![Principle::Guild(1)]);
}

#[test]
fn candidates_from_what_was_read() {
    let a = policy(Principle::Channel(2), "chat", Effect::Allow, None);
    let b = policy(Principle::Guild(1), "ch", Effect::Deny, None);
    let c = policy(Principle::Guild(1), "chat", Effect::Deny, None);
    let all = Policy::candidates_of(vec![vec![a.clone()], Vec::new(), vec![b.clone(), c.clone()]]);
    assert_eq!(all, vec![Policy::default(), a, b, c]);
    assert_eq!(Policy::candidates_of(Vec::new()), vec![Policy::default()]);
}

#[test]
fn manager_lookup_by_scope() {
    let mut m = PolicyManager::new();
    let a = policy(Principle::Role(4), "chat", Effect::Allow, None);
    m.save_policy(&a).unwrap();
    assert_eq!(m.lookup_candidates(Principle::Role(4), "chat.now"), vec![a]);
    assert_eq!(m.lookup_candidates(Principle::Role(5), "chat.now"), Vec::new());
    assert_eq!(m.lookup_candidates(Principle::Global, "chat.now"), Vec::new());
}
