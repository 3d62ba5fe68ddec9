use partner_sync::{
    classify_role_result, decide_role_change, desired_holders, holds_role, member_role_change,
    sweep_targets, ApiError, GuildSettings, Partner, PartnerUser, RoleChange, RoleSweep,
};
use std::collections::HashSet;

const ROLE: u64 = 500;
const A: u64 = 1;
const B: u64 = 2;
const C: u64 = 3;

fn sweep_for(desired: &[u64]) -> RoleSweep {
    RoleSweep::new(ROLE, desired.iter().copied().collect())
}

#[test]
fn adds_missing_and_removes_extra_holders_only() {
    let sweep = sweep_for(&[A, C]);
    let members: Vec<(u64, Vec<u64>)> = vec![(A, vec![7]), (B, vec![ROLE]), (C, vec![8, ROLE])];
    let changes: Vec<(u64, RoleChange)> = members
        .iter()
        .map(|(id, roles)| (*id, sweep.change_for(*id, roles)))
        .collect();
    assert_eq!(
        changes,
        vec![(A, RoleChange::Add), (B, RoleChange::Remove), (C, RoleChange::Keep)]
    );
}

#[test]
fn forbidden_add_does_not_stop_the_removal() {
    let mut sweep = sweep_for(&[A, C]);
    let mut attempted = Vec::new();
    for (id, roles) in [(A, vec![]), (B, vec![ROLE]), (C, vec![ROLE])] {
        let change = sweep.change_for(id, &roles);
        if change == RoleChange::Keep {
            continue;
        }
        attempted.push((id, change));
        let result = if id == A { Err(ApiError::Forbidden) } else { Ok(()) };
        if sweep.record(id, result).is_err() {
            break;
        }
    }
    assert_eq!(attempted, vec![(A, RoleChange::Add), (B, RoleChange::Remove)]);
    assert_eq!(sweep.forbidden_members(), &vec![A]);
    assert_eq!(sweep.failure(), None);
}

#[test]
fn member_gone_is_skipped_and_other_errors_stop() {
    let mut sweep = sweep_for(&[A]);
    assert_eq!(sweep.record(A, Err(ApiError::NotFound)), Ok(()));
    assert!(sweep.forbidden_members().is_empty());
    assert_eq!(sweep.record(B, Err(ApiError::Other)), Err(ApiError::Other));
    assert_eq!(sweep.failure(), Some(ApiError::Other));
}

#[test]
fn role_change_table() {
    assert_eq!(decide_role_change(true, false), RoleChange::Add);
    assert_eq!(decide_role_change(false, true), RoleChange::Remove);
    assert_eq!(decide_role_change(true, true), RoleChange::Keep);
    assert_eq!(decide_role_change(false, false), RoleChange::Keep);
}

#[test]
fn classify_results() {
    assert_eq!(classify_role_result(Ok(())), Ok(false));
    assert_eq!(classify_role_result(Err(ApiError::NotFound)), Ok(false));
    assert_eq!(classify_role_result(Err(ApiError::Forbidden)), Ok(true));
    assert_eq!(classify_role_result(Err(ApiError::Other)), Err(ApiError::Other));
}

#[test]
fn single_member_change_follows_the_same_rule() {
    assert_eq!(member_role_change(None, true, &vec![]), RoleChange::Keep);
    assert_eq!(member_role_change(Some(ROLE), true, &vec![]), RoleChange::Add);
    assert_eq!(member_role_change(Some(ROLE), false, &vec![ROLE]), RoleChange::Remove);
    assert_eq!(member_role_change(Some(ROLE), true, &vec![ROLE]), RoleChange::Keep);
    assert!(holds_role(&vec![1, ROLE], ROLE));
    assert!(!holds_role(&vec![], ROLE));
}

fn partner(id: &str, guild: i64) -> Partner {
    Partner {
        partnership_id: id.to_string(),
        guild,
        category: "c".to_string(),
        partner_guild: 0,
        display_name: id.to_string(),
        invite_code: "x".to_string(),
    }
}

fn link(partner: &str, user: i64) -> PartnerUser {
    PartnerUser { partnership_id: partner.to_string(), user_id: user }
}

#[test]
fn desired_holders_unite_both_directions_of_own_partners() {
    let partners = vec![partner("alpha", 10), partner("beta", 10), partner("other", 20)];
    let reps = vec![link("alpha", 1), link("beta", 2), link("other", 3), link("alpha", 1)];
    let self_reps = vec![link("beta", 4), link("missing", 5), link("alpha", 2)];
    let set = desired_holders(10, &partners, &reps, &self_reps);
    let expected: HashSet<u64> = [1u64, 2, 4].into_iter().collect();
    assert_eq!(set, expected);
    assert!(desired_holders(10, &Vec::new(), &reps, &self_reps).is_empty());
}

#[test]
fn sweep_visits_only_communities_with_a_role() {
    let settings = vec![
        GuildSettings { guild_id: 1, publish_channel: 11, partner_role: Some(100) },
        GuildSettings { guild_id: 2, publish_channel: 12, partner_role: None },
        GuildSettings { guild_id: 3, publish_channel: 13, partner_role: Some(300) },
    ];
    assert_eq!(sweep_targets(&settings), vec![(1, 100), (3, 300)]);
    assert!(sweep_targets(&Vec::new()).is_empty());
}
