use crate::api::ApiError;
use crate::models::{GuildSettings, Partner, PartnerUser};
use std::collections::HashSet;
use vstd::prelude::*;

verus! {

broadcast use vstd::std_specs::hash::group_hash_axioms;

/// What to do with one member's representative role.
#[derive(Clone, Copy, Debug, PartialEq, Eq, Structural)]
pub enum RoleChange {
    Add,
    Remove,
    Keep,
}

/// A member who should hold the role and does not gets it; one who holds
/// it and should not loses it; anyone else gets no call.
pub open spec fn role_change(desired: bool, has_role: bool) -> RoleChange {
    if desired && !has_role {
        RoleChange::Add
    } else if !desired && has_role {
        RoleChange::Remove
    } else {
        RoleChange::Keep
    }
}

/// Whether a member holds the role after a change succeeded.
pub open spec fn holds_after(has_role: bool, change: RoleChange) -> bool {
    match change {
        RoleChange::Add => true,
        RoleChange::Remove => false,
        RoleChange::Keep => has_role,
    }
}

/// A member's change leaves the member holding the role exactly when the
/// member is desired, and a member already in that state gets no call.
pub proof fn lemma_role_change_reaches_desired(desired: bool, has_role: bool)
    ensures
        holds_after(has_role, role_change(desired, has_role)) == desired,
        (role_change(desired, has_role) == RoleChange::Keep) == (desired == has_role),
{
}

/// Whether a link points at one of the community's own partners.
pub open spec fn links_own_partner(link: PartnerUser, guild: i64, partners: Seq<Partner>) -> bool {
    exists|j: int|
        0 <= j < partners.len() && partners[j].guild == guild && #[trigger] partners[j].partnership_id@
            == link.partnership_id@
}

/// The users who should hold the role: everyone linked, in either
/// direction, to a partner of the community.
pub open spec fn desired_set(
    guild: i64,
    partners: Seq<Partner>,
    rep_links: Seq<PartnerUser>,
    self_rep_links: Seq<PartnerUser>,
) -> Set<u64> {
    Set::new(
        |u: u64|
            exists|i: int|
                0 <= i < rep_links.len() && #[trigger] rep_links[i].user_id as u64 == u
                    && links_own_partner(rep_links[i], guild, partners),
    ).union(
        Set::new(
            |u: u64|
                exists|i: int|
                    0 <= i < self_rep_links.len() && #[trigger] self_rep_links[i].user_id as u64 == u
                        && links_own_partner(self_rep_links[i], guild, partners),
        ),
    )
}

/// Decides what to do with one member's role.
pub fn decide_role_change(desired: bool, has_role: bool) -> (r: RoleChange)
    ensures
        r == role_change(desired, has_role),
{
    if desired && !has_role {
        RoleChange::Add
    } else if !desired && has_role {
        RoleChange::Remove
    } else {
        RoleChange::Keep
    }
}

/// Whether a member's roles include `role`.
pub fn holds_role(member_roles: &Vec<u64>, role: u64) -> (r: bool)
    ensures
        r == member_roles@.contains(role),
{
    let mut i: usize = 0;
    while i < member_roles.len()
        invariant
            i <= member_roles.len(),
            forall|j: int| 0 <= j < i ==> member_roles@[j] != role,
        decreases member_roles.len() - i,
    {
        if member_roles[i] == role {
            return true;
        }
        i = i + 1;
    }
    false
}

/// Whether a link points at one of the community's own partners.
fn link_is_own(link: &PartnerUser, guild: i64, partners: &Vec<Partner>) -> (r: bool)
    ensures
        r == links_own_partner(*link, guild, partners@),
{
    let mut j: usize = 0;
    while j < partners.len()
        invariant
            j <= partners.len(),
            forall|k: int|
                0 <= k < j ==> !(partners@[k].guild == guild && #[trigger] partners@[k].partnership_id@
                    == link.partnership_id@),
        decreases partners.len() - j,
    {
        if partners[j].guild == guild && partners[j].partnership_id == link.partnership_id {
            return true;
        }
        j = j + 1;
    }
    false
}

/// Adds the users of the links that point at the community's partners.
fn add_linked_users(
    set: &mut HashSet<u64>,
    links: &Vec<PartnerUser>,
    guild: i64,
    partners: &Vec<Partner>,
)
    ensures
        final(set)@ == old(set)@.union(
            Set::new(
                |u: u64|
                    exists|i: int|
                        0 <= i < links@.len() && #[trigger] links@[i].user_id as u64 == u
                            && links_own_partner(links@[i], guild, partners@),
            ),
        ),
{
    let ghost start = set@;
    let mut i: usize = 0;
    while i < links.len()
        invariant
            i <= links.len(),
            set@ == start.union(
                Set::new(
                    |u: u64|
                        exists|k: int|
                            0 <= k < i && #[trigger] links@[k].user_id as u64 == u
                                && links_own_partner(links@[k], guild, partners@),
                ),
            ),
        decreases links.len() - i,
    {
        let ghost before = set@;
        if link_is_own(&links[i], guild, partners) {
            set.insert(links[i].user_id as u64);
        }
        proof {
            let upto = Set::new(
                |u: u64|
                    exists|k: int|
                        0 <= k < i + 1 && #[trigger] links@[k].user_id as u64 == u
                            && links_own_partner(links@[k], guild, partners@),
            );
            let prev = Set::new(
                |u: u64|
                    exists|k: int|
                        0 <= k < i && #[trigger] links@[k].user_id as u64 == u
                            && links_own_partner(links@[k], guild, partners@),
            );
            assert forall|u: u64| upto.contains(u) implies #[trigger] prev.contains(u) || (u
                == links@[i as int].user_id as u64 && links_own_partner(
                links@[i as int],
                guild,
                partners@,
            )) by {
                let k = choose|k: int|
                    0 <= k < i + 1 && #[trigger] links@[k].user_id as u64 == u
                        && links_own_partner(links@[k], guild, partners@);
                if k < i {
                    assert(prev.contains(u));
                }
            }
            assert forall|u: u64| prev.contains(u) implies #[trigger] upto.contains(u) by {
                let k = choose|k: int|
                    0 <= k < i && #[trigger] links@[k].user_id as u64 == u
                        && links_own_partner(links@[k], guild, partners@);
                assert(0 <= k < i + 1);
            }
            if links_own_partner(links@[i as int], guild, partners@) {
                assert(upto.contains(links@[i as int].user_id as u64));
            }
            assert(set@ =~= start.union(upto));
        }
        i = i + 1;
    }
}

/// The users who should hold the representative role, from the links of
/// both directions and the community's partners.
pub fn desired_holders(
    guild: i64,
    partners: &Vec<Partner>,
    rep_links: &Vec<PartnerUser>,
    self_rep_links: &Vec<PartnerUser>,
) -> (r: HashSet<u64>)
    ensures
        r@ == desired_set(guild, partners@, rep_links@, self_rep_links@),
{
    let mut set: HashSet<u64> = HashSet::new();
    add_linked_users(&mut set, rep_links, guild, partners);
    add_linked_users(&mut set, self_rep_links, guild, partners);
    proof {
        assert(set@ =~= desired_set(guild, partners@, rep_links@, self_rep_links@));
    }
    set
}

/// What a member's role call came to, for the caller to act on: `Ok(true)`
/// when the bot lacked the permission (a warning; work goes on), `Ok(false)`
/// when the call succeeded or the member had left, and the error otherwise.
pub fn classify_role_result(result: Result<(), ApiError>) -> (r: Result<bool, ApiError>)
    ensures
        r == match result {
            Ok(()) => Ok::<bool, ApiError>(false),
            Err(ApiError::NotFound) => Ok(false),
            Err(ApiError::Forbidden) => Ok(true),
            Err(ApiError::Other) => Err(ApiError::Other),
        },
{
    match result {
        Ok(()) => Ok(false),
        Err(ApiError::NotFound) => Ok(false),
        Err(ApiError::Forbidden) => Ok(true),
        Err(ApiError::Other) => Err(ApiError::Other),
    }
}

/// The change for one member right after a representative was added or
/// removed: none when the community manages no role.
pub fn member_role_change(role: Option<u64>, is_representative: bool, member_roles: &Vec<u64>) -> (r:
    RoleChange)
    ensures
        r == match role {
            None => RoleChange::Keep,
            Some(id) => role_change(is_representative, member_roles@.contains(id)),
        },
{
    match role {
        None => RoleChange::Keep,
        Some(id) => decide_role_change(is_representative, holds_role(member_roles, id)),
    }
}

/// The state of a sweep over a community's members.
pub struct RoleSweepView {
    pub role: u64,
    pub desired: Set<u64>,
    /// Members whose call was refused for want of permission, in order.
    pub forbidden: Seq<u64>,
    /// The failure that stopped the sweep, if any.
    pub failure: Option<ApiError>,
}

/// A full sweep of the representative role over a community's members.
/// The caller enumerates the members, makes the call that `change_for`
/// names, and reports each call's result.
pub struct RoleSweep {
    role: u64,
    desired: HashSet<u64>,
    forbidden: Vec<u64>,
    failure: Option<ApiError>,
}

impl View for RoleSweep {
    type V = RoleSweepView;

    closed spec fn view(&self) -> RoleSweepView {
        RoleSweepView {
            role: self.role,
            desired: self.desired@,
            forbidden: self.forbidden@,
            failure: self.failure,
        }
    }
}

impl RoleSweep {
    /// Starts a sweep for `role` towards the holders `desired`.
    pub fn new(role: u64, desired: HashSet<u64>) -> (r: RoleSweep)
        ensures
            r@ == (RoleSweepView {
                role,
                desired: desired@,
                forbidden: Seq::empty(),
                failure: None,
            }),
    {
        RoleSweep { role, desired, forbidden: Vec::new(), failure: None }
    }

    /// The call to make for one member, given the member's roles.
    pub fn change_for(&self, member: u64, member_roles: &Vec<u64>) -> (r: RoleChange)
        ensures
            r == role_change(self@.desired.contains(member), member_roles@.contains(self@.role)),
    {
        let desired = self.desired.contains(&member);
        decide_role_change(desired, holds_role(member_roles, self.role))
    }

    /// Reports the result of a member's call. A refusal for want of
    /// permission is recorded and the sweep goes on; a member who left is
    /// skipped; any other failure stops the sweep.
    pub fn record(&mut self, member: u64, result: Result<(), ApiError>) -> (r: Result<(), ApiError>)
        ensures
            match result {
                Err(ApiError::Forbidden) => {
                    &&& r == Ok::<(), ApiError>(())
                    &&& final(self)@ == RoleSweepView {
                        forbidden: old(self)@.forbidden.push(member),
                        ..old(self)@
                    }
                },
                Err(ApiError::Other) => {
                    &&& r == Err::<(), ApiError>(ApiError::Other)
                    &&& final(self)@ == RoleSweepView {
                        failure: Some(ApiError::Other),
                        ..old(self)@
                    }
                },
                _ => {
                    &&& r == Ok::<(), ApiError>(())
                    &&& final(self)@ == old(self)@
                },
            },
    {
        match classify_role_result(result) {
            Ok(true) => {
                self.forbidden.push(member);
                Ok(())
            },
            Ok(false) => Ok(()),
            Err(e) => {
                self.failure = Some(e);
                Err(e)
            },
        }
    }

    /// The members whose call was refused for want of permission.
    pub fn forbidden_members(&self) -> (r: &Vec<u64>)
        ensures
            r@ == self@.forbidden,
    {
        &self.forbidden
    }

    /// The failure that stopped the sweep, if any.
    pub fn failure(&self) -> (r: Option<ApiError>)
        ensures
            r == self@.failure,
    {
        self.failure
    }
}

/// The communities that the periodic sweep visits, with their role: those
/// whose settings name a role, in order.
pub open spec fn sweep_targets_of(settings: Seq<GuildSettings>) -> Seq<(i64, i64)>
    decreases settings.len(),
{
    if settings.len() == 0 {
        Seq::empty()
    } else {
        let rest = sweep_targets_of(settings.drop_last());
        match settings.last().partner_role {
            Some(role) => rest.push((settings.last().guild_id, role)),
            None => rest,
        }
    }
}

/// Lists the communities that the periodic sweep visits, with their role.
pub fn sweep_targets(settings: &Vec<GuildSettings>) -> (r: Vec<(i64, i64)>)
    ensures
        r@ == sweep_targets_of(settings@),
{
    let mut targets: Vec<(i64, i64)> = Vec::new();
    let mut i: usize = 0;
    while i < settings.len()
        invariant
            i <= settings.len(),
            targets@ == sweep_targets_of(settings@.take(i as int)),
        decreases settings.len() - i,
    {
        proof {
            assert(settings@.take(i + 1).drop_last() =~= settings@.take(i as int));
        }
        if let Some(role) = settings[i].partner_role {
            targets.push((settings[i].guild_id, role));
        }
        i = i + 1;
    }
    proof {
        assert(settings@.take(i as int) =~= settings@);
    }
    targets
}

} // verus!
