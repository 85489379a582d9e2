//! Effective permissions of a principal in a channel: owner bypass, base role,
//! assigned roles, then the channel's overwrites (the everyone overwrite, the
//! overwrites of assigned roles, the member's own overwrite), each stage with
//! denies applied before allows.
use vstd::prelude::*;

use crate::cache::{DiscordCache, StoreView};
use crate::model::{CacheChannel, CacheRole, OverwriteKind, PermissionOverwrite};

verus! {

pub const CREATE_INSTANT_INVITE: u64 = 1 << 0;

pub const ADMINISTRATOR: u64 = 1 << 3;

pub const VIEW_CHANNEL: u64 = 1 << 10;

pub const SEND_MESSAGES: u64 = 1 << 11;

pub const MANAGE_MESSAGES: u64 = 1 << 13;

pub const MANAGE_ROLES: u64 = 1 << 28;

pub const MANAGE_WEBHOOKS: u64 = 1 << 29;

/// Every permission bit that the remote system defines (bits 0 to 40).
pub const ALL_PERMISSIONS: u64 = 0x1ff_ffff_ffff;

/// Denies first, then allows on top.
pub open spec fn apply_overwrite(p: u64, deny: u64, allow: u64) -> u64 {
    (p & !deny) | allow
}

/// The union of the permissions of the roles in `roles` that `role_map` holds.
pub open spec fn roles_union(role_map: Map<u64, CacheRole>, roles: Seq<u64>) -> u64
    decreases roles.len(),
{
    if roles.len() == 0 {
        0
    } else {
        let rest = roles_union(role_map, roles.drop_last());
        if role_map.contains_key(roles.last()) {
            rest | role_map[roles.last()].permissions
        } else {
            rest
        }
    }
}

/// The base role's bits (the role whose id is the scope's), or none where it
/// is not cached, together with those of every assigned role that is cached.
pub open spec fn base_permissions(role_map: Map<u64, CacheRole>, roles: Seq<u64>, scope: u64) -> u64 {
    let everyone = if role_map.contains_key(scope) {
        role_map[scope].permissions
    } else {
        0
    };
    everyone | roles_union(role_map, roles)
}

pub open spec fn is_everyone_overwrite(o: PermissionOverwrite, scope: u64) -> bool {
    o.kind == OverwriteKind::Role && o.id == scope
}

pub open spec fn is_assigned_role_overwrite(
    o: PermissionOverwrite,
    scope: u64,
    roles: Seq<u64>,
) -> bool {
    o.kind == OverwriteKind::Role && o.id != scope && roles.contains(o.id)
}

pub open spec fn is_member_overwrite(o: PermissionOverwrite, principal: u64) -> bool {
    o.kind == OverwriteKind::Member && o.id == principal
}

/// `p` after each everyone overwrite of `ows`, in order.
pub open spec fn everyone_applied(p: u64, ows: Seq<PermissionOverwrite>, scope: u64) -> u64
    decreases ows.len(),
{
    if ows.len() == 0 {
        p
    } else {
        let q = everyone_applied(p, ows.drop_last(), scope);
        if is_everyone_overwrite(ows.last(), scope) {
            apply_overwrite(q, ows.last().deny, ows.last().allow)
        } else {
            q
        }
    }
}

/// The union of the deny bits (`deny_side`) or the allow bits of the
/// overwrites of assigned roles.
pub open spec fn role_bits(
    ows: Seq<PermissionOverwrite>,
    scope: u64,
    roles: Seq<u64>,
    deny_side: bool,
) -> u64
    decreases ows.len(),
{
    if ows.len() == 0 {
        0
    } else {
        let rest = role_bits(ows.drop_last(), scope, roles, deny_side);
        let o = ows.last();
        if is_assigned_role_overwrite(o, scope, roles) {
            rest | (if deny_side {
                o.deny
            } else {
                o.allow
            })
        } else {
            rest
        }
    }
}

/// The union of the deny bits (`deny_side`) or the allow bits of the
/// principal's own overwrites.
pub open spec fn member_bits(ows: Seq<PermissionOverwrite>, principal: u64, deny_side: bool) -> u64
    decreases ows.len(),
{
    if ows.len() == 0 {
        0
    } else {
        let rest = member_bits(ows.drop_last(), principal, deny_side);
        let o = ows.last();
        if is_member_overwrite(o, principal) {
            rest | (if deny_side {
                o.deny
            } else {
                o.allow
            })
        } else {
            rest
        }
    }
}

/// `base` after the overwrites of a channel.
pub open spec fn overwrites_applied(
    base: u64,
    ows: Seq<PermissionOverwrite>,
    scope: u64,
    principal: u64,
    roles: Seq<u64>,
) -> u64 {
    let after_everyone = everyone_applied(base, ows, scope);
    let after_roles = apply_overwrite(after_everyone, role_bits(ows, scope, roles, true), role_bits(ows, scope, roles, false));
    apply_overwrite(after_roles, member_bits(ows, principal, true), member_bits(ows, principal, false))
}

pub open spec fn channel_overwrites(c: CacheChannel) -> Seq<PermissionOverwrite> {
    match c.permission_overwrites {
        Some(v) => v@,
        None => Seq::empty(),
    }
}

/// The effective permissions of `principal`, who holds `roles`, in `channel`
/// of `scope`: none where the scope or the channel is not cached, all for
/// the scope's owner, else the base permissions after the channel's overwrites.
pub open spec fn resolve(
    s: StoreView,
    principal: u64,
    roles: Seq<u64>,
    scope: u64,
    channel: u64,
) -> u64 {
    if !s.guilds.contains_key(scope) || !s.channels.contains_key(channel) {
        0
    } else if principal == s.guilds[scope].owner_id {
        ALL_PERMISSIONS
    } else {
        overwrites_applied(
            base_permissions(s.roles, roles, scope),
            channel_overwrites(s.channels[channel]),
            scope,
            principal,
            roles,
        )
    }
}

fn contains_id(ids: &Vec<u64>, x: u64) -> (r: bool)
    ensures
        r == ids@.contains(x),
{
    let mut i: usize = 0;
    while i < ids.len()
        invariant
            i <= ids@.len(),
            forall|k: int| 0 <= k < i ==> ids@[k] != x,
        decreases ids.len() - i,
    {
        if ids[i] == x {
            return true;
        }
        i += 1;
    }
    false
}

/// Applies a channel's overwrites to the base permissions `base`.
pub fn apply_overwrites(
    base: u64,
    ows: &Vec<PermissionOverwrite>,
    scope: u64,
    principal: u64,
    roles: &Vec<u64>,
) -> (r: u64)
    ensures
        r == overwrites_applied(base, ows@, scope, principal, roles@),
{
    let mut p = base;
    let mut role_deny: u64 = 0;
    let mut role_allow: u64 = 0;
    let mut member_deny: u64 = 0;
    let mut member_allow: u64 = 0;
    let mut i: usize = 0;
    while i < ows.len()
        invariant
            i <= ows@.len(),
            p == everyone_applied(base, ows@.take(i as int), scope),
            role_deny == role_bits(ows@.take(i as int), scope, roles@, true),
            role_allow == role_bits(ows@.take(i as int), scope, roles@, false),
            member_deny == member_bits(ows@.take(i as int), principal, true),
            member_allow == member_bits(ows@.take(i as int), principal, false),
        decreases ows.len() - i,
    {
        let o = ows[i];
        proof {
            assert(ows@.take(i + 1).drop_last() =~= ows@.take(i as int));
            assert(ows@.take(i + 1).last() == o);
        }
        match o.kind {
            OverwriteKind::Role => {
                if o.id == scope {
                    p = (p & !o.deny) | o.allow;
                } else if contains_id(roles, o.id) {
                    role_deny = role_deny | o.deny;
                    role_allow = role_allow | o.allow;
                }
            },
            OverwriteKind::Member => {
                if o.id == principal {
                    member_deny = member_deny | o.deny;
                    member_allow = member_allow | o.allow;
                }
            },
        }
        i += 1;
    }
    proof {
        assert(ows@.take(i as int) =~= ows@);
    }
    let after_roles = (p & !role_deny) | role_allow;
    (after_roles & !member_deny) | member_allow
}

/// The base role's permissions together with those of each cached role in `roles`.
pub fn base_permissions_of(cache: &DiscordCache, roles: &Vec<u64>, scope: u64) -> (r: u64)
    ensures
        r == base_permissions(cache@.roles, roles@, scope),
{
    let everyone = match cache.role(scope) {
        Some(role) => role.permissions,
        None => 0,
    };
    let mut acc: u64 = 0;
    let mut i: usize = 0;
    while i < roles.len()
        invariant
            i <= roles@.len(),
            acc == roles_union(cache@.roles, roles@.take(i as int)),
        decreases roles.len() - i,
    {
        proof {
            assert(roles@.take(i + 1).drop_last() =~= roles@.take(i as int));
        }
        match cache.role(roles[i]) {
            Some(role) => {
                acc = acc | role.permissions;
            },
            None => {},
        }
        i += 1;
    }
    proof {
        assert(roles@.take(i as int) =~= roles@);
    }
    everyone | acc
}

/// The effective permissions of a principal in a channel; none where the
/// scope or the channel is not cached.
pub fn get_member_permissions_for_channel(
    cache: &DiscordCache,
    user_id: u64,
    role_ids: &Vec<u64>,
    guild_id: u64,
    channel_id: u64,
) -> (r: u64)
    ensures
        r == resolve(cache@, user_id, role_ids@, guild_id, channel_id),
{
    let guild = match cache.guild(guild_id) {
        Some(g) => g,
        None => return 0,
    };
    let channel = match cache.channel(channel_id) {
        Some(c) => c,
        None => return 0,
    };
    if user_id == guild.owner_id {
        return ALL_PERMISSIONS;
    }
    let base = base_permissions_of(cache, role_ids, guild_id);
    match channel.permission_overwrites {
        Some(ows) => apply_overwrites(base, &ows, guild_id, user_id, role_ids),
        None => {
            let none: Vec<PermissionOverwrite> = Vec::new();
            proof {
                assert(none@ =~= Seq::<PermissionOverwrite>::empty());
            }
            apply_overwrites(base, &none, guild_id, user_id, role_ids)
        },
    }
}

/// The system's own permissions in a channel, where its membership in the
/// scope is cached.
pub fn get_bot_permissions_for_channel(cache: &DiscordCache, guild_id: u64, channel_id: u64) -> (r:
    Option<u64>)
    ensures
        cache@.bot_members.contains_key(guild_id) ==> r == Some(
            resolve(
                cache@,
                cache@.bot_user_id,
                cache@.bot_members[guild_id].roles@,
                guild_id,
                channel_id,
            ),
        ),
        !cache@.bot_members.contains_key(guild_id) ==> r is None,
{
    match cache.bot_member(guild_id) {
        Some(m) => Some(
            get_member_permissions_for_channel(cache, cache.bot_user_id(), &m.roles, guild_id, channel_id),
        ),
        None => None,
    }
}

proof fn lemma_or_keeps(a: u64, b: u64, x: u64)
    ensures
        a & x == x ==> (a | b) & x == x,
        b & x == x ==> (a | b) & x == x,
        a & x == 0 && b & x == 0 ==> (a | b) & x == 0,
{
    assert(a & x == x ==> (a | b) & x == x) by (bit_vector);
    assert(b & x == x ==> (a | b) & x == x) by (bit_vector);
    assert(a & x == 0 && b & x == 0 ==> (a | b) & x == 0) by (bit_vector);
}

proof fn lemma_apply_bits(p: u64, deny: u64, allow: u64, x: u64)
    ensures
        allow & x == x ==> apply_overwrite(p, deny, allow) & x == x,
        deny & x == x && allow & x == 0 ==> apply_overwrite(p, deny, allow) & x == 0,
        p & x == x && deny & x == 0 ==> apply_overwrite(p, deny, allow) & x == x,
{
    assert(allow & x == x ==> ((p & !deny) | allow) & x == x) by (bit_vector);
    assert(deny & x == x && allow & x == 0 ==> ((p & !deny) | allow) & x == 0) by (bit_vector);
    assert(p & x == x && deny & x == 0 ==> ((p & !deny) | allow) & x == x) by (bit_vector);
}

proof fn lemma_role_bits_has(ows: Seq<PermissionOverwrite>, scope: u64, roles: Seq<u64>, i: int, x: u64)
    requires
        0 <= i < ows.len(),
        is_assigned_role_overwrite(ows[i], scope, roles),
        ows[i].allow & x == x,
    ensures
        role_bits(ows, scope, roles, false) & x == x,
    decreases ows.len(),
{
    let rest = role_bits(ows.drop_last(), scope, roles, false);
    if i == ows.len() - 1 {
        lemma_or_keeps(rest, ows.last().allow, x);
    } else {
        lemma_role_bits_has(ows.drop_last(), scope, roles, i, x);
        if is_assigned_role_overwrite(ows.last(), scope, roles) {
            lemma_or_keeps(rest, ows.last().allow, x);
        }
    }
}

proof fn lemma_member_bits_has(ows: Seq<PermissionOverwrite>, principal: u64, i: int, x: u64)
    requires
        0 <= i < ows.len(),
        is_member_overwrite(ows[i], principal),
        ows[i].deny & x == x,
    ensures
        member_bits(ows, principal, true) & x == x,
    decreases ows.len(),
{
    let rest = member_bits(ows.drop_last(), principal, true);
    if i == ows.len() - 1 {
        lemma_or_keeps(rest, ows.last().deny, x);
    } else {
        lemma_member_bits_has(ows.drop_last(), principal, i, x);
        if is_member_overwrite(ows.last(), principal) {
            lemma_or_keeps(rest, ows.last().deny, x);
        }
    }
}

proof fn lemma_member_bits_lack(ows: Seq<PermissionOverwrite>, principal: u64, deny_side: bool, x: u64)
    requires
        forall|i: int|
            0 <= i < ows.len() && is_member_overwrite(#[trigger] ows[i], principal) ==> (if deny_side {
                ows[i].deny
            } else {
                ows[i].allow
            }) & x == 0,
    ensures
        member_bits(ows, principal, deny_side) & x == 0,
    decreases ows.len(),
{
    if ows.len() > 0 {
        let rest = member_bits(ows.drop_last(), principal, deny_side);
        assert forall|i: int|
            0 <= i < ows.drop_last().len() && is_member_overwrite(
                #[trigger] ows.drop_last()[i],
                principal,
            ) implies (if deny_side {
            ows.drop_last()[i].deny
        } else {
            ows.drop_last()[i].allow
        }) & x == 0 by {
            assert(ows.drop_last()[i] == ows[i]);
        }
        lemma_member_bits_lack(ows.drop_last(), principal, deny_side, x);
        let o = ows.last();
        lemma_or_keeps(rest, if deny_side {
            o.deny
        } else {
            o.allow
        }, x);
    }
    else {
        assert(0u64 & x == 0) by (bit_vector);
    }
}

/// A permission that an overwrite of one of the principal's roles allows is
/// granted in the channel, whatever the everyone overwrite denies, unless an
/// overwrite of the principal itself denies it.
pub proof fn lemma_role_allow_overrides_everyone_deny(
    base: u64,
    ows: Seq<PermissionOverwrite>,
    scope: u64,
    principal: u64,
    roles: Seq<u64>,
    x: u64,
)
    requires
        exists|i: int|
            0 <= i < ows.len() && is_assigned_role_overwrite(#[trigger] ows[i], scope, roles)
                && ows[i].allow & x == x,
        forall|i: int|
            0 <= i < ows.len() && is_member_overwrite(#[trigger] ows[i], principal) ==> ows[i].deny
                & x == 0,
    ensures
        overwrites_applied(base, ows, scope, principal, roles) & x == x,
{
    let i = choose|i: int|
        0 <= i < ows.len() && is_assigned_role_overwrite(#[trigger] ows[i], scope, roles)
            && ows[i].allow & x == x;
    lemma_role_bits_has(ows, scope, roles, i, x);
    lemma_member_bits_lack(ows, principal, true, x);
    let after_everyone = everyone_applied(base, ows, scope);
    let after_roles = apply_overwrite(after_everyone, role_bits(ows, scope, roles, true), role_bits(ows, scope, roles, false));
    lemma_apply_bits(after_everyone, role_bits(ows, scope, roles, true), role_bits(ows, scope, roles, false), x);
    lemma_apply_bits(after_roles, member_bits(ows, principal, true), member_bits(ows, principal, false), x);
}

/// A permission that an overwrite of the principal itself denies, and none of
/// its own overwrites allows, is withheld in the channel, whatever the role
/// overwrites allow.
pub proof fn lemma_member_deny_overrides_roles(
    base: u64,
    ows: Seq<PermissionOverwrite>,
    scope: u64,
    principal: u64,
    roles: Seq<u64>,
    x: u64,
)
    requires
        exists|i: int|
            0 <= i < ows.len() && is_member_overwrite(#[trigger] ows[i], principal) && ows[i].deny
                & x == x,
        forall|i: int|
            0 <= i < ows.len() && is_member_overwrite(#[trigger] ows[i], principal) ==> ows[i].allow
                & x == 0,
    ensures
        overwrites_applied(base, ows, scope, principal, roles) & x == 0,
{
    let i = choose|i: int|
        0 <= i < ows.len() && is_member_overwrite(#[trigger] ows[i], principal) && ows[i].deny & x
            == x;
    lemma_member_bits_has(ows, principal, i, x);
    lemma_member_bits_lack(ows, principal, false, x);
    let after_everyone = everyone_applied(base, ows, scope);
    let after_roles = apply_overwrite(after_everyone, role_bits(ows, scope, roles, true), role_bits(ows, scope, roles, false));
    lemma_apply_bits(after_roles, member_bits(ows, principal, true), member_bits(ows, principal, false), x);
}

/// In a cached channel of a cached scope, a non-owner who holds a role whose
/// overwrite allows a permission has it, even where the everyone overwrite
/// denies it, unless the principal's own overwrite denies it; an own overwrite
/// that denies a permission and allows none of it withholds it, whatever the
/// role overwrites allow.
pub proof fn lemma_resolve_overwrite_precedence(
    s: StoreView,
    principal: u64,
    roles: Seq<u64>,
    scope: u64,
    channel: u64,
    x: u64,
)
    requires
        s.guilds.contains_key(scope),
        s.channels.contains_key(channel),
        principal != s.guilds[scope].owner_id,
    ensures
        ({
            let ows = channel_overwrites(s.channels[channel]);
            (exists|i: int|
                0 <= i < ows.len() && is_assigned_role_overwrite(#[trigger] ows[i], scope, roles)
                    && ows[i].allow & x == x) && (forall|i: int|
                0 <= i < ows.len() && is_member_overwrite(#[trigger] ows[i], principal) ==> ows[i].deny
                    & x == 0) ==> resolve(s, principal, roles, scope, channel) & x == x
        }),
        ({
            let ows = channel_overwrites(s.channels[channel]);
            (exists|i: int|
                0 <= i < ows.len() && is_member_overwrite(#[trigger] ows[i], principal) && ows[i].deny
                    & x == x) && (forall|i: int|
                0 <= i < ows.len() && is_member_overwrite(#[trigger] ows[i], principal) ==> ows[i].allow
                    & x == 0) ==> resolve(s, principal, roles, scope, channel) & x == 0
        }),
{
    let ows = channel_overwrites(s.channels[channel]);
    let base = base_permissions(s.roles, roles, scope);
    if (exists|i: int|
        0 <= i < ows.len() && is_assigned_role_overwrite(#[trigger] ows[i], scope, roles)
            && ows[i].allow & x == x) && (forall|i: int|
        0 <= i < ows.len() && is_member_overwrite(#[trigger] ows[i], principal) ==> ows[i].deny & x
            == 0) {
        lemma_role_allow_overrides_everyone_deny(base, ows, scope, principal, roles, x);
    }
    if (exists|i: int|
        0 <= i < ows.len() && is_member_overwrite(#[trigger] ows[i], principal) && ows[i].deny & x
            == x) && (forall|i: int|
        0 <= i < ows.len() && is_member_overwrite(#[trigger] ows[i], principal) ==> ows[i].allow & x
            == 0) {
        lemma_member_deny_overrides_roles(base, ows, scope, principal, roles, x);
    }
}

/// The owner of a cached scope has every permission in each cached channel,
/// whatever the overwrites say.
pub proof fn lemma_owner_has_all_permissions(
    s: StoreView,
    principal: u64,
    roles: Seq<u64>,
    scope: u64,
    channel: u64,
)
    requires
        s.guilds.contains_key(scope),
        s.channels.contains_key(channel),
        s.guilds[scope].owner_id == principal,
    ensures
        resolve(s, principal, roles, scope, channel) == ALL_PERMISSIONS,
{
}

} // verus!
