//! The decisions around interactive messages: which actions a payload
//! carries, whether a principal may send it to a channel, and whether an
//! interaction with a sent message can be trusted.
use vstd::prelude::*;
use vstd::string::StringExecFns;

use crate::actions::{action_is, action_suffix, MessageAction};
use crate::cache::{DiscordCache, StoreView};
use crate::message::Component;
use crate::model::{CacheChannel, CacheRole, ChannelKind};
use crate::permissions::{get_member_permissions_for_channel, resolve, MANAGE_ROLES, MANAGE_WEBHOOKS};
use crate::wire::RouteError;

verus! {

/// The identifiers that may carry actions, in order: a button's identifier,
/// a select menu's identifier and then its option values, and those of the
/// components of a row. Text inputs carry none.
pub open spec fn action_sources(c: Component) -> Seq<Seq<char>>
    decreases c,
{
    match c {
        Component::ActionRow(row) => action_sources_upto(row@, row@.len() as int),
        Component::Button(b) => match b.custom_id {
            Some(id) => seq![id@],
            None => Seq::empty(),
        },
        Component::SelectMenu(m) => seq![m.custom_id@] + m.options@.map_values(
            |o: crate::message::SelectMenuOption| o.value@,
        ),
        Component::TextInput(_) => Seq::empty(),
    }
}

pub open spec fn action_sources_upto(cs: Seq<Component>, n: int) -> Seq<Seq<char>>
    decreases cs, n,
{
    if n <= 0 || n > cs.len() {
        Seq::empty()
    } else {
        action_sources_upto(cs, n - 1) + action_sources(cs[n - 1])
    }
}

/// `acts` are the actions that the identifiers `ids` carry, in order.
pub open spec fn parsed_actions(ids: Seq<Seq<char>>, acts: Seq<MessageAction>) -> bool
    decreases ids.len(),
{
    if ids.len() == 0 {
        acts.len() == 0
    } else {
        let id = ids.last();
        if exists|i: int, c: int| action_suffix(id, i, c) {
            &&& acts.len() >= 1
            &&& parsed_actions(ids.drop_last(), acts.drop_last())
            &&& forall|i: int, c: int|
                action_suffix(id, i, c) ==> action_is(
                    acts.last(),
                    id.subrange(i + 1, c),
                    id.subrange(c + 1, id.len() - 1),
                )
        } else {
            parsed_actions(ids.drop_last(), acts)
        }
    }
}

fn push_actions_of(result: &mut Vec<MessageAction>, id: &String, Ghost(ids): Ghost<Seq<Seq<char>>>)
    requires
        parsed_actions(ids, old(result)@),
    ensures
        parsed_actions(ids.push(id@), final(result)@),
{
    let mut found = MessageAction::parse(id.as_str());
    let ghost before = result@;
    proof {
        assert(ids.push(id@).drop_last() =~= ids);
        assert(ids.push(id@).last() == id@);
    }
    if found.len() == 1 {
        let a = found.pop().unwrap();
        result.push(a);
        assert(result@.drop_last() =~= before);
    }
}

fn push_component_actions(result: &mut Vec<MessageAction>, c: &Component, Ghost(ids): Ghost<
    Seq<Seq<char>>,
>)
    requires
        parsed_actions(ids, old(result)@),
    ensures
        parsed_actions(ids + action_sources(*c), final(result)@),
    decreases c,
{
    match c {
        Component::ActionRow(row) => {
            let mut k: usize = 0;
            assert(ids + action_sources_upto(row@, 0) =~= ids);
            while k < row.len()
                invariant
                    k <= row@.len(),
                    c is ActionRow,
                    *row == c->ActionRow_0,
                    parsed_actions(ids + action_sources_upto(row@, k as int), result@),
                decreases row.len() - k,
            {
                proof {
                    assert(decreases_to!(*c => c->ActionRow_0));
                    assert(decreases_to!(*row => row@));
                    assert(decreases_to!(row@ => row@[k as int]));
                }
                push_component_actions(
                    result,
                    &row[k],
                    Ghost(ids + action_sources_upto(row@, k as int)),
                );
                assert(ids + action_sources_upto(row@, k as int) + action_sources(row@[k as int])
                    =~= ids + action_sources_upto(row@, k + 1));
                k += 1;
            }
        },
        Component::Button(b) => {
            match &b.custom_id {
                Some(id) => {
                    push_actions_of(result, id, Ghost(ids));
                    assert(ids.push(id@) =~= ids + seq![id@]);
                },
                None => {
                    assert(ids + Seq::<Seq<char>>::empty() =~= ids);
                },
            }
        },
        Component::SelectMenu(m) => {
            push_actions_of(result, &m.custom_id, Ghost(ids));
            let ghost head = ids.push(m.custom_id@);
            let ghost vals = m.options@.map_values(|o: crate::message::SelectMenuOption| o.value@);
            let mut k: usize = 0;
            assert(head + vals.take(0) =~= head);
            while k < m.options.len()
                invariant
                    k <= m.options@.len(),
                    vals == m.options@.map_values(|o: crate::message::SelectMenuOption| o.value@),
                    parsed_actions(head + vals.take(k as int), result@),
                decreases m.options.len() - k,
            {
                push_actions_of(result, &m.options[k].value, Ghost(head + vals.take(k as int)));
                assert((head + vals.take(k as int)).push(m.options@[k as int].value@) =~= head
                    + vals.take(k + 1));
                k += 1;
            }
            assert(head + vals.take(k as int) =~= ids + action_sources(*c));
        },
        Component::TextInput(_) => {
            assert(ids + Seq::<Seq<char>>::empty() =~= ids);
        },
    }
}

/// The actions that the components of a payload carry, in order.
pub fn parse_component_actions(components: &Vec<Component>) -> (r: Vec<MessageAction>)
    ensures
        parsed_actions(action_sources_upto(components@, components@.len() as int), r@),
{
    let mut result: Vec<MessageAction> = Vec::new();
    let mut k: usize = 0;
    while k < components.len()
        invariant
            k <= components@.len(),
            parsed_actions(action_sources_upto(components@, k as int), result@),
        decreases components.len() - k,
    {
        push_component_actions(&mut result, &components[k], Ghost(action_sources_upto(components@, k as int)));
        k += 1;
    }
    result
}

/// Where a message for a channel goes: the channel that holds the webhook,
/// and the thread, for a thread.
pub open spec fn send_target_of(c: CacheChannel) -> Option<(u64, Option<u64>)> {
    match c.kind {
        ChannelKind::GuildNewsThread | ChannelKind::GuildPublicThread
        | ChannelKind::GuildPrivateThread => match c.parent_id {
            Some(p) => Some((p, Some(c.id))),
            None => None,
        },
        ChannelKind::GuildText | ChannelKind::GuildNews => Some((c.id, None)),
        ChannelKind::Other => None,
    }
}

/// Where a message for this channel goes; other kinds of channel are refused.
pub fn send_target(c: &CacheChannel) -> (r: Result<(u64, Option<u64>), RouteError>)
    ensures
        match send_target_of(*c) {
            Some(t) => r == Ok::<(u64, Option<u64>), RouteError>(t),
            None => r is Err && r->Err_0 is UnsupportedChannelType,
        },
{
    match c.kind {
        ChannelKind::GuildNewsThread | ChannelKind::GuildPublicThread
        | ChannelKind::GuildPrivateThread => match c.parent_id {
            Some(p) => Ok((p, Some(c.id))),
            None => Err(RouteError::UnsupportedChannelType),
        },
        ChannelKind::GuildText | ChannelKind::GuildNews => Ok((c.id, None)),
        ChannelKind::Other => Err(RouteError::UnsupportedChannelType),
    }
}

/// The highest position among the cached roles of `roles`, or 0.
pub open spec fn highest_position(role_map: Map<u64, CacheRole>, roles: Seq<u64>) -> i64
    decreases roles.len(),
{
    if roles.len() == 0 {
        0
    } else {
        let rest = highest_position(role_map, roles.drop_last());
        if role_map.contains_key(roles.last()) && role_map[roles.last()].position > rest {
            role_map[roles.last()].position
        } else {
            rest
        }
    }
}

pub fn highest_role_position(cache: &DiscordCache, roles: &Vec<u64>) -> (r: i64)
    ensures
        r == highest_position(cache@.roles, roles@),
{
    let mut highest: i64 = 0;
    let mut k: usize = 0;
    while k < roles.len()
        invariant
            k <= roles@.len(),
            highest == highest_position(cache@.roles, roles@.take(k as int)),
        decreases roles.len() - k,
    {
        proof {
            assert(roles@.take(k + 1).drop_last() =~= roles@.take(k as int));
        }
        match cache.role(roles[k]) {
            Some(role) => {
                if role.position > highest {
                    highest = role.position;
                }
            },
            None => {},
        }
        k += 1;
    }
    assert(roles@.take(k as int) =~= roles@);
    highest
}

/// What a principal may do in a channel it sends to.
#[derive(Clone, Copy, Debug)]
pub struct SendGrant {
    pub channel_id: u64,
    pub thread_id: Option<u64>,
    pub permissions: u64,
    pub is_owner: bool,
    pub highest_role: i64,
}

/// Why sending to a channel of a scope is refused, if it is: the channel or
/// the scope is not cached (1), the channel is of another scope (2), the
/// principal may not manage webhooks there (3), the channel is of a kind
/// that cannot be sent to (4).
pub open spec fn send_refusal(
    s: StoreView,
    user: u64,
    roles: Seq<u64>,
    guild: u64,
    channel: u64,
) -> int {
    if !s.channels.contains_key(channel) {
        1
    } else if s.channels[channel].guild_id != Some(guild) {
        2
    } else if !s.guilds.contains_key(guild) {
        1
    } else if resolve(s, user, roles, guild, channel) & MANAGE_WEBHOOKS == 0 {
        3
    } else if send_target_of(s.channels[channel]) is None {
        4
    } else {
        0
    }
}

pub open spec fn refusal_of(e: RouteError) -> int {
    match e {
        RouteError::NotFound { .. } => 1,
        RouteError::GuildChannelMismatch => 2,
        RouteError::MissingChannelAccess => 3,
        RouteError::UnsupportedChannelType => 4,
        _ => 0,
    }
}

/// Checks that `user`, who holds `roles`, may send to `channel_id` of
/// `guild_id`: the channel must be cached and of that scope, and the
/// principal must be able to manage its webhooks.
pub fn authorize_send(
    cache: &DiscordCache,
    user: u64,
    roles: &Vec<u64>,
    guild_id: u64,
    channel_id: u64,
) -> (r: Result<SendGrant, RouteError>)
    ensures
        match r {
            Ok(g) => {
                &&& send_refusal(cache@, user, roles@, guild_id, channel_id) == 0
                &&& send_target_of(cache@.channels[channel_id]) == Some((g.channel_id, g.thread_id))
                &&& g.permissions == resolve(cache@, user, roles@, guild_id, channel_id)
                &&& g.is_owner == (user == cache@.guilds[guild_id].owner_id)
                &&& g.highest_role == (if g.is_owner {
                    0
                } else {
                    highest_position(cache@.roles, roles@)
                })
            },
            Err(e) => send_refusal(cache@, user, roles@, guild_id, channel_id) == refusal_of(e)
                && refusal_of(e) != 0,
        },
{
    let channel = match cache.channel(channel_id) {
        Some(c) => c,
        None => return Err(RouteError::NotFound { entity: String::from_str("channel") }),
    };
    if channel.guild_id != Some(guild_id) {
        return Err(RouteError::GuildChannelMismatch);
    }
    let guild = match cache.guild(guild_id) {
        Some(g) => g,
        None => return Err(RouteError::NotFound { entity: String::from_str("guild") }),
    };
    let is_owner = guild.owner_id == user;
    let permissions = get_member_permissions_for_channel(cache, user, roles, guild_id, channel_id);
    let highest_role = if is_owner {
        0
    } else {
        highest_role_position(cache, roles)
    };
    if permissions & MANAGE_WEBHOOKS == 0 {
        return Err(RouteError::MissingChannelAccess);
    }
    match send_target(&channel) {
        Ok((target, thread)) => Ok(
            SendGrant { channel_id: target, thread_id: thread, permissions, is_owner, highest_role },
        ),
        Err(e) => Err(e),
    }
}

/// Why an action of a message to send is refused, if it is: an unknown
/// action (1); a role toggle by a principal who may not manage roles (2); a
/// role toggle of a role that is not cached, of another scope, or above the
/// principal's highest role (3). The scope's owner may toggle any role.
pub open spec fn action_refusal(s: StoreView, guild: u64, grant: SendGrant, a: MessageAction) -> int {
    match a {
        MessageAction::Unknown => 1,
        MessageAction::ResponseSavedMessage { .. } => 0,
        MessageAction::RoleToggle { role_id } => if grant.is_owner {
            0
        } else if grant.permissions & MANAGE_ROLES == 0 {
            2
        } else if !s.roles.contains_key(role_id) || s.roles[role_id].guild_id != guild
            || s.roles[role_id].position > grant.highest_role {
            3
        } else {
            0
        },
    }
}

pub open spec fn action_refusal_of(e: RouteError) -> int {
    match e {
        RouteError::NotFound { .. } => 1,
        RouteError::MissingChannelAccess => 2,
        RouteError::InvalidMessageAction { .. } => 3,
        _ => 0,
    }
}

/// The ids of the saved messages that the actions respond with, in order.
pub open spec fn saved_message_ids(acts: Seq<MessageAction>) -> Seq<Seq<char>>
    decreases acts.len(),
{
    if acts.len() == 0 {
        Seq::empty()
    } else {
        let rest = saved_message_ids(acts.drop_last());
        match acts.last() {
            MessageAction::ResponseSavedMessage { message_id } => rest.push(message_id@),
            _ => rest,
        }
    }
}

/// Checks the actions of a message to send, in order, and returns the ids of
/// the saved messages they respond with, whose ownership the caller checks
/// in storage.
pub fn check_message_actions(
    cache: &DiscordCache,
    guild_id: u64,
    grant: &SendGrant,
    actions: &Vec<MessageAction>,
) -> (r: Result<Vec<String>, RouteError>)
    ensures
        match r {
            Ok(ids) => {
                &&& forall|k: int|
                    0 <= k < actions@.len() ==> action_refusal(cache@, guild_id, *grant, #[trigger] actions@[k])
                        == 0
                &&& ids@.map_values(|s: String| s@) == saved_message_ids(actions@)
            },
            Err(e) => exists|k: int|
                0 <= k < actions@.len() && action_refusal(cache@, guild_id, *grant, #[trigger] actions@[k])
                    == action_refusal_of(e) && action_refusal_of(e) != 0 && forall|j: int|
                    0 <= j < k ==> action_refusal(cache@, guild_id, *grant, #[trigger] actions@[j])
                        == 0,
        },
{
    let mut ids: Vec<String> = Vec::new();
    let mut k: usize = 0;
    while k < actions.len()
        invariant
            k <= actions@.len(),
            forall|j: int|
                0 <= j < k ==> action_refusal(cache@, guild_id, *grant, #[trigger] actions@[j]) == 0,
            ids@.map_values(|s: String| s@) == saved_message_ids(actions@.take(k as int)),
        decreases actions.len() - k,
    {
        proof {
            assert(actions@.take(k + 1).drop_last() =~= actions@.take(k as int));
            assert(actions@.take(k + 1).last() == actions@[k as int]);
        }
        match &actions[k] {
            MessageAction::Unknown => {
                return Err(RouteError::NotFound { entity: String::from_str("action") });
            },
            MessageAction::ResponseSavedMessage { message_id } => {
                let ghost before = ids@;
                ids.push(message_id.clone());
                assert(ids@.map_values(|s: String| s@) =~= before.map_values(|s: String| s@).push(
                    message_id@,
                ));
            },
            MessageAction::RoleToggle { role_id } => {
                if !grant.is_owner {
                    if grant.permissions & MANAGE_ROLES == 0 {
                        return Err(RouteError::MissingChannelAccess);
                    }
                    match cache.role(*role_id) {
                        Some(role) => {
                            if role.guild_id != guild_id {
                                return Err(
                                    RouteError::InvalidMessageAction {
                                        details: String::from_str("Role to toggle is not in this guild"),
                                    },
                                );
                            }
                            if role.position > grant.highest_role {
                                return Err(
                                    RouteError::InvalidMessageAction {
                                        details: String::from_str(
                                            "You don't have permissions to toggle that role",
                                        ),
                                    },
                                );
                            }
                        },
                        None => {
                            return Err(
                                RouteError::InvalidMessageAction {
                                    details: String::from_str("Unknown role to toggle"),
                                },
                            );
                        },
                    }
                }
            },
        }
        k += 1;
    }
    assert(actions@.take(k as int) =~= actions@);
    Ok(ids)
}

/// Whether an interaction with a sent message may run its actions. A message
/// last changed at or before `cutover` (seconds) predates fingerprints and is
/// trusted; so is one that the system itself wrote. Any other message is
/// trusted only where a record of it with the same fingerprint exists.
pub fn interaction_is_trusted(
    changed_at: i64,
    cutover: i64,
    authored_by_system: bool,
    fingerprint_on_record: bool,
) -> (r: bool)
    ensures
        r == (changed_at <= cutover || authored_by_system || fingerprint_on_record),
{
    !(changed_at > cutover && !authored_by_system && !fingerprint_on_record)
}

/// Whether toggling `role_id` takes the role away (the member holds it) rather
/// than giving it.
pub fn role_toggle_removes(member_roles: &Vec<u64>, role_id: u64) -> (r: bool)
    ensures
        r == member_roles@.contains(role_id),
{
    let mut k: usize = 0;
    while k < member_roles.len()
        invariant
            k <= member_roles@.len(),
            forall|j: int| 0 <= j < k ==> member_roles@[j] != role_id,
        decreases member_roles.len() - k,
    {
        if member_roles[k] == role_id {
            return true;
        }
        k += 1;
    }
    false
}

/// The kind of component that an interaction came from.
#[derive(Clone, Copy, Debug, PartialEq, Eq, Structural)]
pub enum ComponentKind {
    Button,
    SelectMenu,
    Other,
}

/// The text that an interaction with a component responds to: a button's
/// identifier, a select menu's first chosen value.
pub fn component_response(kind: ComponentKind, custom_id: &String, values: &Vec<String>) -> (r: Option<
    String,
>)
    ensures
        match kind {
            ComponentKind::Button => r == Some(*custom_id),
            ComponentKind::SelectMenu => if values@.len() > 0 {
                r == Some(values@[0])
            } else {
                r is None
            },
            ComponentKind::Other => r is None,
        },
{
    match kind {
        ComponentKind::Button => Some(custom_id.clone()),
        ComponentKind::SelectMenu => if values.len() > 0 {
            Some(values[0].clone())
        } else {
            None
        },
        ComponentKind::Other => None,
    }
}

} // verus!
