//! The variables that substitution offers: those of the scope, the channel
//! and the user that an interaction comes from.
use vstd::prelude::*;

use crate::cache::DiscordCache;
use crate::model::{CacheChannel, CacheGuild};
use crate::template::MessageVariables;
use crate::text::chars_of;

verus! {

/// The decimal digits of `n`.
pub open spec fn decimal_text(n: nat) -> Seq<char>
    decreases n,
{
    if n < 10 {
        seq![digit_char(n)]
    } else {
        decimal_text(n / 10) + seq![digit_char(n % 10)]
    }
}

pub open spec fn digit_char(d: nat) -> char {
    seq!['0', '1', '2', '3', '4', '5', '6', '7', '8', '9'][d as int]
}

/// The decimal digits of `n`.
pub fn decimal_chars(n: u64) -> (r: Vec<char>)
    ensures
        r@ == decimal_text(n as nat),
    decreases n,
{
    let digits: Vec<char> = vec!['0', '1', '2', '3', '4', '5', '6', '7', '8', '9'];
    let d = (n % 10) as usize;
    let c = digits[d];
    proof {
        assert(digits@ == seq!['0', '1', '2', '3', '4', '5', '6', '7', '8', '9']);
    }
    if n < 10 {
        let mut r: Vec<char> = Vec::new();
        r.push(c);
        assert(r@ =~= seq![digit_char(n as nat)]);
        r
    } else {
        let mut r = decimal_chars(n / 10);
        r.push(c);
        assert(r@ =~= decimal_text((n / 10) as nat) + seq![digit_char((n % 10) as nat)]);
        r
    }
}

fn append(out: &mut Vec<char>, more: Vec<char>)
    ensures
        final(out)@ == old(out)@ + more@,
{
    crate::text::push_range(out, &more, 0, more.len());
    assert(more@.subrange(0, more@.len() as int) =~= more@);
}

/// Things that contribute variables.
pub trait ToMessageVariables {
    /// The bindings that `to_message_variables` adds, in order.
    spec fn variable_bindings(&self) -> Seq<(Seq<char>, Seq<char>)>;

    fn to_message_variables(&self, variables: &mut MessageVariables)
        ensures
            final(variables)@ == old(variables)@ + self.variable_bindings(),
    ;
}

pub open spec fn icon_url(id: u64, icon: Seq<char>) -> Seq<char> {
    "https://cdn.discordapp.com/icons/"@ + decimal_text(id as nat) + "/"@ + icon + ".png"@
}

impl ToMessageVariables for CacheGuild {
    open spec fn variable_bindings(&self) -> Seq<(Seq<char>, Seq<char>)> {
        let base = seq![
            ("server.id"@, decimal_text(self.id as nat)),
            ("server.name"@, self.name@),
        ];
        match self.icon {
            Some(icon) => base.push(("server.icon_url"@, icon_url(self.id, icon@))),
            None => base,
        }
    }

    fn to_message_variables(&self, variables: &mut MessageVariables) {
        variables.insert_chars(chars_of("server.id"), decimal_chars(self.id));
        variables.insert_chars(chars_of("server.name"), chars_of(self.name.as_str()));
        match &self.icon {
            Some(icon) => {
                let mut url = chars_of("https://cdn.discordapp.com/icons/");
                append(&mut url, decimal_chars(self.id));
                append(&mut url, chars_of("/"));
                append(&mut url, chars_of(icon.as_str()));
                append(&mut url, chars_of(".png"));
                variables.insert_chars(chars_of("server.icon_url"), url);
            },
            None => {},
        }
        assert(variables@ =~= old(variables)@ + self.variable_bindings());
    }
}

impl ToMessageVariables for CacheChannel {
    open spec fn variable_bindings(&self) -> Seq<(Seq<char>, Seq<char>)> {
        seq![
            ("channel.id"@, decimal_text(self.id as nat)),
            (
                "channel.name"@,
                match self.name {
                    Some(n) => n@,
                    None => Seq::empty(),
                },
            ),
        ]
    }

    fn to_message_variables(&self, variables: &mut MessageVariables) {
        variables.insert_chars(chars_of("channel.id"), decimal_chars(self.id));
        let name = match &self.name {
            Some(n) => chars_of(n.as_str()),
            None => Vec::new(),
        };
        variables.insert_chars(chars_of("channel.name"), name);
        assert(variables@ =~= old(variables)@ + self.variable_bindings());
    }
}

/// The user behind an interaction.
#[derive(Clone, Debug)]
pub struct InteractionUser {
    pub id: u64,
    pub name: String,
    pub discriminator: u16,
    pub avatar: Option<String>,
}

/// The avatar of a user: its own image where it has one, else the default
/// image that its discriminator selects.
pub open spec fn avatar_url(user: InteractionUser) -> Seq<char> {
    match user.avatar {
        Some(a) => "https://cdn.discordapp.com/avatars/"@ + decimal_text(user.id as nat) + "/"@ + a@
            + ".png"@,
        None => "https://cdn.discordapp.com/embed/avatars/"@ + decimal_text(
            (user.discriminator % 5) as nat,
        ) + ".png"@,
    }
}

pub fn user_avatar_url(user: &InteractionUser) -> (r: Vec<char>)
    ensures
        r@ == avatar_url(*user),
{
    match &user.avatar {
        Some(a) => {
            let mut url = chars_of("https://cdn.discordapp.com/avatars/");
            append(&mut url, decimal_chars(user.id));
            append(&mut url, chars_of("/"));
            append(&mut url, chars_of(a.as_str()));
            append(&mut url, chars_of(".png"));
            url
        },
        None => {
            let mut url = chars_of("https://cdn.discordapp.com/embed/avatars/");
            append(&mut url, decimal_chars((user.discriminator % 5) as u64));
            append(&mut url, chars_of(".png"));
            url
        },
    }
}

impl ToMessageVariables for InteractionUser {
    open spec fn variable_bindings(&self) -> Seq<(Seq<char>, Seq<char>)> {
        seq![
            ("user.id"@, decimal_text(self.id as nat)),
            ("user.name"@, self.name@),
            ("user.discriminator"@, decimal_text(self.discriminator as nat)),
            ("user.tag"@, self.name@ + "#"@ + decimal_text(self.discriminator as nat)),
            ("user.avatar_url"@, avatar_url(*self)),
        ]
    }

    fn to_message_variables(&self, variables: &mut MessageVariables) {
        variables.insert_chars(chars_of("user.id"), decimal_chars(self.id));
        variables.insert_chars(chars_of("user.name"), chars_of(self.name.as_str()));
        variables.insert_chars(
            chars_of("user.discriminator"),
            decimal_chars(self.discriminator as u64),
        );
        let mut tag = chars_of(self.name.as_str());
        append(&mut tag, chars_of("#"));
        append(&mut tag, decimal_chars(self.discriminator as u64));
        variables.insert_chars(chars_of("user.tag"), tag);
        variables.insert_chars(chars_of("user.avatar_url"), user_avatar_url(self));
        assert(variables@ =~= old(variables)@ + self.variable_bindings());
    }
}

/// The variables of an interaction in `channel_id` (of `guild_id`, if any) by
/// `user`: those of the cached scope (else only its id), those of the cached
/// channel (else only its id), then those of the user.
pub fn interaction_variables(
    cache: &DiscordCache,
    guild_id: Option<u64>,
    channel_id: u64,
    user: &InteractionUser,
    variables: &mut MessageVariables,
)
    ensures
        final(variables)@ == old(variables)@ + (match guild_id {
            Some(g) => match cache@.guilds.contains_key(g) {
                true => cache@.guilds[g].variable_bindings(),
                false => seq![("guild.id"@, decimal_text(g as nat))],
            },
            None => Seq::empty(),
        }) + (match cache@.channels.contains_key(channel_id) {
            true => cache@.channels[channel_id].variable_bindings(),
            false => seq![("channel.id"@, decimal_text(channel_id as nat))],
        }) + user.variable_bindings(),
{
    let ghost start = variables@;
    match guild_id {
        Some(g) => match cache.guild(g) {
            Some(guild) => guild.to_message_variables(variables),
            None => variables.insert_chars(chars_of("guild.id"), decimal_chars(g)),
        },
        None => {
            assert(variables@ =~= start + Seq::empty());
        },
    }
    let ghost mid = variables@;
    match cache.channel(channel_id) {
        Some(channel) => channel.to_message_variables(variables),
        None => variables.insert_chars(chars_of("channel.id"), decimal_chars(channel_id)),
    }
    let ghost mid2 = variables@;
    user.to_message_variables(variables);
    assert(variables@ =~= mid2 + user.variable_bindings());
}

} // verus!
