//! Voice-channel decisions: how to react when a user's voice state
//! changes, where to play, and which voice channel a user is in.

use vstd::prelude::*;
use crate::types::{BotError, ErrorView};

verus! {

/// What the bot knows of a user's voice state.
#[derive(Clone, Copy, Debug, PartialEq, Eq)]
pub struct VoiceStateInfo {
    pub user_id: u64,
    pub guild_id: Option<u64>,
    pub channel_id: Option<u64>,
}

/// A guild as cached: its id and the voice states of its members, keyed
/// by user id.
#[derive(Debug)]
pub struct GuildSnapshot {
    pub id: u64,
    pub voice_states: Vec<(u64, VoiceStateInfo)>,
}

/// What to do after a voice-state update.
#[derive(Clone, Copy, Debug, PartialEq, Eq)]
pub enum VoiceChannelAction {
    /// Nothing.
    NoAction,
    /// Greet the user who joined.
    UserJoined,
    /// Leave: the user left and nobody else is in the channel.
    UserLeftEmptyChannel,
}

/// The bot (`me`) is in voice channel `channel`.
pub open spec fn bot_in_channel(states: Seq<(u64, VoiceStateInfo)>, channel: u64, me: u64) -> bool {
    exists|i: int| 0 <= i < states.len() && states[i].0 == me && states[i].1.channel_id == Some(channel)
}

/// Somebody other than the bot (`me`) and the user who just left (`user`)
/// is in voice channel `channel`.
pub open spec fn others_in_channel(
    states: Seq<(u64, VoiceStateInfo)>,
    channel: u64,
    me: u64,
    user: u64,
) -> bool {
    exists|i: int|
        0 <= i < states.len() && states[i].1.channel_id == Some(channel) && states[i].0 != me
            && states[i].0 != user
}

/// The channel a voice state is in, if any; no state means no channel.
pub open spec fn channel_of(state: Option<VoiceStateInfo>) -> Option<u64> {
    match state {
        Some(s) => s.channel_id,
        None => None,
    }
}

/// The action after a user's voice state changed from `old` to `new`;
/// `me` is the bot, `guild` the voice states of the cached guild of the
/// old state.  A user who was in no channel and now is, joined; a user who
/// left (or moved out of) the channel the bot is in, leaving nobody but the
/// bot there, makes the bot leave.
pub open spec fn voice_action(
    old: Option<VoiceStateInfo>,
    new: VoiceStateInfo,
    me: u64,
    guild: Option<Seq<(u64, VoiceStateInfo)>>,
) -> VoiceChannelAction {
    if new.user_id == me || channel_of(old) == new.channel_id {
        VoiceChannelAction::NoAction
    } else {
        match channel_of(old) {
            None => VoiceChannelAction::UserJoined,
            Some(c) => match guild {
                None => VoiceChannelAction::NoAction,
                Some(states) => if bot_in_channel(states, c, me) && !others_in_channel(
                    states,
                    c,
                    me,
                    new.user_id,
                ) {
                    VoiceChannelAction::UserLeftEmptyChannel
                } else {
                    VoiceChannelAction::NoAction
                },
            },
        }
    }
}

/// Whether the bot is in voice channel `channel`.
fn bot_is_in(states: &Vec<(u64, VoiceStateInfo)>, channel: u64, me: u64) -> (r: bool)
    ensures
        r == bot_in_channel(states@, channel, me),
{
    let n = states.len();
    let mut i: usize = 0;
    while i < n
        invariant
            n == states@.len(),
            i <= n,
            forall|j: int|
                0 <= j < i ==> !(states@[j].0 == me && states@[j].1.channel_id == Some(channel)),
        decreases n - i,
    {
        let (key, state) = states[i];
        if key == me && state.channel_id == Some(channel) {
            return true;
        }
        i = i + 1;
    }
    false
}

/// Whether somebody other than the bot and `user` is in voice channel `channel`.
fn anyone_else_in(states: &Vec<(u64, VoiceStateInfo)>, channel: u64, me: u64, user: u64) -> (r:
    bool)
    ensures
        r == others_in_channel(states@, channel, me, user),
{
    let n = states.len();
    let mut i: usize = 0;
    while i < n
        invariant
            n == states@.len(),
            i <= n,
            forall|j: int|
                0 <= j < i ==> !(states@[j].1.channel_id == Some(channel) && states@[j].0 != me
                    && states@[j].0 != user),
        decreases n - i,
    {
        let (key, state) = states[i];
        if state.channel_id == Some(channel) && key != me && key != user {
            return true;
        }
        i = i + 1;
    }
    false
}

/// Determines the action that should be taken when a user's voice state
/// changes from `old` to `new`.  `self_user_id` is the bot itself;
/// `old_guild` is the cached guild of the old state's guild id, if the
/// cache holds it.
pub fn get_voice_channel_action(
    old: &Option<VoiceStateInfo>,
    new: &VoiceStateInfo,
    self_user_id: u64,
    old_guild: &Option<GuildSnapshot>,
) -> (r: VoiceChannelAction)
    ensures
        r == voice_action(
            *old,
            *new,
            self_user_id,
            match old_guild {
                Some(g) => Some(g.voice_states@),
                None => None,
            },
        ),
        // The bot never reacts to its own voice state.
        new.user_id == self_user_id ==> r == VoiceChannelAction::NoAction,
        // Joining: the user was in no voice channel and now is in one.
        r == VoiceChannelAction::UserJoined <==> new.user_id != self_user_id && channel_of(*old)
            is None && new.channel_id is Some,
        // Leaving: the user left the bot's channel and nobody but the bot remains there.
        r == VoiceChannelAction::UserLeftEmptyChannel <==> {
            &&& new.user_id != self_user_id
            &&& channel_of(*old) matches Some(c)
            &&& new.channel_id != Some(c)
            &&& old_guild matches Some(g)
            &&& bot_in_channel(g.voice_states@, c, self_user_id)
            &&& !others_in_channel(g.voice_states@, c, self_user_id, new.user_id)
        },
{
    if self_user_id == new.user_id {
        return VoiceChannelAction::NoAction;
    }
    let old_channel = match old {
        Some(o) => o.channel_id,
        None => None,
    };
    if old_channel == new.channel_id {
        return VoiceChannelAction::NoAction;
    }
    match old_channel {
        None => VoiceChannelAction::UserJoined,
        Some(c) => match old_guild {
            None => VoiceChannelAction::NoAction,
            Some(guild) => {
                if bot_is_in(&guild.voice_states, c, self_user_id) && !anyone_else_in(
                    &guild.voice_states,
                    c,
                    self_user_id,
                    new.user_id,
                ) {
                    VoiceChannelAction::UserLeftEmptyChannel
                } else {
                    VoiceChannelAction::NoAction
                }
            },
        },
    }
}

/// The guild and channel to play in, for a voice state.
pub fn voice_target(voice_channel: &VoiceStateInfo) -> (r: Result<(u64, u64), BotError>)
    ensures
        match voice_channel.guild_id {
            None => r matches Err(e) && e@ == ErrorView::NoGuildId,
            Some(g) => match voice_channel.channel_id {
                None => r matches Err(e) && e@ == ErrorView::NoChannelId,
                Some(c) => r == Ok::<(u64, u64), BotError>((g, c)),
            },
        },
{
    let guild_id = match voice_channel.guild_id {
        Some(g) => g,
        None => {
            return Err(BotError::NoGuildId);
        },
    };
    let channel_id = match voice_channel.channel_id {
        Some(c) => c,
        None => {
            return Err(BotError::NoChannelId);
        },
    };
    Ok((guild_id, channel_id))
}

/// The position of the last voice state in `states` that belongs to `user`.
pub open spec fn is_last_state_of(states: Seq<(u64, VoiceStateInfo)>, user: u64, i: int) -> bool {
    &&& 0 <= i < states.len()
    &&& states[i].1.user_id == user
    &&& forall|j: int| i < j < states.len() ==> states[j].1.user_id != user
}

/// The last voice state in `states` that belongs to `user`.
pub fn last_voice_state_of(states: &Vec<(u64, VoiceStateInfo)>, user: u64) -> (r: Option<
    VoiceStateInfo,
>)
    ensures
        match r {
            Some(s) => exists|i: int| is_last_state_of(states@, user, i) && states@[i].1 == s,
            None => forall|i: int| 0 <= i < states@.len() ==> states@[i].1.user_id != user,
        },
{
    let n = states.len();
    let mut found: Option<usize> = None;
    let mut i: usize = 0;
    while i < n
        invariant
            n == states@.len(),
            i <= n,
            match found {
                Some(f) => f < i && states@[f as int].1.user_id == user && forall|j: int|
                    f < j < i ==> states@[j].1.user_id != user,
                None => forall|j: int| 0 <= j < i ==> states@[j].1.user_id != user,
            },
        decreases n - i,
    {
        if states[i].1.user_id == user {
            found = Some(i);
        }
        i = i + 1;
    }
    match found {
        Some(f) => {
            assert(is_last_state_of(states@, user, f as int));
            Some(states[f].1)
        },
        None => None,
    }
}

/// What a command sees of where it was invoked: its author, and the
/// cached guild it was invoked in (none outside a guild).
#[derive(Debug)]
pub struct CommandContext {
    pub author_id: u64,
    pub guild: Option<GuildSnapshot>,
}

/// The voice channel of the author of a command, and the guild's id;
/// `outside_guild` is the error for a command used outside a guild.
pub open spec fn author_voice_channel(
    ctx_author: u64,
    guild: Option<(u64, Seq<(u64, VoiceStateInfo)>)>,
    outside_guild: ErrorView,
    r: Result<(VoiceStateInfo, u64), BotError>,
) -> bool {
    match guild {
        None => r matches Err(e) && e@ == outside_guild,
        Some((id, states)) => if exists|i: int|
            0 <= i < states.len() && states[i].1.user_id == ctx_author {
            r matches Ok((s, g)) && g == id && exists|i: int|
                is_last_state_of(states, ctx_author, i) && states[i].1 == s
        } else {
            r matches Err(e) && e@ == ErrorView::NotInVoiceChannel
        },
    }
}

/// The guild of a command context, by content.
pub open spec fn guild_view(ctx: &CommandContext) -> Option<(u64, Seq<(u64, VoiceStateInfo)>)> {
    match ctx.guild {
        Some(g) => Some((g.id, g.voice_states@)),
        None => None,
    }
}

/// The voice channel of the author of a command, and the guild's id.
pub fn voice_channel_of_author(ctx: &CommandContext, outside_guild: BotError) -> (r: Result<
    (VoiceStateInfo, u64),
    BotError,
>)
    ensures
        author_voice_channel(ctx.author_id, guild_view(ctx), outside_guild@, r),
        r matches Ok((s, g)) ==> {
            &&& s.user_id == ctx.author_id
            &&& ctx.guild matches Some(guild)
            &&& g == guild.id
            &&& exists|i: int|
                0 <= i < guild.voice_states@.len() && guild.voice_states@[i].1 == s && forall|j: int|
                    i < j < guild.voice_states@.len() ==> guild.voice_states@[j].1.user_id
                        != ctx.author_id
        },
        ctx.guild is None ==> (r matches Err(e) && e@ == outside_guild@),
        ctx.guild matches Some(guild) ==> (r is Err <==> forall|i: int|
            0 <= i < guild.voice_states@.len() ==> guild.voice_states@[i].1.user_id != ctx.author_id),
{
    let guild = match &ctx.guild {
        Some(g) => g,
        None => {
            return Err(outside_guild);
        },
    };
    match last_voice_state_of(&guild.voice_states, ctx.author_id) {
        Some(state) => Ok((state, guild.id)),
        None => Err(BotError::NotInVoiceChannel),
    }
}

/// The voice channel found for a command's author is the author's own: it
/// is one of the guild's voice states, it belongs to the author, and no
/// later voice state does.
pub proof fn lemma_author_voice_channel_is_authors(
    author: u64,
    guild: Option<(u64, Seq<(u64, VoiceStateInfo)>)>,
    outside_guild: ErrorView,
    r: Result<(VoiceStateInfo, u64), BotError>,
)
    requires
        author_voice_channel(author, guild, outside_guild, r),
    ensures
        r matches Ok((s, g)) ==> {
            &&& s.user_id == author
            &&& guild matches Some((id, states))
            &&& g == id
            &&& exists|i: int|
                0 <= i < states.len() && states[i].1 == s && forall|j: int|
                    i < j < states.len() ==> states[j].1.user_id != author
        },
        r is Ok ==> guild is Some,
{
}

} // verus!
