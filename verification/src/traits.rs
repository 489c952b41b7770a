//! The command-context lookup of the author's voice channel and guild, and
//! the default asset description.

use vstd::prelude::*;
use crate::name_map::NameMap;
use crate::types::{BotError, CommandInfo, ErrorView, InfoView};
use crate::voice::{
    author_voice_channel, guild_view, voice_channel_of_author, CommandContext, VoiceStateInfo,
};

verus! {

/// Voice-channel lookups on a command's context.
pub trait ContextExt {
    /// The author's voice channel and the guild's id.
    fn get_voice_channel_and_guild(&self) -> Result<(VoiceStateInfo, u64), BotError>;
}

impl ContextExt for CommandContext {
    /// Gets the data about a voice channel from a command context: the last
    /// voice state of the command's author in the guild, and the guild's id.
    fn get_voice_channel_and_guild(&self) -> (r: Result<(VoiceStateInfo, u64), BotError>)
        ensures
            author_voice_channel(self.author_id, guild_view(self), ErrorView::NotInGuild, r),
    {
        voice_channel_of_author(self, BotError::NotInGuild)
    }
}

impl Default for CommandInfo {
    /// A command with no options yet.
    fn default() -> (r: Self)
        ensures
            r.deep_view() == InfoView::Options(Map::<Seq<char>, Seq<char>>::empty()),
    {
        CommandInfo::Options(NameMap::new())
    }
}

} // verus!
