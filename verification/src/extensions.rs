//! Command-context helpers: the author's voice channel, and the names
//! that contain what the user has typed.

use vstd::prelude::*;
use crate::commands::{distinct_texts, names_matching, text_set};
use crate::name_map::NameMap;
use crate::text::contains_text;
use crate::types::{BotError, ErrorView};
use crate::voice::{
    author_voice_channel, guild_view, voice_channel_of_author, CommandContext, VoiceStateInfo,
};

verus! {

/// Voice-channel lookups on a command's context.
pub trait ContextExt {
    /// The author's voice channel and the guild's id.
    fn get_voice_channel(&self) -> Result<(VoiceStateInfo, u64), BotError>;
}

impl ContextExt for CommandContext {
    /// Gets the data about a voice channel from a command context: the last
    /// voice state of the command's author in the guild, and the guild's id.
    fn get_voice_channel(&self) -> (r: Result<(VoiceStateInfo, u64), BotError>)
        ensures
            author_voice_channel(self.author_id, guild_view(self), ErrorView::NotInGuildTerse, r),
    {
        voice_channel_of_author(self, BotError::NotInGuildTerse)
    }
}

/// Lookups of names by what the user has typed.
pub trait HashSetExt {
    /// The names that contain `partial`.
    fn get_fitting_keys(&self, partial: &str) -> Vec<String>;
}

impl HashSetExt for NameMap<String> {
    /// Gets the names (keys) that contain `partial`, each once; used for
    /// command autocomplete.
    fn get_fitting_keys(&self, partial: &str) -> (r: Vec<String>)
        ensures
            distinct_texts(r@),
            forall|k: Seq<char>|
                #![trigger text_set(r@).contains(k)]
                text_set(r@).contains(k) <==> self@.contains_key(k) && contains_text(k, partial@),
    {
        names_matching(self, partial)
    }
}

} // verus!
