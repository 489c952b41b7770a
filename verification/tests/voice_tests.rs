use debilek_bot::extensions::ContextExt as _;
use debilek_bot::traits::ContextExt;
use debilek_bot::types::BotError;
use debilek_bot::voice::{
    get_voice_channel_action, last_voice_state_of, voice_target, CommandContext, GuildSnapshot,
    VoiceChannelAction, VoiceStateInfo,
};

const BOT: u64 = 1;

fn state(user: u64, channel: Option<u64>) -> VoiceStateInfo {
    VoiceStateInfo { user_id: user, guild_id: Some(100), channel_id: channel }
}

fn guild(states: Vec<VoiceStateInfo>) -> Option<GuildSnapshot> {
    Some(GuildSnapshot { id: 100, voice_states: states.into_iter().map(|s| (s.user_id, s)).collect() })
}

#[test]
fn joining_user_is_greeted() {
    let action = get_voice_channel_action(&None, &state(5, Some(10)), BOT, &None);
    assert_eq!(action, VoiceChannelAction::UserJoined);
}

#[test]
fn bot_ignores_itself() {
    let action = get_voice_channel_action(&None, &state(BOT, Some(10)), BOT, &None);
    assert_eq!(action, VoiceChannelAction::NoAction);
    let action =
        get_voice_channel_action(&Some(state(BOT, Some(10))), &state(BOT, None), BOT, &guild(vec![]));
    assert_eq!(action, VoiceChannelAction::NoAction);
}

#[test]
fn no_change_is_ignored() {
    let a = get_voice_channel_action(&Some(state(5, Some(10))), &state(5, Some(10)), BOT, &None);
    assert_eq!(a, VoiceChannelAction::NoAction);
    let a = get_voice_channel_action(&None, &state(5, None), BOT, &None);
    assert_eq!(a, VoiceChannelAction::NoAction);
}

#[test]
fn joining_from_no_channel_is_greeted() {
    let a = get_voice_channel_action(&Some(state(5, None)), &state(5, Some(10)), BOT, &None);
    assert_eq!(a, VoiceChannelAction::UserJoined);
}

#[test]
fn moving_between_channels_is_not_joining() {
    let g = guild(vec![state(BOT, Some(12)), state(5, Some(11))]);
    let a = get_voice_channel_action(&Some(state(5, Some(10))), &state(5, Some(11)), BOT, &g);
    assert_eq!(a, VoiceChannelAction::NoAction);
}

#[test]
fn last_user_leaving_makes_bot_leave() {
    let g = guild(vec![state(BOT, Some(10))]);
    let a = get_voice_channel_action(&Some(state(5, Some(10))), &state(5, None), BOT, &g);
    assert_eq!(a, VoiceChannelAction::UserLeftEmptyChannel);
}

#[test]
fn last_user_moving_out_makes_bot_leave() {
    let g = guild(vec![state(BOT, Some(10)), state(5, Some(11))]);
    let a = get_voice_channel_action(&Some(state(5, Some(10))), &state(5, Some(11)), BOT, &g);
    assert_eq!(a, VoiceChannelAction::UserLeftEmptyChannel);
}

#[test]
fn someone_still_there_keeps_bot() {
    let g = guild(vec![state(BOT, Some(10)), state(6, Some(10))]);
    let a = get_voice_channel_action(&Some(state(5, Some(10))), &state(5, None), BOT, &g);
    assert_eq!(a, VoiceChannelAction::NoAction);
}

#[test]
fn bot_in_another_channel_stays() {
    let g = guild(vec![state(BOT, Some(20)), state(6, Some(20))]);
    let a = get_voice_channel_action(&Some(state(5, Some(10))), &state(5, None), BOT, &g);
    assert_eq!(a, VoiceChannelAction::NoAction);
    let g = guild(vec![state(BOT, Some(20))]);
    let a = get_voice_channel_action(&Some(state(5, Some(10))), &state(5, None), BOT, &g);
    assert_eq!(a, VoiceChannelAction::NoAction);
}

#[test]
fn stale_cache_entry_of_leaving_user_is_not_counted() {
    let g = guild(vec![state(BOT, Some(10)), state(5, Some(10))]);
    let a = get_voice_channel_action(&Some(state(5, Some(10))), &state(5, None), BOT, &g);
    assert_eq!(a, VoiceChannelAction::UserLeftEmptyChannel);
}

#[test]
fn leaving_without_known_guild_is_ignored() {
    let a = get_voice_channel_action(&Some(state(5, Some(10))), &state(5, None), BOT, &None);
    assert_eq!(a, VoiceChannelAction::NoAction);
}

#[test]
fn play_target() {
    assert_eq!(voice_target(&state(5, Some(10))), Ok((100, 10)));
    assert_eq!(voice_target(&state(5, None)), Err(BotError::NoChannelId));
    let s = VoiceStateInfo { user_id: 5, guild_id: None, channel_id: Some(10) };
    assert_eq!(voice_target(&s), Err(BotError::NoGuildId));
    assert_eq!(BotError::NoGuildId.message(), "No guild ID.");
    assert_eq!(BotError::NoChannelId.message(), "No channel ID.");
}

#[test]
fn author_voice_channel_lookup() {
    let ctx = CommandContext {
        author_id: 5,
        guild: guild(vec![state(6, Some(11)), state(5, Some(10))]),
    };
    assert_eq!(ctx.get_voice_channel_and_guild(), Ok((state(5, Some(10)), 100)));
    assert_eq!(ctx.get_voice_channel(), Ok((state(5, Some(10)), 100)));
    let nowhere = CommandContext { author_id: 7, guild: guild(vec![state(6, Some(11))]) };
    assert_eq!(nowhere.get_voice_channel_and_guild(), Err(BotError::NotInVoiceChannel));
    let outside = CommandContext { author_id: 5, guild: None };
    assert_eq!(outside.get_voice_channel_and_guild(), Err(BotError::NotInGuild));
    assert_eq!(outside.get_voice_channel(), Err(BotError::NotInGuildTerse));
    assert_eq!(BotError::NotInGuild.message(), "You cannot use me outside of a guild.");
    assert_eq!(BotError::NotInGuildTerse.message(), "Piča však to ani není v guildě.");
    assert!(BotError::NotInVoiceChannel.message().starts_with("Hele debílku jeden"));
}

#[test]
fn last_matching_state_wins() {
    let states = vec![(5, state(5, Some(10))), (9, state(5, Some(12))), (6, state(6, Some(11)))];
    assert_eq!(last_voice_state_of(&states, 5), Some(state(5, Some(12))));
    assert_eq!(last_voice_state_of(&states, 8), None);
}
