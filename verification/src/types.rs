//! The bot's data: configured greetings, the discovered audio commands,
//! and the errors that its commands answer with.

use vstd::prelude::*;
use vstd::string::*;
use crate::name_map::NameMap;
use crate::text::{contains_text, lemma_text_contains_its_pieces};

verus! {

/// Maps a certain asset file to a greeting.
#[derive(Clone, Debug)]
pub struct GreetingCommand {
    pub command: String,
    pub option: Option<String>,
    pub _label: Option<String>,
}

/// The content of a [`GreetingCommand`].
pub struct GreetingView {
    pub command: Seq<char>,
    pub option: Option<Seq<char>>,
    pub label: Option<Seq<char>>,
}

impl DeepView for GreetingCommand {
    type V = GreetingView;

    open spec fn deep_view(&self) -> GreetingView {
        GreetingView {
            command: self.command@,
            option: self.option.deep_view(),
            label: self._label.deep_view(),
        }
    }
}

/// The bot's configuration.
#[derive(Debug)]
pub struct Config {
    /// Greetings per user id (written in decimal), and under `_fallback`
    /// the greetings for everybody else.
    pub greetings: NameMap<Vec<GreetingCommand>>,
    /// Assets that get no command of their own but can still greet.
    pub ignored_commands: Vec<String>,
}

/// What an audio command plays: one file, or one of several options.
#[derive(Debug)]
pub enum CommandInfo {
    Options(NameMap<String>),
    Path(String),
}

/// The content of a [`CommandInfo`]: option names to file paths, or one path.
pub enum InfoView {
    Options(Map<Seq<char>, Seq<char>>),
    Path(Seq<char>),
}

impl DeepView for CommandInfo {
    type V = InfoView;

    open spec fn deep_view(&self) -> InfoView {
        match self {
            CommandInfo::Options(o) => InfoView::Options(o@),
            CommandInfo::Path(p) => InfoView::Path(p@),
        }
    }
}

impl CommandInfo {
    /// Whether the command built for this asset asks for an option.
    pub fn takes_option(&self) -> (r: bool)
        ensures
            r == (self.deep_view() is Options),
    {
        match self {
            CommandInfo::Options(_) => true,
            CommandInfo::Path(_) => false,
        }
    }
}

/// Everything the bot's handlers read: command name to asset, and the
/// configuration.
#[derive(Debug)]
pub struct BotData {
    pub audio_map: NameMap<CommandInfo>,
    pub config: Config,
}

/// Why a command or handler failed.
#[derive(Debug, PartialEq, Eq)]
pub enum BotError {
    NoFallbackGreetings,
    NoSuchAsset(String),
    NoOptionSpecified,
    NoSuchOption(String),
    FileNotFound(String),
    CommandAssetNotFound(String),
    MissingOption,
    OptionNotFound(String),
    NotInGuild,
    NotInGuildTerse,
    NotInVoiceChannel,
    NoGuildId,
    NoChannelId,
    NoVoiceClient,
    TextToSpeechFailed,
}

/// The content of a [`BotError`].
pub enum ErrorView {
    NoFallbackGreetings,
    NoSuchAsset(Seq<char>),
    NoOptionSpecified,
    NoSuchOption(Seq<char>),
    FileNotFound(Seq<char>),
    CommandAssetNotFound(Seq<char>),
    MissingOption,
    OptionNotFound(Seq<char>),
    NotInGuild,
    NotInGuildTerse,
    NotInVoiceChannel,
    NoGuildId,
    NoChannelId,
    NoVoiceClient,
    TextToSpeechFailed,
}

impl View for BotError {
    type V = ErrorView;

    open spec fn view(&self) -> ErrorView {
        match self {
            BotError::NoFallbackGreetings => ErrorView::NoFallbackGreetings,
            BotError::NoSuchAsset(s) => ErrorView::NoSuchAsset(s@),
            BotError::NoOptionSpecified => ErrorView::NoOptionSpecified,
            BotError::NoSuchOption(s) => ErrorView::NoSuchOption(s@),
            BotError::FileNotFound(s) => ErrorView::FileNotFound(s@),
            BotError::CommandAssetNotFound(s) => ErrorView::CommandAssetNotFound(s@),
            BotError::MissingOption => ErrorView::MissingOption,
            BotError::OptionNotFound(s) => ErrorView::OptionNotFound(s@),
            BotError::NotInGuild => ErrorView::NotInGuild,
            BotError::NotInGuildTerse => ErrorView::NotInGuildTerse,
            BotError::NotInVoiceChannel => ErrorView::NotInVoiceChannel,
            BotError::NoGuildId => ErrorView::NoGuildId,
            BotError::NoChannelId => ErrorView::NoChannelId,
            BotError::NoVoiceClient => ErrorView::NoVoiceClient,
            BotError::TextToSpeechFailed => ErrorView::TextToSpeechFailed,
        }
    }
}

/// The text shown to the user for an error.
pub open spec fn message_text(e: ErrorView) -> Seq<char> {
    match e {
        ErrorView::NoFallbackGreetings => "No fallback greetings defined."@,
        ErrorView::NoSuchAsset(s) => "No such asset - "@ + s,
        ErrorView::NoOptionSpecified => "No option specified."@,
        ErrorView::NoSuchOption(s) => "No such option - "@ + s,
        ErrorView::FileNotFound(s) => "File "@ + s + " not found."@,
        ErrorView::CommandAssetNotFound(s) => "Command "@ + s + " asset not found"@,
        ErrorView::MissingOption => "Missing option."@,
        ErrorView::OptionNotFound(s) => "Option "@ + s + " not found"@,
        ErrorView::NotInGuild => "You cannot use me outside of a guild."@,
        ErrorView::NotInGuildTerse => "Piča však to ani není v guildě."@,
        ErrorView::NotInVoiceChannel =>
            "Hele debílku jeden, jednou sem ti to toleroval, ale teď už to vážně není vtipný. Okamžitě se přidej do voice channelu, nebo ti nechám zrušit celej kanál."@,
        ErrorView::NoGuildId => "No guild ID."@,
        ErrorView::NoChannelId => "No channel ID."@,
        ErrorView::NoVoiceClient => "Failed to get Songbird voice client"@,
        ErrorView::TextToSpeechFailed => "Text to speech request failed."@,
    }
}

fn text_around(before: &str, middle: &String, after: &str) -> (r: String)
    ensures
        r@ == before@ + middle@ + after@,
{
    let mut s = before.to_owned();
    s.append(middle.as_str());
    s.append(after);
    s
}

impl BotError {
    /// The text shown to the user for this error.
    pub fn message(&self) -> (r: String)
        ensures
            r@ == message_text(self@),
    {
        match self {
            BotError::NoFallbackGreetings => "No fallback greetings defined.".to_owned(),
            BotError::NoSuchAsset(s) => {
                let r = text_around("No such asset - ", s, "");
                proof {
                    reveal_strlit("");
                    assert(r@ =~= "No such asset - "@ + s@);
                }
                r
            },
            BotError::NoOptionSpecified => "No option specified.".to_owned(),
            BotError::NoSuchOption(s) => {
                let r = text_around("No such option - ", s, "");
                proof {
                    reveal_strlit("");
                    assert(r@ =~= "No such option - "@ + s@);
                }
                r
            },
            BotError::FileNotFound(s) => text_around("File ", s, " not found."),
            BotError::CommandAssetNotFound(s) => text_around("Command ", s, " asset not found"),
            BotError::MissingOption => "Missing option.".to_owned(),
            BotError::OptionNotFound(s) => text_around("Option ", s, " not found"),
            BotError::NotInGuild => "You cannot use me outside of a guild.".to_owned(),
            BotError::NotInGuildTerse => "Piča však to ani není v guildě.".to_owned(),
            BotError::NotInVoiceChannel => "Hele debílku jeden, jednou sem ti to toleroval, ale teď už to vážně není vtipný. Okamžitě se přidej do voice channelu, nebo ti nechám zrušit celej kanál.".to_owned(),
            BotError::NoGuildId => "No guild ID.".to_owned(),
            BotError::NoChannelId => "No channel ID.".to_owned(),
            BotError::NoVoiceClient => "Failed to get Songbird voice client".to_owned(),
            BotError::TextToSpeechFailed => "Text to speech request failed.".to_owned(),
        }
    }
}

/// The message of an error about a named asset, option or file names it.
pub proof fn lemma_messages_name_their_subject(name: Seq<char>)
    ensures
        contains_text(message_text(ErrorView::NoSuchAsset(name)), name),
        contains_text(message_text(ErrorView::NoSuchOption(name)), name),
        contains_text(message_text(ErrorView::FileNotFound(name)), name),
        contains_text(message_text(ErrorView::CommandAssetNotFound(name)), name),
        contains_text(message_text(ErrorView::OptionNotFound(name)), name),
{
    let e = Seq::<char>::empty();
    lemma_text_contains_its_pieces("No such asset - "@, name, e);
    assert("No such asset - "@ + name + e =~= "No such asset - "@ + name);
    lemma_text_contains_its_pieces("No such option - "@, name, e);
    assert("No such option - "@ + name + e =~= "No such option - "@ + name);
    lemma_text_contains_its_pieces("File "@, name, " not found."@);
    lemma_text_contains_its_pieces("Command "@, name, " asset not found"@);
    lemma_text_contains_its_pieces("Option "@, name, " not found"@);
}

} // verus!
