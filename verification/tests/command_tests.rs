use debilek_bot::asset_processing::{discover_audio_structure, AssetEntry};
use debilek_bot::commands::{
    asset_command_description, asset_option_choices, commands_to_register, is_listed,
    resolve_asset_command, tts_query, voice_command_reply,
};
use debilek_bot::constants::{languages_autocomplete, voices_autocomplete};
use debilek_bot::name_map::NameMap;
use debilek_bot::types::{BotError, CommandInfo};

fn entry(components: &[&str], is_file: bool) -> AssetEntry {
    AssetEntry { components: components.iter().map(|c| c.to_string()).collect(), is_file }
}

fn audio() -> NameMap<CommandInfo> {
    let entries = vec![
        entry(&["hello.mp3"], true),
        entry(&["memes", "bruh.mp3"], true),
        entry(&["memes", "bonk.mp3"], true),
        entry(&["memes", "yeet.mp3"], true),
    ];
    discover_audio_structure("assets", &entries)
}

fn sorted(mut v: Vec<String>) -> Vec<String> {
    v.sort();
    v
}

#[test]
fn resolving_asset_commands() {
    let a = audio();
    assert_eq!(resolve_asset_command(&a, "hello", &None), Ok("assets/hello.mp3".to_string()));
    assert_eq!(
        resolve_asset_command(&a, "hello", &Some("x".to_string())),
        Ok("assets/hello.mp3".to_string())
    );
    assert_eq!(
        resolve_asset_command(&a, "memes", &Some("bonk".to_string())),
        Ok("assets/memes/bonk.mp3".to_string())
    );
    assert_eq!(resolve_asset_command(&a, "memes", &None), Err(BotError::MissingOption));
    assert_eq!(
        resolve_asset_command(&a, "memes", &Some("nope".to_string())),
        Err(BotError::OptionNotFound("nope".to_string()))
    );
    assert_eq!(
        resolve_asset_command(&a, "gone", &None),
        Err(BotError::CommandAssetNotFound("gone".to_string()))
    );
}

#[test]
fn error_messages_of_commands() {
    assert_eq!(BotError::MissingOption.message(), "Missing option.");
    assert_eq!(BotError::OptionNotFound("nope".to_string()).message(), "Option nope not found");
    assert_eq!(
        BotError::CommandAssetNotFound("gone".to_string()).message(),
        "Command gone asset not found"
    );
    assert_eq!(BotError::FileNotFound("a/b.mp3".to_string()).message(), "File a/b.mp3 not found.");
    assert_eq!(BotError::TextToSpeechFailed.message(), "Text to speech request failed.");
    assert_eq!(BotError::NoVoiceClient.message(), "Failed to get Songbird voice client");
}

#[test]
fn replies_and_descriptions() {
    assert_eq!(voice_command_reply("memes", &Some("bonk".to_string())), "memes bonk");
    assert_eq!(voice_command_reply("hello", &None), "hello ");
    assert_eq!(asset_command_description("hello"), "Plays hello");
}

#[test]
fn option_autocomplete() {
    let a = audio();
    assert_eq!(
        sorted(asset_option_choices(&a, "memes", "b")),
        vec!["bonk".to_string(), "bruh".to_string()]
    );
    assert_eq!(asset_option_choices(&a, "memes", "ee"), vec!["yeet".to_string()]);
    assert_eq!(asset_option_choices(&a, "memes", "").len(), 3);
    assert!(asset_option_choices(&a, "memes", "zzz").is_empty());
    assert!(asset_option_choices(&a, "hello", "").is_empty());
    assert!(asset_option_choices(&a, "gone", "").is_empty());
}

#[test]
fn offered_options_resolve() {
    let a = audio();
    for choice in asset_option_choices(&a, "memes", "") {
        assert!(resolve_asset_command(&a, "memes", &Some(choice)).is_ok());
    }
}

#[test]
fn tts_query_defaults_and_values() {
    let q = tts_query("ahoj", None, None, "k3y");
    let expected: Vec<(String, String)> = vec![
        ("text", "ahoj"),
        ("lang", "cs"),
        ("gender", "female"),
        ("engine", "g1"),
        ("key", "k3y"),
    ]
    .into_iter()
    .map(|(a, b)| (a.to_string(), b.to_string()))
    .collect();
    assert_eq!(q, expected);
    let q = tts_query("hi", Some("en-GB".to_string()), Some("male".to_string()), "k");
    assert_eq!(q[1], ("lang".to_string(), "en-GB".to_string()));
    assert_eq!(q[2], ("gender".to_string(), "male".to_string()));
}

#[test]
fn language_and_voice_completion() {
    assert_eq!(
        languages_autocomplete("en-I"),
        vec!["en-IE".to_string(), "en-In".to_string(), "en-IN".to_string()]
    );
    assert_eq!(languages_autocomplete("cs"), vec!["cs-CZ".to_string()]);
    assert_eq!(languages_autocomplete("").len(), 73);
    assert!(languages_autocomplete("xx").is_empty());
    assert_eq!(voices_autocomplete("f"), vec!["female".to_string()]);
    assert_eq!(voices_autocomplete(""), vec!["male".to_string(), "female".to_string()]);
    assert!(voices_autocomplete("Male").is_empty());
}

#[test]
fn asset_kind_of_commands() {
    let a = audio();
    assert!(!a.get("hello").unwrap().takes_option());
    assert!(a.get("memes").unwrap().takes_option());
    let d = CommandInfo::default();
    assert!(d.takes_option());
}

#[test]
fn ignored_assets_get_no_command() {
    let a = audio();
    assert_eq!(
        sorted(commands_to_register(&a, &vec![])),
        vec!["hello".to_string(), "memes".to_string()]
    );
    assert_eq!(commands_to_register(&a, &vec!["hello".to_string()]), vec!["memes".to_string()]);
    assert_eq!(
        commands_to_register(&a, &vec!["hello".to_string(), "memes".to_string()]),
        Vec::<String>::new()
    );
    assert!(is_listed(&vec!["a".to_string(), "b".to_string()], "b"));
    assert!(!is_listed(&vec!["a".to_string()], "ab"));
}
