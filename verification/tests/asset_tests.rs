use debilek_bot::asset_processing::{
    choose_greetings, discover_audio_structure, greetings_for, resolve_greeting, AssetEntry,
};
use debilek_bot::commands::commands_to_register;
use debilek_bot::name_map::NameMap;
use debilek_bot::types::{BotData, BotError, CommandInfo, Config, GreetingCommand};

fn entry(components: &[&str], is_file: bool) -> AssetEntry {
    AssetEntry { components: components.iter().map(|c| c.to_string()).collect(), is_file }
}

fn path_of(info: Option<&CommandInfo>) -> Option<String> {
    match info {
        Some(CommandInfo::Path(p)) => Some(p.clone()),
        _ => None,
    }
}

fn options_of(info: Option<&CommandInfo>) -> Option<Vec<(String, String)>> {
    match info {
        Some(CommandInfo::Options(o)) => {
            let mut v = Vec::new();
            for i in 0..o.len() {
                let (k, p) = o.entry(i);
                v.push((k.clone(), p.clone()));
            }
            v.sort();
            Some(v)
        }
        _ => None,
    }
}

#[test]
fn root_files_and_folders() {
    let entries = vec![
        entry(&[], false),
        entry(&["hello.mp3"], true),
        entry(&["memes"], false),
        entry(&["memes", "a.mp3"], true),
        entry(&["memes", "b.ogg"], true),
    ];
    let map = discover_audio_structure("assets", &entries);
    assert_eq!(map.len(), 2);
    assert_eq!(path_of(map.get("hello")), Some("assets/hello.mp3".to_string()));
    assert_eq!(
        options_of(map.get("memes")),
        Some(vec![
            ("a".to_string(), "assets/memes/a.mp3".to_string()),
            ("b".to_string(), "assets/memes/b.ogg".to_string()),
        ])
    );
}

#[test]
fn stems_and_extensions() {
    let entries = vec![
        entry(&[".hidden"], true),
        entry(&["archive.tar.gz"], true),
        entry(&["noext"], true),
        entry(&[".."], true),
        entry(&["trailing."], true),
    ];
    let map = discover_audio_structure("assets", &entries);
    assert_eq!(map.len(), 2);
    assert_eq!(path_of(map.get("archive.tar")), Some("assets/archive.tar.gz".to_string()));
    assert_eq!(path_of(map.get("trailing")), Some("assets/trailing.".to_string()));
    assert!(map.get(".hidden").is_none());
}

#[test]
fn only_first_level_folders_count() {
    let entries = vec![
        entry(&["a"], false),
        entry(&["a", "b"], false),
        entry(&["a", "b", "c.mp3"], true),
        entry(&["a", "top.mp3"], true),
    ];
    let map = discover_audio_structure("assets", &entries);
    assert_eq!(map.len(), 1);
    assert!(map.get("a/b").is_none());
    assert_eq!(
        options_of(map.get("a")),
        Some(vec![("top".to_string(), "assets/a/top.mp3".to_string())])
    );
}

#[test]
fn folders_with_a_dot_are_not_files() {
    let entries = vec![
        entry(&["v1.0"], false),
        entry(&["v1.0", "x.mp3"], true),
    ];
    let map = discover_audio_structure("assets", &entries);
    assert_eq!(map.len(), 1);
    assert!(map.get("v1").is_none());
    assert_eq!(
        options_of(map.get("v1.0")),
        Some(vec![("x".to_string(), "assets/v1.0/x.mp3".to_string())])
    );
}

#[test]
fn root_file_wins_over_folder_of_same_name() {
    let first_file = vec![
        entry(&["memes.mp3"], true),
        entry(&["memes", "a.mp3"], true),
    ];
    let map = discover_audio_structure("assets", &first_file);
    assert_eq!(path_of(map.get("memes")), Some("assets/memes.mp3".to_string()));

    let first_folder = vec![
        entry(&["memes", "a.mp3"], true),
        entry(&["memes.mp3"], true),
    ];
    let map = discover_audio_structure("assets", &first_folder);
    assert_eq!(path_of(map.get("memes")), Some("assets/memes.mp3".to_string()));
}

#[test]
fn later_root_file_of_same_stem_replaces() {
    let entries = vec![
        entry(&["x.mp3"], true),
        entry(&["x.ogg"], true),
    ];
    let map = discover_audio_structure("assets", &entries);
    assert_eq!(path_of(map.get("x")), Some("assets/x.ogg".to_string()));
}

fn greeting(command: &str, option: Option<&str>) -> GreetingCommand {
    GreetingCommand {
        command: command.to_string(),
        option: option.map(|o| o.to_string()),
        _label: None,
    }
}

fn sample_audio() -> NameMap<CommandInfo> {
    let entries = vec![
        entry(&["hello.mp3"], true),
        entry(&["memes", "a.mp3"], true),
    ];
    discover_audio_structure("assets", &entries)
}

fn sample_data(with_fallback: bool) -> BotData {
    let mut greetings: NameMap<Vec<GreetingCommand>> = NameMap::new();
    if with_fallback {
        greetings.insert("_fallback".to_string(), vec![greeting("hello", None)]);
    }
    greetings.insert("42".to_string(), vec![greeting("memes", Some("a"))]);
    BotData {
        audio_map: sample_audio(),
        config: Config { greetings, ignored_commands: vec![] },
    }
}

#[test]
fn user_greeting_and_fallback() {
    let data = sample_data(true);
    assert_eq!(choose_greetings(42, &data), Ok("assets/memes/a.mp3".to_string()));
    assert_eq!(choose_greetings(7, &data), Ok("assets/hello.mp3".to_string()));
    assert_eq!(greetings_for(&data.config, 42).unwrap()[0].command, "memes");
    assert_eq!(greetings_for(&data.config, 4).unwrap()[0].command, "hello");
}

#[test]
fn random_choice_is_from_the_list() {
    let mut data = sample_data(true);
    data.config.greetings.insert(
        "5".to_string(),
        vec![greeting("hello", None), greeting("memes", Some("a"))],
    );
    for _ in 0..20 {
        let r = choose_greetings(5, &data).unwrap();
        assert!(r == "assets/hello.mp3" || r == "assets/memes/a.mp3");
    }
}

#[test]
fn no_fallback_is_an_error() {
    let data = sample_data(false);
    assert_eq!(choose_greetings(42, &data), Err(BotError::NoFallbackGreetings));
    assert_eq!(
        BotError::NoFallbackGreetings.message(),
        "No fallback greetings defined."
    );
}

#[test]
fn greeting_resolution_errors() {
    let audio = sample_audio();
    assert_eq!(
        resolve_greeting(&audio, &greeting("nope", None)),
        Err(BotError::NoSuchAsset("nope".to_string()))
    );
    assert_eq!(
        resolve_greeting(&audio, &greeting("memes", None)),
        Err(BotError::NoOptionSpecified)
    );
    assert_eq!(
        resolve_greeting(&audio, &greeting("memes", Some("z"))),
        Err(BotError::NoSuchOption("z".to_string()))
    );
    assert_eq!(
        resolve_greeting(&audio, &greeting("hello", Some("ignored"))),
        Ok("assets/hello.mp3".to_string())
    );
    assert_eq!(BotError::NoSuchAsset("nope".to_string()).message(), "No such asset - nope");
    assert_eq!(BotError::NoOptionSpecified.message(), "No option specified.");
    assert_eq!(BotError::NoSuchOption("z".to_string()).message(), "No such option - z");
}

#[test]
fn ignored_asset_can_still_greet() {
    let data = sample_data(true);
    let registered = commands_to_register(&data.audio_map, &vec!["hello".to_string()]);
    assert_eq!(registered, vec!["memes".to_string()]);
    assert_eq!(
        resolve_greeting(&data.audio_map, &greeting("hello", None)),
        Ok("assets/hello.mp3".to_string())
    );
}
