//! The decisions behind the bot's slash commands: which file an audio
//! command plays, what it answers, which options it offers while the user
//! types, and what a text-to-speech request asks for.

use vstd::prelude::*;
use vstd::string::*;
use crate::name_map::NameMap;
use crate::text::{contains_text, text_contains, text_eq};
use crate::asset_processing::greeting_target;
use crate::types::{BotError, CommandInfo, ErrorView, GreetingView, InfoView};

verus! {

/// The file that audio command `name` plays with `option`, or why it
/// cannot be played.
pub open spec fn asset_target(
    audio: Map<Seq<char>, InfoView>,
    name: Seq<char>,
    option: Option<Seq<char>>,
) -> Result<Seq<char>, ErrorView> {
    if !audio.contains_key(name) {
        Err(ErrorView::CommandAssetNotFound(name))
    } else {
        match audio[name] {
            InfoView::Path(p) => Ok(p),
            InfoView::Options(options) => match option {
                None => Err(ErrorView::MissingOption),
                Some(opt) => if options.contains_key(opt) {
                    Ok(options[opt])
                } else {
                    Err(ErrorView::OptionNotFound(opt))
                },
            },
        }
    }
}

/// A path-or-error result, by content.
pub open spec fn target_view(r: Result<String, BotError>) -> Result<Seq<char>, ErrorView> {
    match r {
        Ok(p) => Ok(p@),
        Err(e) => Err(e@),
    }
}

/// The file that audio command `command_name` plays, given the option the
/// user chose (if any).
pub fn resolve_asset_command(
    audio_map: &NameMap<CommandInfo>,
    command_name: &str,
    option: &Option<String>,
) -> (r: Result<String, BotError>)
    ensures
        target_view(r) == asset_target(audio_map@, command_name@, option.deep_view()),
        !audio_map@.contains_key(command_name@) ==> (r matches Err(e) && e@
            == ErrorView::CommandAssetNotFound(command_name@)),
        audio_map@.contains_key(command_name@) ==> match audio_map@[command_name@] {
            InfoView::Path(p) => (r matches Ok(x) && x@ == p),
            InfoView::Options(options) => match option {
                None => (r matches Err(e) && e@ == ErrorView::MissingOption),
                Some(opt) => if options.contains_key(opt@) {
                    (r matches Ok(x) && x@ == options[opt@])
                } else {
                    (r matches Err(e) && e@ == ErrorView::OptionNotFound(opt@))
                },
            },
        },
{
    match audio_map.get(command_name) {
        None => Err(BotError::CommandAssetNotFound(command_name.to_owned())),
        Some(CommandInfo::Path(path)) => Ok(path.clone()),
        Some(CommandInfo::Options(options)) => match option {
            None => Err(BotError::MissingOption),
            Some(chosen) => match options.get(chosen.as_str()) {
                None => Err(BotError::OptionNotFound(chosen.clone())),
                Some(path) => Ok(path.clone()),
            },
        },
    }
}

/// The text an audio command answers with: its name, a space, and the
/// chosen option (nothing when there is none).
pub open spec fn reply_text(name: Seq<char>, option: Option<Seq<char>>) -> Seq<char> {
    name + " "@ + match option {
        Some(o) => o,
        None => Seq::empty(),
    }
}

/// The text an audio command answers with.
pub fn voice_command_reply(command_name: &str, option: &Option<String>) -> (r: String)
    ensures
        r@ == reply_text(command_name@, option.deep_view()),
        r@ == command_name@ + " "@ + match option {
            Some(o) => o@,
            None => Seq::<char>::empty(),
        },
{
    let mut text = command_name.to_owned();
    text.append(" ");
    match option {
        Some(o) => {
            text.append(o.as_str());
        },
        None => {
            proof {
                assert(text@ =~= reply_text(command_name@, option.deep_view()));
            }
        },
    }
    text
}

/// The description of the command generated for an asset.
pub fn asset_command_description(command_name: &str) -> (r: String)
    ensures
        r@ == "Plays "@ + command_name@,
{
    let mut text = "Plays ".to_owned();
    text.append(command_name);
    text
}

/// The options of audio command `name` whose names contain `input`; none
/// when the command does not exist or plays a single file.
pub open spec fn option_matches(audio: Map<Seq<char>, InfoView>, name: Seq<char>, input: Seq<char>) -> Set<
    Seq<char>,
> {
    if audio.contains_key(name) {
        match audio[name] {
            InfoView::Options(options) => Set::new(
                |k: Seq<char>| options.contains_key(k) && contains_text(k, input),
            ),
            InfoView::Path(_) => Set::empty(),
        }
    } else {
        Set::empty()
    }
}

/// The texts of `v`, each different from the others.
pub open spec fn distinct_texts(v: Seq<String>) -> bool {
    forall|i: int, j: int| 0 <= i < v.len() && 0 <= j < v.len() && i != j ==> v[i]@ != v[j]@
}

/// The texts of `v`, as a set.
pub open spec fn text_set(v: Seq<String>) -> Set<Seq<char>> {
    Set::new(|k: Seq<char>| exists|i: int| 0 <= i < v.len() && v[i]@ == k)
}

/// The names of `map` at the positions where `keep` holds, each once.
fn select_names<V: DeepView>(map: &NameMap<V>, keep: &Vec<bool>) -> (r: Vec<String>)
    requires
        keep@.len() == map.names().len(),
    ensures
        distinct_texts(r@),
        forall|k: Seq<char>|
            #![trigger text_set(r@).contains(k)]
            text_set(r@).contains(k) <==> exists|m: int|
                0 <= m < keep@.len() && keep@[m] && map.names()[m] == k,
{
    let n = map.len();
    let mut out: Vec<String> = Vec::new();
    let ghost mut picked: Seq<int> = Seq::empty();
    let mut i: usize = 0;
    while i < n
        invariant
            n == map.names().len(),
            keep@.len() == n,
            forall|a: int, b: int|
                0 <= a < n && 0 <= b < n && a != b ==> map.names()[a] != map.names()[b],
            i <= n,
            picked.len() == out@.len(),
            forall|j: int| 0 <= j < picked.len() ==> 0 <= #[trigger] picked[j] < i,
            forall|a: int, b: int| 0 <= a < b < picked.len() ==> picked[a] < picked[b],
            forall|j: int| 0 <= j < out@.len() ==> #[trigger] out@[j]@ == map.names()[picked[j]],
            forall|m: int|
                0 <= m < i ==> (keep@[m] <==> exists|j: int| 0 <= j < picked.len() && picked[j] == m),
        decreases n - i,
    {
        let ghost old_picked = picked;
        if keep[i] {
            let (name, _) = map.entry(i);
            out.push(name.clone());
            proof {
                picked = picked.push(i as int);
            }
        }
        proof {
            assert forall|m: int| 0 <= m < i + 1 implies (keep@[m] <==> exists|j: int|
                0 <= j < picked.len() && picked[j] == m) by {
                if m < i {
                    if exists|j: int| 0 <= j < old_picked.len() && old_picked[j] == m {
                        let j = choose|j: int| 0 <= j < old_picked.len() && old_picked[j] == m;
                        assert(picked[j] == m);
                    }
                    if exists|j: int| 0 <= j < picked.len() && picked[j] == m {
                        let j = choose|j: int| 0 <= j < picked.len() && picked[j] == m;
                        assert(j < old_picked.len());
                        assert(old_picked[j] == m);
                    }
                } else if keep@[m] {
                    assert(picked[picked.len() - 1] == m);
                } else {
                    assert(picked == old_picked);
                }
            }
        }
        i = i + 1;
    }
    proof {
        assert forall|a: int, b: int|
            0 <= a < out@.len() && 0 <= b < out@.len() && a != b implies out@[a]@ != out@[b]@ by {
            if a < b {
                assert(picked[a] < picked[b]);
            } else {
                assert(picked[b] < picked[a]);
            }
        }
        assert forall|k: Seq<char>|
            #![trigger text_set(out@).contains(k)]
            text_set(out@).contains(k) <==> exists|m: int|
                0 <= m < keep@.len() && keep@[m] && map.names()[m] == k by {
            if text_set(out@).contains(k) {
                let j = choose|j: int| 0 <= j < out@.len() && out@[j]@ == k;
                assert(keep@[picked[j]] && map.names()[picked[j]] == k);
            }
            if exists|m: int| 0 <= m < keep@.len() && keep@[m] && map.names()[m] == k {
                let m = choose|m: int| 0 <= m < keep@.len() && keep@[m] && map.names()[m] == k;
                let j = choose|j: int| 0 <= j < picked.len() && picked[j] == m;
                assert(out@[j]@ == k);
            }
        }
    }
    out
}

/// The names of `options` that contain `input`, each once.
pub fn names_matching<V: DeepView>(options: &NameMap<V>, input: &str) -> (r: Vec<String>)
    ensures
        distinct_texts(r@),
        forall|k: Seq<char>|
            #![trigger text_set(r@).contains(k)]
            text_set(r@).contains(k) <==> options@.contains_key(k) && contains_text(k, input@),
{
    let n = options.len();
    let mut keep: Vec<bool> = Vec::new();
    let mut i: usize = 0;
    while i < n
        invariant
            n == options.names().len(),
            i <= n,
            keep@.len() == i,
            forall|m: int| 0 <= m < i ==> keep@[m] == contains_text(options.names()[m], input@),
        decreases n - i,
    {
        let (name, _) = options.entry(i);
        keep.push(text_contains(name.as_str(), input));
        i = i + 1;
    }
    let r = select_names(options, &keep);
    proof {
        assert forall|k: Seq<char>|
            #![trigger text_set(r@).contains(k)]
            text_set(r@).contains(k) <==> options@.contains_key(k) && contains_text(k, input@) by {
            if options@.contains_key(k) && contains_text(k, input@) {
                assert(options.names().contains(k));
                let m = choose|m: int| 0 <= m < n && options.names()[m] == k;
                assert(keep@[m]);
            }
            if text_set(r@).contains(k) {
                let m = choose|m: int| 0 <= m < keep@.len() && keep@[m] && options.names()[m] == k;
                assert(options.names().contains(k));
            }
        }
    }
    r
}

/// The options offered while the user types `input` into audio command
/// `command_name`: those whose name contains `input`, each once.
pub fn asset_option_choices(audio_map: &NameMap<CommandInfo>, command_name: &str, input: &str) -> (r:
    Vec<String>)
    ensures
        distinct_texts(r@),
        text_set(r@) == option_matches(audio_map@, command_name@, input@),
        forall|k: Seq<char>|
            #![trigger text_set(r@).contains(k)]
            text_set(r@).contains(k) <==> {
                &&& audio_map@.contains_key(command_name@)
                &&& audio_map@[command_name@] matches InfoView::Options(options)
                &&& options.contains_key(k)
                &&& contains_text(k, input@)
            },
{
    match audio_map.get(command_name) {
        Some(CommandInfo::Options(options)) => {
            let r = names_matching(options, input);
            proof {
                assert(text_set(r@) =~= option_matches(audio_map@, command_name@, input@));
            }
            r
        },
        _ => {
            let r: Vec<String> = Vec::new();
            proof {
                assert(text_set(r@) =~= option_matches(audio_map@, command_name@, input@));
            }
            r
        },
    }
}

/// Every option offered while typing into an audio command can be played:
/// the command resolves, with that option, to the option's file.
pub proof fn lemma_offered_options_resolve(
    audio: Map<Seq<char>, InfoView>,
    name: Seq<char>,
    input: Seq<char>,
    choice: Seq<char>,
)
    requires
        option_matches(audio, name, input).contains(choice),
    ensures
        asset_target(audio, name, Some(choice)) is Ok,
        audio[name] matches InfoView::Options(options) && asset_target(audio, name, Some(choice))
            == Ok::<Seq<char>, ErrorView>(options[choice]),
{
}

/// The query of a text-to-speech request: the text, the language (Czech
/// unless given), the voice's gender (female unless given), the engine and
/// the key.
pub open spec fn tts_query_spec(
    text: Seq<char>,
    lang: Option<Seq<char>>,
    gender: Option<Seq<char>>,
    key: Seq<char>,
) -> Seq<(Seq<char>, Seq<char>)> {
    seq![
        ("text"@, text),
        ("lang"@, match lang { Some(l) => l, None => "cs"@ }),
        ("gender"@, match gender { Some(g) => g, None => "female"@ }),
        ("engine"@, "g1"@),
        ("key"@, key),
    ]
}

/// The query parameters of a text-to-speech request.
pub fn tts_query(text: &str, lang: Option<String>, gender: Option<String>, key: &str) -> (r: Vec<
    (String, String),
>)
    ensures
        r@.len() == 5,
        forall|i: int|
            0 <= i < 5 ==> (#[trigger] r@[i]).0@ == tts_query_spec(
                text@,
                lang.deep_view(),
                gender.deep_view(),
                key@,
            )[i].0 && r@[i].1@ == tts_query_spec(text@, lang.deep_view(), gender.deep_view(), key@)[i].1,
        r@[0].0@ == "text"@ && r@[0].1@ == text@,
        r@[1].0@ == "lang"@ && r@[1].1@ == match lang {
            Some(l) => l@,
            None => "cs"@,
        },
        r@[2].0@ == "gender"@ && r@[2].1@ == match gender {
            Some(g) => g@,
            None => "female"@,
        },
        r@[3].0@ == "engine"@ && r@[3].1@ == "g1"@,
        r@[4].0@ == "key"@ && r@[4].1@ == key@,
{
    let lang_value = match lang {
        Some(l) => l,
        None => "cs".to_owned(),
    };
    let gender_value = match gender {
        Some(g) => g,
        None => "female".to_owned(),
    };
    let mut r: Vec<(String, String)> = Vec::new();
    r.push(("text".to_owned(), text.to_owned()));
    r.push(("lang".to_owned(), lang_value));
    r.push(("gender".to_owned(), gender_value));
    r.push(("engine".to_owned(), "g1".to_owned()));
    r.push(("key".to_owned(), key.to_owned()));
    r
}

/// Whether `name` is one of the texts in `list`.
pub fn is_listed(list: &Vec<String>, name: &str) -> (r: bool)
    ensures
        r == list.deep_view().contains(name@),
{
    let n = list.len();
    let mut i: usize = 0;
    while i < n
        invariant
            n == list@.len(),
            i <= n,
            forall|j: int| 0 <= j < i ==> list@[j]@ != name@,
        decreases n - i,
    {
        if text_eq(list[i].as_str(), name) {
            assert(list.deep_view()[i as int] == name@);
            return true;
        }
        i = i + 1;
    }
    assert forall|j: int| 0 <= j < list.deep_view().len() implies list.deep_view()[j] != name@ by {
        assert(list.deep_view()[j] == list@[j]@);
    }
    false
}

/// The audio commands that get a slash command of their own: all but the
/// ignored ones (which can still be used for greetings).
pub open spec fn registered_commands(audio: Map<Seq<char>, InfoView>, ignored: Seq<Seq<char>>) -> Set<
    Seq<char>,
> {
    Set::new(|k: Seq<char>| audio.contains_key(k) && !ignored.contains(k))
}

/// The names of the audio commands to register, each once: every
/// discovered asset except those in the ignored list.
pub fn commands_to_register(audio_map: &NameMap<CommandInfo>, ignored: &Vec<String>) -> (r: Vec<
    String,
>)
    ensures
        distinct_texts(r@),
        text_set(r@) == registered_commands(audio_map@, ignored.deep_view()),
        forall|k: Seq<char>|
            #![trigger text_set(r@).contains(k)]
            text_set(r@).contains(k) <==> audio_map@.contains_key(k) && !(exists|j: int|
                0 <= j < ignored@.len() && ignored@[j]@ == k),
{
    let n = audio_map.len();
    let mut keep: Vec<bool> = Vec::new();
    let mut i: usize = 0;
    while i < n
        invariant
            n == audio_map.names().len(),
            i <= n,
            keep@.len() == i,
            forall|m: int|
                0 <= m < i ==> keep@[m] == !ignored.deep_view().contains(audio_map.names()[m]),
        decreases n - i,
    {
        let (name, _) = audio_map.entry(i);
        keep.push(!is_listed(ignored, name.as_str()));
        i = i + 1;
    }
    let r = select_names(audio_map, &keep);
    proof {
        let ig = ignored.deep_view();
        assert forall|k: Seq<char>|
            #![trigger text_set(r@).contains(k)]
            text_set(r@).contains(k) <==> registered_commands(audio_map@, ig).contains(k) by {
            if registered_commands(audio_map@, ig).contains(k) {
                assert(audio_map.names().contains(k));
                let m = choose|m: int| 0 <= m < n && audio_map.names()[m] == k;
                assert(keep@[m]);
            }
            if text_set(r@).contains(k) {
                let m = choose|m: int|
                    0 <= m < keep@.len() && keep@[m] && audio_map.names()[m] == k;
                assert(audio_map.names().contains(k));
            }
        }
        assert(text_set(r@) =~= registered_commands(audio_map@, ig));
        assert forall|k: Seq<char>|
            #![trigger text_set(r@).contains(k)]
            text_set(r@).contains(k) <==> audio_map@.contains_key(k) && !(exists|j: int|
                0 <= j < ignored@.len() && ignored@[j]@ == k) by {
            if ig.contains(k) {
                let j = choose|j: int| 0 <= j < ig.len() && ig[j] == k;
                assert(ignored@[j]@ == k);
            }
            if exists|j: int| 0 <= j < ignored@.len() && ignored@[j]@ == k {
                let j = choose|j: int| 0 <= j < ignored@.len() && ignored@[j]@ == k;
                assert(ig[j] == k);
            }
        }
    }
    r
}

/// An ignored asset gets no command of its own, yet a greeting can still
/// play it.
pub proof fn lemma_ignored_assets_still_greet(
    audio: Map<Seq<char>, InfoView>,
    ignored: Seq<Seq<char>>,
    g: GreetingView,
)
    requires
        ignored.contains(g.command),
        audio.contains_key(g.command),
        audio[g.command] is Path,
    ensures
        !registered_commands(audio, ignored).contains(g.command),
        greeting_target(audio, g) == Ok::<Seq<char>, ErrorView>(audio[g.command]->Path_0),
{
}

/// A given language and a given gender each reach the query unchanged,
/// independently of each other; Czech and a female voice are only the
/// defaults when none is given.  The text and the key are passed as given.
pub proof fn lemma_tts_query_keeps_choices(
    text: Seq<char>,
    lang: Option<Seq<char>>,
    gender: Option<Seq<char>>,
    key: Seq<char>,
)
    ensures
        tts_query_spec(text, lang, gender, key).len() == 5,
        tts_query_spec(text, lang, gender, key)[0] == ("text"@, text),
        tts_query_spec(text, lang, gender, key)[4] == ("key"@, key),
        lang matches Some(l) ==> tts_query_spec(text, lang, gender, key)[1] == ("lang"@, l),
        lang is None ==> tts_query_spec(text, lang, gender, key)[1] == ("lang"@, "cs"@),
        gender matches Some(g) ==> tts_query_spec(text, lang, gender, key)[2] == ("gender"@, g),
        gender is None ==> tts_query_spec(text, lang, gender, key)[2] == ("gender"@, "female"@),
        tts_query_spec(text, lang, gender, key)[2] == tts_query_spec(text, None, gender, key)[2],
        tts_query_spec(text, lang, gender, key)[1] == tts_query_spec(text, lang, None, key)[1],
{
}

/// The options offered while typing are exactly the option names of the
/// command that contain the typed text: each offered name is an option of
/// the command and contains the text, and each such option is offered.
pub proof fn lemma_offered_options_are_matching_names(
    audio: Map<Seq<char>, InfoView>,
    name: Seq<char>,
    input: Seq<char>,
    k: Seq<char>,
)
    ensures
        option_matches(audio, name, input).contains(k) <==> {
            &&& audio.contains_key(name)
            &&& audio[name] matches InfoView::Options(options)
            &&& options.contains_key(k)
            &&& contains_text(k, input)
        },
{
}

/// Exactly the discovered assets whose name is not in the ignored list are
/// registered: a name is left out only when it is itself ignored.
pub proof fn lemma_registered_are_the_not_ignored(
    audio: Map<Seq<char>, InfoView>,
    ignored: Seq<Seq<char>>,
    k: Seq<char>,
)
    ensures
        registered_commands(audio, ignored).contains(k) <==> audio.contains_key(k) && !(exists|
            j: int,
        | 0 <= j < ignored.len() && ignored[j] == k),
{
    if ignored.contains(k) {
        let j = choose|j: int| 0 <= j < ignored.len() && ignored[j] == k;
    }
    if exists|j: int| 0 <= j < ignored.len() && ignored[j] == k {
        let j = choose|j: int| 0 <= j < ignored.len() && ignored[j] == k;
        assert(ignored.contains(k));
    }
}

} // verus!
