//! Choosing a greeting for a user who joins a voice channel, and
//! discovering the audio commands from the listing of the assets folder.

use vstd::prelude::*;
use vstd::string::*;
use rand::seq::IndexedRandom;
use crate::name_map::NameMap;
use crate::text::{chars_of, decimal, decimal_chars, text_eq};
use crate::types::{BotData, BotError, CommandInfo, Config, ErrorView, GreetingCommand, GreetingView, InfoView};

verus! {

/// The name under which the greetings for users without their own are kept.
pub open spec fn fallback_name() -> Seq<char> {
    "_fallback"@
}

/// The greetings that apply to the user whose id is written `user`: their
/// own if they have some, else the fallback ones.
pub open spec fn greeting_list(greetings: Map<Seq<char>, Seq<GreetingView>>, user: Seq<char>) -> Seq<
    GreetingView,
> {
    if greetings.contains_key(user) {
        greetings[user]
    } else {
        greetings[fallback_name()]
    }
}

/// The file a greeting plays, or why it cannot be played.
pub open spec fn greeting_target(audio: Map<Seq<char>, InfoView>, g: GreetingView) -> Result<
    Seq<char>,
    ErrorView,
> {
    if !audio.contains_key(g.command) {
        Err(ErrorView::NoSuchAsset(g.command))
    } else {
        match audio[g.command] {
            InfoView::Path(p) => Ok(p),
            InfoView::Options(options) => match g.option {
                None => Err(ErrorView::NoOptionSpecified),
                Some(opt) => if options.contains_key(opt) {
                    Ok(options[opt])
                } else {
                    Err(ErrorView::NoSuchOption(opt))
                },
            },
        }
    }
}

/// A path-or-error result, by content.
pub open spec fn path_result(r: Result<String, BotError>) -> Result<Seq<char>, ErrorView> {
    match r {
        Ok(p) => Ok(p@),
        Err(e) => Err(e@),
    }
}

/// The greetings configured for `user_id`, or the fallback greetings; an
/// error when no fallback greetings are configured.
pub fn greetings_for(config: &Config, user_id: u64) -> (r: Result<&Vec<GreetingCommand>, BotError>)
    ensures
        match r {
            Ok(list) => config.greetings@.contains_key(fallback_name()) && list.deep_view()
                == greeting_list(config.greetings@, decimal(user_id as nat)),
            Err(e) => !config.greetings@.contains_key(fallback_name()) && e@
                == ErrorView::NoFallbackGreetings,
        },
        r is Ok <==> config.greetings@.contains_key("_fallback"@),
        r matches Ok(list) ==> list.deep_view() == if config.greetings@.contains_key(
            decimal(user_id as nat),
        ) {
            config.greetings@[decimal(user_id as nat)]
        } else {
            config.greetings@["_fallback"@]
        },
{
    let fallback = match config.greetings.get("_fallback") {
        Some(list) => list,
        None => {
            return Err(BotError::NoFallbackGreetings);
        },
    };
    let user = decimal_chars(user_id);
    match config.greetings.get_chars(&user) {
        Some(list) => Ok(list),
        None => Ok(fallback),
    }
}

/// The file that greeting `choice` plays, looked up among the audio commands.
pub fn resolve_greeting(audio_map: &NameMap<CommandInfo>, choice: &GreetingCommand) -> (r: Result<
    String,
    BotError,
>)
    ensures
        path_result(r) == greeting_target(audio_map@, choice.deep_view()),
        !audio_map@.contains_key(choice.command@) ==> (r matches Err(e) && e@
            == ErrorView::NoSuchAsset(choice.command@)),
        audio_map@.contains_key(choice.command@) ==> match audio_map@[choice.command@] {
            InfoView::Path(p) => (r matches Ok(x) && x@ == p),
            InfoView::Options(options) => match choice.option {
                None => (r matches Err(e) && e@ == ErrorView::NoOptionSpecified),
                Some(opt) => if options.contains_key(opt@) {
                    (r matches Ok(x) && x@ == options[opt@])
                } else {
                    (r matches Err(e) && e@ == ErrorView::NoSuchOption(opt@))
                },
            },
        },
{
    match audio_map.get(choice.command.as_str()) {
        None => Err(BotError::NoSuchAsset(choice.command.clone())),
        Some(CommandInfo::Path(path)) => Ok(path.clone()),
        Some(CommandInfo::Options(options)) => match &choice.option {
            None => Err(BotError::NoOptionSpecified),
            Some(option) => match options.get(option.as_str()) {
                None => Err(BotError::NoSuchOption(option.clone())),
                Some(path) => Ok(path.clone()),
            },
        },
    }
}

/// Picks one of `options` uniformly at random, with `rand`'s
/// `IndexedRandom::choose` on the thread-local generator.  Claimed: nothing
/// is picked exactly when the list is empty, and what is picked is one of
/// the list's elements.  Which one is left open.
#[verifier::external_body]
fn pick_at_random(options: &Vec<GreetingCommand>) -> (r: Option<&GreetingCommand>)
    ensures
        r is None <==> options@.len() == 0,
        r matches Some(g) ==> exists|i: int| 0 <= i < options@.len() && options@[i] == *g,
{
    options.as_slice().choose(&mut rand::rng())
}

/// Chooses a greeting of an incoming user: one of their own greetings,
/// or, if they have none, one of the fallback greetings, picked at random;
/// returns the file it plays.
pub fn choose_greetings(user_id: u64, data: &BotData) -> (r: Result<String, BotError>)
    requires
        data.config.greetings@.contains_key(fallback_name()) ==> greeting_list(
            data.config.greetings@,
            decimal(user_id as nat),
        ).len() > 0,
    ensures
        !data.config.greetings@.contains_key(fallback_name()) ==> path_result(r) == Err::<
            Seq<char>,
            ErrorView,
        >(ErrorView::NoFallbackGreetings),
        data.config.greetings@.contains_key(fallback_name()) ==> exists|i: int|
            0 <= i < greeting_list(data.config.greetings@, decimal(user_id as nat)).len()
                && path_result(r) == greeting_target(
                data.audio_map@,
                #[trigger] greeting_list(data.config.greetings@, decimal(user_id as nat))[i],
            ),
        data.config.greetings@.contains_key("_fallback"@) && data.config.greetings@.contains_key(
            decimal(user_id as nat),
        ) ==> exists|i: int|
            0 <= i < data.config.greetings@[decimal(user_id as nat)].len() && path_result(r)
                == greeting_target(
                data.audio_map@,
                #[trigger] data.config.greetings@[decimal(user_id as nat)][i],
            ),
        data.config.greetings@.contains_key("_fallback"@) && !data.config.greetings@.contains_key(
            decimal(user_id as nat),
        ) ==> exists|i: int|
            0 <= i < data.config.greetings@["_fallback"@].len() && path_result(r) == greeting_target(
                data.audio_map@,
                #[trigger] data.config.greetings@["_fallback"@][i],
            ),
{
    let list = greetings_for(&data.config, user_id)?;
    let choice = pick_at_random(list).unwrap();
    proof {
        let i = choose|i: int| 0 <= i < list@.len() && list@[i] == *choice;
        assert(list.deep_view()[i] == choice.deep_view());
    }
    resolve_greeting(&data.audio_map, choice)
}

/// One item of the assets folder's listing: its path relative to the
/// assets folder, as components (empty for the folder itself), and
/// whether it is a file.
#[derive(Debug)]
pub struct AssetEntry {
    pub components: Vec<String>,
    pub is_file: bool,
}

/// The content of an [`AssetEntry`].
pub struct AssetEntryView {
    pub components: Seq<Seq<char>>,
    pub is_file: bool,
}

impl DeepView for AssetEntry {
    type V = AssetEntryView;

    open spec fn deep_view(&self) -> AssetEntryView {
        AssetEntryView { components: self.components.deep_view(), is_file: self.is_file }
    }
}

/// `i` is the position of the last dot in `name`.
pub open spec fn is_last_dot(name: Seq<char>, i: int) -> bool {
    &&& 0 <= i < name.len()
    &&& name[i] == '.'
    &&& forall|j: int| i < j < name.len() ==> name[j] != '.'
}

/// A file name has an extension when its last dot is not its first
/// character (and it is not `..`).
pub open spec fn has_extension(name: Seq<char>) -> bool {
    name != ".."@ && exists|i: int| is_last_dot(name, i) && i > 0
}

/// A file name without its extension.
pub open spec fn file_stem(name: Seq<char>) -> Seq<char> {
    if has_extension(name) {
        name.subrange(0, choose|i: int| is_last_dot(name, i))
    } else {
        name
    }
}

/// Components joined by `/`.
pub open spec fn join_path(parts: Seq<Seq<char>>) -> Seq<char>
    decreases parts.len(),
{
    if parts.len() == 0 {
        Seq::empty()
    } else if parts.len() == 1 {
        parts[0]
    } else {
        join_path(parts.drop_last()) + "/"@ + parts.last()
    }
}

/// The path of the item with relative path `components` in the assets
/// folder `base`.
pub open spec fn asset_path(base: Seq<char>, components: Seq<Seq<char>>) -> Seq<char> {
    base + "/"@ + join_path(components)
}

/// How an item of the listing counts: not at all, as a file directly in
/// the assets folder, or as a file in a first-level subfolder.
pub enum AssetKind {
    Ignored,
    RootFile { stem: Seq<char> },
    FolderFile { folder: Seq<char>, stem: Seq<char> },
}

/// How an item of the listing counts.  Only files with an extension count,
/// and only those directly in the assets folder or in one of its
/// first-level subfolders.
pub open spec fn asset_kind(e: AssetEntryView) -> AssetKind {
    if !e.is_file || !(e.components.len() == 1 || e.components.len() == 2) || !has_extension(
        e.components.last(),
    ) {
        AssetKind::Ignored
    } else if e.components.len() == 1 {
        AssetKind::RootFile { stem: file_stem(e.components.last()) }
    } else {
        AssetKind::FolderFile { folder: e.components[0], stem: file_stem(e.components.last()) }
    }
}

/// The commands after one more item of the listing of assets folder
/// `base`: a root file becomes (or replaces) a command of its own; a file
/// in a subfolder becomes an option of the folder's command, unless that
/// name is taken by a root file.
pub open spec fn add_asset(base: Seq<char>, m: Map<Seq<char>, InfoView>, e: AssetEntryView) -> Map<
    Seq<char>,
    InfoView,
> {
    let path = asset_path(base, e.components);
    match asset_kind(e) {
        AssetKind::Ignored => m,
        AssetKind::RootFile { stem } => m.insert(stem, InfoView::Path(path)),
        AssetKind::FolderFile { folder, stem } => if !m.contains_key(folder) {
            m.insert(folder, InfoView::Options(Map::empty().insert(stem, path)))
        } else {
            match m[folder] {
                InfoView::Path(_) => m,
                InfoView::Options(o) => m.insert(folder, InfoView::Options(o.insert(stem, path))),
            }
        },
    }
}

/// The commands discovered from a listing of assets folder `base`, item by item.
pub open spec fn discovered(base: Seq<char>, entries: Seq<AssetEntryView>) -> Map<
    Seq<char>,
    InfoView,
>
    decreases entries.len(),
{
    if entries.len() == 0 {
        Map::empty()
    } else {
        add_asset(base, discovered(base, entries.drop_last()), entries.last())
    }
}

/// Whether `name` has an extension, and if so where its last dot is.
fn extension_dot(name: &Vec<char>) -> (r: Option<usize>)
    ensures
        match r {
            Some(i) => i > 0 && is_last_dot(name@, i as int),
            None => !(exists|i: int| is_last_dot(name@, i) && i > 0),
        },
{
    let n = name.len();
    let mut last: Option<usize> = None;
    let mut i: usize = 0;
    while i < n
        invariant
            n == name@.len(),
            i <= n,
            match last {
                Some(d) => d < i && name@[d as int] == '.' && forall|j: int|
                    d < j < i ==> name@[j] != '.',
                None => forall|j: int| 0 <= j < i ==> name@[j] != '.',
            },
        decreases n - i,
    {
        if name[i] == '.' {
            last = Some(i);
        }
        i = i + 1;
    }
    match last {
        Some(d) => {
            if d == 0 {
                assert forall|k: int| is_last_dot(name@, k) implies k == 0 by {
                    if k > 0 {
                        assert(name@[k] != '.');
                    }
                }
                None
            } else {
                Some(d)
            }
        },
        None => None,
    }
}

/// Joins `parts[..count]` with `/`.
fn join_parts(parts: &Vec<String>, count: usize) -> (r: String)
    requires
        count <= parts@.len(),
    ensures
        r@ == join_path(parts.deep_view().subrange(0, count as int)),
{
    let ghost dv = parts.deep_view();
    let mut out = String::new();
    let mut i: usize = 0;
    while i < count
        invariant
            count <= parts@.len(),
            dv == parts.deep_view(),
            i <= count,
            out@ == join_path(dv.subrange(0, i as int)),
        decreases count - i,
    {
        proof {
            let s = dv.subrange(0, i + 1);
            assert(s.drop_last() =~= dv.subrange(0, i as int));
        }
        if i == 0 {
            out = parts[0].clone();
        } else {
            out.append("/");
            out.append(parts[i].as_str());
        }
        i = i + 1;
    }
    out
}

/// How item `e` of the listing counts, with folder (none for a root file)
/// and stem as texts.
fn classify(e: &AssetEntry) -> (r: Option<(Option<String>, String)>)
    ensures
        match r {
            None => asset_kind(e.deep_view()) is Ignored,
            Some((None, stem)) => asset_kind(e.deep_view()) == AssetKind::RootFile { stem: stem@ },
            Some((Some(folder), stem)) => asset_kind(e.deep_view()) == AssetKind::FolderFile {
                folder: folder@,
                stem: stem@,
            },
        },
{
    let n = e.components.len();
    if !e.is_file || !(n == 1 || n == 2) {
        return None;
    }
    let ghost dv = e.components.deep_view();
    let name = &e.components[n - 1];
    assert(name@ == dv.last());
    if text_eq(name.as_str(), "..") {
        return None;
    }
    let name_chars = chars_of(name.as_str());
    let dot = match extension_dot(&name_chars) {
        Some(d) => d,
        None => {
            return None;
        },
    };
    let stem = name.as_str().substring_char(0, dot).to_owned();
    proof {
        assert(has_extension(name@));
        let c = choose|i: int| is_last_dot(name@, i);
        assert(c == dot as int);
    }
    if n == 1 {
        Some((None, stem))
    } else {
        Some((Some(e.components[0].clone()), stem))
    }
}

/// The path of item `e` in the assets folder `base`.
fn path_in(base: &str, e: &AssetEntry) -> (r: String)
    ensures
        r@ == asset_path(base@, e.deep_view().components),
{
    let mut path = base.to_owned();
    path.append("/");
    let rel = join_parts(&e.components, e.components.len());
    path.append(rel.as_str());
    proof {
        assert(e.components.deep_view().subrange(0, e.components@.len() as int)
            =~= e.components.deep_view());
    }
    path
}

/// Discovers the audio structure of the assets folder `base` from its
/// listing: each file directly in it becomes a command of its own (named
/// by its stem), each first-level subfolder a command whose options are
/// the files in it.  Deeper files, and folders, are ignored; a folder named
/// like a root file is ignored too.
pub fn discover_audio_structure(base: &str, entries: &Vec<AssetEntry>) -> (r: NameMap<CommandInfo>)
    ensures
        r@ == discovered(base@, entries.deep_view()),
{
    let ghost dv = entries.deep_view();
    let mut map: NameMap<CommandInfo> = NameMap::new();
    let n = entries.len();
    let mut i: usize = 0;
    while i < n
        invariant
            n == dv.len(),
            dv == entries.deep_view(),
            i <= n,
            map@ == discovered(base@, dv.subrange(0, i as int)),
        decreases n - i,
    {
        let ghost before = map@;
        proof {
            assert(dv.subrange(0, i + 1).drop_last() =~= dv.subrange(0, i as int));
            assert(dv.subrange(0, i + 1).last() == dv[i as int]);
        }
        let entry = &entries[i];
        match classify(entry) {
            None => {},
            Some((None, stem)) => {
                map.insert(stem, CommandInfo::Path(path_in(base, entry)));
            },
            Some((Some(folder), stem)) => {
                match map.remove(folder.as_str()) {
                    None => {
                        let mut options: NameMap<String> = NameMap::new();
                        options.insert(stem, path_in(base, entry));
                        map.insert(folder, CommandInfo::Options(options));
                    },
                    Some(CommandInfo::Path(p)) => {
                        map.insert(folder, CommandInfo::Path(p));
                        proof {
                            assert(map@ =~= before);
                        }
                    },
                    Some(CommandInfo::Options(mut options)) => {
                        options.insert(stem, path_in(base, entry));
                        map.insert(folder, CommandInfo::Options(options));
                    },
                }
            },
        }
        proof {
            assert(map@ =~= add_asset(base@, before, dv[i as int]));
        }
        i = i + 1;
    }
    proof {
        assert(dv.subrange(0, n as int) =~= dv);
    }
    map
}

/// A command that plays a single file comes from a file directly in the
/// assets folder.
pub proof fn lemma_file_command_from_root_file(
    base: Seq<char>,
    entries: Seq<AssetEntryView>,
    name: Seq<char>,
)
    requires
        discovered(base, entries).contains_key(name),
        discovered(base, entries)[name] is Path,
    ensures
        exists|i: int|
            0 <= i < entries.len() && asset_kind(entries[i]) == (AssetKind::RootFile { stem: name }),
    decreases entries.len(),
{
    if entries.len() > 0 {
        let prev = entries.drop_last();
        let last = entries.last();
        if asset_kind(last) == (AssetKind::RootFile { stem: name }) {
            assert(entries[entries.len() - 1] == last);
        } else {
            assert(discovered(base, prev).contains_key(name) && discovered(base, prev)[name] is Path);
            lemma_file_command_from_root_file(base, prev, name);
            let i = choose|i: int|
                0 <= i < prev.len() && asset_kind(prev[i]) == (AssetKind::RootFile { stem: name });
            assert(entries[i] == prev[i]);
        }
    }
}

/// Each file directly in the assets folder becomes its own command, named
/// by the file's stem; it plays the last such file of that stem.
pub proof fn lemma_root_file_becomes_command(
    base: Seq<char>,
    entries: Seq<AssetEntryView>,
    i: int,
    stem: Seq<char>,
)
    requires
        0 <= i < entries.len(),
        asset_kind(entries[i]) == (AssetKind::RootFile { stem }),
    ensures
        discovered(base, entries).contains_key(stem),
        exists|j: int|
            #![trigger entries[j]]
            i <= j < entries.len() && asset_kind(entries[j]) == (AssetKind::RootFile { stem })
                && discovered(base, entries)[stem] == InfoView::Path(asset_path(base, entries[j].components)) && forall|k: int|
                j < k < entries.len() ==> asset_kind(#[trigger] entries[k]) != (AssetKind::RootFile {
                    stem,
                }),
    decreases entries.len(),
{
    let prev = entries.drop_last();
    let last = entries.last();
    let n = entries.len() - 1;
    assert(entries[n] == last);
    if asset_kind(last) == (AssetKind::RootFile { stem }) {
        assert(discovered(base, entries)[stem] == InfoView::Path(asset_path(base, entries[n].components)));
    } else {
        assert(i < n);
        assert(prev[i] == entries[i]);
        lemma_root_file_becomes_command(base, prev, i, stem);
        let j = choose|j: int|
            #![trigger prev[j]]
            i <= j < prev.len() && asset_kind(prev[j]) == (AssetKind::RootFile { stem })
                && discovered(base, prev)[stem] == InfoView::Path(asset_path(base, prev[j].components)) && forall|k: int|
                j < k < prev.len() ==> asset_kind(#[trigger] prev[k]) != (AssetKind::RootFile {
                    stem,
                });
        assert(entries[j] == prev[j]);
        assert(discovered(base, entries).contains_key(stem));
        assert(discovered(base, entries)[stem] == discovered(base, prev)[stem]);
        assert forall|k: int| j < k < entries.len() implies asset_kind(#[trigger] entries[k])
            != (AssetKind::RootFile { stem }) by {
            if k < n {
                assert(entries[k] == prev[k]);
            }
        }
    }
}

/// Each first-level subfolder becomes its own command and the files inside
/// it become the command's options, unless a file directly in the assets
/// folder has the folder's name as its stem; an option plays the last file
/// of that folder with that stem.
pub proof fn lemma_folder_file_becomes_option(
    base: Seq<char>,
    entries: Seq<AssetEntryView>,
    i: int,
    folder: Seq<char>,
    stem: Seq<char>,
)
    requires
        0 <= i < entries.len(),
        asset_kind(entries[i]) == (AssetKind::FolderFile { folder, stem }),
        forall|j: int|
            0 <= j < entries.len() ==> asset_kind(#[trigger] entries[j]) != (AssetKind::RootFile {
                stem: folder,
            }),
    ensures
        discovered(base, entries).contains_key(folder),
        discovered(base, entries)[folder] matches InfoView::Options(options) && options.contains_key(stem),
        exists|j: int|
            #![trigger entries[j]]
            i <= j < entries.len() && asset_kind(entries[j]) == (AssetKind::FolderFile { folder, stem })
                && discovered(base, entries)[folder]->Options_0[stem] == asset_path(
                base,
                entries[j].components,
            ) && forall|k: int|
                j < k < entries.len() ==> asset_kind(#[trigger] entries[k]) != (
                AssetKind::FolderFile { folder, stem }),
    decreases entries.len(),
{
    let prev = entries.drop_last();
    let last = entries.last();
    let n = entries.len() - 1;
    assert(entries[n] == last);
    if discovered(base, prev).contains_key(folder) && discovered(base, prev)[folder] is Path {
        lemma_file_command_from_root_file(base, prev, folder);
        let j = choose|j: int|
            0 <= j < prev.len() && asset_kind(prev[j]) == (AssetKind::RootFile { stem: folder });
        assert(entries[j] == prev[j]);
        assert(false);
    }
    if asset_kind(last) == (AssetKind::FolderFile { folder, stem }) {
        assert(discovered(base, entries)[folder]->Options_0[stem] == asset_path(
            base,
            entries[n].components,
        ));
    } else {
        assert(i < n);
        assert(prev[i] == entries[i]);
        assert forall|j: int| 0 <= j < prev.len() implies asset_kind(#[trigger] prev[j])
            != (AssetKind::RootFile { stem: folder }) by {
            assert(entries[j] == prev[j]);
        }
        lemma_folder_file_becomes_option(base, prev, i, folder, stem);
        let j = choose|j: int|
            #![trigger prev[j]]
            i <= j < prev.len() && asset_kind(prev[j]) == (AssetKind::FolderFile { folder, stem })
                && discovered(base, prev)[folder]->Options_0[stem] == asset_path(
                base,
                prev[j].components,
            ) && forall|k: int|
                j < k < prev.len() ==> asset_kind(#[trigger] prev[k]) != (AssetKind::FolderFile {
                    folder,
                    stem,
                });
        assert(entries[j] == prev[j]);
        assert(discovered(base, entries)[folder]->Options_0[stem] == discovered(
            base,
            prev,
        )[folder]->Options_0[stem]);
        assert forall|k: int| j < k < entries.len() implies asset_kind(#[trigger] entries[k])
            != (AssetKind::FolderFile { folder, stem }) by {
            if k < n {
                assert(entries[k] == prev[k]);
            }
        }
    }
}

/// Folders, and files below a first-level subfolder, add no command and
/// no option.
pub proof fn lemma_folders_and_deep_files_add_nothing(
    base: Seq<char>,
    entries: Seq<AssetEntryView>,
    e: AssetEntryView,
)
    requires
        !e.is_file || e.components.len() > 2,
    ensures
        discovered(base, entries.push(e)) == discovered(base, entries),
{
    assert(entries.push(e).drop_last() =~= entries);
}

/// A greeting plays the file of the asset it names: a single-file asset
/// plays its file, and an asset with options plays the file of the option
/// the greeting names.  The greeting's label never matters.
pub proof fn lemma_greeting_plays_named_option(
    audio: Map<Seq<char>, InfoView>,
    g: GreetingView,
    other_label: Option<Seq<char>>,
)
    ensures
        greeting_target(audio, g) == greeting_target(
            audio,
            GreetingView { command: g.command, option: g.option, label: other_label },
        ),
        audio.contains_key(g.command) && audio[g.command] is Path ==> greeting_target(audio, g)
            == Ok::<Seq<char>, ErrorView>(audio[g.command]->Path_0),
        audio.contains_key(g.command) && audio[g.command] is Options && g.option is Some
            && audio[g.command]->Options_0.contains_key(g.option->0) ==> greeting_target(audio, g)
            == Ok::<Seq<char>, ErrorView>(audio[g.command]->Options_0[g.option->0]),
        !audio.contains_key(g.command) ==> greeting_target(audio, g) == Err::<Seq<char>, ErrorView>(
            ErrorView::NoSuchAsset(g.command),
        ),
{
}

/// A file name made of a non-empty stem, a dot and an extension without a
/// dot (other than `..`) has that extension, and its stem is the part
/// before the dot; a name without a dot has no extension.
pub proof fn lemma_stem_is_name_before_last_dot(stem: Seq<char>, ext: Seq<char>, plain: Seq<char>)
    requires
        stem.len() > 0,
        !ext.contains('.'),
        !(stem == seq!['.'] && ext.len() == 0),
        !plain.contains('.'),
    ensures
        has_extension(stem.push('.') + ext),
        file_stem(stem.push('.') + ext) == stem,
        !has_extension(plain),
        file_stem(plain) == plain,
{
    let name = stem.push('.') + ext;
    let d = stem.len() as int;
    assert(name[d] == '.');
    assert forall|j: int| d < j < name.len() implies name[j] != '.' by {
        assert(name[j] == ext[j - d - 1]);
    }
    assert(is_last_dot(name, d));
    reveal_strlit("..");
    if name == ".."@ {
        assert(".."@.len() == 2);
        assert(".."@[0] == '.');
        assert(name.len() == 2);
        assert(stem.len() == 1 && ext.len() == 0);
        assert(stem[0] == name[0]);
        assert(stem =~= seq!['.']);
    }
    let c = choose|i: int| is_last_dot(name, i);
    assert(c == d);
    assert(name.subrange(0, d) =~= stem);
    assert forall|i: int| !is_last_dot(plain, i) by {
        if 0 <= i < plain.len() && plain[i] == '.' {
            assert(plain.contains('.'));
        }
    }
}

/// A file directly in the assets folder, or in one of its first-level
/// subfolders, is found at the assets folder's path, a slash, the
/// subfolder and a slash (if any), and the file's name.
pub proof fn lemma_asset_path_layout(base: Seq<char>, folder: Seq<char>, name: Seq<char>)
    ensures
        asset_path(base, seq![name]) == base + "/"@ + name,
        asset_path(base, seq![folder, name]) == base + "/"@ + folder + "/"@ + name,
{
    let one = seq![name];
    let two = seq![folder, name];
    assert(two.drop_last() =~= seq![folder]);
    assert(join_path(seq![folder]) == folder);
    assert(join_path(two) == folder + "/"@ + name);
    assert(base + "/"@ + (folder + "/"@ + name) =~= base + "/"@ + folder + "/"@ + name);
}

/// A file with an extension directly in the assets folder counts as a
/// root file named by its stem; one in a first-level subfolder counts as
/// an option of that folder, named by its stem.
pub proof fn lemma_files_count_by_place(folder: Seq<char>, name: Seq<char>)
    requires
        has_extension(name),
    ensures
        asset_kind(AssetEntryView { components: seq![name], is_file: true }) == (AssetKind::RootFile {
            stem: file_stem(name),
        }),
        asset_kind(AssetEntryView { components: seq![folder, name], is_file: true })
            == (AssetKind::FolderFile { folder, stem: file_stem(name) }),
        asset_kind(AssetEntryView { components: seq![name], is_file: false }) is Ignored,
{
}

} // verus!
