//! The language codes and voices offered for text-to-speech, and the
//! completion of what the user has typed so far.

use vstd::prelude::*;
use vstd::string::*;
use crate::text::{has_prefix, text_starts_with};

verus! {

/// The language codes that text-to-speech offers, in order.
pub open spec fn lang_codes() -> Seq<Seq<char>> {
    seq![
        "af-ZA"@, "ar-SA"@, "bn-BD"@, "bn-IN"@, "ca-ES"@, "cs-CZ"@, "da-DK"@, "de-DE"@,
        "el-GR"@, "en-AU"@, "en-GB"@, "en-IE"@, "en-In"@, "en-IN"@, "en-NG"@, "en-US"@,
        "en-ZA"@, "es-ES"@, "es-MX"@, "es-US"@, "et-EE"@, "fi-FI"@, "fr-CA"@, "fr-FR"@,
        "gu-IN"@, "he-IL"@, "hi-IN"@, "hr-HR"@, "hu-HU"@, "hy-AM"@, "id-ID"@, "in-ID"@,
        "is-IS"@, "it-IT"@, "ja-JP"@, "jv-ID"@, "km-KH"@, "kn-IN"@, "ko-KR"@, "Li-mu"@,
        "lv-LV"@, "mk-MK"@, "ml-IN"@, "mr-IN"@, "ms-MY"@, "nb-NO"@, "ne-NP"@, "nl-BE"@,
        "nl-NL"@, "no-NO"@, "pl-PL"@, "pt-BR"@, "pt-PT"@, "ro-RO"@, "ru-RU"@, "si-LK"@,
        "sk-SK"@, "sq-AL"@, "sr-ME"@, "sr-RS"@, "su-ID"@, "sv-SE"@, "sw-KE"@, "ta-IN"@,
        "te-IN"@, "th-TH"@, "tr-TR"@, "uk-UA"@, "ur-PK"@, "vi-VN"@, "zh-CN"@, "zh-HK"@,
        "zh-TW"@,
    ]
}

/// The voices that text-to-speech offers, in order.
pub open spec fn tts_voices() -> Seq<Seq<char>> {
    seq!["male"@, "female"@]
}

/// The texts of a list of string slices.
pub open spec fn strs_view(s: Seq<&str>) -> Seq<Seq<char>> {
    s.map_values(|x: &str| x@)
}

/// The texts of a list of strings.
pub open spec fn strings_view(s: Seq<String>) -> Seq<Seq<char>> {
    s.map_values(|x: String| x@)
}

/// The entries of `list` that start with `partial`, in order.
pub open spec fn completions(list: Seq<Seq<char>>, partial: Seq<char>) -> Seq<Seq<char>> {
    list.filter(|c: Seq<char>| has_prefix(c, partial))
}

fn lang_code_list() -> (r: Vec<&'static str>)
    ensures
        strs_view(r@) == lang_codes(),
{
    let r = vec![
        "af-ZA", "ar-SA", "bn-BD", "bn-IN", "ca-ES", "cs-CZ", "da-DK", "de-DE",
        "el-GR", "en-AU", "en-GB", "en-IE", "en-In", "en-IN", "en-NG", "en-US",
        "en-ZA", "es-ES", "es-MX", "es-US", "et-EE", "fi-FI", "fr-CA", "fr-FR",
        "gu-IN", "he-IL", "hi-IN", "hr-HR", "hu-HU", "hy-AM", "id-ID", "in-ID",
        "is-IS", "it-IT", "ja-JP", "jv-ID", "km-KH", "kn-IN", "ko-KR", "Li-mu",
        "lv-LV", "mk-MK", "ml-IN", "mr-IN", "ms-MY", "nb-NO", "ne-NP", "nl-BE",
        "nl-NL", "no-NO", "pl-PL", "pt-BR", "pt-PT", "ro-RO", "ru-RU", "si-LK",
        "sk-SK", "sq-AL", "sr-ME", "sr-RS", "su-ID", "sv-SE", "sw-KE", "ta-IN",
        "te-IN", "th-TH", "tr-TR", "uk-UA", "ur-PK", "vi-VN", "zh-CN", "zh-HK",
        "zh-TW",
    ];
    assert(strs_view(r@) =~= lang_codes());
    r
}

fn tts_voice_list() -> (r: Vec<&'static str>)
    ensures
        strs_view(r@) == tts_voices(),
{
    let r = vec!["male", "female"];
    assert(strs_view(r@) =~= tts_voices());
    r
}

/// The entries of `list` that start with `partial`, in order.
fn complete_from(list: &Vec<&str>, partial: &str) -> (r: Vec<String>)
    ensures
        strings_view(r@) == completions(strs_view(list@), partial@),
{
    let ghost pred = |c: Seq<char>| has_prefix(c, partial@);
    let n = list.len();
    let mut out: Vec<String> = Vec::new();
    let mut i: usize = 0;
    proof {
        reveal(Seq::filter);
        assert(strs_view(list@).subrange(0, 0).filter(pred) =~= Seq::<Seq<char>>::empty());
        assert(strings_view(out@) =~= Seq::<Seq<char>>::empty());
    }
    while i < n
        invariant
            n == list@.len(),
            i <= n,
            pred == (|c: Seq<char>| has_prefix(c, partial@)),
            strings_view(out@) == strs_view(list@).subrange(0, i as int).filter(pred),
        decreases n - i,
    {
        let code = list[i];
        let ghost before = strings_view(out@);
        proof {
            assert(strs_view(list@).subrange(0, i + 1) =~= strs_view(list@).subrange(0, i as int).push(code@));
            assert(pred(code@) == has_prefix(code@, partial@));
            strs_view(list@).subrange(0, i as int).lemma_filter_push(code@, pred);
            assert(strs_view(list@).subrange(0, i as int).push(code@).filter(pred) == if pred(code@) {
                strs_view(list@).subrange(0, i as int).filter(pred).push(code@)
            } else {
                strs_view(list@).subrange(0, i as int).filter(pred)
            });
        }
        if text_starts_with(code, partial) {
            out.push(code.to_owned());
            assert(strings_view(out@) =~= before.push(code@));
        } else {
            assert(strings_view(out@) =~= before);
        }
        i = i + 1;
    }
    proof {
        assert(strs_view(list@).subrange(0, n as int) =~= strs_view(list@));
    }
    out
}

/// The language codes that start with what the user has typed, in order.
pub fn languages_autocomplete(partial: &str) -> (r: Vec<String>)
    ensures
        strings_view(r@) == completions(lang_codes(), partial@),
        forall|c: Seq<char>|
            strings_view(r@).contains(c) <==> lang_codes().contains(c) && has_prefix(c, partial@),
{
    let list = lang_code_list();
    let r = complete_from(&list, partial);
    proof {
        assert forall|c: Seq<char>|
            strings_view(r@).contains(c) <==> lang_codes().contains(c) && has_prefix(c, partial@) by {
            lemma_completions_are_matching_entries(lang_codes(), partial@, c);
        }
    }
    r
}

/// The voices that start with what the user has typed, in order.
pub fn voices_autocomplete(partial: &str) -> (r: Vec<String>)
    ensures
        strings_view(r@) == completions(tts_voices(), partial@),
        forall|c: Seq<char>|
            strings_view(r@).contains(c) <==> tts_voices().contains(c) && has_prefix(c, partial@),
{
    let list = tts_voice_list();
    let r = complete_from(&list, partial);
    proof {
        assert forall|c: Seq<char>|
            strings_view(r@).contains(c) <==> tts_voices().contains(c) && has_prefix(c, partial@) by {
            lemma_completions_are_matching_entries(tts_voices(), partial@, c);
        }
    }
    r
}

/// The completions of what the user has typed are exactly the entries of
/// the list that start with it: each completion is an entry starting with
/// the typed text, and each such entry is a completion.
pub proof fn lemma_completions_are_matching_entries(
    list: Seq<Seq<char>>,
    partial: Seq<char>,
    c: Seq<char>,
)
    ensures
        completions(list, partial).contains(c) <==> list.contains(c) && has_prefix(c, partial),
        completions(list, partial).len() <= list.len(),
{
    broadcast use vstd::seq_lib::group_filter_ensures;

    let pred = |x: Seq<char>| has_prefix(x, partial);
    if completions(list, partial).contains(c) {
        list.lemma_filter_contains_rev(pred, c);
        let i = choose|i: int| 0 <= i < completions(list, partial).len() && completions(list, partial)[i] == c;
        assert(pred(completions(list, partial)[i]));
    }
    if list.contains(c) && has_prefix(c, partial) {
        let i = choose|i: int| 0 <= i < list.len() && list[i] == c;
        assert(pred(list[i]));
    }
}

} // verus!
