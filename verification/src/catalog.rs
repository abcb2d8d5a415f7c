//! The models that can be downloaded, how a language selects one, and when a
//! model counts as installed.

use vstd::prelude::*;
use vstd::string::*;

use crate::models::{opt_text, SupportedLanguage, SupportedLanguagesResponse};
use crate::text::{
    are_cases_of_a_letter, chars_of, eq_ignore_ascii_case, is_white_space, language_prefix,
    law_agreement_up_to_case, law_language_ends_at_the_first_hyphen,
    law_trimming_takes_white_space_alone, lemma_prefix_len_unique, prefix_of, same_ignoring_case,
    same_text, string_of, trim, trimmed,
};

verus! {

/// The directory under the user's data directory that holds the models.
pub const MODELS_SUBDIR: &'static str = "tauri-plugin-stt/models";

/// Written inside a model directory once its archive was fully downloaded,
/// checksum-verified and extracted. The file holds the verified MD5, so an
/// interrupted install leaves no marker and is never mistaken for a usable
/// model. This is the ONLY thing that makes a model count as installed.
pub const MARKER_FILE: &'static str = ".verified-md5";

/// Holds partial downloads and extraction staging, next to the models.
pub const STAGING_SUBDIR: &'static str = ".incomplete";

/// A downloadable Vosk model.
///
/// `md5` and `size` are the values alphacephei.com publishes for the archive.
/// They are pinned here on purpose: they tell a finished download from a
/// truncated one *before* anything is unpacked, and they detect a swapped or
/// corrupted archive.
#[derive(Debug, Clone, Copy)]
pub struct ModelSpec {
    /// The language the model recognizes.
    pub lang: &'static str,
    /// The name of the model and of its directory.
    pub name: &'static str,
    /// Where the .zip archive can be fetched.
    pub url: &'static str,
    /// MD5 of the .zip archive, as published upstream.
    pub md5: &'static str,
    /// Size of the .zip archive in bytes, as published upstream.
    pub size: u64,
}

/// A [`ModelSpec`] with its texts as sequences of characters.
pub struct ModelInfo {
    pub lang: Seq<char>,
    pub name: Seq<char>,
    pub url: Seq<char>,
    pub md5: Seq<char>,
    pub size: u64,
}

impl View for ModelSpec {
    type V = ModelInfo;

    open spec fn view(&self) -> ModelInfo {
        ModelInfo {
            lang: self.lang@,
            name: self.name@,
            url: self.url@,
            md5: self.md5@,
            size: self.size,
        }
    }
}

/// The models on offer, one for each supported language. The first is the
/// one used when a language has no entry of its own.
pub open spec fn catalog() -> Seq<ModelInfo> {
    seq![
        ModelInfo {
            lang: "en-US"@,
            name: "vosk-model-en-us-0.42-gigaspeech"@,
            url: "https://alphacephei.com/vosk/models/vosk-model-en-us-0.42-gigaspeech.zip"@,
            md5: "db1202c15b40ea4b1ec27b85a90dffbe"@,
            size: 2_423_807_363,
        },
        ModelInfo {
            lang: "pt-BR"@,
            name: "vosk-model-pt-fb-v0.1.1-20220516_2113"@,
            url: "https://alphacephei.com/vosk/models/vosk-model-pt-fb-v0.1.1-20220516_2113.zip"@,
            md5: "5d259cb674fd52a61c97c1e53282d4b3"@,
            size: 1_693_530_883,
        },
        ModelInfo {
            lang: "es-ES"@,
            name: "vosk-model-es-0.42"@,
            url: "https://alphacephei.com/vosk/models/vosk-model-es-0.42.zip"@,
            md5: "83f83e045a4537c53ed5ed42f959bf6d"@,
            size: 1_484_681_703,
        },
        ModelInfo {
            lang: "fr-FR"@,
            name: "vosk-model-fr-0.22"@,
            url: "https://alphacephei.com/vosk/models/vosk-model-fr-0.22.zip"@,
            md5: "12662b25b4d35059ec05e3a75a27841e"@,
            size: 1_523_026_348,
        },
        ModelInfo {
            lang: "de-DE"@,
            name: "vosk-model-de-0.21"@,
            url: "https://alphacephei.com/vosk/models/vosk-model-de-0.21.zip"@,
            md5: "23298ddeb602739016956144ac4c74de"@,
            size: 2_031_717_803,
        },
        ModelInfo {
            lang: "ru-RU"@,
            name: "vosk-model-ru-0.42"@,
            url: "https://alphacephei.com/vosk/models/vosk-model-ru-0.42.zip"@,
            md5: "ae356c0fc8879deed1982d879f40880a"@,
            size: 1_937_602_113,
        },
        ModelInfo {
            lang: "zh-CN"@,
            name: "vosk-model-cn-0.22"@,
            url: "https://alphacephei.com/vosk/models/vosk-model-cn-0.22.zip"@,
            md5: "c050f6849398ceecfa723cca69b8c67d"@,
            size: 1_358_736_686,
        },
        ModelInfo {
            lang: "ja-JP"@,
            name: "vosk-model-ja-0.22"@,
            url: "https://alphacephei.com/vosk/models/vosk-model-ja-0.22.zip"@,
            md5: "e7ab21ff213aff2edf1f04724487846c"@,
            size: 1_045_975_323,
        },
        ModelInfo {
            lang: "it-IT"@,
            name: "vosk-model-it-0.22"@,
            url: "https://alphacephei.com/vosk/models/vosk-model-it-0.22.zip"@,
            md5: "973cf0adc17ea0acd042d079bba67a94"@,
            size: 1_306_765_292,
        },
    ]
}

/// The available models, in the order of the catalog.
pub fn available_models() -> (models: Vec<ModelSpec>)
    ensures
        models@.len() == catalog().len(),
        forall|i: int| 0 <= i < models@.len() ==> #[trigger] models@[i]@ == catalog()[i],
{
    let models: Vec<ModelSpec> = vec![
        ModelSpec {
            lang: "en-US",
            name: "vosk-model-en-us-0.42-gigaspeech",
            url: "https://alphacephei.com/vosk/models/vosk-model-en-us-0.42-gigaspeech.zip",
            md5: "db1202c15b40ea4b1ec27b85a90dffbe",
            size: 2_423_807_363,
        },
        ModelSpec {
            lang: "pt-BR",
            name: "vosk-model-pt-fb-v0.1.1-20220516_2113",
            url: "https://alphacephei.com/vosk/models/vosk-model-pt-fb-v0.1.1-20220516_2113.zip",
            md5: "5d259cb674fd52a61c97c1e53282d4b3",
            size: 1_693_530_883,
        },
        ModelSpec {
            lang: "es-ES",
            name: "vosk-model-es-0.42",
            url: "https://alphacephei.com/vosk/models/vosk-model-es-0.42.zip",
            md5: "83f83e045a4537c53ed5ed42f959bf6d",
            size: 1_484_681_703,
        },
        ModelSpec {
            lang: "fr-FR",
            name: "vosk-model-fr-0.22",
            url: "https://alphacephei.com/vosk/models/vosk-model-fr-0.22.zip",
            md5: "12662b25b4d35059ec05e3a75a27841e",
            size: 1_523_026_348,
        },
        ModelSpec {
            lang: "de-DE",
            name: "vosk-model-de-0.21",
            url: "https://alphacephei.com/vosk/models/vosk-model-de-0.21.zip",
            md5: "23298ddeb602739016956144ac4c74de",
            size: 2_031_717_803,
        },
        ModelSpec {
            lang: "ru-RU",
            name: "vosk-model-ru-0.42",
            url: "https://alphacephei.com/vosk/models/vosk-model-ru-0.42.zip",
            md5: "ae356c0fc8879deed1982d879f40880a",
            size: 1_937_602_113,
        },
        ModelSpec {
            lang: "zh-CN",
            name: "vosk-model-cn-0.22",
            url: "https://alphacephei.com/vosk/models/vosk-model-cn-0.22.zip",
            md5: "c050f6849398ceecfa723cca69b8c67d",
            size: 1_358_736_686,
        },
        ModelSpec {
            lang: "ja-JP",
            name: "vosk-model-ja-0.22",
            url: "https://alphacephei.com/vosk/models/vosk-model-ja-0.22.zip",
            md5: "e7ab21ff213aff2edf1f04724487846c",
            size: 1_045_975_323,
        },
        ModelSpec {
            lang: "it-IT",
            name: "vosk-model-it-0.22",
            url: "https://alphacephei.com/vosk/models/vosk-model-it-0.22.zip",
            md5: "973cf0adc17ea0acd042d079bba67a94",
            size: 1_306_765_292,
        },
    ];
    models
}

/// The first of the models that satisfies `wanted`.
pub open spec fn first_where(
    models: Seq<ModelInfo>,
    wanted: spec_fn(ModelInfo) -> bool,
) -> Option<ModelInfo>
    decreases models.len(),
{
    if models.len() == 0 {
        None
    } else if wanted(models.first()) {
        Some(models.first())
    } else {
        first_where(models.drop_first(), wanted)
    }
}

/// The model for exactly this language tag.
pub open spec fn exact_model(language: Seq<char>) -> Option<ModelInfo> {
    first_where(catalog(), |m: ModelInfo| m.lang == language)
}

/// The first model whose language agrees with the tag up to the first `-`.
pub open spec fn prefix_model(language: Seq<char>) -> Option<ModelInfo> {
    first_where(catalog(), |m: ModelInfo| language_prefix(m.lang) == language_prefix(language))
}

/// The model that serves a language tag: the exact entry where there is one,
/// else the first entry for the same language in another region.
pub open spec fn model_for(language: Seq<char>) -> Option<ModelInfo> {
    match exact_model(language) {
        Some(m) => Some(m),
        None => prefix_model(language),
    }
}

/// The characters of an optional text.
pub open spec fn opt_str(s: Option<&str>) -> Option<Seq<char>> {
    match s {
        Some(t) => Some(t@),
        None => None,
    }
}

/// The language of a request: the one asked for, else that of the device, if
/// it is known.
pub open spec fn requested_language(
    language: Option<Seq<char>>,
    device_language: Option<Seq<char>>,
) -> Option<Seq<char>> {
    match language {
        Some(l) => Some(l),
        None => device_language,
    }
}

/// The model that a request for a language ends up with: the one that serves
/// it, else the default model.
pub open spec fn selected_model(language: Option<Seq<char>>) -> ModelInfo {
    match language {
        Some(l) => match model_for(l) {
            Some(m) => m,
            None => catalog()[0],
        },
        None => catalog()[0],
    }
}

/// Where no model before `n` is wanted and the one at `n` is, the search
/// finds that one; where none is wanted at all, it finds nothing.
proof fn lemma_first_where(models: Seq<ModelInfo>, wanted: spec_fn(ModelInfo) -> bool, n: int)
    requires
        0 <= n <= models.len(),
        forall|i: int| 0 <= i < n ==> !wanted(models[i]),
        n < models.len() ==> wanted(models[n]),
    ensures
        first_where(models, wanted) == (if n < models.len() {
            Some(models[n])
        } else {
            None
        }),
    decreases models.len(),
{
    if models.len() > 0 && n > 0 {
        assert(!wanted(models[0]));
        let rest = models.drop_first();
        assert forall|i: int| 0 <= i < n - 1 implies !wanted(rest[i]) by {
            assert(rest[i] == models[i + 1]);
        }
        assert(n < models.len() ==> rest[n - 1] == models[n]);
        lemma_first_where(rest, wanted, n - 1);
    }
}

/// The model that serves `language`, if any: the exact match first, else the
/// first model of the same language ("pt" and "pt-PT" both match "pt-BR").
pub fn get_model_info_for_language(language: &str) -> (found: Option<ModelSpec>)
    ensures
        match found {
            Some(m) => model_for(language@) == Some(m@),
            None => model_for(language@) is None,
        },
{
    let models = available_models();
    let ghost exact = |m: ModelInfo| m.lang == language@;
    let ghost near = |m: ModelInfo| language_prefix(m.lang) == language_prefix(language@);
    for i in 0..models.len()
        invariant
            models@.len() == catalog().len(),
            forall|j: int| 0 <= j < models@.len() ==> #[trigger] models@[j]@ == catalog()[j],
            exact == (|m: ModelInfo| m.lang == language@),
            forall|j: int| 0 <= j < i ==> !exact(catalog()[j]),
    {
        if same_text(models[i].lang, language) {
            proof {
                assert(models@[i as int]@ == catalog()[i as int]);
                lemma_first_where(catalog(), exact, i as int);
            }
            return Some(models[i]);
        }
        assert(models@[i as int]@ == catalog()[i as int]);
    }
    proof {
        lemma_first_where(catalog(), exact, models@.len() as int);
    }
    let prefix = prefix_of(language);
    for i in 0..models.len()
        invariant
            models@.len() == catalog().len(),
            forall|j: int| 0 <= j < models@.len() ==> #[trigger] models@[j]@ == catalog()[j],
            exact_model(language@) is None,
            prefix@ == language_prefix(language@),
            near == (|m: ModelInfo| language_prefix(m.lang) == language_prefix(language@)),
            forall|j: int| 0 <= j < i ==> !near(catalog()[j]),
    {
        if same_text(prefix_of(models[i].lang).as_str(), prefix.as_str()) {
            proof {
                assert(models@[i as int]@ == catalog()[i as int]);
                lemma_first_where(catalog(), near, i as int);
            }
            return Some(models[i]);
        }
        assert(models@[i as int]@ == catalog()[i as int]);
    }
    proof {
        lemma_first_where(catalog(), near, models@.len() as int);
    }
    None
}

/// The model to use for a request: the one that serves the language asked for,
/// or that of the device where none is asked for, or the default model.
pub fn select_model(language: Option<&str>, device_language: Option<&str>) -> (model: ModelSpec)
    ensures
        model@ == selected_model(requested_language(opt_str(language), opt_str(device_language))),
{
    let wanted = match language {
        Some(l) => Some(l),
        None => device_language,
    };
    let found = match wanted {
        Some(l) => get_model_info_for_language(l),
        None => None,
    };
    match found {
        Some(m) => m,
        None => {
            let models = available_models();
            assert(models@[0]@ == catalog()[0]);
            models[0]
        },
    }
}

/// No two models of the catalog share a name: each has a directory of its own.
pub proof fn law_models_have_their_own_names(i: int, j: int)
    requires
        0 <= i < catalog().len(),
        0 <= j < catalog().len(),
        catalog()[i].name == catalog()[j].name,
    ensures
        i == j,
{
    reveal_strlit("vosk-model-en-us-0.42-gigaspeech");
    reveal_strlit("vosk-model-pt-fb-v0.1.1-20220516_2113");
    reveal_strlit("vosk-model-es-0.42");
    reveal_strlit("vosk-model-fr-0.22");
    reveal_strlit("vosk-model-de-0.21");
    reveal_strlit("vosk-model-ru-0.42");
    reveal_strlit("vosk-model-cn-0.22");
    reveal_strlit("vosk-model-ja-0.22");
    reveal_strlit("vosk-model-it-0.22");
    let a = catalog()[i].name;
    let b = catalog()[j].name;
    assert(a[11] == b[11] && a[12] == b[12]);
}

/// Where no language is asked for, the device's language decides, as if it had
/// been asked for; a language that is asked for is never overruled by it.
pub proof fn law_device_language_fills_in(
    language: Seq<char>,
    device_language: Option<Seq<char>>,
    i: int,
)
    requires
        0 <= i < catalog().len(),
        language_prefix(language) == language_prefix(catalog()[i].lang),
    ensures
        selected_model(requested_language(Some(language), device_language)) == catalog()[i],
        selected_model(requested_language(None, Some(language))) == catalog()[i],
{
    law_region_falls_back_to_language(language, i);
}

/// The prefix of a tag that consists of two letters, `-` and two letters.
proof fn lemma_two_letter_prefix(tag: Seq<char>)
    requires
        tag.len() == 5,
        tag[0] != '-',
        tag[1] != '-',
        tag[2] == '-',
    ensures
        language_prefix(tag) == seq![tag[0], tag[1]],
{
    lemma_prefix_len_unique(tag, 2);
    assert(language_prefix(tag) =~= seq![tag[0], tag[1]]);
}

/// No two models of the catalog share the part of their tag before the `-`.
proof fn lemma_prefixes_are_distinct(i: int, j: int)
    requires
        0 <= i < catalog().len(),
        0 <= j < catalog().len(),
        language_prefix(catalog()[i].lang) == language_prefix(catalog()[j].lang),
    ensures
        i == j,
{
    reveal_strlit("en-US");
    reveal_strlit("pt-BR");
    reveal_strlit("es-ES");
    reveal_strlit("fr-FR");
    reveal_strlit("de-DE");
    reveal_strlit("ru-RU");
    reveal_strlit("zh-CN");
    reveal_strlit("ja-JP");
    reveal_strlit("it-IT");
    let a = catalog()[i].lang;
    let b = catalog()[j].lang;
    lemma_two_letter_prefix(a);
    lemma_two_letter_prefix(b);
    assert(seq![a[0], a[1]][0] == a[0] && seq![a[0], a[1]][1] == a[1]);
    assert(seq![b[0], b[1]][0] == b[0] && seq![b[0], b[1]][1] == b[1]);
}

/// A tag whose part before the `-` is that of a listed language is served by
/// that language's model, whatever its region: "pt-BR", "pt" and "pt-PT" all
/// get the Portuguese one.
pub proof fn law_region_falls_back_to_language(language: Seq<char>, i: int)
    requires
        0 <= i < catalog().len(),
        language_prefix(language) == language_prefix(catalog()[i].lang),
    ensures
        model_for(language) == Some(catalog()[i]),
        selected_model(Some(language)) == catalog()[i],
{
    let exact = |m: ModelInfo| m.lang == language;
    let near = |m: ModelInfo| language_prefix(m.lang) == language_prefix(language);
    assert forall|j: int| 0 <= j < catalog().len() && j != i implies !near(catalog()[j]) && !exact(
        catalog()[j],
    ) by {
        if near(catalog()[j]) {
            lemma_prefixes_are_distinct(i, j);
        }
    }
    lemma_first_where(catalog(), near, i);
    if exact(catalog()[i]) {
        lemma_first_where(catalog(), exact, i);
    } else {
        lemma_first_where(catalog(), exact, catalog().len() as int);
    }
}

/// A tag in a language that the catalog does not list has no model of its
/// own, and a request for it gets the default model.
pub proof fn law_unlisted_language_gets_default(language: Seq<char>)
    requires
        forall|i: int|
            0 <= i < catalog().len() ==> language_prefix(language) != language_prefix(
                #[trigger] catalog()[i].lang,
            ),
    ensures
        model_for(language) is None,
        selected_model(Some(language)) == catalog()[0],
{
    let exact = |m: ModelInfo| m.lang == language;
    let near = |m: ModelInfo| language_prefix(m.lang) == language_prefix(language);
    assert forall|j: int| 0 <= j < catalog().len() implies !near(catalog()[j]) && !exact(
        catalog()[j],
    ) by {
        assert(language_prefix(language) != language_prefix(catalog()[j].lang));
    }
    lemma_first_where(catalog(), near, catalog().len() as int);
    lemma_first_where(catalog(), exact, catalog().len() as int);
}

/// A digit of a number in lower-case hexadecimal.
pub open spec fn is_hex_digit(c: char) -> bool {
    ('0' <= c && c <= '9') || ('a' <= c && c <= 'f')
}

/// Every archive comes from the Vosk model server under its model's name, has
/// a size, and is pinned to an MD5 in the form that a computed one has: the
/// thirty-two hexadecimal digits of sixteen bytes.
pub proof fn law_archives_are_pinned(i: int)
    requires
        0 <= i < catalog().len(),
    ensures
        catalog()[i].url == "https://alphacephei.com/vosk/models/"@ + catalog()[i].name + ".zip"@,
        catalog()[i].size > 0,
        catalog()[i].md5.len() == 32,
        forall|k: int| 0 <= k < 32 ==> is_hex_digit(#[trigger] catalog()[i].md5[k]),
{
    reveal_strlit("https://alphacephei.com/vosk/models/");
    reveal_strlit(".zip");
    reveal_strlit("vosk-model-en-us-0.42-gigaspeech");
    reveal_strlit(
        "https://alphacephei.com/vosk/models/vosk-model-en-us-0.42-gigaspeech.zip",
    );
    reveal_strlit("db1202c15b40ea4b1ec27b85a90dffbe");
    reveal_strlit("vosk-model-pt-fb-v0.1.1-20220516_2113");
    reveal_strlit(
        "https://alphacephei.com/vosk/models/vosk-model-pt-fb-v0.1.1-20220516_2113.zip",
    );
    reveal_strlit("5d259cb674fd52a61c97c1e53282d4b3");
    reveal_strlit("vosk-model-es-0.42");
    reveal_strlit(
        "https://alphacephei.com/vosk/models/vosk-model-es-0.42.zip",
    );
    reveal_strlit("83f83e045a4537c53ed5ed42f959bf6d");
    reveal_strlit("vosk-model-fr-0.22");
    reveal_strlit(
        "https://alphacephei.com/vosk/models/vosk-model-fr-0.22.zip",
    );
    reveal_strlit("12662b25b4d35059ec05e3a75a27841e");
    reveal_strlit("vosk-model-de-0.21");
    reveal_strlit(
        "https://alphacephei.com/vosk/models/vosk-model-de-0.21.zip",
    );
    reveal_strlit("23298ddeb602739016956144ac4c74de");
    reveal_strlit("vosk-model-ru-0.42");
    reveal_strlit(
        "https://alphacephei.com/vosk/models/vosk-model-ru-0.42.zip",
    );
    reveal_strlit("ae356c0fc8879deed1982d879f40880a");
    reveal_strlit("vosk-model-cn-0.22");
    reveal_strlit(
        "https://alphacephei.com/vosk/models/vosk-model-cn-0.22.zip",
    );
    reveal_strlit("c050f6849398ceecfa723cca69b8c67d");
    reveal_strlit("vosk-model-ja-0.22");
    reveal_strlit(
        "https://alphacephei.com/vosk/models/vosk-model-ja-0.22.zip",
    );
    reveal_strlit("e7ab21ff213aff2edf1f04724487846c");
    reveal_strlit("vosk-model-it-0.22");
    reveal_strlit(
        "https://alphacephei.com/vosk/models/vosk-model-it-0.22.zip",
    );
    reveal_strlit("973cf0adc17ea0acd042d079bba67a94");
    assert(catalog()[i].url =~= "https://alphacephei.com/vosk/models/"@ + catalog()[i].name
        + ".zip"@);
}

/// Where the name of a POSIX locale ends before its codeset or modifier: at
/// the first `.` or `@`.
pub open spec fn locale_end(locale: Seq<char>) -> nat
    decreases locale.len(),
{
    if locale.len() == 0 || locale.first() == '.' || locale.first() == '@' {
        0
    } else {
        1 + locale_end(locale.drop_first())
    }
}

/// The language tag of a POSIX locale: its language and territory, joined by
/// `-` ("de-DE" of "de_DE.UTF-8"). The locales "C" and "POSIX", and the empty
/// one, stand for no language.
pub open spec fn locale_language(locale: Seq<char>) -> Option<Seq<char>> {
    let name = locale.take(locale_end(locale) as int);
    if name.len() == 0 || name == "C"@ || name == "POSIX"@ {
        None
    } else {
        Some(
            name.map_values(
                |c: char|
                    if c == '_' {
                        '-'
                    } else {
                        c
                    },
            ),
        )
    }
}

/// An index that ends at a `.` or `@`, or at the end, with none before it, is
/// where the name of the locale ends.
proof fn lemma_locale_end(locale: Seq<char>, n: int)
    requires
        0 <= n <= locale.len(),
        n < locale.len() ==> locale[n] == '.' || locale[n] == '@',
        forall|i: int| 0 <= i < n ==> locale[i] != '.' && locale[i] != '@',
    ensures
        locale_end(locale) == n,
    decreases locale.len(),
{
    if n > 0 {
        let rest = locale.drop_first();
        assert forall|i: int| 0 <= i < n - 1 implies rest[i] != '.' && rest[i] != '@' by {
            assert(rest[i] == locale[i + 1]);
        }
        lemma_locale_end(rest, n - 1);
    }
}

/// The language tag of the device's POSIX locale, if it names one.
pub fn language_of_locale(locale: &str) -> (tag: Option<String>)
    ensures
        opt_text(tag) == locale_language(locale@),
{
    let v = chars_of(locale);
    let mut name: Vec<char> = Vec::new();
    let mut tag: Vec<char> = Vec::new();
    while name.len() < v.len() && v[name.len()] != '.' && v[name.len()] != '@'
        invariant
            v@ == locale@,
            name@.len() <= v@.len(),
            name@ == v@.take(name@.len() as int),
            forall|i: int| 0 <= i < name@.len() ==> v@[i] != '.' && v@[i] != '@',
            tag@ == name@.map_values(
                |c: char|
                    if c == '_' {
                        '-'
                    } else {
                        c
                    },
            ),
        decreases v@.len() - name@.len(),
    {
        let c: char = v[name.len()];
        tag.push(
            if c == '_' {
                '-'
            } else {
                c
            },
        );
        name.push(c);
        assert(name@ =~= v@.take(name@.len() as int));
        assert(tag@ =~= name@.map_values(
            |c: char|
                if c == '_' {
                    '-'
                } else {
                    c
                },
        ));
    }
    proof {
        lemma_locale_end(locale@, name@.len() as int);
    }
    let text = string_of(&name);
    if name.len() == 0 || same_text(text.as_str(), "C") || same_text(text.as_str(), "POSIX") {
        None
    } else {
        Some(string_of(&tag))
    }
}

/// Whether a marker file with this content (if it could be read) makes the
/// model with this checksum count as installed.
pub open spec fn marker_complete(recorded: Option<Seq<char>>, md5: Seq<char>) -> bool {
    match recorded {
        Some(text) => same_ignoring_case(trimmed(text), md5),
        None => false,
    }
}

/// True if the marker read from a model directory, if there was one, records
/// a completely installed model for `expected_md5`.
pub fn model_is_complete(recorded: &Option<String>, expected_md5: &str) -> (complete: bool)
    ensures
        complete == marker_complete(opt_text(*recorded), expected_md5@),
{
    match recorded {
        Some(text) => eq_ignore_ascii_case(trim(text.as_str()).as_str(), expected_md5),
        None => false,
    }
}

impl ModelSpec {
    /// True if this model is completely installed, going by the marker read
    /// from its directory, if there was one.
    pub fn is_installed_in(&self, recorded: &Option<String>) -> (installed: bool)
        ensures
            installed == marker_complete(opt_text(*recorded), self@.md5),
    {
        model_is_complete(recorded, self.md5)
    }

    /// The name of the file in the staging directory that the archive is
    /// downloaded to.
    pub fn archive_file_name(&self) -> (file: String)
        ensures
            file@ == self@.name + ".zip.part"@,
    {
        let mut file = String::from_str(self.name);
        file.append(".zip.part");
        file
    }

    /// The name of the directory in the staging directory that the archive is
    /// unpacked into.
    pub fn extract_dir_name(&self) -> (dir: String)
        ensures
            dir@ == self@.name + "-extract"@,
    {
        let mut dir = String::from_str(self.name);
        dir.append("-extract");
        dir
    }
}

/// The display name of a language; the code itself where none is known.
pub open spec fn display_name(code: Seq<char>) -> Seq<char> {
    if code == "en-US"@ {
        "English (United States)"@
    } else if code == "pt-BR"@ {
        "Portuguese (Brazil)"@
    } else if code == "es-ES"@ {
        "Spanish (Spain)"@
    } else if code == "fr-FR"@ {
        "French (France)"@
    } else if code == "de-DE"@ {
        "German (Germany)"@
    } else if code == "ru-RU"@ {
        "Russian (Russia)"@
    } else if code == "zh-CN"@ {
        "Chinese (Simplified)"@
    } else if code == "ja-JP"@ {
        "Japanese (Japan)"@
    } else if code == "it-IT"@ {
        "Italian (Italy)"@
    } else {
        code
    }
}

/// The human-readable name of a language code.
pub fn get_language_display_name(code: &str) -> (name: String)
    ensures
        name@ == display_name(code@),
{
    if same_text(code, "en-US") {
        String::from_str("English (United States)")
    } else if same_text(code, "pt-BR") {
        String::from_str("Portuguese (Brazil)")
    } else if same_text(code, "es-ES") {
        String::from_str("Spanish (Spain)")
    } else if same_text(code, "fr-FR") {
        String::from_str("French (France)")
    } else if same_text(code, "de-DE") {
        String::from_str("German (Germany)")
    } else if same_text(code, "ru-RU") {
        String::from_str("Russian (Russia)")
    } else if same_text(code, "zh-CN") {
        String::from_str("Chinese (Simplified)")
    } else if same_text(code, "ja-JP") {
        String::from_str("Japanese (Japan)")
    } else if same_text(code, "it-IT") {
        String::from_str("Italian (Italy)")
    } else {
        String::from_str(code)
    }
}

/// Whether `language` is what the plugin reports of the model `info`, given
/// the marker read from its directory.
pub open spec fn describes(
    language: SupportedLanguage,
    info: ModelInfo,
    recorded: Option<Seq<char>>,
) -> bool {
    &&& language.code@ == info.lang
    &&& language.name@ == display_name(info.lang)
    &&& language.installed == Some(marker_complete(recorded, info.md5))
}

/// The supported languages in the order of the catalog, each with its display
/// name and whether its model is installed, going by the markers read from
/// the model directories, in the same order.
pub fn supported_languages(recorded: &Vec<Option<String>>) -> (response:
    SupportedLanguagesResponse)
    requires
        recorded@.len() == catalog().len(),
    ensures
        response.languages@.len() == catalog().len(),
        forall|i: int|
            0 <= i < catalog().len() ==> describes(
                #[trigger] response.languages@[i],
                catalog()[i],
                opt_text(recorded@[i]),
            ),
{
    let models = available_models();
    let mut languages: Vec<SupportedLanguage> = Vec::new();
    for i in 0..models.len()
        invariant
            models@.len() == catalog().len() == recorded@.len(),
            forall|j: int| 0 <= j < models@.len() ==> #[trigger] models@[j]@ == catalog()[j],
            languages@.len() == i,
            forall|j: int|
                0 <= j < i ==> describes(
                    #[trigger] languages@[j],
                    catalog()[j],
                    opt_text(recorded@[j]),
                ),
    {
        assert(models@[i as int]@ == catalog()[i as int]);
        languages.push(
            SupportedLanguage {
                code: String::from_str(models[i].lang),
                name: get_language_display_name(models[i].lang),
                installed: Some(models[i].is_installed_in(&recorded[i])),
            },
        );
    }
    SupportedLanguagesResponse { languages }
}

/// Whether a tag is in the language `code`: the code itself, or the code with
/// a region after a `-`.
pub open spec fn speaks(tag: Seq<char>, code: Seq<char>) -> bool {
    ||| tag == code
    ||| tag.len() > code.len() && tag.take(code.len() as int) == code && tag[code.len() as int]
        == '-'
}

/// Whether a tag is in none of the languages on offer.
pub open spec fn speaks_no_listed_language(tag: Seq<char>) -> bool {
    &&& !speaks(tag, "en"@)
    &&& !speaks(tag, "pt"@)
    &&& !speaks(tag, "es"@)
    &&& !speaks(tag, "fr"@)
    &&& !speaks(tag, "de"@)
    &&& !speaks(tag, "ru"@)
    &&& !speaks(tag, "zh"@)
    &&& !speaks(tag, "ja"@)
    &&& !speaks(tag, "it"@)
}

/// Whether a request for `tag` gets the model with these properties, as one of
/// the language's own.
pub open spec fn is_served_by(
    tag: Seq<char>,
    lang: Seq<char>,
    name: Seq<char>,
    md5: Seq<char>,
    size: u64,
) -> bool {
    let model = selected_model(Some(tag));
    &&& model_for(tag) == Some(model)
    &&& model.lang == lang
    &&& model.name == name
    &&& model.url == "https://alphacephei.com/vosk/models/"@ + name + ".zip"@
    &&& model.md5 == md5
    &&& model.size == size
}

/// A tag in a language without `-` has that language as its prefix, and the
/// other way round.
proof fn lemma_speaks(tag: Seq<char>, code: Seq<char>)
    requires
        forall|i: int| 0 <= i < code.len() ==> code[i] != '-',
    ensures
        speaks(tag, code) <==> language_prefix(tag) == code,
{
    if speaks(tag, code) {
        assert forall|i: int| 0 <= i < code.len() implies tag[i] != '-' by {
            assert(tag.take(code.len() as int)[i] == tag[i] || tag == code);
        }
        lemma_prefix_len_unique(tag, code.len() as int);
        assert(language_prefix(tag) =~= code);
    }
    if language_prefix(tag) == code {
        law_language_ends_at_the_first_hyphen(tag);
        assert(tag.len() == code.len() ==> tag =~= code);
    }
}

/// What the languages on offer are, as prefixes of the catalog's tags.
proof fn lemma_listed_languages(tag: Seq<char>)
    ensures
        catalog().len() == 9,
        speaks(tag, "en"@) <==> language_prefix(tag) == language_prefix(catalog()[0].lang),
        speaks(tag, "pt"@) <==> language_prefix(tag) == language_prefix(catalog()[1].lang),
        speaks(tag, "es"@) <==> language_prefix(tag) == language_prefix(catalog()[2].lang),
        speaks(tag, "fr"@) <==> language_prefix(tag) == language_prefix(catalog()[3].lang),
        speaks(tag, "de"@) <==> language_prefix(tag) == language_prefix(catalog()[4].lang),
        speaks(tag, "ru"@) <==> language_prefix(tag) == language_prefix(catalog()[5].lang),
        speaks(tag, "zh"@) <==> language_prefix(tag) == language_prefix(catalog()[6].lang),
        speaks(tag, "ja"@) <==> language_prefix(tag) == language_prefix(catalog()[7].lang),
        speaks(tag, "it"@) <==> language_prefix(tag) == language_prefix(catalog()[8].lang),
{
    reveal_strlit("en-US");
    reveal_strlit("pt-BR");
    reveal_strlit("es-ES");
    reveal_strlit("fr-FR");
    reveal_strlit("de-DE");
    reveal_strlit("ru-RU");
    reveal_strlit("zh-CN");
    reveal_strlit("ja-JP");
    reveal_strlit("it-IT");
    reveal_strlit("en");
    reveal_strlit("pt");
    reveal_strlit("es");
    reveal_strlit("fr");
    reveal_strlit("de");
    reveal_strlit("ru");
    reveal_strlit("zh");
    reveal_strlit("ja");
    reveal_strlit("it");
    lemma_language_of_catalog(0, "en"@);
    lemma_language_of_catalog(1, "pt"@);
    lemma_language_of_catalog(2, "es"@);
    lemma_language_of_catalog(3, "fr"@);
    lemma_language_of_catalog(4, "de"@);
    lemma_language_of_catalog(5, "ru"@);
    lemma_language_of_catalog(6, "zh"@);
    lemma_language_of_catalog(7, "ja"@);
    lemma_language_of_catalog(8, "it"@);
    lemma_speaks(tag, "en"@);
    lemma_speaks(tag, "pt"@);
    lemma_speaks(tag, "es"@);
    lemma_speaks(tag, "fr"@);
    lemma_speaks(tag, "de"@);
    lemma_speaks(tag, "ru"@);
    lemma_speaks(tag, "zh"@);
    lemma_speaks(tag, "ja"@);
    lemma_speaks(tag, "it"@);
}

/// The language of a tag of the catalog is its first two letters.
proof fn lemma_language_of_catalog(i: int, code: Seq<char>)
    requires
        0 <= i < catalog().len(),
        catalog()[i].lang.len() == 5,
        code.len() == 2,
        catalog()[i].lang[0] == code[0],
        code[0] != '-',
        catalog()[i].lang[1] == code[1],
        code[1] != '-',
        catalog()[i].lang[2] == '-',
    ensures
        language_prefix(catalog()[i].lang) == code,
{
    lemma_two_letter_prefix(catalog()[i].lang);
    assert(seq![code[0], code[1]] =~= code);
}

/// Each language gets its own model, whatever the region: the one that Vosk
/// publishes for it, under its name, with its checksum and its size.
pub proof fn law_each_language_gets_its_own_model(tag: Seq<char>)
    ensures
        speaks(tag, "en"@) ==> is_served_by(
            tag,
            "en-US"@,
            "vosk-model-en-us-0.42-gigaspeech"@,
            "db1202c15b40ea4b1ec27b85a90dffbe"@,
            2_423_807_363,
        ),
        speaks(tag, "pt"@) ==> is_served_by(
            tag,
            "pt-BR"@,
            "vosk-model-pt-fb-v0.1.1-20220516_2113"@,
            "5d259cb674fd52a61c97c1e53282d4b3"@,
            1_693_530_883,
        ),
        speaks(tag, "es"@) ==> is_served_by(
            tag,
            "es-ES"@,
            "vosk-model-es-0.42"@,
            "83f83e045a4537c53ed5ed42f959bf6d"@,
            1_484_681_703,
        ),
        speaks(tag, "fr"@) ==> is_served_by(
            tag,
            "fr-FR"@,
            "vosk-model-fr-0.22"@,
            "12662b25b4d35059ec05e3a75a27841e"@,
            1_523_026_348,
        ),
        speaks(tag, "de"@) ==> is_served_by(
            tag,
            "de-DE"@,
            "vosk-model-de-0.21"@,
            "23298ddeb602739016956144ac4c74de"@,
            2_031_717_803,
        ),
        speaks(tag, "ru"@) ==> is_served_by(
            tag,
            "ru-RU"@,
            "vosk-model-ru-0.42"@,
            "ae356c0fc8879deed1982d879f40880a"@,
            1_937_602_113,
        ),
        speaks(tag, "zh"@) ==> is_served_by(
            tag,
            "zh-CN"@,
            "vosk-model-cn-0.22"@,
            "c050f6849398ceecfa723cca69b8c67d"@,
            1_358_736_686,
        ),
        speaks(tag, "ja"@) ==> is_served_by(
            tag,
            "ja-JP"@,
            "vosk-model-ja-0.22"@,
            "e7ab21ff213aff2edf1f04724487846c"@,
            1_045_975_323,
        ),
        speaks(tag, "it"@) ==> is_served_by(
            tag,
            "it-IT"@,
            "vosk-model-it-0.22"@,
            "973cf0adc17ea0acd042d079bba67a94"@,
            1_306_765_292,
        ),
{
    lemma_listed_languages(tag);
    assert forall|i: int|
        0 <= i < catalog().len() && language_prefix(tag) == language_prefix(
            #[trigger] catalog()[i].lang,
        ) implies model_for(tag) == Some(catalog()[i]) && selected_model(Some(tag)) == catalog()[i]
        && catalog()[i].url == "https://alphacephei.com/vosk/models/"@ + catalog()[i].name
        + ".zip"@ by {
        law_region_falls_back_to_language(tag, i);
        law_archives_are_pinned(i);
    }
}

/// A tag in no language on offer has no model of its own, and a request for it
/// gets the English one; so does a request for no language at all.
pub proof fn law_other_languages_get_the_english_model(tag: Seq<char>)
    requires
        speaks_no_listed_language(tag),
    ensures
        model_for(tag) is None,
        selected_model(Some(tag)).lang == "en-US"@,
        selected_model(Some(tag)).name == "vosk-model-en-us-0.42-gigaspeech"@,
        selected_model(None) == selected_model(Some(tag)),
{
    lemma_listed_languages(tag);
    assert forall|i: int| 0 <= i < catalog().len() implies language_prefix(tag) != language_prefix(
        #[trigger] catalog()[i].lang,
    ) by {}
    law_unlisted_language_gets_default(tag);
}

/// The language asked for is the one used; where none is asked for, it is the
/// device's, if there is one.
pub proof fn law_language_of_a_request(language: Seq<char>, device: Option<Seq<char>>)
    ensures
        requested_language(Some(language), device) == Some(language),
        requested_language(None, device) == device,
{
}

/// A marker counts exactly when it holds the checksum, in any case, with
/// nothing around it but white space.
pub proof fn law_marker_holds_the_checksum(text: Seq<char>, md5: Seq<char>)
    requires
        md5.len() > 0,
        forall|i: int| 0 <= i < md5.len() ==> is_hex_digit(#[trigger] md5[i]),
    ensures
        !marker_complete(None, md5),
        marker_complete(Some(text), md5) <==> exists|i: int, j: int|
            #![trigger text.subrange(i, j)]
            {
                &&& 0 <= i <= j <= text.len()
                &&& same_ignoring_case(text.subrange(i, j), md5)
                &&& forall|k: int| 0 <= k < i ==> is_white_space(#[trigger] text[k])
                &&& forall|k: int| j <= k < text.len() ==> is_white_space(#[trigger] text[k])
            },
{
    law_trimming_takes_white_space_alone(text);
    if exists|i: int, j: int|
        #![trigger text.subrange(i, j)]
        {
            &&& 0 <= i <= j <= text.len()
            &&& same_ignoring_case(text.subrange(i, j), md5)
            &&& forall|k: int| 0 <= k < i ==> is_white_space(#[trigger] text[k])
            &&& forall|k: int| j <= k < text.len() ==> is_white_space(#[trigger] text[k])
        } {
        let (i, j) = choose|i: int, j: int|
            #![trigger text.subrange(i, j)]
            {
                &&& 0 <= i <= j <= text.len()
                &&& same_ignoring_case(text.subrange(i, j), md5)
                &&& forall|k: int| 0 <= k < i ==> is_white_space(#[trigger] text[k])
                &&& forall|k: int| j <= k < text.len() ==> is_white_space(#[trigger] text[k])
            };
        let core = text.subrange(i, j);
        law_agreement_up_to_case(core, md5);
        let n = md5.len() as int;
        assert(core[0] == text[i] && core[n - 1] == text[j - 1]);
        assert(is_hex_digit(md5[0]) && is_hex_digit(md5[n - 1]));
        assert(core[0] == md5[0] || are_cases_of_a_letter(core[0], md5[0]));
        assert(core[n - 1] == md5[n - 1] || are_cases_of_a_letter(core[n - 1], md5[n - 1]));
        assert(!is_white_space(text[i]) && !is_white_space(text[j - 1]));
        let (a, b) = choose|a: int, b: int|
            #![trigger text.subrange(a, b)]
            {
                &&& 0 <= a <= b <= text.len()
                &&& trimmed(text) == text.subrange(a, b)
                &&& forall|k: int| 0 <= k < a ==> is_white_space(#[trigger] text[k])
                &&& forall|k: int| b <= k < text.len() ==> is_white_space(#[trigger] text[k])
            };
        assert(a <= i && j <= b);
        assert(trimmed(text).first() == text[a] && trimmed(text).last() == text[b - 1]);
        assert(a == i && b == j);
    }
}

/// Each language on offer has its name, and any other code is its own name.
pub proof fn law_languages_have_names(code: Seq<char>)
    ensures
        display_name("en-US"@) == "English (United States)"@,
        display_name("pt-BR"@) == "Portuguese (Brazil)"@,
        display_name("es-ES"@) == "Spanish (Spain)"@,
        display_name("fr-FR"@) == "French (France)"@,
        display_name("de-DE"@) == "German (Germany)"@,
        display_name("ru-RU"@) == "Russian (Russia)"@,
        display_name("zh-CN"@) == "Chinese (Simplified)"@,
        display_name("ja-JP"@) == "Japanese (Japan)"@,
        display_name("it-IT"@) == "Italian (Italy)"@,
        (forall|i: int| 0 <= i < catalog().len() ==> code != #[trigger] catalog()[i].lang)
            ==> display_name(code) == code,
{
    reveal_strlit("en-US");
    reveal_strlit("pt-BR");
    reveal_strlit("es-ES");
    reveal_strlit("fr-FR");
    reveal_strlit("de-DE");
    reveal_strlit("ru-RU");
    reveal_strlit("zh-CN");
    reveal_strlit("ja-JP");
    reveal_strlit("it-IT");
    let langs = seq![
        "en-US"@,
        "pt-BR"@,
        "es-ES"@,
        "fr-FR"@,
        "de-DE"@,
        "ru-RU"@,
        "zh-CN"@,
        "ja-JP"@,
        "it-IT"@,
    ];
    assert forall|i: int, j: int| 0 <= i < 9 && 0 <= j < 9 && langs[i] == langs[j] implies i
        == j by {
        assert(langs[i][0] == langs[j][0] && langs[i][1] == langs[j][1]);
    }
    assert(langs[0] == "en-US"@ && langs[1] == "pt-BR"@ && langs[2] == "es-ES"@ && langs[3]
        == "fr-FR"@ && langs[4] == "de-DE"@ && langs[5] == "ru-RU"@ && langs[6] == "zh-CN"@
        && langs[7] == "ja-JP"@ && langs[8] == "it-IT"@);
    if forall|i: int| 0 <= i < catalog().len() ==> code != #[trigger] catalog()[i].lang {
        assert(code != catalog()[0].lang && code != catalog()[1].lang && code != catalog()[2].lang
            && code != catalog()[3].lang && code != catalog()[4].lang && code != catalog()[5].lang
            && code != catalog()[6].lang && code != catalog()[7].lang && code
            != catalog()[8].lang);
    }
}

/// What is told of a language: its tag, its name, and whether the marker in
/// its model's directory counts.
pub proof fn law_what_is_told_of_a_language(
    language: SupportedLanguage,
    info: ModelInfo,
    recorded: Option<Seq<char>>,
)
    ensures
        describes(language, info, recorded) <==> language.code@ == info.lang && language.name@
            == display_name(info.lang) && language.installed == Some(
            marker_complete(recorded, info.md5),
        ),
{
}

/// The language of a locale is its language and territory, whatever codeset or
/// modifier follows.
pub proof fn law_language_of_a_locale(
    language: Seq<char>,
    territory: Seq<char>,
    end: char,
    rest: Seq<char>,
)
    requires
        forall|i: int|
            0 <= i < language.len() ==> !seq!['.', '@', '_'].contains(#[trigger] language[i]),
        forall|i: int|
            0 <= i < territory.len() ==> !seq!['.', '@', '_'].contains(#[trigger] territory[i]),
        end == '.' || end == '@',
    ensures
        locale_language(language + seq!['_'] + territory) == Some(
            language + seq!['-'] + territory,
        ),
        locale_language(language + seq!['_'] + territory + seq![end] + rest) == Some(
            language + seq!['-'] + territory,
        ),
        language.len() > 0 && language != "C"@ && language != "POSIX"@ ==> locale_language(language)
            == Some(language),
{
    reveal_strlit("C");
    reveal_strlit("POSIX");
    let marks = seq!['.', '@', '_'];
    assert(marks[0] == '.' && marks[1] == '@' && marks[2] == '_');
    let tag = language + seq!['-'] + territory;
    let name = language + seq!['_'] + territory;
    let long = name + seq![end] + rest;
    let n = name.len() as int;
    assert forall|i: int| 0 <= i < n implies name[i] != '.' && name[i] != '@' by {
        if i < language.len() {
            assert(name[i] == language[i]);
            assert(!marks.contains(language[i]));
        } else if i > language.len() {
            assert(name[i] == territory[i - language.len() - 1]);
            assert(!marks.contains(territory[i - language.len() - 1]));
        }
    }
    lemma_locale_end(name, n);
    assert forall|i: int| 0 <= i < n implies long[i] != '.' && long[i] != '@' by {
        assert(long[i] == name[i]);
    }
    assert(long[n] == end);
    lemma_locale_end(long, n);
    assert(name.take(n) =~= name);
    assert(long.take(n) =~= name);
    assert(name[language.len() as int] == '_');
    assert(name != "C"@ && name != "POSIX"@) by {
        if name == "C"@ || name == "POSIX"@ {
            assert(!name.contains('_'));
        }
    }
    let widen = |c: char|
        if c == '_' {
            '-'
        } else {
            c
        };
    assert forall|i: int| 0 <= i < n implies name.map_values(widen)[i] == tag[i] by {
        if i < language.len() {
            assert(!marks.contains(language[i]));
        } else if i > language.len() {
            assert(!marks.contains(territory[i - language.len() - 1]));
        }
    }
    assert(name.map_values(widen) =~= tag);
    assert forall|i: int| 0 <= i < language.len() implies language[i] != '.' && language[i] != '@'
        && language[i] != '_' by {
        assert(!marks.contains(language[i]));
    }
    lemma_locale_end(language, language.len() as int);
    assert(language.take(language.len() as int) =~= language);
    assert(language.map_values(widen) =~= language);
}

/// The view of a model tells what it holds, as it is.
pub proof fn law_model_is_told_as_it_is(spec: ModelSpec)
    ensures
        spec@.lang == spec.lang@,
        spec@.name == spec.name@,
        spec@.url == spec.url@,
        spec@.md5 == spec.md5@,
        spec@.size == spec.size,
{
}

/// What stands before the first `.` or `@` of a locale decides alone. It names
/// no language where it is empty, "C" or "POSIX", and no other way; else the
/// language is what stands there, with `-` for each `_` and nothing else
/// changed.
pub proof fn law_which_locales_have_a_language(name: Seq<char>, end: char, rest: Seq<char>)
    requires
        !name.contains('.'),
        !name.contains('@'),
        end == '.' || end == '@',
    ensures
        locale_language(name + seq![end] + rest) == locale_language(name),
        locale_language(name) is None <==> name.len() == 0 || name == "C"@ || name == "POSIX"@,
        locale_language(name) matches Some(tag) ==> tag.len() == name.len() && forall|i: int|
            0 <= i < name.len() ==> #[trigger] tag[i] == (if name[i] == '_' {
                '-'
            } else {
                name[i]
            }),
{
    let n = name.len() as int;
    let long = name + seq![end] + rest;
    assert forall|i: int| 0 <= i < n implies name[i] != '.' && name[i] != '@' by {
        assert(name.contains(name[i]));
    }
    lemma_locale_end(name, n);
    assert forall|i: int| 0 <= i < n implies long[i] != '.' && long[i] != '@' by {
        assert(long[i] == name[i]);
    }
    assert(long[n] == end);
    lemma_locale_end(long, n);
    assert(name.take(n) =~= name);
    assert(long.take(n) =~= name);
}

/// The names under which models, markers and partial downloads are kept.
pub proof fn law_where_models_are_kept()
    ensures
        MODELS_SUBDIR@ == "tauri-plugin-stt/models"@,
        MARKER_FILE@ == ".verified-md5"@,
        STAGING_SUBDIR@ == ".incomplete"@,
{
}

} // verus!
