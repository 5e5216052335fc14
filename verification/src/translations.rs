//! The bundle of translations: which language a run speaks, whether all
//! languages have the same keys, and the template for a new language.

use crate::text::{push_chars, same_text, to_chars};
use vstd::prelude::*;
use vstd::string::StringExecFns;

verus! {

/// The lower-case form that the standard library gives a text.
pub uninterp spec fn lowercase_spec(s: Seq<char>) -> Seq<char>;

/// `str::to_lowercase` of the standard library.
#[verifier::external_body]
fn lowercase(s: &str) -> (r: String)
    ensures
        r@ == lowercase_spec(s@),
{
    s.to_lowercase()
}

/// The number of characters of `s` before its first `_` or `-`.
pub open spec fn language_len(s: Seq<char>) -> nat
    decreases s.len(),
{
    if s.len() == 0 || s[0] == '_' || s[0] == '-' {
        0
    } else {
        1 + language_len(s.skip(1))
    }
}

/// The language that a run speaks: the configured one in lower case; where
/// that is `auto`, the language part of the locale in lower case, and `en`
/// where no locale is known.
pub open spec fn language_code_spec(configured: Seq<char>, locale: Option<Seq<char>>) -> Seq<char> {
    if configured == "auto"@ {
        match locale {
            Some(l) => lowercase_spec(l.take(language_len(l) as int)),
            None => "en"@,
        }
    } else {
        lowercase_spec(configured)
    }
}

/// Chooses the language of a run from the configuration and the locale of
/// the system.
pub fn language_code(configured: &str, locale: Option<&str>) -> (code: String)
    ensures
        code@ == language_code_spec(
            configured@,
            match locale {
                Some(l) => Some(l@),
                None => None,
            },
        ),
{
    if same_text(configured, "auto") {
        match locale {
            Some(l) => {
                let v = to_chars(l);
                let mut n: usize = 0;
                proof {
                    assert(v@.skip(0) =~= v@);
                }
                while n < v.len() && v[n] != '_' && v[n] != '-'
                    invariant
                        n <= v.len(),
                        language_len(v@) == n + language_len(v@.skip(n as int)),
                    decreases v.len() - n,
                {
                    proof {
                        assert(v@.skip(n as int).skip(1) =~= v@.skip(n + 1));
                    }
                    n = n + 1;
                }
                let mut part = String::new();
                push_chars(&mut part, &v, 0, n);
                proof {
                    assert(part@ =~= v@.take(n as int));
                }
                lowercase(part.as_str())
            },
            None => String::from_str("en"),
        }
    } else {
        lowercase(configured)
    }
}

/// Which entry of the bundle a run takes its texts from.
#[derive(Clone, Copy, Debug, PartialEq, Eq, Structural)]
pub enum Selection {
    /// The entry at this index is in the language asked for.
    Found(usize),
    /// The language asked for is not in the bundle; the entry at this index
    /// is the English one.
    Fallback(usize),
    /// Neither the language asked for nor English is in the bundle.
    Missing,
}

/// `i` is the first index at which `codes` holds `code`.
pub open spec fn first_index_of(codes: Seq<String>, code: Seq<char>, i: int) -> bool {
    &&& 0 <= i < codes.len()
    &&& codes[i]@ == code
    &&& forall|j: int| 0 <= j < i ==> codes[j]@ != code
}

/// `codes` holds `code`.
pub open spec fn has_code(codes: Seq<String>, code: Seq<char>) -> bool {
    exists|i: int| 0 <= i < codes.len() && (#[trigger] codes[i])@ == code
}

fn index_of(codes: &Vec<String>, code: &str) -> (r: Option<usize>)
    ensures
        match r {
            Some(i) => first_index_of(codes@, code@, i as int),
            None => !has_code(codes@, code@),
        },
{
    let mut i: usize = 0;
    while i < codes.len()
        invariant
            i <= codes.len(),
            forall|j: int| 0 <= j < i ==> (#[trigger] codes@[j])@ != code@,
        decreases codes.len() - i,
    {
        if same_text(codes[i].as_str(), code) {
            return Some(i);
        }
        i = i + 1;
    }
    None
}

/// Finds the texts for the language `code` among the languages of the
/// bundle, falling back to English.
pub fn select_language(codes: &Vec<String>, code: &str) -> (r: Selection)
    ensures
        match r {
            Selection::Found(i) => first_index_of(codes@, code@, i as int),
            Selection::Fallback(i) => !has_code(codes@, code@) && first_index_of(codes@, "en"@, i as int),
            Selection::Missing => !has_code(codes@, code@) && !has_code(codes@, "en"@),
        },
{
    match index_of(codes, code) {
        Some(i) => Selection::Found(i),
        None => match index_of(codes, "en") {
            Some(i) => Selection::Fallback(i),
            None => Selection::Missing,
        },
    }
}

/// The views of a sequence of texts.
pub open spec fn text_views(texts: Seq<String>) -> Seq<Seq<char>> {
    Seq::new(texts.len(), |i: int| texts[i]@)
}

/// The members of the first `n` of `keys` that `others` does not hold, in order.
pub open spec fn lacking(keys: Seq<Seq<char>>, others: Seq<Seq<char>>, n: int) -> Seq<Seq<char>>
    decreases n,
{
    if n <= 0 {
        Seq::empty()
    } else if others.contains(keys[n - 1]) {
        lacking(keys, others, n - 1)
    } else {
        lacking(keys, others, n - 1).push(keys[n - 1])
    }
}

/// All members of `keys` that `others` does not hold, in order.
pub open spec fn all_lacking(keys: Seq<Seq<char>>, others: Seq<Seq<char>>) -> Seq<Seq<char>> {
    lacking(keys, others, keys.len() as int)
}

fn holds(keys: &Vec<String>, key: &str) -> (r: bool)
    ensures
        r == text_views(keys@).contains(key@),
{
    let mut i: usize = 0;
    while i < keys.len()
        invariant
            i <= keys.len(),
            forall|j: int| 0 <= j < i ==> text_views(keys@)[j] != key@,
        decreases keys.len() - i,
    {
        if same_text(keys[i].as_str(), key) {
            proof {
                assert(text_views(keys@)[i as int] == key@);
            }
            return true;
        }
        i = i + 1;
    }
    false
}

/// The keys of `keys` that `others` lacks, in the order of `keys`.
pub fn keys_lacking(keys: &Vec<String>, others: &Vec<String>) -> (r: Vec<String>)
    ensures
        text_views(r@) == all_lacking(text_views(keys@), text_views(others@)),
{
    let mut r: Vec<String> = Vec::new();
    let mut i: usize = 0;
    proof {
        assert(text_views(r@) =~= lacking(text_views(keys@), text_views(others@), 0));
    }
    while i < keys.len()
        invariant
            i <= keys.len(),
            text_views(r@) == lacking(text_views(keys@), text_views(others@), i as int),
        decreases keys.len() - i,
    {
        let ghost before = text_views(r@);
        proof {
            assert(text_views(keys@)[i as int] == keys@[i as int]@);
        }
        if !holds(others, keys[i].as_str()) {
            r.push(keys[i].clone());
            proof {
                assert(text_views(r@) =~= before.push(keys@[i as int]@));
            }
        }
        i = i + 1;
    }
    r
}

/// One language of the bundle: its code and its table of keys and texts,
/// `None` where the entry is no table.
#[derive(Clone, Debug)]
pub struct Language {
    pub code: String,
    pub table: Option<Vec<(String, String)>>,
}

/// The keys of a language, in order; none where its entry is no table.
pub open spec fn language_keys(language: Language) -> Seq<Seq<char>> {
    match language.table {
        Some(table) => Seq::new(table@.len(), |i: int| table@[i].0@),
        None => Seq::empty(),
    }
}

fn keys_of(language: &Language) -> (keys: Vec<String>)
    ensures
        text_views(keys@) == language_keys(*language),
{
    let mut keys: Vec<String> = Vec::new();
    match &language.table {
        Some(table) => {
            let mut i: usize = 0;
            while i < table.len()
                invariant
                    i <= table.len(),
                    keys@.len() == i,
                    forall|j: int| 0 <= j < i ==> (#[trigger] keys@[j])@ == table@[j].0@,
                decreases table.len() - i,
            {
                keys.push(table[i].0.clone());
                i = i + 1;
            }
        },
        None => {},
    }
    proof {
        assert(text_views(keys@) =~= language_keys(*language));
    }
    keys
}

/// How the keys of one language differ from those of the reference.
#[derive(Clone, Debug, PartialEq, Eq)]
pub struct KeyMismatch {
    /// The language.
    pub code: String,
    /// Keys of the reference that the language lacks.
    pub missing: Vec<String>,
    /// Keys of the language that the reference lacks.
    pub extra: Vec<String>,
}

/// A `KeyMismatch` as plain values.
pub struct KeyMismatchView {
    pub code: Seq<char>,
    pub missing: Seq<Seq<char>>,
    pub extra: Seq<Seq<char>>,
}

impl View for KeyMismatch {
    type V = KeyMismatchView;

    open spec fn view(&self) -> KeyMismatchView {
        KeyMismatchView {
            code: self.code@,
            missing: text_views(self.missing@),
            extra: text_views(self.extra@),
        }
    }
}

/// The views of a sequence of mismatches.
pub open spec fn mismatch_views(mismatches: Seq<KeyMismatch>) -> Seq<KeyMismatchView> {
    Seq::new(mismatches.len(), |i: int| mismatches[i]@)
}

/// Why the bundle cannot be checked or a template cannot be made.
#[derive(Clone, Debug, PartialEq, Eq)]
pub enum BundleError {
    /// The bundle is no table of languages.
    NotATable,
    /// The entry of the language at this place, with this code, is no table.
    LanguageNotATable { index: usize, code: String },
    /// The bundle holds no language.
    NoLanguages,
}

/// `i` is the first language whose entry is no table.
pub open spec fn first_without_table(languages: Seq<Language>, i: int) -> bool {
    &&& 0 <= i < languages.len()
    &&& languages[i].table is None
    &&& forall|j: int| 0 <= j < i ==> (#[trigger] languages[j]).table is Some
}

/// Every language has a table.
pub open spec fn all_tables(languages: Seq<Language>) -> bool {
    forall|i: int| 0 <= i < languages.len() ==> (#[trigger] languages[i]).table is Some
}

/// How language `i` differs from the reference, the first language.
pub open spec fn mismatch_at(languages: Seq<Language>, i: int) -> KeyMismatchView {
    KeyMismatchView {
        code: languages[i].code@,
        missing: all_lacking(language_keys(languages[0]), language_keys(languages[i])),
        extra: all_lacking(language_keys(languages[i]), language_keys(languages[0])),
    }
}

/// The mismatches among the first `n` languages: one for each language
/// that lacks a key of the first language or has a key that the first
/// language lacks.
pub open spec fn mismatches_spec(languages: Seq<Language>, n: int) -> Seq<KeyMismatchView>
    decreases n,
{
    if n <= 1 {
        Seq::empty()
    } else {
        let m = mismatch_at(languages, n - 1);
        if m.missing.len() == 0 && m.extra.len() == 0 {
            mismatches_spec(languages, n - 1)
        } else {
            mismatches_spec(languages, n - 1).push(m)
        }
    }
}

/// Checks that all languages of the bundle have the same keys. The first
/// language is the reference; the result lists the languages that differ
/// from it, and is empty where none does. `None` stands for a bundle that
/// is no table of languages.
pub fn validate(languages: Option<&Vec<Language>>) -> (r: Result<Vec<KeyMismatch>, BundleError>)
    ensures
        match r {
            Ok(mismatches) => languages matches Some(ls) && all_tables(ls@) && mismatch_views(
                mismatches@,
            ) == mismatches_spec(ls@, ls@.len() as int),
            Err(BundleError::NotATable) => languages is None,
            Err(BundleError::LanguageNotATable { index, code }) => languages matches Some(ls)
                && first_without_table(ls@, index as int) && code@ == ls@[index as int].code@,
            Err(BundleError::NoLanguages) => false,
        },
{
    let ls = match languages {
        Some(ls) => ls,
        None => {
            return Err(BundleError::NotATable);
        },
    };
    let mut mismatches: Vec<KeyMismatch> = Vec::new();
    if ls.len() == 0 {
        proof {
            assert(mismatch_views(mismatches@) =~= mismatches_spec(ls@, 0));
        }
        return Ok(mismatches);
    }
    if ls[0].table.is_none() {
        return Err(BundleError::LanguageNotATable { index: 0, code: ls[0].code.clone() });
    }
    let reference = keys_of(&ls[0]);
    let mut i: usize = 1;
    proof {
        assert(mismatch_views(mismatches@) =~= mismatches_spec(ls@, 1));
    }
    while i < ls.len()
        invariant
            1 <= i <= ls.len(),
            languages == Some(ls),
            text_views(reference@) == language_keys(ls@[0]),
            forall|j: int| 0 <= j < i ==> (#[trigger] ls@[j]).table is Some,
            mismatch_views(mismatches@) == mismatches_spec(ls@, i as int),
        decreases ls.len() - i,
    {
        let language = &ls[i];
        if language.table.is_none() {
            return Err(BundleError::LanguageNotATable { index: i, code: language.code.clone() });
        }
        let keys = keys_of(language);
        let missing = keys_lacking(&reference, &keys);
        let extra = keys_lacking(&keys, &reference);
        let ghost before = mismatch_views(mismatches@);
        if missing.len() > 0 || extra.len() > 0 {
            let m = KeyMismatch { code: language.code.clone(), missing, extra };
            proof {
                assert(m@ == mismatch_at(ls@, i as int));
            }
            mismatches.push(m);
            proof {
                assert(mismatch_views(mismatches@) =~= before.push(mismatch_at(ls@, i as int)));
            }
        }
        i = i + 1;
    }
    Ok(mismatches)
}

/// `i` is the first language with the code `code`.
pub open spec fn first_with_code(languages: Seq<Language>, code: Seq<char>, i: int) -> bool {
    &&& 0 <= i < languages.len()
    &&& languages[i].code@ == code
    &&& forall|j: int| 0 <= j < i ==> (#[trigger] languages[j]).code@ != code
}

/// Some language has the code `code`.
pub open spec fn has_language(languages: Seq<Language>, code: Seq<char>) -> bool {
    exists|i: int| 0 <= i < languages.len() && (#[trigger] languages[i]).code@ == code
}

fn find_language(languages: &Vec<Language>, code: &str) -> (r: Option<usize>)
    ensures
        match r {
            Some(i) => first_with_code(languages@, code@, i as int),
            None => !has_language(languages@, code@),
        },
{
    let mut i: usize = 0;
    while i < languages.len()
        invariant
            i <= languages.len(),
            forall|j: int| 0 <= j < i ==> (#[trigger] languages@[j]).code@ != code@,
        decreases languages.len() - i,
    {
        if same_text(languages[i].code.as_str(), code) {
            return Some(i);
        }
        i = i + 1;
    }
    None
}

/// Whether the table of the language `lang` may be put into the bundle: a
/// language that the bundle has is replaced only where that is forced.
pub fn may_apply(languages: &Vec<Language>, lang: &str, force: bool) -> (r: bool)
    ensures
        r == (force || !has_language(languages@, lang@)),
{
    if force {
        true
    } else {
        find_language(languages, lang).is_none()
    }
}

/// The language that a template is made after: English where the bundle
/// has it, the first language otherwise.
pub open spec fn is_reference(languages: Seq<Language>, i: int) -> bool {
    if has_language(languages, "en"@) {
        first_with_code(languages, "en"@, i)
    } else {
        i == 0 && languages.len() > 0
    }
}

/// `template` is the template made after `table`: the same keys in the
/// same order, each with the text of the table where `keep_texts` holds and
/// with an empty text otherwise.
pub open spec fn template_fits(
    template: Seq<(String, String)>,
    table: Seq<(String, String)>,
    keep_texts: bool,
) -> bool {
    &&& template.len() == table.len()
    &&& forall|i: int|
        0 <= i < table.len() ==> (#[trigger] template[i]).0@ == table[i].0@ && template[i].1@ == (
        if keep_texts {
            table[i].1@
        } else {
            Seq::empty()
        })
}

/// Makes the table for a new language: the keys of English, or of the first
/// language where the bundle has no English. With `fill_en` the English
/// texts are kept as a start; otherwise, and where the bundle has no
/// English, every text is empty. `None` stands for a bundle that is no
/// table of languages.
pub fn build_template(languages: Option<&Vec<Language>>, fill_en: bool) -> (r: Result<
    Vec<(String, String)>,
    BundleError,
>)
    ensures
        match r {
            Ok(template) => languages matches Some(ls) && exists|i: int|
                #[trigger] is_reference(ls@, i) && ls@[i].table is Some && template_fits(
                    template@,
                    ls@[i].table->0@,
                    fill_en && has_language(ls@, "en"@),
                ),
            Err(BundleError::NotATable) => languages is None,
            Err(BundleError::NoLanguages) => languages matches Some(ls) && ls@.len() == 0,
            Err(BundleError::LanguageNotATable { index, code }) => languages matches Some(ls)
                && is_reference(ls@, index as int) && ls@[index as int].table is None && code@
                == ls@[index as int].code@,
        },
{
    let ls = match languages {
        Some(ls) => ls,
        None => {
            return Err(BundleError::NotATable);
        },
    };
    let english = find_language(ls, "en");
    let index: usize = match english {
        Some(i) => i,
        None => {
            if ls.len() == 0 {
                return Err(BundleError::NoLanguages);
            }
            0
        },
    };
    proof {
        if english is Some {
            assert(has_language(ls@, "en"@));
        }
        assert(is_reference(ls@, index as int));
    }
    let keep_texts = fill_en && english.is_some();
    match &ls[index].table {
        None => Err(BundleError::LanguageNotATable { index, code: ls[index].code.clone() }),
        Some(table) => {
            let mut template: Vec<(String, String)> = Vec::new();
            let mut i: usize = 0;
            while i < table.len()
                invariant
                    i <= table.len(),
                    template@.len() == i,
                    forall|j: int|
                        0 <= j < i ==> (#[trigger] template@[j]).0@ == table@[j].0@ && template@[j].1@
                            == (if keep_texts {
                            table@[j].1@
                        } else {
                            Seq::empty()
                        }),
                decreases table.len() - i,
            {
                let text = if keep_texts {
                    table[i].1.clone()
                } else {
                    String::new()
                };
                template.push((table[i].0.clone(), text));
                i = i + 1;
            }
            Ok(template)
        },
    }
}

} // verus!
