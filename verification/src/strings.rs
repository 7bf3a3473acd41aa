//! The application's own words.
//!
//! A view names its words by a key. The string table, which has them in each
//! language, is handed in.

use vstd::prelude::*;

use crate::domain::Language;

verus! {

/// Whether a string table can be asked for any key in any language.
pub open spec fn is_table<F: Fn(&'static str, Language) -> &'static str>(table: F) -> bool {
    forall|key: &'static str, language: Language| #[trigger] call_requires(table, (key, language))
}

/// Whether a string table gives `words` for a key in a language.
pub open spec fn reads<F: Fn(&'static str, Language) -> &'static str>(
    table: F,
    key: Seq<char>,
    language: Language,
    words: Seq<char>,
) -> bool {
    exists|k: &'static str, w: &'static str|
        k@ == key && w@ == words && #[trigger] call_ensures(table, (k, language), w)
}

/// The words for a key in a language.
pub fn translate<F: Fn(&'static str, Language) -> &'static str>(
    table: &F,
    key: &'static str,
    language: Language,
) -> (r: &'static str)
    requires
        is_table(*table),
    ensures
        reads(*table, key@, language, r@),
{
    table(key, language)
}

} // verus!
