//! Provider configuration and model discovery.
//!
//! Credentials stay in the keychain. Pi is handed a `models.json` that names the
//! environment variable of each key and never the key itself.

use std::collections::HashMap;
use vstd::prelude::*;

use crate::domain::{
    plain_model, LevelName, LevelNameView, ProviderId, ProviderModel, ProviderModelView,
    ProviderProfile, ProviderProtocol, ProviderView, SearchEngineId, SearchEngineProfile,
    SearchEngineView,
};
use crate::ids::{
    hyphenated, hyphenated_text, lemma_simple_injective, simple, simple_text,
};
use crate::json::{
    lemma_put_is_found, lookup, member_list, put, put_member, Json, JsonView,
};
use crate::keyed::TextMap;
use crate::protocol::{or_str, or_text};
use crate::text::{
    blank, cat2, cat3, comes_before, decimal, decimal_string, ends_with, has_prefix, has_suffix,
    is_blank, lemma_order_is_total, lemma_order_is_transitive, lowercase, lowered, opt_str,
    precedes, same, starts_with, strip_prefix, trim, trim_end_of, trim_start_of, trimmed,
    trimmed_end_of, trimmed_start_of,
};
use crate::views::{keep_map, lemma_keep_map_step, lemma_views_push, opt_view, views};

verus! {

broadcast use vstd::std_specs::hash::group_hash_axioms;

/// The keychain account of a provider's key.
pub open spec fn provider_account(id: ProviderId) -> Seq<char> {
    "provider-api-key-"@ + hyphenated(id)
}

/// The keychain account of a provider's key.
pub fn provider_keychain_account(id: ProviderId) -> (r: String)
    ensures
        r@ == provider_account(id),
{
    cat2("provider-api-key-", hyphenated_text(id).as_str())
}

/// The keychain account of a search engine's key.
pub open spec fn search_engine_account(id: SearchEngineId) -> Seq<char> {
    "search-engine-api-key-"@ + hyphenated(id)
}

/// The keychain account of a search engine's key.
pub fn search_engine_keychain_account(id: SearchEngineId) -> (r: String)
    ensures
        r@ == search_engine_account(id),
{
    cat2("search-engine-api-key-", hyphenated_text(id).as_str())
}

/// The environment variable that a provider's key is handed over in.
pub open spec fn environment_name(id: ProviderId) -> Seq<char> {
    "PI_WHIM_PROVIDER_"@ + simple(id)
}

/// The environment variable that a provider's key is handed over in.
pub fn provider_environment_name(id: ProviderId) -> (r: String)
    ensures
        r@ == environment_name(id),
{
    cat2("PI_WHIM_PROVIDER_", simple_text(id).as_str())
}

/// What Pi calls a provider.
pub open spec fn config_key(id: ProviderId) -> Seq<char> {
    "pi-whim-"@ + simple(id)
}

/// What Pi calls a provider.
pub fn provider_config_key(id: ProviderId) -> (r: String)
    ensures
        r@ == config_key(id),
{
    cat2("pi-whim-", simple_text(id).as_str())
}

/// The part behind a common start tells two texts apart.
proof fn lemma_behind_prefix(p: Seq<char>, a: Seq<char>, b: Seq<char>)
    requires
        p + a == p + b,
    ensures
        a == b,
{
    assert((p + a).skip(p.len() as int) =~= a);
    assert((p + b).skip(p.len() as int) =~= b);
}

/// Different identifiers are written differently, in groups too.
pub proof fn lemma_hyphenated_injective(a: u128, b: u128)
    requires
        hyphenated(a) == hyphenated(b),
    ensures
        a == b,
{
    let s = simple(a);
    let t = simple(b);
    let x = hyphenated(a);
    let y = hyphenated(b);
    assert forall|i: int| 0 <= i < 32 implies s[i] == t[i] by {
        if i < 8 {
            assert(x[i] == s[i] && y[i] == t[i]);
        } else if i < 12 {
            assert(x[i + 1] == s[i] && y[i + 1] == t[i]);
        } else if i < 16 {
            assert(x[i + 2] == s[i] && y[i + 2] == t[i]);
        } else if i < 20 {
            assert(x[i + 3] == s[i] && y[i + 3] == t[i]);
        } else {
            assert(x[i + 4] == s[i] && y[i + 4] == t[i]);
        }
    }
    assert(s =~= t);
    lemma_simple_injective(a, b);
}

/// Two providers share no keychain account, no environment variable and no
/// configuration key.
pub proof fn lemma_provider_names_differ(a: ProviderId, b: ProviderId)
    requires
        a != b,
    ensures
        provider_account(a) != provider_account(b),
        search_engine_account(a) != search_engine_account(b),
        environment_name(a) != environment_name(b),
        config_key(a) != config_key(b),
{
    if provider_account(a) == provider_account(b) {
        lemma_behind_prefix("provider-api-key-"@, hyphenated(a), hyphenated(b));
        lemma_hyphenated_injective(a, b);
    }
    if search_engine_account(a) == search_engine_account(b) {
        lemma_behind_prefix("search-engine-api-key-"@, hyphenated(a), hyphenated(b));
        lemma_hyphenated_injective(a, b);
    }
    if environment_name(a) == environment_name(b) {
        lemma_behind_prefix("PI_WHIM_PROVIDER_"@, simple(a), simple(b));
        lemma_simple_injective(a, b);
    }
    if config_key(a) == config_key(b) {
        lemma_behind_prefix("pi-whim-"@, simple(a), simple(b));
        lemma_simple_injective(a, b);
    }
}

/// A provider and a search engine share no keychain account.
pub proof fn lemma_accounts_are_apart(provider: ProviderId, engine: SearchEngineId)
    ensures
        provider_account(provider) != search_engine_account(engine),
{
    reveal_strlit("provider-api-key-");
    reveal_strlit("search-engine-api-key-");
    assert(provider_account(provider)[0] == 'p');
    assert(search_engine_account(engine)[0] == 's');
}

/// What the keychain said of one account.
pub type KeyAnswer = Result<Option<String>, String>;

/// What an answer of the keychain holds.
pub open spec fn answer_view(answer: KeyAnswer) -> Result<Option<Seq<char>>, Seq<char>> {
    match answer {
        Ok(key) => Ok(opt_view(key)),
        Err(error) => Err(error@),
    }
}

/// What a list of answers holds.
pub open spec fn answer_views(answers: Seq<KeyAnswer>) -> Seq<
    Result<Option<Seq<char>>, Seq<char>>,
> {
    answers.map_values(|answer: KeyAnswer| answer_view(answer))
}

/// Whether `answers` are what `get_key` said when it was asked for `ids` one after
/// the other, up to the first failure.
pub open spec fn were_answered<F: Fn(u128) -> KeyAnswer>(
    get_key: F,
    ids: Seq<u128>,
    answers: Seq<KeyAnswer>,
) -> bool {
    &&& answers.len() <= ids.len()
    &&& forall|i: int|
        0 <= i < answers.len() ==> call_ensures(get_key, (ids[i],), #[trigger] answers[i])
    &&& forall|i: int| 0 <= i < answers.len() - 1 ==> (#[trigger] answers[i]) is Ok
    &&& answers.len() < ids.len() ==> answers.len() > 0 && answers.last() is Err
}

/// Asks for each of `ids` in turn, up to the first failure.
fn ask_for_keys<F: Fn(u128) -> KeyAnswer>(get_key: &F, ids: &Vec<u128>) -> (r: Vec<KeyAnswer>)
    requires
        forall|i: int| 0 <= i < ids@.len() ==> call_requires(*get_key, (#[trigger] ids@[i],)),
    ensures
        were_answered(*get_key, ids@, r@),
{
    let mut answers: Vec<KeyAnswer> = Vec::new();
    let mut i: usize = 0;
    while i < ids.len()
        invariant
            i <= ids@.len(),
            answers@.len() == i,
            forall|k: int| 0 <= k < ids@.len() ==> call_requires(*get_key, (#[trigger] ids@[k],)),
            forall|k: int|
                0 <= k < i ==> call_ensures(*get_key, (ids@[k],), #[trigger] answers@[k]),
            forall|k: int| 0 <= k < i ==> (#[trigger] answers@[k]) is Ok,
        decreases ids@.len() - i,
    {
        let answer = get_key(ids[i]);
        let failed = answer.is_err();
        answers.push(answer);
        if failed {
            return answers;
        }
        i = i + 1;
    }
    answers
}

/// The keys of search engines, by engine.
pub struct SearchEngineApiKeys {
    keys: HashMap<SearchEngineId, String>,
}

impl View for SearchEngineApiKeys {
    type V = Map<SearchEngineId, Seq<char>>;

    closed spec fn view(&self) -> Map<SearchEngineId, Seq<char>> {
        self.keys@.map_values(|key: String| key@)
    }
}

impl SearchEngineApiKeys {
    /// No keys.
    pub fn new() -> (r: SearchEngineApiKeys)
        ensures
            r@ == Map::<SearchEngineId, Seq<char>>::empty(),
    {
        let r = SearchEngineApiKeys { keys: HashMap::new() };
        proof {
            assert(r@ =~= Map::<SearchEngineId, Seq<char>>::empty());
        }
        r
    }

    /// Keeps the key of an engine.
    pub fn insert(&mut self, id: SearchEngineId, key: String)
        ensures
            final(self)@ == old(self)@.insert(id, key@),
    {
        let ghost before = self@;
        let ghost text = key@;
        let _ = self.keys.insert(id, key);
        proof {
            assert(self@ =~= before.insert(id, text));
        }
    }

    /// The key of an engine.
    pub fn get(&self, id: SearchEngineId) -> (r: Option<&str>)
        ensures
            match r {
                Some(key) => self@.contains_key(id) && self@[id] == key@,
                None => !self@.contains_key(id),
            },
    {
        match self.keys.get(&id) {
            Some(key) => Some(key.as_str()),
            None => None,
        }
    }

    /// How many engines have a key.
    pub fn len(&self) -> (r: usize)
        ensures
            r == self@.dom().len(),
    {
        proof {
            assert(self@.dom() =~= self.keys@.dom());
        }
        self.keys.len()
    }

    /// What may be written of the keys: how many there are.
    pub fn redacted(&self) -> (r: String)
        ensures
            r@ == "SearchEngineApiKeys { len: "@ + decimal(self@.dom().len()) + " }"@,
    {
        cat3("SearchEngineApiKeys { len: ", decimal_string(self.len() as u64).as_str(), " }")
    }
}

/// The engines that a key is asked for.
pub open spec fn keyed_engines(profiles: Seq<SearchEngineView>) -> Seq<SearchEngineId> {
    keep_map(
        profiles,
        |profile: SearchEngineView|
            if profile.kind.needs_key() {
                Some(profile.id)
            } else {
                None
            },
    )
}

/// The keys that were found, without white space around them.
pub open spec fn found_keys(
    ids: Seq<SearchEngineId>,
    answers: Seq<Result<Option<Seq<char>>, Seq<char>>>,
) -> Map<SearchEngineId, Seq<char>>
    decreases answers.len(),
{
    if answers.len() == 0 {
        Map::empty()
    } else {
        let before = found_keys(ids, answers.drop_last());
        match answers.last() {
            Ok(Some(key)) => if is_blank(key) {
                before
            } else {
                before.insert(ids[answers.len() - 1], trim(key))
            },
            _ => before,
        }
    }
}

/// What the answers for `ids` come to: the failure that they end in, or the keys.
pub open spec fn engine_keys(
    ids: Seq<SearchEngineId>,
    answers: Seq<Result<Option<Seq<char>>, Seq<char>>>,
) -> Result<Map<SearchEngineId, Seq<char>>, Seq<char>> {
    if answers.len() > 0 && answers.last() is Err {
        Err(answers.last()->Err_0)
    } else {
        Ok(found_keys(ids, answers))
    }
}

/// What the answers for `ids` come to.
pub fn search_engine_keys(ids: &Vec<SearchEngineId>, answers: &Vec<KeyAnswer>) -> (r: Result<
    SearchEngineApiKeys,
    String,
>)
    requires
        answers@.len() <= ids@.len(),
    ensures
        match r {
            Ok(keys) => engine_keys(ids@, answer_views(answers@)) == Ok::<_, Seq<char>>(keys@),
            Err(error) => engine_keys(ids@, answer_views(answers@)) == Err::<
                Map<SearchEngineId, Seq<char>>,
                _,
            >(error@),
        },
{
    let ghost all = answer_views(answers@);
    let mut keys = SearchEngineApiKeys::new();
    let mut i: usize = 0;
    proof {
        assert(all.take(0) =~= Seq::empty());
    }
    while i < answers.len()
        invariant
            i <= answers@.len() <= ids@.len(),
            all == answer_views(answers@),
            keys@ == found_keys(ids@, all.take(i as int)),
            0 < i == answers@.len() ==> answers@[i - 1] is Ok,
        decreases answers@.len() - i,
    {
        proof {
            assert(all.take(i + 1).drop_last() =~= all.take(i as int));
            assert(all.take(i + 1).last() == answer_view(answers@[i as int]));
        }
        match &answers[i] {
            Ok(Some(key)) => {
                if !blank(key.as_str()) {
                    keys.insert(ids[i], trimmed(key.as_str()));
                }
            },
            Ok(None) => {},
            Err(error) => {
                if i + 1 == answers.len() {
                    proof {
                        assert(all.last() == answer_view(answers@[i as int]));
                    }
                    return Err(error.clone());
                }
            },
        }
        i = i + 1;
    }
    proof {
        assert(all.take(i as int) =~= all);
        if all.len() > 0 {
            assert(all.last() == answer_view(answers@.last()));
        }
    }
    Ok(keys)
}

/// The keys of the engines that need one, each asked for in turn; a key that
/// cannot be read ends the search.
pub fn configured_search_engine_api_keys<F: Fn(u128) -> KeyAnswer>(
    profiles: &Vec<SearchEngineProfile>,
    get_key: F,
) -> (r: Result<SearchEngineApiKeys, String>)
    requires
        forall|id: u128| call_requires(get_key, (id,)),
    ensures
        exists|answers: Seq<KeyAnswer>| #[trigger]
            were_answered(get_key, keyed_engines(views(profiles@)), answers) && match r {
                Ok(keys) => engine_keys(keyed_engines(views(profiles@)), answer_views(answers))
                    == Ok::<_, Seq<char>>(keys@),
                Err(error) => engine_keys(keyed_engines(views(profiles@)), answer_views(answers))
                    == Err::<Map<SearchEngineId, Seq<char>>, _>(error@),
            },
{
    let ghost all = views(profiles@);
    let ghost f = |profile: SearchEngineView|
        if profile.kind.needs_key() {
            Some(profile.id)
        } else {
            None
        };
    let mut ids: Vec<u128> = Vec::new();
    let mut i: usize = 0;
    proof {
        assert(all.take(0) =~= Seq::empty());
    }
    while i < profiles.len()
        invariant
            i <= profiles@.len(),
            all == views(profiles@),
            f == (|profile: SearchEngineView|
                if profile.kind.needs_key() {
                    Some(profile.id)
                } else {
                    None
                }),
            ids@ == keep_map(all.take(i as int), f),
        decreases profiles@.len() - i,
    {
        proof {
            lemma_keep_map_step(all, f, i as int);
        }
        if profiles[i].kind.requires_api_key() {
            ids.push(profiles[i].id);
        }
        i = i + 1;
    }
    proof {
        assert(all.take(i as int) =~= all);
    }
    let answers = ask_for_keys(&get_key, &ids);
    let r = search_engine_keys(&ids, &answers);
    proof {
        assert(were_answered(get_key, keyed_engines(all), answers@));
    }
    r
}

/// What is said where no provider has a key.
pub const NO_PROVIDER_KEY: &'static str =
    "No configured provider has an API key in Keychain. Open Settings > Providers, select a provider, and save its API key.";

/// The identifiers of providers.
pub open spec fn provider_ids(profiles: Seq<ProviderView>) -> Seq<ProviderId> {
    profiles.map_values(|profile: ProviderView| profile.id)
}

/// The providers that a key was found for.
pub open spec fn keyed_profiles(
    profiles: Seq<ProviderView>,
    answers: Seq<Result<Option<Seq<char>>, Seq<char>>>,
) -> Seq<ProviderView>
    decreases answers.len(),
{
    if answers.len() == 0 {
        Seq::empty()
    } else {
        let before = keyed_profiles(profiles, answers.drop_last());
        match answers.last() {
            Ok(Some(_)) => before.push(profiles[answers.len() - 1]),
            _ => before,
        }
    }
}

/// The environment that hands over the keys that were found.
pub open spec fn key_environment(
    profiles: Seq<ProviderView>,
    answers: Seq<Result<Option<Seq<char>>, Seq<char>>>,
) -> Map<Seq<char>, Seq<char>>
    decreases answers.len(),
{
    if answers.len() == 0 {
        Map::empty()
    } else {
        let before = key_environment(profiles, answers.drop_last());
        match answers.last() {
            Ok(Some(key)) => before.insert(
                environment_name(profiles[answers.len() - 1].id),
                key,
            ),
            _ => before,
        }
    }
}

/// What the answers for `profiles` come to: the failure that they end in, or the
/// providers that have a key, with their environment. There has to be one such
/// provider where there is any provider.
pub open spec fn provider_environment(
    profiles: Seq<ProviderView>,
    answers: Seq<Result<Option<Seq<char>>, Seq<char>>>,
) -> Result<(Seq<ProviderView>, Map<Seq<char>, Seq<char>>), Seq<char>> {
    if answers.len() > 0 && answers.last() is Err {
        Err(answers.last()->Err_0)
    } else if profiles.len() > 0 && keyed_profiles(profiles, answers).len() == 0 {
        Err(NO_PROVIDER_KEY@)
    } else {
        Ok((keyed_profiles(profiles, answers), key_environment(profiles, answers)))
    }
}

/// What an outcome holds.
pub open spec fn environment_view(
    r: Result<(Vec<ProviderProfile>, TextMap), String>,
) -> Result<(Seq<ProviderView>, Map<Seq<char>, Seq<char>>), Seq<char>> {
    match r {
        Ok(found) => Ok((views(found.0@), found.1@)),
        Err(error) => Err(error@),
    }
}

/// What the answers for `profiles` come to.
pub fn provider_keys(profiles: Vec<ProviderProfile>, answers: &Vec<KeyAnswer>) -> (r: Result<
    (Vec<ProviderProfile>, TextMap),
    String,
>)
    requires
        answers@.len() <= profiles@.len(),
        forall|i: int| 0 <= i < answers@.len() - 1 ==> (#[trigger] answers@[i]) is Ok,
        answers@.len() < profiles@.len() ==> answers@.len() > 0 && answers@.last() is Err,
    ensures
        environment_view(r) == provider_environment(views(profiles@), answer_views(answers@)),
{
    let ghost all = answer_views(answers@);
    let ghost given = views(profiles@);
    let n: usize = profiles.len();
    let mut rest = profiles;
    let mut environment = TextMap::new();
    let mut i: usize = 0;
    let mut kept: usize = 0;
    proof {
        assert(all.take(0) =~= Seq::empty());
        assert(views(rest@).take(0) =~= Seq::empty());
        assert(views(rest@).skip(0) =~= given.skip(0));
    }
    while i < answers.len()
        invariant
            kept <= i <= answers@.len() <= n,
            n == given.len(),
            all == answer_views(answers@),
            forall|k: int| 0 <= k < answers@.len() - 1 ==> (#[trigger] answers@[k]) is Ok,
            rest@.len() == kept + (n - i),
            views(rest@).take(kept as int) == keyed_profiles(given, all.take(i as int)),
            views(rest@).skip(kept as int) == given.skip(i as int),
            environment@ == key_environment(given, all.take(i as int)),
            i > 0 ==> answers@[i - 1] is Ok,
        decreases answers@.len() - i,
    {
        let ghost here = views(rest@);
        proof {
            assert(all.take(i + 1).drop_last() =~= all.take(i as int));
            assert(all.take(i + 1).last() == answer_view(answers@[i as int]));
            assert(here[kept as int] == here.skip(kept as int)[0]);
            assert(given[i as int] == given.skip(i as int)[0]);
            assert(here[kept as int] == rest@[kept as int]@);
            assert(here.skip(kept + 1) =~= here.skip(kept as int).drop_first());
            assert(given.skip(i + 1) =~= given.skip(i as int).drop_first());
        }
        match &answers[i] {
            Ok(Some(key)) => {
                environment.insert(provider_environment_name(rest[kept].id), key.clone());
                proof {
                    assert(here.take(kept + 1) =~= here.take(kept as int).push(here[kept as int]));
                }
                kept = kept + 1;
            },
            Ok(None) => {
                let _ = rest.remove(kept);
                proof {
                    assert(views(rest@) =~= here.remove(kept as int));
                    assert(views(rest@).take(kept as int) =~= here.take(kept as int));
                    assert(views(rest@).skip(kept as int) =~= here.skip(kept + 1));
                }
            },
            Err(error) => {
                proof {
                    assert(i + 1 == answers@.len());
                    assert(all.last() == answer_view(answers@[i as int]));
                }
                return Err(error.clone());
            },
        }
        i = i + 1;
    }
    proof {
        assert(all.take(i as int) =~= all);
        if all.len() > 0 {
            assert(all.last() == answer_view(answers@.last()));
        }
        assert(views(rest@).take(kept as int) =~= views(rest@));
    }
    if n > 0 && rest.len() == 0 {
        return Err(NO_PROVIDER_KEY.to_owned());
    }
    Ok((rest, environment))
}

/// The providers that have a key, with the environment that hands their keys over.
/// Each is asked for in turn; a key that cannot be read ends the search.
pub fn configured_provider_environment<F: Fn(u128) -> KeyAnswer>(
    profiles: Vec<ProviderProfile>,
    get_key: F,
) -> (r: Result<(Vec<ProviderProfile>, TextMap), String>)
    requires
        forall|id: u128| call_requires(get_key, (id,)),
    ensures
        exists|answers: Seq<KeyAnswer>| #[trigger]
            were_answered(get_key, provider_ids(views(profiles@)), answers) && environment_view(r)
                == provider_environment(views(profiles@), answer_views(answers)),
{
    let ghost all = views(profiles@);
    let mut ids: Vec<u128> = Vec::new();
    let mut i: usize = 0;
    while i < profiles.len()
        invariant
            i <= profiles@.len(),
            all == views(profiles@),
            ids@ == provider_ids(all).take(i as int),
        decreases profiles@.len() - i,
    {
        ids.push(profiles[i].id);
        proof {
            assert(ids@ =~= provider_ids(all).take(i + 1));
        }
        i = i + 1;
    }
    proof {
        assert(ids@ =~= provider_ids(all));
    }
    let answers = ask_for_keys(&get_key, &ids);
    provider_keys(profiles, &answers)
}

/// A base URL without white space around it and without slashes at its end.
pub open spec fn base_url_of(value: Seq<char>) -> Seq<char> {
    trim_end_of(trim(value), '/')
}

/// A base URL without white space around it and without slashes at its end.
pub fn normalize_base_url(value: &str) -> (r: String)
    ensures
        r@ == base_url_of(value@),
{
    trimmed_end_of(trimmed(value).as_str(), '/')
}

/// Whether a text starts with a scheme, `://` and something that does not start
/// with a slash.
pub open spec fn is_under_scheme(value: Seq<char>, scheme: Seq<char>) -> bool {
    has_prefix(value, scheme) && value.len() > scheme.len() && value[scheme.len() as int] != '/'
}

/// Whether a search engine can be reached under a URL: it is one of `http` or
/// `https` with something behind it.
pub open spec fn is_search_engine_url(value: Seq<char>) -> bool {
    is_under_scheme(base_url_of(value), "http://"@) || is_under_scheme(
        base_url_of(value),
        "https://"@,
    )
}

fn under_scheme(value: &str, scheme: &str) -> (r: bool)
    ensures
        r == is_under_scheme(value@, scheme@),
{
    match strip_prefix(value, scheme) {
        Some(rest) => {
            let chars = crate::text::chars_of(rest.as_str());
            chars.len() > 0 && chars[0] != '/'
        },
        None => false,
    }
}

/// Whether a search engine can be reached under a URL.
pub fn valid_search_engine_url(value: &str) -> (r: bool)
    ensures
        r == is_search_engine_url(value@),
{
    let value = normalize_base_url(value);
    under_scheme(value.as_str(), "http://") || under_scheme(value.as_str(), "https://")
}

/// The thinking levels of a model as an object: each level with the name that the
/// provider knows it under.
pub open spec fn level_members(levels: Seq<LevelNameView>) -> Seq<(Seq<char>, JsonView)>
    decreases levels.len(),
{
    if levels.len() == 0 {
        Seq::empty()
    } else {
        put(
            level_members(levels.drop_last()),
            levels.last().level.name(),
            match levels.last().name {
                Some(name) => JsonView::Str(name),
                None => JsonView::Null,
            },
        )
    }
}

/// What a model takes in.
pub open spec fn model_input(supports_images: bool) -> JsonView {
    if supports_images {
        JsonView::Array(seq![JsonView::Str("text"@), JsonView::Str("image"@)])
    } else {
        JsonView::Array(seq![JsonView::Str("text"@)])
    }
}

/// A model as Pi is told of it.
pub open spec fn model_entry(model: ProviderModelView) -> JsonView {
    JsonView::Object(
        seq![
            ("id"@, JsonView::Str(model.id)),
            ("name"@, JsonView::Str(model.name)),
            ("reasoning"@, JsonView::Bool(model.reasoning)),
            ("thinkingLevelMap"@, JsonView::Object(level_members(model.thinking_level_map))),
            ("input"@, model_input(model.supports_images)),
            ("contextWindow"@, JsonView::Number("128000"@)),
            ("maxTokens"@, JsonView::Number("16384"@)),
            (
                "cost"@,
                JsonView::Object(
                    seq![
                        ("input"@, JsonView::Number("0"@)),
                        ("output"@, JsonView::Number("0"@)),
                        ("cacheRead"@, JsonView::Number("0"@)),
                        ("cacheWrite"@, JsonView::Number("0"@)),
                    ],
                ),
            ),
        ],
    )
}

/// A provider as Pi is told of it: its key stands there by the name of an
/// environment variable.
pub open spec fn provider_entry(profile: ProviderView) -> JsonView {
    JsonView::Object(
        seq![
            ("name"@, JsonView::Str(profile.name)),
            ("baseUrl"@, JsonView::Str(base_url_of(profile.base_url))),
            ("api"@, JsonView::Str(profile.protocol.api_name())),
            ("apiKey"@, JsonView::Str("$"@ + environment_name(profile.id))),
            (
                "models"@,
                JsonView::Array(
                    profile.models.map_values(|model: ProviderModelView| model_entry(model)),
                ),
            ),
        ],
    )
}

/// The providers as Pi is told of them, by configuration key.
pub open spec fn provider_members(profiles: Seq<ProviderView>) -> Seq<(Seq<char>, JsonView)>
    decreases profiles.len(),
{
    if profiles.len() == 0 {
        Seq::empty()
    } else {
        put(
            provider_members(profiles.drop_last()),
            config_key(profiles.last().id),
            provider_entry(profiles.last()),
        )
    }
}

/// The `models.json` that Pi is handed.
pub open spec fn models_config(profiles: Seq<ProviderView>) -> JsonView {
    JsonView::Object(seq![("providers"@, JsonView::Object(provider_members(profiles)))])
}

fn level_map_json(levels: &Vec<LevelName>) -> (r: Json)
    ensures
        r@ == JsonView::Object(level_members(views(levels@))),
{
    let ghost all = views(levels@);
    let mut members: Vec<(String, Json)> = Vec::new();
    let mut i: usize = 0;
    proof {
        assert(all.take(0) =~= Seq::empty());
        assert(member_list(members@) =~= Seq::empty());
    }
    while i < levels.len()
        invariant
            i <= levels@.len(),
            all == views(levels@),
            member_list(members@) == level_members(all.take(i as int)),
        decreases levels@.len() - i,
    {
        proof {
            assert(all.take(i + 1).drop_last() =~= all.take(i as int));
            assert(all.take(i + 1).last() == levels@[i as int]@);
        }
        let value = match &levels[i].name {
            Some(name) => Json::string(name.as_str()),
            None => Json::Null,
        };
        put_member(&mut members, levels[i].level.as_str().to_owned(), value);
        i = i + 1;
    }
    proof {
        assert(all.take(i as int) =~= all);
    }
    Json::object(members)
}

fn model_input_json(supports_images: bool) -> (r: Json)
    ensures
        r@ == model_input(supports_images),
{
    let mut items: Vec<Json> = Vec::new();
    items.push(Json::string("text"));
    if supports_images {
        items.push(Json::string("image"));
    }
    let r = Json::array(items);
    proof {
        assert(r@->Array_0 =~= model_input(supports_images)->Array_0);
    }
    r
}

fn no_cost_json() -> (r: Json)
    ensures
        r@ == JsonView::Object(
            seq![
                ("input"@, JsonView::Number("0"@)),
                ("output"@, JsonView::Number("0"@)),
                ("cacheRead"@, JsonView::Number("0"@)),
                ("cacheWrite"@, JsonView::Number("0"@)),
            ],
        ),
{
    let mut members: Vec<(String, Json)> = Vec::new();
    members.push(("input".to_owned(), Json::number("0")));
    members.push(("output".to_owned(), Json::number("0")));
    members.push(("cacheRead".to_owned(), Json::number("0")));
    members.push(("cacheWrite".to_owned(), Json::number("0")));
    let r = Json::object(members);
    proof {
        assert(r@->Object_0 =~= seq![
            ("input"@, JsonView::Number("0"@)),
            ("output"@, JsonView::Number("0"@)),
            ("cacheRead"@, JsonView::Number("0"@)),
            ("cacheWrite"@, JsonView::Number("0"@)),
        ]);
    }
    r
}

fn model_json(model: &ProviderModel) -> (r: Json)
    ensures
        r@ == model_entry(model@),
{
    let mut members: Vec<(String, Json)> = Vec::new();
    members.push(("id".to_owned(), Json::string(model.id.as_str())));
    members.push(("name".to_owned(), Json::string(model.name.as_str())));
    members.push(("reasoning".to_owned(), Json::Bool(model.reasoning)));
    members.push(("thinkingLevelMap".to_owned(), level_map_json(&model.thinking_level_map)));
    members.push(("input".to_owned(), model_input_json(model.supports_images)));
    members.push(("contextWindow".to_owned(), Json::number("128000")));
    members.push(("maxTokens".to_owned(), Json::number("16384")));
    members.push(("cost".to_owned(), no_cost_json()));
    let r = Json::object(members);
    proof {
        assert(r@->Object_0 =~= model_entry(model@)->Object_0);
    }
    r
}

fn provider_json(profile: &ProviderProfile) -> (r: Json)
    ensures
        r@ == provider_entry(profile@),
{
    let ghost want = profile@.models.map_values(|model: ProviderModelView| model_entry(model));
    let mut models: Vec<Json> = Vec::new();
    let mut i: usize = 0;
    while i < profile.models.len()
        invariant
            i <= profile.models@.len(),
            want == profile@.models.map_values(|model: ProviderModelView| model_entry(model)),
            views(models@) == want.take(i as int),
        decreases profile.models@.len() - i,
    {
        let entry = model_json(&profile.models[i]);
        proof {
            lemma_views_push(models@, entry);
            assert(want.take(i + 1) =~= want.take(i as int).push(entry@));
        }
        models.push(entry);
        i = i + 1;
    }
    proof {
        assert(want.take(i as int) =~= want);
    }
    let mut members: Vec<(String, Json)> = Vec::new();
    members.push(("name".to_owned(), Json::string(profile.name.as_str())));
    members.push(
        ("baseUrl".to_owned(), Json::Str(normalize_base_url(profile.base_url.as_str()))),
    );
    members.push(("api".to_owned(), Json::string(profile.protocol.pi_api())));
    members.push(
        (
            "apiKey".to_owned(),
            Json::Str(cat2("$", provider_environment_name(profile.id).as_str())),
        ),
    );
    members.push(("models".to_owned(), Json::array(models)));
    let r = Json::object(members);
    proof {
        assert(r@->Object_0 =~= provider_entry(profile@)->Object_0);
    }
    r
}

/// The `models.json` that Pi is handed.
pub fn pi_models_json(profiles: &Vec<ProviderProfile>) -> (r: Json)
    ensures
        r@ == models_config(views(profiles@)),
{
    let ghost all = views(profiles@);
    let mut members: Vec<(String, Json)> = Vec::new();
    let mut i: usize = 0;
    proof {
        assert(all.take(0) =~= Seq::empty());
        assert(member_list(members@) =~= Seq::empty());
    }
    while i < profiles.len()
        invariant
            i <= profiles@.len(),
            all == views(profiles@),
            member_list(members@) == provider_members(all.take(i as int)),
        decreases profiles@.len() - i,
    {
        proof {
            assert(all.take(i + 1).drop_last() =~= all.take(i as int));
            assert(all.take(i + 1).last() == profiles@[i as int]@);
        }
        put_member(&mut members, provider_config_key(profiles[i].id), provider_json(&profiles[i]));
        i = i + 1;
    }
    proof {
        assert(all.take(i as int) =~= all);
    }
    let mut top: Vec<(String, Json)> = Vec::new();
    top.push(("providers".to_owned(), Json::object(members)));
    let r = Json::object(top);
    proof {
        assert(r@->Object_0 =~= models_config(all)->Object_0);
    }
    r
}

/// A provider that no later one shares its identifier with is configured under its
/// own key, and its API key stands there only by the name of the variable that
/// holds it.
pub proof fn lemma_each_provider_is_configured(profiles: Seq<ProviderView>, i: int)
    requires
        0 <= i < profiles.len(),
        forall|k: int| i < k < profiles.len() ==> (#[trigger] profiles[k]).id != profiles[i].id,
    ensures
        lookup(provider_members(profiles), config_key(profiles[i].id)) == Some(
            provider_entry(profiles[i]),
        ),
        provider_entry(profiles[i]).text_at("apiKey"@) == Some(
            "$"@ + environment_name(profiles[i].id),
        ),
    decreases profiles.len(),
{
    let entry = provider_entry(profiles[i])->Object_0;
    reveal_strlit("apiKey");
    reveal_strlit("name");
    reveal_strlit("baseUrl");
    reveal_strlit("api");
    assert("apiKey"@.len() == 6 && "name"@.len() == 4 && "baseUrl"@.len() == 7 && "api"@.len()
        == 3);
    reveal_with_fuel(lookup, 5);
    assert(entry.drop_first()[0] == entry[1]);
    assert(entry.drop_first().drop_first()[0] == entry[2]);
    assert(entry.drop_first().drop_first().drop_first()[0] == entry[3]);
    assert(lookup(entry, "apiKey"@) == Some(entry[3].1));
    let last = profiles.last();
    lemma_put_is_found(
        provider_members(profiles.drop_last()),
        config_key(last.id),
        provider_entry(last),
        config_key(profiles[i].id),
    );
    if i < profiles.len() - 1 {
        assert(profiles[profiles.len() - 1].id != profiles[i].id);
        lemma_provider_names_differ(last.id, profiles[i].id);
        let before = profiles.drop_last();
        assert forall|k: int| i < k < before.len() implies (#[trigger] before[k]).id
            != before[i].id by {
            assert(before[k] == profiles[k]);
        }
        lemma_each_provider_is_configured(before, i);
    }
}

/// Whether two lists of answers differ at most in what the keys are.
pub open spec fn differ_in_keys_only(
    a: Seq<Result<Option<Seq<char>>, Seq<char>>>,
    b: Seq<Result<Option<Seq<char>>, Seq<char>>>,
) -> bool {
    &&& a.len() == b.len()
    &&& forall|i: int|
        #![trigger a[i], b[i]]
        0 <= i < a.len() ==> match (a[i], b[i]) {
            (Ok(x), Ok(y)) => x is Some == y is Some,
            (Err(_), Err(_)) => true,
            _ => false,
        }
}

/// The `models.json` never depends on a key: whatever the keys are, the same
/// providers stand in it in the same way.
pub proof fn lemma_models_hold_no_key(
    profiles: Seq<ProviderView>,
    a: Seq<Result<Option<Seq<char>>, Seq<char>>>,
    b: Seq<Result<Option<Seq<char>>, Seq<char>>>,
)
    requires
        differ_in_keys_only(a, b),
    ensures
        models_config(keyed_profiles(profiles, a)) == models_config(keyed_profiles(profiles, b)),
        keyed_profiles(profiles, a) == keyed_profiles(profiles, b),
    decreases a.len(),
{
    if a.len() > 0 {
        let before = a.drop_last();
        let other = b.drop_last();
        assert forall|i: int|
            #![trigger before[i], other[i]]
            0 <= i < before.len() implies match (before[i], other[i]) {
            (Ok(x), Ok(y)) => x is Some == y is Some,
            (Err(_), Err(_)) => true,
            _ => false,
        } by {
            assert(before[i] == a[i] && other[i] == b[i]);
        }
        lemma_models_hold_no_key(profiles, before, other);
        assert(a[a.len() - 1] == a.last() && b[b.len() - 1] == b.last());
    }
}

/// The key of a provider is handed over in the variable that `models.json` names
/// for it, unless a later provider shares its identifier.
pub proof fn lemma_key_is_handed_over(
    profiles: Seq<ProviderView>,
    answers: Seq<Result<Option<Seq<char>>, Seq<char>>>,
    i: int,
    key: Seq<char>,
)
    requires
        0 <= i < answers.len() <= profiles.len(),
        answers[i] == Ok::<Option<Seq<char>>, Seq<char>>(Some(key)),
        forall|k: int| i < k < profiles.len() ==> (#[trigger] profiles[k]).id != profiles[i].id,
    ensures
        key_environment(profiles, answers).contains_key(environment_name(profiles[i].id)),
        key_environment(profiles, answers)[environment_name(profiles[i].id)] == key,
    decreases answers.len(),
{
    if i < answers.len() - 1 {
        let n = answers.len() - 1;
        assert(answers.drop_last()[i] == answers[i]);
        lemma_key_is_handed_over(profiles, answers.drop_last(), i, key);
        assert(profiles[n].id != profiles[i].id);
        lemma_provider_names_differ(profiles[n].id, profiles[i].id);
    }
}

/// A base URL with a path behind it: one slash between them, and `v1` not twice.
pub open spec fn api_path(base_url: Seq<char>, suffix: Seq<char>) -> Seq<char> {
    let base = trim_end_of(base_url, '/');
    let path = trim_start_of(suffix, "/"@);
    if has_suffix(base, "/v1"@) && has_prefix(path, "v1/"@) {
        base + "/"@ + trim_start_of(path, "v1/"@)
    } else {
        base + "/"@ + path
    }
}

/// A base URL with a path behind it.
pub fn join_api_path(base_url: &str, suffix: &str) -> (r: String)
    ensures
        r@ == api_path(base_url@, suffix@),
{
    proof {
        reveal_strlit("/");
        reveal_strlit("v1/");
    }
    let base = trimmed_end_of(base_url, '/');
    let path = trimmed_start_of(suffix, "/");
    if ends_with(base.as_str(), "/v1") && starts_with(path.as_str(), "v1/") {
        cat3(base.as_str(), "/", trimmed_start_of(path.as_str(), "v1/").as_str())
    } else {
        cat3(base.as_str(), "/", path.as_str())
    }
}

/// What is said where there is no base URL to ask.
pub const NO_BASE_URL: &'static str = "Enter a base URL before discovering models.";

/// A question to a provider: where, and with which headers.
pub struct DiscoveryRequest {
    pub url: String,
    pub headers: Vec<(String, String)>,
}

/// What a question holds.
#[verifier::ext_equal]
pub struct RequestView {
    pub url: Seq<char>,
    pub headers: Seq<(Seq<char>, Seq<char>)>,
}

impl View for DiscoveryRequest {
    type V = RequestView;

    open spec fn view(&self) -> RequestView {
        RequestView {
            url: self.url@,
            headers: self.headers@.map_values(|h: (String, String)| (h.0@, h.1@)),
        }
    }
}

/// Where a provider lists its models.
pub open spec fn models_url(base_url: Seq<char>, protocol: ProviderProtocol) -> Seq<char> {
    api_path(
        base_url,
        if protocol == ProviderProtocol::AnthropicMessages {
            "v1/models"@
        } else {
            "models"@
        },
    )
}

/// The headers that a key is sent in.
pub open spec fn key_headers(protocol: ProviderProtocol, key: Seq<char>) -> Seq<
    (Seq<char>, Seq<char>),
> {
    match protocol {
        ProviderProtocol::OpenAiCompletions => seq![("Authorization"@, "Bearer "@ + key)],
        ProviderProtocol::OpenAiResponses => seq![("Authorization"@, "Bearer "@ + key)],
        ProviderProtocol::AnthropicMessages => seq![
            ("x-api-key"@, key),
            ("anthropic-version"@, "2023-06-01"@),
        ],
        ProviderProtocol::GoogleGenerativeAi => seq![("x-goog-api-key"@, key)],
    }
}

/// The question that lists the models of a provider; a blank key is not sent.
pub open spec fn request_of(
    base_url: Seq<char>,
    protocol: ProviderProtocol,
    api_key: Option<Seq<char>>,
) -> RequestView {
    RequestView {
        url: models_url(base_url_of(base_url), protocol),
        headers: seq![("Accept"@, "application/json"@)] + match api_key {
            Some(key) => if is_blank(key) {
                Seq::empty()
            } else {
                key_headers(protocol, key)
            },
            None => Seq::empty(),
        },
    }
}

fn push_header(headers: &mut Vec<(String, String)>, name: &str, value: String)
    ensures
        final(headers)@.map_values(|h: (String, String)| (h.0@, h.1@)) == old(
            headers,
        )@.map_values(|h: (String, String)| (h.0@, h.1@)).push((name@, value@)),
{
    let ghost before = headers@.map_values(|h: (String, String)| (h.0@, h.1@));
    let ghost text = value@;
    headers.push((name.to_owned(), value));
    proof {
        assert(headers@.map_values(|h: (String, String)| (h.0@, h.1@)) =~= before.push(
            (name@, text),
        ));
    }
}

/// The question that lists the models of a provider, where there is a base URL.
pub fn discovery_request(
    base_url: &str,
    protocol: ProviderProtocol,
    api_key: Option<&str>,
) -> (r: Result<DiscoveryRequest, String>)
    ensures
        match r {
            Ok(request) => base_url_of(base_url@).len() > 0 && request@ == request_of(
                base_url@,
                protocol,
                opt_str(api_key),
            ),
            Err(error) => base_url_of(base_url@).len() == 0 && error@ == NO_BASE_URL@,
        },
{
    let base = normalize_base_url(base_url);
    if base.as_str().is_empty() {
        return Err(NO_BASE_URL.to_owned());
    }
    let url = match protocol {
        ProviderProtocol::OpenAiCompletions => join_api_path(base.as_str(), "models"),
        ProviderProtocol::OpenAiResponses => join_api_path(base.as_str(), "models"),
        ProviderProtocol::AnthropicMessages => join_api_path(base.as_str(), "v1/models"),
        ProviderProtocol::GoogleGenerativeAi => join_api_path(base.as_str(), "models"),
    };
    let mut headers: Vec<(String, String)> = Vec::new();
    proof {
        assert(headers@.map_values(|h: (String, String)| (h.0@, h.1@)) =~= Seq::<
            (Seq<char>, Seq<char>),
        >::empty());
    }
    push_header(&mut headers, "Accept", "application/json".to_owned());
    if let Some(key) = api_key {
        if !blank(key) {
            match protocol {
                ProviderProtocol::OpenAiCompletions => {
                    push_header(&mut headers, "Authorization", cat2("Bearer ", key));
                },
                ProviderProtocol::OpenAiResponses => {
                    push_header(&mut headers, "Authorization", cat2("Bearer ", key));
                },
                ProviderProtocol::AnthropicMessages => {
                    push_header(&mut headers, "x-api-key", key.to_owned());
                    push_header(&mut headers, "anthropic-version", "2023-06-01".to_owned());
                },
                ProviderProtocol::GoogleGenerativeAi => {
                    push_header(&mut headers, "x-goog-api-key", key.to_owned());
                },
            }
        }
    }
    let r = DiscoveryRequest { url, headers };
    proof {
        let want = request_of(base_url@, protocol, opt_str(api_key));
        assert(r@.headers =~= want.headers);
    }
    Ok(r)
}

/// What is said where a provider cannot be asked.
pub fn discovery_failure(error: &str) -> (r: String)
    ensures
        r@ == "Model discovery failed: "@ + error@,
{
    cat2("Model discovery failed: ", error)
}

/// What is said where a provider's reply is no document.
pub fn discovery_garbled(error: &str) -> (r: String)
    ensures
        r@ == "Model discovery returned invalid JSON: "@ + error@,
{
    cat2("Model discovery returned invalid JSON: ", error)
}

/// The text of the first of two members that is there, where it is a string.
pub open spec fn text_of_either(entry: JsonView, first: Seq<char>, second: Seq<char>) -> Option<
    Seq<char>,
> {
    match entry.field(first) {
        Some(value) => value.text(),
        None => entry.text_at(second),
    }
}

/// A model without known capabilities under a name of its own.
pub open spec fn named_model(id: Seq<char>, name: Seq<char>, supports_images: bool) -> ProviderModelView {
    ProviderModelView { name, supports_images, ..plain_model(id) }
}

/// `id` without the `models/` that it may start with.
pub open spec fn bare_id(id: Seq<char>) -> Seq<char> {
    if has_prefix(id, "models/"@) {
        id.skip("models/"@.len() as int)
    } else {
        id
    }
}

/// Whether an item is the text `generateContent`.
pub open spec fn is_generation(method: JsonView) -> bool {
    method == JsonView::Str("generateContent"@)
}

/// Whether one of the items is the text `generateContent`.
pub open spec fn some_generation(methods: Seq<JsonView>) -> bool {
    exists|i: int| 0 <= i < methods.len() && is_generation(#[trigger] methods[i])
}

/// Whether an entry lists the method that takes images.
pub open spec fn generates_content(entry: JsonView) -> bool {
    match entry.items_at("supportedGenerationMethods"@) {
        Some(methods) => some_generation(methods),
        None => false,
    }
}

/// The model that an entry of a provider's list describes.
pub open spec fn listed_model(protocol: ProviderProtocol, entry: JsonView) -> Option<
    ProviderModelView,
> {
    match protocol {
        ProviderProtocol::OpenAiCompletions | ProviderProtocol::OpenAiResponses => {
            match entry.text_at("id"@) {
                Some(id) => Some(
                    named_model(
                        id,
                        or_text(text_of_either(entry, "display_name"@, "name"@), id),
                        false,
                    ),
                ),
                None => None,
            }
        },
        ProviderProtocol::AnthropicMessages => {
            match entry.text_at("id"@) {
                Some(id) => Some(
                    named_model(id, or_text(entry.text_at("display_name"@), id), false),
                ),
                None => None,
            }
        },
        ProviderProtocol::GoogleGenerativeAi => {
            match entry.text_at("name"@) {
                Some(id) => Some(
                    named_model(
                        bare_id(id),
                        or_text(entry.text_at("displayName"@), bare_id(id)),
                        generates_content(entry),
                    ),
                ),
                None => None,
            }
        },
    }
}

/// The entries of a provider's list.
pub open spec fn listed_entries(protocol: ProviderProtocol, body: JsonView) -> Seq<JsonView> {
    match body.items_at(
        if protocol == ProviderProtocol::GoogleGenerativeAi {
            "models"@
        } else {
            "data"@
        },
    ) {
        Some(entries) => entries,
        None => Seq::empty(),
    }
}

/// The models of a provider's list, in its order.
pub open spec fn listed_models(protocol: ProviderProtocol, body: JsonView) -> Seq<
    ProviderModelView,
> {
    keep_map(listed_entries(protocol, body), |entry: JsonView| listed_model(protocol, entry))
}

/// What a model is ordered by.
pub open spec fn sort_key(model: ProviderModelView) -> Seq<char> {
    lowercase(model.name)
}

/// `sorted` with one more model: behind everything that does not come after it.
pub open spec fn placed(sorted: Seq<ProviderModelView>, model: ProviderModelView) -> Seq<
    ProviderModelView,
>
    decreases sorted.len(),
{
    if sorted.len() == 0 || !comes_before(sort_key(model), sort_key(sorted.last())) {
        sorted.push(model)
    } else {
        placed(sorted.drop_last(), model).push(sorted.last())
    }
}

/// The models in the order of their names, those of one name as they came.
pub open spec fn by_name(models: Seq<ProviderModelView>) -> Seq<ProviderModelView>
    decreases models.len(),
{
    if models.len() == 0 {
        Seq::empty()
    } else {
        placed(by_name(models.drop_last()), models.last())
    }
}

/// Whether the model at `i` is another one than the model before it.
pub open spec fn is_new(models: Seq<ProviderModelView>, i: int) -> bool {
    i == 0 || models[i - 1].id != models[i].id
}

/// The models without those whose identifier is that of the model before them.
pub open spec fn without_repeats(models: Seq<ProviderModelView>) -> Seq<ProviderModelView>
    decreases models.len(),
{
    if models.len() == 0 {
        Seq::empty()
    } else if is_new(models, models.len() - 1) {
        without_repeats(models.drop_last()).push(models.last())
    } else {
        without_repeats(models.drop_last())
    }
}

/// The models that a provider's reply lists.
pub open spec fn models_of(protocol: ProviderProtocol, body: JsonView) -> Seq<ProviderModelView> {
    without_repeats(by_name(listed_models(protocol, body)))
}

/// Whether no model comes before one in front of it.
pub open spec fn in_order(models: Seq<ProviderModelView>) -> bool {
    forall|i: int, j: int|
        #![trigger models[i], models[j]]
        0 <= i < j < models.len() ==> !comes_before(sort_key(models[j]), sort_key(models[i]))
}

proof fn lemma_placed(sorted: Seq<ProviderModelView>, model: ProviderModelView)
    requires
        in_order(sorted),
    ensures
        in_order(placed(sorted, model)),
        placed(sorted, model).to_multiset() == sorted.to_multiset().insert(model),
        placed(sorted, model).len() == sorted.len() + 1,
        forall|i: int|
            0 <= i < placed(sorted, model).len() ==> #[trigger] placed(sorted, model)[i] == model
                || exists|k: int| 0 <= k < sorted.len() && sorted[k] == placed(sorted, model)[i],
    decreases sorted.len(),
{
    let r = placed(sorted, model);
    sorted.to_multiset_ensures();
    if sorted.len() == 0 || !comes_before(sort_key(model), sort_key(sorted.last())) {
        assert forall|i: int, j: int|
            #![trigger r[i], r[j]]
            0 <= i < j < r.len() implies !comes_before(sort_key(r[j]), sort_key(r[i])) by {
            if j == sorted.len() {
                let last = sorted.last();
                if i < sorted.len() - 1 {
                    assert(!comes_before(sort_key(last), sort_key(sorted[i])));
                }
                if comes_before(sort_key(model), sort_key(sorted[i])) {
                    lemma_order_is_total(sort_key(sorted[i]), sort_key(last));
                    if comes_before(sort_key(sorted[i]), sort_key(last)) {
                        lemma_order_is_transitive(
                            sort_key(model),
                            sort_key(sorted[i]),
                            sort_key(last),
                        );
                    }
                }
            } else {
                assert(r[i] == sorted[i] && r[j] == sorted[j]);
            }
        }
        assert forall|i: int| 0 <= i < r.len() implies #[trigger] r[i] == model || exists|k: int|
            0 <= k < sorted.len() && sorted[k] == r[i] by {
            if i < sorted.len() {
                assert(sorted[i] == r[i]);
            }
        }
    } else {
        let front = sorted.drop_last();
        let last = sorted.last();
        lemma_placed(front, model);
        let rest = placed(front, model);
        rest.to_multiset_ensures();
        front.to_multiset_ensures();
        assert(sorted =~= front.push(last));
        assert(r.to_multiset() =~= sorted.to_multiset().insert(model));
        assert forall|i: int, j: int|
            #![trigger r[i], r[j]]
            0 <= i < j < r.len() implies !comes_before(sort_key(r[j]), sort_key(r[i])) by {
            if j == rest.len() {
                assert(r[i] == rest[i]);
                if rest[i] == model {
                    lemma_order_is_total(sort_key(model), sort_key(last));
                } else {
                    let k = choose|k: int| 0 <= k < front.len() && front[k] == rest[i];
                    assert(sorted[k] == rest[i]);
                    assert(!comes_before(sort_key(sorted[sorted.len() - 1]), sort_key(sorted[k])));
                }
            } else {
                assert(r[i] == rest[i] && r[j] == rest[j]);
            }
        }
        assert forall|i: int| 0 <= i < r.len() implies #[trigger] r[i] == model || exists|k: int|
            0 <= k < sorted.len() && sorted[k] == r[i] by {
            if i == rest.len() {
                assert(sorted[sorted.len() - 1] == r[i]);
            } else {
                assert(r[i] == rest[i]);
                if rest[i] != model {
                    let k = choose|k: int| 0 <= k < front.len() && front[k] == rest[i];
                    assert(sorted[k] == r[i]);
                }
            }
        }
    }
}

/// Models in the order of their names are the same models, and none comes before
/// one in front of it.
pub proof fn lemma_by_name_is_sorted(models: Seq<ProviderModelView>)
    ensures
        in_order(by_name(models)),
        by_name(models).to_multiset() == models.to_multiset(),
        by_name(models).len() == models.len(),
    decreases models.len(),
{
    if models.len() > 0 {
        let front = models.drop_last();
        lemma_by_name_is_sorted(front);
        lemma_placed(by_name(front), models.last());
        front.to_multiset_ensures();
        assert(models =~= front.push(models.last()));
    } else {
        assert(models =~= by_name(models));
    }
}

/// The models of `v` that are ordered by `key`.
pub open spec fn keyed_by(v: Seq<ProviderModelView>, key: Seq<char>) -> Seq<ProviderModelView> {
    v.filter(|model: ProviderModelView| sort_key(model) == key)
}

proof fn lemma_keyed_by_push(v: Seq<ProviderModelView>, model: ProviderModelView, key: Seq<char>)
    ensures
        keyed_by(v.push(model), key) == if sort_key(model) == key {
            keyed_by(v, key).push(model)
        } else {
            keyed_by(v, key)
        },
{
    reveal(Seq::filter);
    assert(v.push(model).drop_last() =~= v);
}

proof fn lemma_placed_keeps_ties(
    sorted: Seq<ProviderModelView>,
    model: ProviderModelView,
    key: Seq<char>,
)
    requires
        in_order(sorted),
    ensures
        keyed_by(placed(sorted, model), key) == keyed_by(sorted.push(model), key),
    decreases sorted.len(),
{
    if sorted.len() > 0 && comes_before(sort_key(model), sort_key(sorted.last())) {
        let front = sorted.drop_last();
        let last = sorted.last();
        lemma_placed_keeps_ties(front, model, key);
        lemma_keyed_by_push(placed(front, model), last, key);
        lemma_keyed_by_push(front, model, key);
        lemma_keyed_by_push(front, last, key);
        lemma_keyed_by_push(sorted, model, key);
        assert(sorted =~= front.push(last));
        lemma_order_is_total(sort_key(model), sort_key(last));
    }
}

/// Models of one name stay in the order in which they came.
pub proof fn lemma_ties_keep_their_order(models: Seq<ProviderModelView>, key: Seq<char>)
    ensures
        keyed_by(by_name(models), key) == keyed_by(models, key),
    decreases models.len(),
{
    if models.len() > 0 {
        let front = models.drop_last();
        let last = models.last();
        lemma_ties_keep_their_order(front, key);
        lemma_by_name_is_sorted(front);
        lemma_placed_keeps_ties(by_name(front), last, key);
        lemma_keyed_by_push(by_name(front), last, key);
        lemma_keyed_by_push(front, last, key);
        assert(models =~= front.push(last));
    }
}

/// No model has the identifier of the model before it.
pub proof fn lemma_no_repeats(models: Seq<ProviderModelView>)
    ensures
        forall|i: int|
            0 < i < without_repeats(models).len() ==> without_repeats(models)[i - 1].id
                != (#[trigger] without_repeats(models)[i]).id,
        models.len() > 0 ==> without_repeats(models).len() > 0 && without_repeats(models).last().id
            == models.last().id,
    decreases models.len(),
{
    if models.len() > 0 {
        let front = models.drop_last();
        lemma_no_repeats(front);
        let n = models.len() - 1;
        if n > 0 {
            assert(front.last() == models[n - 1]);
        }
        let before = without_repeats(front);
        let r = without_repeats(models);
        assert forall|i: int| 0 < i < r.len() implies r[i - 1].id != (#[trigger] r[i]).id by {
            if i < before.len() {
                assert(before[i - 1].id != before[i].id);
                assert(r[i] == before[i] && r[i - 1] == before[i - 1]);
            }
        }
    }
}

/// Where a model goes is behind everything that does not come after it.
proof fn lemma_placed_at(sorted: Seq<ProviderModelView>, model: ProviderModelView, at: int)
    requires
        0 <= at <= sorted.len(),
        forall|k: int|
            at <= k < sorted.len() ==> comes_before(
                sort_key(model),
                sort_key(#[trigger] sorted[k]),
            ),
        at > 0 ==> !comes_before(sort_key(model), sort_key(sorted[at - 1])),
    ensures
        placed(sorted, model) == sorted.insert(at, model),
    decreases sorted.len(),
{
    if at < sorted.len() {
        assert(comes_before(sort_key(model), sort_key(sorted[sorted.len() - 1])));
        let front = sorted.drop_last();
        assert forall|k: int| at <= k < front.len() implies comes_before(
            sort_key(model),
            sort_key(#[trigger] front[k]),
        ) by {
            assert(front[k] == sorted[k]);
        }
        lemma_placed_at(front, model, at);
        assert(front.insert(at, model).push(sorted.last()) =~= sorted.insert(at, model));
    } else {
        assert(sorted.push(model) =~= sorted.insert(at, model));
    }
}

/// Places a model among those in order.
fn place_model(sorted: &mut Vec<ProviderModel>, model: ProviderModel)
    ensures
        views(final(sorted)@) == placed(views(old(sorted)@), model@),
{
    let ghost before = views(sorted@);
    let key = lowered(model.name.as_str());
    let mut at: usize = sorted.len();
    while at > 0 && precedes(key.as_str(), lowered(sorted[at - 1].name.as_str()).as_str())
        invariant
            at <= sorted@.len(),
            before == views(sorted@),
            key@ == sort_key(model@),
            forall|k: int|
                at <= k < before.len() ==> comes_before(
                    sort_key(model@),
                    sort_key(#[trigger] before[k]),
                ),
        decreases at,
    {
        at = at - 1;
    }
    proof {
        lemma_placed_at(before, model@, at as int);
        assert(views(sorted@.insert(at as int, model)) =~= before.insert(at as int, model@));
    }
    sorted.insert(at, model);
}

/// The models in the order of their names, those of one name as they came.
pub fn sort_models(models: Vec<ProviderModel>) -> (r: Vec<ProviderModel>)
    ensures
        views(r@) == by_name(views(models@)),
{
    let ghost all = views(models@);
    let mut left = models;
    let mut sorted: Vec<ProviderModel> = Vec::new();
    let n: usize = left.len();
    let mut i: usize = 0;
    proof {
        assert(all.take(0) =~= Seq::empty());
        assert(views(sorted@) =~= Seq::empty());
        assert(views(left@) =~= all.skip(0));
    }
    while i < n
        invariant
            i <= n == all.len(),
            left@.len() == n - i,
            views(left@) == all.skip(i as int),
            views(sorted@) == by_name(all.take(i as int)),
        decreases n - i,
    {
        let ghost here = views(left@);
        let model = left.remove(0);
        proof {
            assert(model@ == here[0]);
            assert(views(left@) =~= here.drop_first());
            assert(all.skip(i as int).drop_first() =~= all.skip(i + 1));
            assert(all.take(i + 1).drop_last() =~= all.take(i as int));
            assert(all.take(i + 1).last() == model@);
        }
        place_model(&mut sorted, model);
        i = i + 1;
    }
    proof {
        assert(all.take(i as int) =~= all);
    }
    sorted
}

/// The models without those whose identifier is that of the model before them.
pub fn drop_repeats(models: Vec<ProviderModel>) -> (r: Vec<ProviderModel>)
    ensures
        views(r@) == without_repeats(views(models@)),
{
    let ghost all = views(models@);
    let mut kept: Vec<ProviderModel> = Vec::new();
    let mut left = models;
    let n: usize = left.len();
    let mut i: usize = 0;
    proof {
        assert(all.take(0) =~= Seq::empty());
        assert(views(kept@) =~= Seq::empty());
        assert(views(left@) =~= all.skip(0));
    }
    while i < n
        invariant
            i <= n == all.len(),
            left@.len() == n - i,
            views(left@) == all.skip(i as int),
            views(kept@) == without_repeats(all.take(i as int)),
        decreases n - i,
    {
        let ghost here = views(left@);
        let ghost front = all.take(i as int);
        let model = left.remove(0);
        proof {
            assert(model@ == here[0]);
            assert(views(left@) =~= here.drop_first());
            assert(all.skip(i as int).drop_first() =~= all.skip(i + 1));
            assert(all.take(i + 1).drop_last() =~= front);
            assert(all.take(i + 1).last() == model@);
            lemma_no_repeats(front);
            if i > 0 {
                assert(front.last() == all[i - 1]);
                assert(views(kept@).last() == kept@.last()@);
            }
        }
        if kept.len() == 0 || !same(kept[kept.len() - 1].id.as_str(), model.id.as_str()) {
            proof {
                lemma_views_push(kept@, model);
            }
            kept.push(model);
        }
        i = i + 1;
    }
    proof {
        assert(all.take(i as int) =~= all);
    }
    kept
}

fn takes_images(entry: &Json) -> (r: bool)
    ensures
        r == generates_content(entry@),
{
    match entry.array_at("supportedGenerationMethods") {
        Some(methods) => {
            let ghost all = views(methods@);
            let mut i: usize = 0;
            while i < methods.len()
                invariant
                    i <= methods@.len(),
                    all == views(methods@),
                    entry@.items_at("supportedGenerationMethods"@) == Some(all),
                    forall|k: int| 0 <= k < i ==> !is_generation(#[trigger] all[k]),
                decreases methods@.len() - i,
            {
                if let Some(method) = methods[i].as_str() {
                    if same(method, "generateContent") {
                        proof {
                            assert(0 <= i < all.len() && is_generation(all[i as int]));
                            assert(some_generation(all));
                        }
                        return true;
                    }
                }
                i = i + 1;
            }
            false
        },
        None => false,
    }
}

fn model_from_entry(protocol: ProviderProtocol, entry: &Json) -> (r: Option<ProviderModel>)
    ensures
        opt_view(r) == listed_model(protocol, entry@),
{
    match protocol {
        ProviderProtocol::OpenAiCompletions | ProviderProtocol::OpenAiResponses => {
            match entry.str_at("id") {
                Some(id) => {
                    let mut model = ProviderModel::new(id);
                    let name = match entry.get("display_name") {
                        Some(value) => value.as_str(),
                        None => entry.str_at("name"),
                    };
                    model.name = or_str(name, id).to_owned();
                    Some(model)
                },
                None => None,
            }
        },
        ProviderProtocol::AnthropicMessages => {
            match entry.str_at("id") {
                Some(id) => {
                    let mut model = ProviderModel::new(id);
                    model.name = or_str(entry.str_at("display_name"), id).to_owned();
                    Some(model)
                },
                None => None,
            }
        },
        ProviderProtocol::GoogleGenerativeAi => {
            match entry.str_at("name") {
                Some(name) => {
                    let id = match strip_prefix(name, "models/") {
                        Some(id) => id,
                        None => name.to_owned(),
                    };
                    let mut model = ProviderModel::new(id.as_str());
                    model.name = or_str(entry.str_at("displayName"), id.as_str()).to_owned();
                    model.supports_images = takes_images(entry);
                    Some(model)
                },
                None => None,
            }
        },
    }
}

/// The models that a provider's reply lists: in the order of their names, without
/// repeats.
pub fn discovered_models(protocol: ProviderProtocol, body: &Json) -> (r: Vec<ProviderModel>)
    ensures
        views(r@) == models_of(protocol, body@),
{
    let ghost f = |entry: JsonView| listed_model(protocol, entry);
    let key = match protocol {
        ProviderProtocol::GoogleGenerativeAi => "models",
        _ => "data",
    };
    let mut models: Vec<ProviderModel> = Vec::new();
    proof {
        assert(views(models@) =~= Seq::empty());
    }
    if let Some(entries) = body.array_at(key) {
        let ghost all = views(entries@);
        let mut i: usize = 0;
        proof {
            assert(all.take(0) =~= Seq::empty());
        }
        while i < entries.len()
            invariant
                i <= entries@.len(),
                all == views(entries@),
                f == (|entry: JsonView| listed_model(protocol, entry)),
                views(models@) == keep_map(all.take(i as int), f),
            decreases entries@.len() - i,
        {
            proof {
                lemma_keep_map_step(all, f, i as int);
            }
            if let Some(model) = model_from_entry(protocol, &entries[i]) {
                proof {
                    lemma_views_push(models@, model);
                }
                models.push(model);
            }
            i = i + 1;
        }
        proof {
            assert(all.take(i as int) =~= all);
        }
    }
    drop_repeats(sort_models(models))
}

} // verus!
