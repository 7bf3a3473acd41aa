//! What holds of the configuration of providers, read the way that Pi reads it.

use vstd::prelude::*;

use crate::domain::{
    LevelNameView, ProviderModelView, ProviderProtocol, ProviderView, SearchEngineId, ThinkingLevel,
};
use crate::ids::{hyphenated, simple};
use crate::json::{lemma_put_is_found, lookup, JsonView};
use crate::laws::protocol::{lemma_kept_from, lemma_kept_item};
use crate::providers::{
    api_path, base_url_of, by_name, config_key, environment_name, found_keys, is_search_engine_url,
    keyed_profiles, lemma_by_name_is_sorted, lemma_each_provider_is_configured, level_members,
    listed_model, listed_models, model_entry, models_config, models_of, models_url,
    provider_account, provider_entry, request_of, search_engine_account, without_repeats,
};
use crate::text::{
    has_prefix, has_suffix, is_blank, is_white_space, lemma_trim_cuts, lemma_trim_end_of_cuts,
    occurs_at, trim, trim_end_of, trim_start_of,
};
use crate::views::keep_map;

verus! {

/// A member is found under its key where no member before it has that key.
proof fn lemma_member_is_found(members: Seq<(Seq<char>, JsonView)>, i: int)
    requires
        0 <= i < members.len(),
        forall|k: int| 0 <= k < i ==> (#[trigger] members[k]).0 != members[i].0,
    ensures
        lookup(members, members[i].0) == Some(members[i].1),
    decreases i,
{
    if i > 0 {
        let rest = members.drop_first();
        assert(members[0].0 != members[i].0);
        assert(forall|k: int| 0 <= k < i - 1 ==> #[trigger] rest[k] == members[k + 1]);
        assert(rest[i - 1] == members[i]);
        lemma_member_is_found(rest, i - 1);
    }
}

/// What a configuration holds of the provider with an identifier.
pub open spec fn configured_provider(config: JsonView, id: u128) -> Option<JsonView> {
    match config.field("providers"@) {
        Some(providers) => providers.field("pi-whim-"@ + simple(id)),
        None => None,
    }
}

/// What a configuration holds of the models of the provider with an identifier.
pub open spec fn configured_models(config: JsonView, id: u128) -> Option<Seq<JsonView>> {
    match configured_provider(config, id) {
        Some(provider) => provider.items_at("models"@),
        None => None,
    }
}

/// Whether a provider is the last one in a list with its identifier.
pub open spec fn is_last_of_its_id(profiles: Seq<ProviderView>, p: int) -> bool {
    &&& 0 <= p < profiles.len()
    &&& forall|k: int| p < k < profiles.len() ==> (#[trigger] profiles[k]).id != profiles[p].id
}

proof fn lemma_provider_is_found(profiles: Seq<ProviderView>, p: int)
    requires
        is_last_of_its_id(profiles, p),
    ensures
        configured_provider(models_config(profiles), profiles[p].id) == Some(
            provider_entry(profiles[p]),
        ),
{
    lemma_each_provider_is_configured(profiles, p);
    lemma_member_is_found(models_config(profiles)->Object_0, 0);
}

proof fn lemma_provider_keys()
    ensures
        "name"@.len() == 4,
        "baseUrl"@.len() == 7,
        "api"@.len() == 3,
        "apiKey"@.len() == 6 && "apiKey"@[0] == 'a',
        "models"@.len() == 6 && "models"@[0] == 'm',
{
    reveal_strlit("name");
    reveal_strlit("baseUrl");
    reveal_strlit("api");
    reveal_strlit("apiKey");
    reveal_strlit("models");
}

/// Pi finds a configured provider under its name, at its address without anything
/// to trim, with the protocol that it speaks, with its key by the name of a variable,
/// and with as many models as it has.
pub proof fn lemma_configured_providers(profiles: Seq<ProviderView>, p: int)
    requires
        is_last_of_its_id(profiles, p),
    ensures
        configured_provider(models_config(profiles), profiles[p].id) matches Some(entry) && {
            &&& entry.text_at("name"@) == Some(profiles[p].name)
            &&& entry.text_at("baseUrl"@) == Some(base_url_of(profiles[p].base_url))
            &&& entry.text_at("apiKey"@) == Some("$"@ + ("PI_WHIM_PROVIDER_"@ + simple(profiles[p].id)))
            &&& profiles[p].protocol == ProviderProtocol::OpenAiCompletions ==> entry.text_at(
                "api"@,
            ) == Some("openai-completions"@)
            &&& profiles[p].protocol == ProviderProtocol::OpenAiResponses ==> entry.text_at("api"@)
                == Some("openai-responses"@)
            &&& profiles[p].protocol == ProviderProtocol::AnthropicMessages ==> entry.text_at(
                "api"@,
            ) == Some("anthropic-messages"@)
            &&& profiles[p].protocol == ProviderProtocol::GoogleGenerativeAi ==> entry.text_at(
                "api"@,
            ) == Some("google-generative-ai"@)
            &&& entry.items_at("models"@) matches Some(models) && models.len()
                == profiles[p].models.len()
        },
{
    lemma_provider_is_found(profiles, p);
    lemma_provider_keys();
    let entry = provider_entry(profiles[p])->Object_0;
    lemma_member_is_found(entry, 0);
    lemma_member_is_found(entry, 1);
    lemma_member_is_found(entry, 2);
    lemma_member_is_found(entry, 3);
    lemma_member_is_found(entry, 4);
}

proof fn lemma_model_keys()
    ensures
        "id"@.len() == 2,
        "name"@.len() == 4 && "name"@[0] == 'n',
        "reasoning"@.len() == 9 && "reasoning"@[0] == 'r',
        "thinkingLevelMap"@.len() == 16,
        "input"@.len() == 5,
        "contextWindow"@.len() == 13,
        "maxTokens"@.len() == 9 && "maxTokens"@[0] == 'm',
        "cost"@.len() == 4 && "cost"@[0] == 'c',
{
    reveal_strlit("id");
    reveal_strlit("name");
    reveal_strlit("reasoning");
    reveal_strlit("thinkingLevelMap");
    reveal_strlit("input");
    reveal_strlit("contextWindow");
    reveal_strlit("maxTokens");
    reveal_strlit("cost");
}

/// Whether a document is a list of the given texts.
pub open spec fn lists(value: Option<JsonView>, texts: Seq<Seq<char>>) -> bool {
    value matches Some(JsonView::Array(items)) && items.len() == texts.len() && forall|i: int|
        0 <= i < texts.len() ==> #[trigger] items[i] == JsonView::Str(texts[i])
}

/// Pi finds each model of a configured provider in its place, by its own id and under
/// its own name, with what it can do: whether it reasons, whether it sees images, and
/// its limits. It costs nothing.
pub proof fn lemma_configured_models(profiles: Seq<ProviderView>, p: int, i: int)
    requires
        is_last_of_its_id(profiles, p),
        0 <= i < profiles[p].models.len(),
    ensures
        configured_models(models_config(profiles), profiles[p].id) matches Some(models) && {
            let model = profiles[p].models[i];
            &&& models.len() == profiles[p].models.len()
            &&& models[i].text_at("id"@) == Some(model.id)
            &&& models[i].text_at("name"@) == Some(model.name)
            &&& models[i].truth_at("reasoning"@) == Some(model.reasoning)
            &&& model.supports_images ==> lists(
                models[i].field("input"@),
                seq!["text"@, "image"@],
            )
            &&& !model.supports_images ==> lists(models[i].field("input"@), seq!["text"@])
            &&& models[i].field("contextWindow"@) == Some(JsonView::Number("128000"@))
            &&& models[i].field("maxTokens"@) == Some(JsonView::Number("16384"@))
            &&& models[i].field("cost"@) matches Some(cost) && {
                &&& cost.field("input"@) == Some(JsonView::Number("0"@))
                &&& cost.field("output"@) == Some(JsonView::Number("0"@))
                &&& cost.field("cacheRead"@) == Some(JsonView::Number("0"@))
                &&& cost.field("cacheWrite"@) == Some(JsonView::Number("0"@))
            }
            &&& models[i].field("thinkingLevelMap"@) is Some
        },
{
    lemma_provider_is_found(profiles, p);
    lemma_provider_keys();
    let provider = provider_entry(profiles[p])->Object_0;
    lemma_member_is_found(provider, 4);
    lemma_model_keys();
    let entry = model_entry(profiles[p].models[i])->Object_0;
    lemma_member_is_found(entry, 0);
    lemma_member_is_found(entry, 1);
    lemma_member_is_found(entry, 2);
    lemma_member_is_found(entry, 3);
    lemma_member_is_found(entry, 4);
    lemma_member_is_found(entry, 5);
    lemma_member_is_found(entry, 6);
    lemma_member_is_found(entry, 7);
    reveal_strlit("output");
    reveal_strlit("cacheRead");
    reveal_strlit("cacheWrite");
    assert("output"@.len() == 6 && "cacheRead"@.len() == 9 && "cacheWrite"@.len() == 10);
    let cost = entry[7].1->Object_0;
    lemma_member_is_found(cost, 0);
    lemma_member_is_found(cost, 1);
    lemma_member_is_found(cost, 2);
    lemma_member_is_found(cost, 3);
}

/// What a level is called on the wire.
pub open spec fn wire_name(level: ThinkingLevel) -> Seq<char> {
    match level {
        ThinkingLevel::Off => "off"@,
        ThinkingLevel::Minimal => "minimal"@,
        ThinkingLevel::Low => "low"@,
        ThinkingLevel::Medium => "medium"@,
        ThinkingLevel::High => "high"@,
        ThinkingLevel::Xhigh => "xhigh"@,
    }
}

proof fn lemma_wire_names_differ(a: ThinkingLevel, b: ThinkingLevel)
    requires
        a != b,
    ensures
        wire_name(a) != wire_name(b),
{
    reveal_strlit("off");
    reveal_strlit("minimal");
    reveal_strlit("low");
    reveal_strlit("medium");
    reveal_strlit("high");
    reveal_strlit("xhigh");
    assert(wire_name(ThinkingLevel::Off)[0] == 'o');
    assert(wire_name(ThinkingLevel::Low)[0] == 'l');
    assert(wire_name(ThinkingLevel::Off).len() == 3 && wire_name(ThinkingLevel::Low).len() == 3);
    assert(wire_name(ThinkingLevel::Minimal).len() == 7);
    assert(wire_name(ThinkingLevel::Medium).len() == 6);
    assert(wire_name(ThinkingLevel::High).len() == 4);
    assert(wire_name(ThinkingLevel::Xhigh).len() == 5);
}

proof fn lemma_level_is_found(levels: Seq<LevelNameView>, i: int)
    requires
        0 <= i < levels.len(),
        forall|k: int| i < k < levels.len() ==> (#[trigger] levels[k]).level != levels[i].level,
    ensures
        lookup(level_members(levels), wire_name(levels[i].level)) == Some(
            match levels[i].name {
                Some(name) => JsonView::Str(name),
                None => JsonView::Null,
            },
        ),
    decreases levels.len(),
{
    let last = levels.last();
    let before = levels.drop_last();
    lemma_put_is_found(
        level_members(before),
        last.level.name(),
        match last.name {
            Some(name) => JsonView::Str(name),
            None => JsonView::Null,
        },
        wire_name(levels[i].level),
    );
    if i < levels.len() - 1 {
        assert(levels[levels.len() - 1].level != levels[i].level);
        lemma_wire_names_differ(last.level, levels[i].level);
        assert forall|k: int| i < k < before.len() implies (#[trigger] before[k]).level
            != before[i].level by {
            assert(before[k] == levels[k]);
        }
        lemma_level_is_found(before, i);
    }
}

/// Pi finds what a provider calls a thinking level of a model under that level's
/// name, and nothing but `null` for a level that the model does not have.
pub proof fn lemma_configured_levels(profiles: Seq<ProviderView>, p: int, i: int, l: int)
    requires
        is_last_of_its_id(profiles, p),
        0 <= i < profiles[p].models.len(),
        0 <= l < profiles[p].models[i].thinking_level_map.len(),
        forall|k: int|
            l < k < profiles[p].models[i].thinking_level_map.len() ==> (
            #[trigger] profiles[p].models[i].thinking_level_map[k]).level
                != profiles[p].models[i].thinking_level_map[l].level,
    ensures
        ({
            let level = profiles[p].models[i].thinking_level_map[l];
            configured_models(models_config(profiles), profiles[p].id) matches Some(models) && (
            models[i].field("thinkingLevelMap"@) matches Some(map) && {
                &&& level.name matches Some(name) ==> map.text_at(wire_name(level.level)) == Some(
                    name,
                )
                &&& level.name is None ==> map.field(wire_name(level.level)) == Some(
                    JsonView::Null,
                )
            })
        }),
{
    lemma_provider_is_found(profiles, p);
    lemma_provider_keys();
    lemma_member_is_found(provider_entry(profiles[p])->Object_0, 4);
    lemma_model_keys();
    let entry = model_entry(profiles[p].models[i])->Object_0;
    lemma_member_is_found(entry, 3);
    lemma_level_is_found(profiles[p].models[i].thinking_level_map, l);
}

/// A base URL is part of what was entered: only white space and slashes are taken off,
/// and neither is left at its end.
pub proof fn lemma_base_url_is_cut_out(value: Seq<char>) -> (r: (int, int))
    ensures
        0 <= r.0 <= r.1 <= value.len(),
        base_url_of(value) == value.subrange(r.0, r.1),
        forall|i: int| 0 <= i < r.0 ==> is_white_space(#[trigger] value[i]),
        forall|i: int| r.1 <= i < value.len() ==> is_white_space(#[trigger] value[i]) || value[i]
            == '/',
        r.0 < r.1 ==> !is_white_space(value[r.0]) && value[r.1 - 1] != '/',
{
    let (from, to) = lemma_trim_cuts(value);
    let inner = trim(value);
    lemma_trim_end_of_cuts(inner, '/');
    let end = from + base_url_of(value).len();
    assert(base_url_of(value) =~= value.subrange(from, end));
    assert forall|i: int| 0 <= i < from implies is_white_space(#[trigger] value[i]) by {
        assert(value.take(from)[i] == value[i]);
    }
    assert forall|i: int| end <= i < value.len() implies is_white_space(#[trigger] value[i])
        || value[i] == '/' by {
        if i < to {
            assert(inner[i - from] == value[i]);
        } else {
            assert(value.skip(to)[i - to] == value[i]);
        }
    }
    if from < end {
        assert(base_url_of(value).last() == value[end - 1]);
    }
    (from, end)
}

/// A search engine is reached under `http` or `https`, with something behind the
/// scheme that is no slash, and under nothing else.
pub proof fn lemma_search_engine_urls(value: Seq<char>)
    ensures
        ({
            let url = base_url_of(value);
            is_search_engine_url(value) <==> ((occurs_at(url, "http://"@, 0) && url.len() > 7
                && url[7] != '/') || (occurs_at(url, "https://"@, 0) && url.len() > 8 && url[8]
                != '/'))
        }),
{
    reveal_strlit("http://");
    reveal_strlit("https://");
}

/// A path is put behind a base with one slash between them, however many there were.
pub proof fn lemma_paths_are_joined(base: Seq<char>, path: Seq<char>)
    requires
        base.len() > 0 ==> base.last() != '/',
        path.len() > 0 ==> path.first() != '/',
        !(has_suffix(base, "/v1"@) && has_prefix(path, "v1/"@)),
    ensures
        api_path(base, path) == base + "/"@ + path,
        api_path(base + "/"@, path) == base + "/"@ + path,
        api_path(base, "/"@ + path) == base + "/"@ + path,
{
    reveal_strlit("/");
    lemma_slash_is_cut(base);
    lemma_slash_is_skipped(path);
}

proof fn lemma_slash_is_cut(base: Seq<char>)
    requires
        base.len() > 0 ==> base.last() != '/',
    ensures
        trim_end_of(base, '/') == base,
        trim_end_of(base + "/"@, '/') == base,
{
    reveal_strlit("/");
    let more = base + "/"@;
    assert(more.drop_last() =~= base);
    assert(trim_end_of(more, '/') == trim_end_of(base, '/'));
}

proof fn lemma_slash_is_skipped(path: Seq<char>)
    requires
        path.len() > 0 ==> path.first() != '/',
    ensures
        trim_start_of(path, "/"@) == path,
        trim_start_of("/"@ + path, "/"@) == path,
{
    reveal_strlit("/");
    let more = "/"@ + path;
    assert(more.subrange(0, 1) =~= "/"@);
    assert(has_prefix(more, "/"@));
    assert(more.skip(1) =~= path);
    if path.len() > 0 {
        assert(path.subrange(0, 1)[0] == path[0]);
        assert(!has_prefix(path, "/"@));
    }
    assert(trim_start_of(path, "/"@) == path);
    assert(trim_start_of(more, "/"@) == trim_start_of(path, "/"@));
}

/// Models are listed under `models` behind the base, and under `v1/models` by the one
/// protocol that wants the version, which is not named twice.
pub proof fn lemma_models_are_asked_for(base: Seq<char>, protocol: ProviderProtocol)
    requires
        base.len() > 0 ==> base.last() != '/',
    ensures
        protocol != ProviderProtocol::AnthropicMessages ==> models_url(base, protocol) == base
            + "/"@ + "models"@,
        protocol == ProviderProtocol::AnthropicMessages && !has_suffix(base, "/v1"@) ==> models_url(
            base,
            protocol,
        ) == base + "/"@ + "v1/models"@,
        protocol == ProviderProtocol::AnthropicMessages && has_suffix(base, "/v1"@) ==> models_url(
            base,
            protocol,
        ) == base + "/"@ + "models"@,
{
    reveal_strlit("/");
    reveal_strlit("models");
    reveal_strlit("v1/models");
    reveal_strlit("v1/");
    lemma_slash_is_cut(base);
    lemma_slash_is_skipped("models"@);
    lemma_slash_is_skipped("v1/models"@);
    assert("models"@.subrange(0, 3)[0] == 'm');
    assert(!has_prefix("models"@, "v1/"@));
    let path = "v1/models"@;
    assert(path.subrange(0, 3) =~= "v1/"@);
    assert(path.skip(3) =~= "models"@);
    assert(trim_start_of("models"@, "v1/"@) == "models"@);
    assert(trim_start_of(path, "v1/"@) == "models"@);
}

/// A provider is asked for its models in JSON, and with the key in the header that its
/// protocol wants, where there is a key to send.
pub proof fn lemma_keys_are_sent(base: Seq<char>, protocol: ProviderProtocol, key: Seq<char>)
    ensures
        ({
            let bare = request_of(base, protocol, None);
            let keyed = request_of(base, protocol, Some(key));
            let accepts = ("Accept"@, "application/json"@);
            &&& bare.headers == seq![accepts]
            &&& is_blank(key) ==> keyed.headers == seq![accepts]
            &&& !is_blank(key) && (protocol == ProviderProtocol::OpenAiCompletions || protocol
                == ProviderProtocol::OpenAiResponses) ==> keyed.headers == seq![
                accepts,
                ("Authorization"@, "Bearer "@ + key),
            ]
            &&& !is_blank(key) && protocol == ProviderProtocol::AnthropicMessages ==> keyed.headers
                == seq![accepts, ("x-api-key"@, key), ("anthropic-version"@, "2023-06-01"@)]
            &&& !is_blank(key) && protocol == ProviderProtocol::GoogleGenerativeAi ==> keyed.headers
                == seq![accepts, ("x-goog-api-key"@, key)]
            &&& bare.url == keyed.url
            &&& bare.url == models_url(base_url_of(base), protocol)
        }),
{
    let accepts = ("Accept"@, "application/json"@);
    let bare = request_of(base, protocol, None);
    let keyed = request_of(base, protocol, Some(key));
    assert(bare.headers =~= seq![accepts]);
    if is_blank(key) {
        assert(keyed.headers =~= seq![accepts]);
    } else {
        match protocol {
            ProviderProtocol::OpenAiCompletions | ProviderProtocol::OpenAiResponses => {
                assert(keyed.headers =~= seq![accepts, ("Authorization"@, "Bearer "@ + key)]);
            },
            ProviderProtocol::AnthropicMessages => {
                assert(keyed.headers =~= seq![
                    accepts,
                    ("x-api-key"@, key),
                    ("anthropic-version"@, "2023-06-01"@),
                ]);
            },
            ProviderProtocol::GoogleGenerativeAi => {
                assert(keyed.headers =~= seq![accepts, ("x-goog-api-key"@, key)]);
            },
        }
    }
}

/// A model of a provider's list goes by the id that the list gives, and by the name
/// that it gives, else by the id. Nothing more is known of it than whether it sees
/// images, where the list says so.
pub proof fn lemma_listed_models_are_named(entry: JsonView, id: Seq<char>, name: Seq<char>)
    ensures
        forall|protocol: ProviderProtocol|
            (#[trigger] listed_model(protocol, entry)) matches Some(model) ==> !model.reasoning
                && model.thinking_level_map.len() == 0,
        ({
            let shown = listed_model(ProviderProtocol::AnthropicMessages, entry);
            &&& shown is Some <==> entry.text_at("id"@) is Some
            &&& shown matches Some(model) ==> Some(model.id) == entry.text_at("id"@)
                && !model.supports_images
            &&& shown is Some && entry.text_at("display_name"@) is Some ==> Some(
                (shown->0).name,
            ) == entry.text_at("display_name"@)
            &&& shown is Some && entry.text_at("display_name"@) is None ==> Some((shown->0).name)
                == entry.text_at("id"@)
        }),
        ({
            let shown = listed_model(ProviderProtocol::OpenAiCompletions, entry);
            &&& shown == listed_model(ProviderProtocol::OpenAiResponses, entry)
            &&& shown is Some <==> entry.text_at("id"@) is Some
            &&& shown matches Some(model) ==> Some(model.id) == entry.text_at("id"@)
                && !model.supports_images
            &&& shown is Some && entry.text_at("display_name"@) is Some ==> Some((shown->0).name)
                == entry.text_at("display_name"@)
            &&& shown is Some && entry.field("display_name"@) is None && entry.text_at("name"@)
                is Some ==> Some((shown->0).name) == entry.text_at("name"@)
            &&& shown is Some && entry.field("display_name"@) is None && entry.text_at("name"@)
                is None ==> Some((shown->0).name) == entry.text_at("id"@)
        }),
        ({
            let shown = listed_model(ProviderProtocol::GoogleGenerativeAi, entry);
            &&& shown is Some <==> entry.text_at("name"@) is Some
            &&& entry.text_at("name"@) == Some("models/"@ + id) ==> (shown->0).id == id
            &&& entry.text_at("name"@) == Some(id) && !has_prefix(id, "models/"@) ==> (shown->0).id
                == id
            &&& shown is Some && entry.text_at("displayName"@) == Some(name) ==> (shown->0).name
                == name
            &&& shown is Some && entry.text_at("displayName"@) is None ==> (shown->0).name
                == (shown->0).id
            &&& shown is Some ==> ((shown->0).supports_images <==> (entry.items_at(
                "supportedGenerationMethods"@,
            ) matches Some(methods) && methods.contains(JsonView::Str("generateContent"@))))
        }),
{
    let whole = "models/"@ + id;
    assert(whole.subrange(0, "models/"@.len() as int) =~= "models/"@);
    assert(whole.skip("models/"@.len() as int) =~= id);
    if let Some(methods) = entry.items_at("supportedGenerationMethods"@) {
        if methods.contains(JsonView::Str("generateContent"@)) {
            let i = choose|i: int|
                0 <= i < methods.len() && methods[i] == JsonView::Str("generateContent"@);
            assert(crate::providers::is_generation(methods[i]));
        }
        if crate::providers::some_generation(methods) {
            let i = choose|i: int|
                0 <= i < methods.len() && crate::providers::is_generation(#[trigger] methods[i]);
            assert(methods[i] == JsonView::Str("generateContent"@));
        }
    }
}

/// Dropping repeats drops no identifier.
proof fn lemma_ids_are_kept(models: Seq<ProviderModelView>, i: int)
    requires
        0 <= i < models.len(),
    ensures
        exists|k: int|
            0 <= k < without_repeats(models).len() && (#[trigger] without_repeats(models)[k]).id
                == models[i].id,
    decreases models.len(),
{
    crate::providers::lemma_no_repeats(models);
    let all = without_repeats(models);
    if i == models.len() - 1 {
        assert(all[all.len() - 1].id == models[i].id);
    } else {
        let front = models.drop_last();
        lemma_ids_are_kept(front, i);
        let less = without_repeats(front);
        let k = choose|k: int| 0 <= k < less.len() && (#[trigger] less[k]).id == front[i].id;
        assert(all[k] == less[k]);
    }
}

proof fn lemma_repeats_come_from(models: Seq<ProviderModelView>, k: int)
    requires
        0 <= k < without_repeats(models).len(),
    ensures
        models.contains(without_repeats(models)[k]),
    decreases models.len(),
{
    let all = without_repeats(models);
    let front = models.drop_last();
    let less = without_repeats(front);
    if k < less.len() {
        lemma_repeats_come_from(front, k);
        let i = choose|i: int| 0 <= i < front.len() && front[i] == less[k];
        assert(models[i] == all[k]);
    } else {
        assert(models[models.len() - 1] == all[k]);
    }
}

/// Every model that a provider lists is found, by its id, among those that were
/// discovered, and every model that was discovered is one that the provider lists.
pub proof fn lemma_discovery_is_complete(
    protocol: ProviderProtocol,
    body: JsonView,
    entries: Seq<JsonView>,
    i: int,
    k: int,
)
    requires
        protocol == ProviderProtocol::GoogleGenerativeAi ==> body.items_at("models"@) == Some(
            entries,
        ),
        protocol != ProviderProtocol::GoogleGenerativeAi ==> body.items_at("data"@) == Some(entries),
    ensures
        0 <= i < entries.len() && listed_model(protocol, entries[i]) is Some ==> exists|m: int|
            0 <= m < models_of(protocol, body).len() && (#[trigger] models_of(protocol, body)[m]).id
                == (listed_model(protocol, entries[i])->0).id,
        0 <= k < models_of(protocol, body).len() ==> exists|e: int|
            0 <= e < entries.len() && #[trigger] listed_model(protocol, entries[e]) == Some(
                models_of(protocol, body)[k],
            ),
{
    let f = |entry: JsonView| listed_model(protocol, entry);
    let listed = listed_models(protocol, body);
    assert(listed == keep_map(entries, f));
    lemma_by_name_is_sorted(listed);
    let sorted = by_name(listed);
    listed.to_multiset_ensures();
    sorted.to_multiset_ensures();
    if 0 <= i < entries.len() && listed_model(protocol, entries[i]) is Some {
        let model = listed_model(protocol, entries[i])->0;
        lemma_kept_item(entries, f, i);
        let n = choose|n: int| 0 <= n < listed.len() && #[trigger] listed[n] == f(entries[i])->0;
        assert(listed.contains(model));
        assert(sorted.to_multiset().count(model) > 0);
        assert(sorted.contains(model));
        let s = choose|s: int| 0 <= s < sorted.len() && sorted[s] == model;
        lemma_ids_are_kept(sorted, s);
        let m = choose|m: int|
            0 <= m < without_repeats(sorted).len() && (#[trigger] without_repeats(sorted)[m]).id
                == sorted[s].id;
        assert(models_of(protocol, body)[m].id == model.id);
    }
    if 0 <= k < models_of(protocol, body).len() {
        let model = models_of(protocol, body)[k];
        lemma_repeats_come_from(sorted, k);
        assert(sorted.contains(model));
        assert(listed.to_multiset().count(model) > 0);
        assert(listed.contains(model));
        let n = choose|n: int| 0 <= n < listed.len() && listed[n] == model;
        lemma_kept_from(entries, f, n);
        let e = choose|e: int| 0 <= e < entries.len() && #[trigger] f(entries[e]) == Some(listed[n]);
        assert(listed_model(protocol, entries[e]) == Some(model));
    }
}

/// The key of a search engine is kept without white space around it, and a blank one
/// is not kept at all.
pub proof fn lemma_engine_keys_are_kept(
    ids: Seq<SearchEngineId>,
    answers: Seq<Result<Option<Seq<char>>, Seq<char>>>,
    i: int,
    key: Seq<char>,
)
    requires
        0 <= i < answers.len() <= ids.len(),
        answers[i] == Ok::<Option<Seq<char>>, Seq<char>>(Some(key)),
        forall|k: int| 0 <= k < ids.len() && k != i ==> (#[trigger] ids[k]) != ids[i],
    ensures
        found_keys(ids, answers).contains_key(ids[i]) <==> !is_blank(key),
        !is_blank(key) ==> found_keys(ids, answers)[ids[i]] == trim(key),
    decreases answers.len(),
{
    let front = answers.drop_last();
    if i < answers.len() - 1 {
        assert(front[i] == answers[i]);
        lemma_engine_keys_are_kept(ids, front, i, key);
        assert(ids[answers.len() - 1] != ids[i]);
    } else {
        lemma_unasked_engine_has_no_key(ids, front, ids[i]);
    }
}

/// An engine that was not asked about has no key.
pub proof fn lemma_unasked_engine_has_no_key(
    ids: Seq<SearchEngineId>,
    answers: Seq<Result<Option<Seq<char>>, Seq<char>>>,
    id: SearchEngineId,
)
    requires
        answers.len() <= ids.len(),
        forall|k: int| 0 <= k < answers.len() ==> (#[trigger] ids[k]) != id,
    ensures
        !found_keys(ids, answers).contains_key(id),
    decreases answers.len(),
{
    if answers.len() > 0 {
        assert(ids[answers.len() - 1] != id);
        lemma_unasked_engine_has_no_key(ids, answers.drop_last(), id);
    }
}

/// A provider is kept exactly where a key was found for it.
pub proof fn lemma_keyed_providers(
    profiles: Seq<ProviderView>,
    answers: Seq<Result<Option<Seq<char>>, Seq<char>>>,
    i: int,
    k: int,
)
    requires
        answers.len() <= profiles.len(),
    ensures
        0 <= i < answers.len() && (answers[i] matches Ok(Some(_))) ==> keyed_profiles(
            profiles,
            answers,
        ).contains(profiles[i]),
        0 <= k < keyed_profiles(profiles, answers).len() ==> exists|e: int|
            0 <= e < answers.len() && (#[trigger] answers[e] matches Ok(Some(_))) && profiles[e]
                == keyed_profiles(profiles, answers)[k],
    decreases answers.len(),
{
    if answers.len() > 0 {
        let front = answers.drop_last();
        let n = answers.len() - 1;
        let less = keyed_profiles(profiles, front);
        let all = keyed_profiles(profiles, answers);
        lemma_keyed_providers(profiles, front, i, k);
        if 0 <= i < answers.len() && (answers[i] matches Ok(Some(_))) {
            if i < n {
                assert(front[i] == answers[i]);
                let j = choose|j: int| 0 <= j < less.len() && less[j] == profiles[i];
                assert(all[j] == profiles[i]);
            } else {
                assert(all[all.len() - 1] == profiles[i]);
            }
        }
        if 0 <= k < all.len() {
            if k < less.len() {
                let e = choose|e: int|
                    0 <= e < front.len() && (#[trigger] front[e] matches Ok(Some(_))) && profiles[e]
                        == less[k];
                assert(answers[e] == front[e]);
                assert(all[k] == less[k]);
            } else {
                assert(answers[n] matches Ok(Some(_)));
            }
        }
    }
}

/// Keys are stored and handed over under names that are made of the identifier alone.
pub proof fn lemma_names_of_keys(id: u128)
    ensures
        provider_account(id) == "provider-api-key-"@ + hyphenated(id),
        search_engine_account(id) == "search-engine-api-key-"@ + hyphenated(id),
        environment_name(id) == "PI_WHIM_PROVIDER_"@ + simple(id),
        config_key(id) == "pi-whim-"@ + simple(id),
{
}

} // verus!
