//! What a Pi process is configured with before it starts.

use vstd::prelude::*;

use crate::domain::{ProviderProfile, ProviderView};
use crate::json::{
    lemma_members_view, lookup, member_list, parsed, pretty, put, put_member, Json, JsonView,
};
use crate::keyed::TextMap;
use crate::providers::{
    answer_views, configured_provider_environment, models_config, pi_models_json, provider_environment,
    provider_ids, were_answered, KeyAnswer,
};
use crate::views::views;

verus! {

/// How many recent tokens Pi keeps when it compacts, as a number is written. Few,
/// so that small sessions can be compacted too.
pub const KEEP_RECENT_TOKENS: &'static str = "100";

/// The variable that tells Pi where its directory is.
pub const AGENT_DIRECTORY_VARIABLE: &'static str = "PI_CODING_AGENT_DIR";

/// The compaction settings with the number of recent tokens lowered. Settings
/// that are no object are left alone.
pub open spec fn lowered_compaction(compaction: Option<JsonView>) -> JsonView {
    match compaction {
        Some(JsonView::Object(members)) => JsonView::Object(
            put(members, "keepRecentTokens"@, JsonView::Number(KEEP_RECENT_TOKENS@)),
        ),
        Some(other) => other,
        None => JsonView::Object(
            put(Seq::empty(), "keepRecentTokens"@, JsonView::Number(KEEP_RECENT_TOKENS@)),
        ),
    }
}

/// Pi's settings with the number of recent tokens lowered. Settings that are no
/// object are left alone.
pub open spec fn lowered_settings(settings: JsonView) -> JsonView {
    match settings {
        JsonView::Object(members) => JsonView::Object(
            put(members, "compaction"@, lowered_compaction(lookup(members, "compaction"@))),
        ),
        other => other,
    }
}

/// Pi's settings with the number of recent tokens lowered.
pub fn with_keep_recent_tokens(settings: Json) -> (r: Json)
    ensures
        r@ == lowered_settings(settings@),
{
    let compaction = match settings.get("compaction") {
        Some(compaction) => {
            let copy = compaction.copy();
            match copy {
                Json::Object(members) => {
                    proof {
                        lemma_members_view(members, members.len() as nat);
                        assert(crate::json::members_view(members, members.len() as nat)
                            =~= member_list(members@));
                    }
                    let mut members = members;
                    put_member(
                        &mut members,
                        "keepRecentTokens".to_owned(),
                        Json::number(KEEP_RECENT_TOKENS),
                    );
                    Json::object(members)
                },
                other => other,
            }
        },
        None => {
            let mut members: Vec<(String, Json)> = Vec::new();
            proof {
                assert(member_list(members@) =~= Seq::empty());
            }
            put_member(
                &mut members,
                "keepRecentTokens".to_owned(),
                Json::number(KEEP_RECENT_TOKENS),
            );
            Json::object(members)
        },
    };
    proof {
        assert(compaction@ == lowered_compaction(settings@.field("compaction"@)));
    }
    match settings {
        Json::Object(members) => {
            proof {
                lemma_members_view(members, members.len() as nat);
                assert(crate::json::members_view(members, members.len() as nat) =~= member_list(
                    members@,
                ));
            }
            let mut members = members;
            put_member(&mut members, "compaction".to_owned(), compaction);
            Json::object(members)
        },
        other => other,
    }
}

/// Lowering the number of recent tokens sets it and keeps every other setting.
pub proof fn lemma_only_recent_tokens_change(settings: JsonView, key: Seq<char>)
    requires
        settings is Object,
        key != "compaction"@,
    ensures
        lowered_settings(settings).field(key) == settings.field(key),
        settings.field("compaction"@) is None || settings.field("compaction"@)->Some_0 is Object ==> (
        match lowered_settings(settings).field("compaction"@) {
            Some(compaction) => compaction.field("keepRecentTokens"@) == Some(
                JsonView::Number(KEEP_RECENT_TOKENS@),
            ),
            None => false,
        }),
{
    let members = settings->Object_0;
    let compaction = lowered_compaction(lookup(members, "compaction"@));
    crate::json::lemma_put_is_found(members, "compaction"@, compaction, key);
    crate::json::lemma_put_is_found(members, "compaction"@, compaction, "compaction"@);
    let inner = match settings.field("compaction"@) {
        Some(JsonView::Object(inner)) => inner,
        _ => Seq::empty(),
    };
    crate::json::lemma_put_is_found(
        inner,
        "keepRecentTokens"@,
        JsonView::Number(KEEP_RECENT_TOKENS@),
        "keepRecentTokens"@,
    );
}

/// The settings that stand in a file: those that it holds, or none where there is
/// no file or it is no document.
pub open spec fn stored_settings(stored: Option<Seq<char>>) -> JsonView {
    match stored {
        Some(text) => match parsed(text) {
            Some(settings) => settings,
            None => JsonView::Object(Seq::empty()),
        },
        None => JsonView::Object(Seq::empty()),
    }
}

/// The settings that are written back.
pub fn settings_text(stored: Option<&str>) -> (r: String)
    ensures
        r@ == pretty(lowered_settings(stored_settings(crate::text::opt_str(stored)))),
{
    let found = match stored {
        Some(text) => Json::parse(text),
        None => None,
    };
    let settings = match found {
        Some(settings) => settings,
        None => {
            let members: Vec<(String, Json)> = Vec::new();
            proof {
                assert(member_list(members@) =~= Seq::empty());
            }
            Json::object(members)
        },
    };
    with_keep_recent_tokens(settings).to_pretty()
}

/// What a Pi process is started with: two files of its directory and its
/// environment.
pub struct PiConfiguration {
    pub models_json: String,
    pub settings_json: String,
    pub environment: TextMap,
}

/// The configuration that the answers about the providers' keys amount to.
pub open spec fn is_configuration(
    r: Result<PiConfiguration, String>,
    found: Result<(Seq<ProviderView>, Map<Seq<char>, Seq<char>>), Seq<char>>,
    agent_directory: Seq<char>,
    stored: Option<Seq<char>>,
) -> bool {
    match (r, found) {
        (Ok(configuration), Ok((profiles, environment))) => {
            &&& configuration.models_json@ == pretty(models_config(profiles))
            &&& configuration.settings_json@ == pretty(lowered_settings(stored_settings(stored)))
            &&& configuration.environment@ == environment.insert(
                AGENT_DIRECTORY_VARIABLE@,
                agent_directory,
            )
        },
        (Err(error), Err(reason)) => error@ == reason,
        _ => false,
    }
}

/// The configuration of a Pi process: the providers that have a key, each key by
/// the name of its variable, the settings, and the environment to inherit.
pub fn prepare_pi_configuration<F: Fn(u128) -> KeyAnswer>(
    agent_directory: &str,
    profiles: Vec<ProviderProfile>,
    get_key: F,
    stored_settings_text: Option<&str>,
) -> (r: Result<PiConfiguration, String>)
    requires
        forall|id: u128| call_requires(get_key, (id,)),
    ensures
        exists|answers: Seq<KeyAnswer>| #[trigger]
            were_answered(get_key, provider_ids(views(profiles@)), answers) && is_configuration(
                r,
                provider_environment(views(profiles@), answer_views(answers)),
                agent_directory@,
                crate::text::opt_str(stored_settings_text),
            ),
{
    match configured_provider_environment(profiles, get_key) {
        Ok((configured, environment)) => {
            let mut environment = environment;
            let models_json = pi_models_json(&configured).to_pretty();
            let settings_json = settings_text(stored_settings_text);
            environment.insert(AGENT_DIRECTORY_VARIABLE.to_owned(), agent_directory.to_owned());
            Ok(PiConfiguration { models_json, settings_json, environment })
        },
        Err(error) => Err(error),
    }
}

} // verus!
