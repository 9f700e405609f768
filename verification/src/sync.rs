//! Source refresh: pull everything into the catalog.
//!
//! Offline-first: the bundled fallback always runs first so the brain is
//! never empty, then live sources enrich and override by slug. Failures of a
//! live source are collected into the summary, never fatal.

use vstd::prelude::*;
use crate::catalog;
use crate::catalog::Catalog;
use crate::catalog_laws;
use crate::error::FerrousError;
use crate::model::{Model, ModelData};
use crate::text;

verus! {

/// Where the LiteLLM cost map is published.
pub const LITELLM_COST_URL: &'static str = "https://raw.githubusercontent.com/BerriAI/litellm/main/model_prices_and_context_window.json";

/// Where OpenRouter lists its models.
pub const OPENROUTER_MODELS_URL: &'static str = "https://openrouter.ai/api/v1/models";

/// Something that can GET a URL and hand back the body. The program's talks
/// HTTP; another can hand out canned bodies.
pub trait Fetcher {
    /// GET a URL and hand back the body.
    ///
    /// # Errors
    ///
    /// Returns [`FerrousError::Network`] if that fails.
    fn get(&self, url: &str) -> Result<String, FerrousError>;
}

/// What came of asking a live source.
#[derive(Debug, PartialEq, Eq)]
pub enum SourceReply {
    /// The body could not be fetched, for this reason.
    FetchFailed(String),
    /// The body could not be read, for this reason.
    ParseFailed(String),
    /// The source described these models.
    Models(Vec<Model>),
}

/// What a sync pass did.
#[derive(Debug, PartialEq, Eq)]
pub struct SyncSummary {
    /// How many models the catalog holds.
    pub total_models: usize,
    /// How many of them are new.
    pub new_models: usize,
    /// Whether the bundled fallback was merged.
    pub fallback_used: bool,
    /// How many models LiteLLM described, if it answered.
    pub litellm_models: Option<usize>,
    /// How many models OpenRouter described, if it answered.
    pub openrouter_models: Option<usize>,
    /// Best-effort source failures; recorded, never fatal.
    pub errors: Vec<String>,
}

impl Default for SyncSummary {
    fn default() -> (r: Self)
        ensures
            r.total_models == 0,
            r.new_models == 0,
            !r.fallback_used,
            r.litellm_models is None,
            r.openrouter_models is None,
            r.errors@.len() == 0,
    {
        SyncSummary {
            total_models: 0,
            new_models: 0,
            fallback_used: false,
            litellm_models: None,
            openrouter_models: None,
            errors: Vec::new(),
        }
    }
}

/// The models that a reply adds to the catalog.
pub open spec fn reply_models(reply: SourceReply) -> Seq<ModelData> {
    match reply {
        SourceReply::Models(models) => catalog::data_of(models@),
        _ => Seq::empty(),
    }
}

/// How many models a source described, if it answered.
pub open spec fn reply_count(reply: SourceReply) -> Option<usize> {
    match reply {
        SourceReply::Models(models) => Some(models@.len() as usize),
        _ => None,
    }
}

/// The failure that a reply records, under the name of its source.
pub open spec fn reply_errors(source: Seq<char>, reply: SourceReply) -> Seq<Seq<char>> {
    match reply {
        SourceReply::FetchFailed(reason) => seq![source + " fetch: "@ + reason@],
        SourceReply::ParseFailed(reason) => seq![source + " parse: "@ + reason@],
        SourceReply::Models(_) => Seq::empty(),
    }
}

/// What the live sources answered, in the order in which they are asked.
#[derive(Debug, PartialEq, Eq)]
pub struct LiveReplies {
    /// What LiteLLM answered.
    pub litellm: SourceReply,
    /// What OpenRouter answered.
    pub openrouter: SourceReply,
}

/// Whether a reply is one that a source at a URL can give: its body is what the
/// fetcher gets there, and its models are what the reader makes of that body.
pub open spec fn can_reply<F: Fetcher, R: Fn(&str) -> Result<Vec<Model>, String>>(
    fetcher: &F,
    url: Seq<char>,
    reader: &R,
    reply: SourceReply,
) -> bool {
    exists|asked: &str, fetched: Result<String, FerrousError>|
        {
            &&& asked@ == url
            &&& #[trigger] call_ensures(F::get, (fetcher, asked), fetched)
            &&& match fetched {
                Err(error) => reply matches SourceReply::FetchFailed(reason) && reason@
                    == error.message_text(),
                Ok(body) => can_read(reader, body@, reply),
            }
        }
}

/// Whether a reply is one that a reader can make of a body.
pub open spec fn can_read<R: Fn(&str) -> Result<Vec<Model>, String>>(
    reader: &R,
    body: Seq<char>,
    reply: SourceReply,
) -> bool {
    exists|given: &str, read: Result<Vec<Model>, String>|
        {
            &&& given@ == body
            &&& #[trigger] call_ensures(*reader, (given,), read)
            &&& reply == match read {
                Ok(models) => SourceReply::Models(models),
                Err(reason) => SourceReply::ParseFailed(reason),
            }
        }
}

/// Ask the live source at a URL, reading its body with `reader`.
fn ask<F: Fetcher, R: Fn(&str) -> Result<Vec<Model>, String>>(
    fetcher: &F,
    url: &str,
    reader: &R,
) -> (r: SourceReply)
    requires
        forall|body: &str| #[trigger] call_requires(*reader, (body,)),
    ensures
        can_reply(fetcher, url@, reader, r),
{
    let fetched = fetcher.get(url);
    assert(call_ensures(F::get, (fetcher, url), fetched));
    match fetched {
        Err(error) => SourceReply::FetchFailed(error.message()),
        Ok(body) => {
            let given = body.as_str();
            let read = reader(given);
            assert(call_ensures(*reader, (given,), read));
            let reply = match read {
                Ok(models) => SourceReply::Models(models),
                Err(reason) => SourceReply::ParseFailed(reason),
            };
            assert(can_read(reader, body@, reply));
            reply
        },
    }
}

/// Ask the live sources, LiteLLM first, each at its own URL and each body read
/// with its own reader.
pub fn ask_sources<
    F: Fetcher,
    L: Fn(&str) -> Result<Vec<Model>, String>,
    O: Fn(&str) -> Result<Vec<Model>, String>,
>(fetcher: &F, litellm: &L, openrouter: &O) -> (r: LiveReplies)
    requires
        forall|body: &str| #[trigger] call_requires(*litellm, (body,)),
        forall|body: &str| #[trigger] call_requires(*openrouter, (body,)),
    ensures
        can_reply(fetcher, LITELLM_COST_URL@, litellm, r.litellm),
        can_reply(fetcher, OPENROUTER_MODELS_URL@, openrouter, r.openrouter),
{
    let litellm = ask(fetcher, LITELLM_COST_URL, litellm);
    let openrouter = ask(fetcher, OPENROUTER_MODELS_URL, openrouter);
    LiveReplies { litellm, openrouter }
}

/// The catalog after a refresh: the fallback, then each live source over it.
pub open spec fn refreshed(
    models: Seq<ModelData>,
    fallback: Seq<ModelData>,
    live: Option<LiveReplies>,
) -> Seq<ModelData> {
    let base = catalog::merged(models, fallback);
    match live {
        Some(live) => catalog::merged(
            catalog::merged(base, reply_models(live.litellm)),
            reply_models(live.openrouter),
        ),
        None => base,
    }
}

/// What the live sources add to the summary of a refresh.
pub open spec fn is_summary(
    summary: SyncSummary,
    before: Seq<ModelData>,
    after: Seq<ModelData>,
    live: Option<LiveReplies>,
) -> bool {
    &&& summary.total_models == after.len()
    &&& summary.new_models == after.len() - before.len()
    &&& summary.fallback_used
    &&& match live {
        Some(live) => {
            &&& summary.litellm_models == reply_count(live.litellm)
            &&& summary.openrouter_models == reply_count(live.openrouter)
            &&& text::texts(summary.errors@) == reply_errors("litellm"@, live.litellm)
                + reply_errors("openrouter"@, live.openrouter)
        },
        None => {
            &&& summary.litellm_models is None
            &&& summary.openrouter_models is None
            &&& summary.errors@.len() == 0
        },
    }
}

/// Unix seconds, given the seconds since the epoch; zero for a clock that
/// stands before it.
pub fn now_secs(since_epoch: Option<u64>) -> (r: i64)
    ensures
        r == match since_epoch {
            Some(seconds) => seconds as i64,
            None => 0,
        },
{
    match since_epoch {
        Some(seconds) => seconds as i64,
        None => 0,
    }
}

/// Merge what a live source answered. Returns how many models were new, and how
/// many it described if it answered.
fn merge_reply(
    catalog: &mut Catalog,
    source: &str,
    reply: SourceReply,
    errors: &mut Vec<String>,
) -> (r: (usize, Option<usize>))
    ensures
        final(catalog)@ == catalog::merged(old(catalog)@, reply_models(reply)),
        r.0 == final(catalog)@.len() - old(catalog)@.len(),
        r.1 == reply_count(reply),
        text::texts(final(errors)@) == text::texts(old(errors)@) + reply_errors(source@, reply),
{
    let ghost before = text::texts(errors@);
    match reply {
        SourceReply::Models(models) => {
            let count = models.len();
            let added = catalog.merge(models);
            assert(text::texts(errors@) =~= before + reply_errors(source@, reply));
            (added, Some(count))
        },
        SourceReply::FetchFailed(reason) => {
            let mut line = text::joined(source, " fetch: ");
            line.append(reason.as_str());
            errors.push(line);
            assert(text::texts(errors@) =~= before + reply_errors(source@, reply));
            (0, None)
        },
        SourceReply::ParseFailed(reason) => {
            let mut line = text::joined(source, " parse: ");
            line.append(reason.as_str());
            errors.push(line);
            assert(text::texts(errors@) =~= before + reply_errors(source@, reply));
            (0, None)
        },
    }
}

/// Refresh the catalog from the bundled fallback and, when they were asked,
/// from what the live sources answered.
pub fn refresh(catalog: &mut Catalog, fallback: Vec<Model>, live: Option<LiveReplies>) -> (r:
    SyncSummary)
    ensures
        final(catalog)@ == refreshed(old(catalog)@, catalog::data_of(fallback@), live),
        is_summary(r, old(catalog)@, final(catalog)@, live),
{
    let mut summary = SyncSummary::default();
    // The offline baseline comes first, always.
    let mut new_models: usize = catalog.merge(fallback);
    summary.fallback_used = true;
    if let Some(live) = live {
        let mut errors: Vec<String> = Vec::new();
        let (from_litellm, litellm_models) = merge_reply(
            catalog,
            "litellm",
            live.litellm,
            &mut errors,
        );
        let (from_openrouter, openrouter_models) = merge_reply(
            catalog,
            "openrouter",
            live.openrouter,
            &mut errors,
        );
        let _ = catalog.len();
        new_models = new_models + from_litellm + from_openrouter;
        summary.litellm_models = litellm_models;
        summary.openrouter_models = openrouter_models;
        summary.errors = errors;
    }
    summary.new_models = new_models;
    summary.total_models = catalog.len();
    summary
}

/// Everything that a refresh merges, in order.
pub open spec fn refresh_batch(fallback: Seq<ModelData>, live: Option<LiveReplies>) -> Seq<
    ModelData,
> {
    match live {
        Some(live) => fallback + reply_models(live.litellm) + reply_models(live.openrouter),
        None => fallback,
    }
}

proof fn lemma_merged_in_parts(
    models: Seq<ModelData>,
    first: Seq<ModelData>,
    second: Seq<ModelData>,
)
    ensures
        catalog::merged(catalog::merged(models, first), second) == catalog::merged(
            models,
            first + second,
        ),
    decreases second.len(),
{
    if second.len() > 0 {
        lemma_merged_in_parts(models, first, second.drop_last());
        assert((first + second).drop_last() =~= first + second.drop_last());
    } else {
        assert(first + second =~= first);
    }
}

proof fn lemma_refreshed(
    models: Seq<ModelData>,
    fallback: Seq<ModelData>,
    live: Option<LiveReplies>,
)
    ensures
        refreshed(models, fallback, live) == catalog::merged(models, refresh_batch(fallback, live)),
{
    if let Some(live) = live {
        lemma_merged_in_parts(models, fallback, reply_models(live.litellm));
        lemma_merged_in_parts(
            models,
            fallback + reply_models(live.litellm),
            reply_models(live.openrouter),
        );
    }
}

proof fn lemma_merged_len(models: Seq<ModelData>, batch: Seq<ModelData>)
    ensures
        catalog::merged(models, batch).len() >= models.len(),
        batch.len() > 0 ==> catalog::merged(models, batch).len() > 0,
    decreases batch.len(),
{
    if batch.len() > 0 {
        lemma_merged_len(models, batch.drop_last());
        let before = catalog::merged(models, batch.drop_last());
        if catalog::has_slug(before, batch.last().slug) {
            assert(catalog::is_at(
                before,
                batch.last().slug,
                catalog::position(before, batch.last().slug),
            ));
        }
    }
}

/// The brain is never empty: with a bundled baseline, a refresh leaves models
/// in the catalog whatever the live sources answer.
pub proof fn a_refreshed_catalog_is_never_empty(
    models: Seq<ModelData>,
    fallback: Seq<ModelData>,
    live: Option<LiveReplies>,
)
    requires
        fallback.len() > 0,
    ensures
        refreshed(models, fallback, live).len() > 0,
{
    lemma_refreshed(models, fallback, live);
    lemma_merged_len(models, refresh_batch(fallback, live));
}

/// A source that fails is never fatal: the catalog is what it is without the
/// source.
pub proof fn failed_sources_change_nothing(
    models: Seq<ModelData>,
    fallback: Seq<ModelData>,
    live: LiveReplies,
)
    ensures
        !(live.litellm is Models) && !(live.openrouter is Models) ==> refreshed(
            models,
            fallback,
            Some(live),
        ) == refreshed(models, fallback, None),
        !(live.litellm is Models) ==> refreshed(models, fallback, Some(live)) == catalog::merged(
            catalog::merged(models, fallback),
            reply_models(live.openrouter),
        ),
        !(live.openrouter is Models) ==> refreshed(models, fallback, Some(live))
            == catalog::merged(catalog::merged(models, fallback), reply_models(live.litellm)),
{
}

/// Live sources override by slug: a lookup finds what OpenRouter said last of
/// it, else what LiteLLM did, else the baseline, else what was there before.
pub proof fn live_sources_override_by_slug(
    models: Seq<ModelData>,
    fallback: Seq<ModelData>,
    live: LiveReplies,
    slug: Seq<char>,
)
    requires
        catalog::unique_slugs(models),
    ensures
        catalog::lookup(refreshed(models, fallback, Some(live)), slug) == match (
            catalog_laws::last_of(reply_models(live.openrouter), slug),
            catalog_laws::last_of(reply_models(live.litellm), slug),
            catalog_laws::last_of(fallback, slug),
        ) {
            (Some(model), _, _) => Some(model),
            (None, Some(model), _) => Some(model),
            (None, None, Some(model)) => Some(model),
            (None, None, None) => catalog::lookup(models, slug),
        },
{
    let base = catalog::merged(models, fallback);
    let priced = catalog::merged(base, reply_models(live.litellm));
    catalog_laws::merge_overrides_by_slug(models, fallback, slug);
    catalog_laws::merge_overrides_by_slug(base, reply_models(live.litellm), slug);
    catalog_laws::merge_overrides_by_slug(priced, reply_models(live.openrouter), slug);
}

/// A refresh that brings the same again changes nothing.
pub proof fn refreshing_again_changes_nothing(
    models: Seq<ModelData>,
    fallback: Seq<ModelData>,
    live: Option<LiveReplies>,
)
    requires
        catalog::unique_slugs(models),
    ensures
        refreshed(refreshed(models, fallback, live), fallback, live) == refreshed(
            models,
            fallback,
            live,
        ),
{
    lemma_refreshed(models, fallback, live);
    lemma_refreshed(refreshed(models, fallback, live), fallback, live);
    catalog_laws::merging_again_changes_nothing(models, refresh_batch(fallback, live));
}

} // verus!
