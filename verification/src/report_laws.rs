//! What is shown of models, refreshes and settings.

use vstd::prelude::*;
use crate::brain;
use crate::config;
use crate::config::ConfigModel;
use crate::model::ModelData;
use crate::report;
use crate::report::WrittenAmounts;
use crate::sync;
use crate::sync::{LiveReplies, SourceReply, SyncSummary};
use crate::text;
use crate::text_laws;
use crate::text_map;

verus! {

/// Whether a text is nothing but spaces.
pub open spec fn is_spaces(s: Seq<char>) -> bool {
    forall|i: int| 0 <= i < s.len() ==> #[trigger] s[i] == ' '
}

/// An aligned text is the text, filled up with spaces to the width and cut to
/// nothing: behind it on the left, in front of it on the right.
pub proof fn columns_are_filled_up(s: Seq<char>, width: nat)
    ensures
        ({
            let left = report::left_aligned(s, width);
            let right = report::right_aligned(s, width);
            let filled = if s.len() < width {
                width
            } else {
                s.len()
            };
            &&& left.len() == filled && right.len() == filled
            &&& left.take(s.len() as int) == s && is_spaces(left.skip(s.len() as int))
            &&& right.skip(filled - s.len()) == s && is_spaces(right.take(filled - s.len()))
        }),
{
    let left = report::left_aligned(s, width);
    let right = report::right_aligned(s, width);
    assert(left.take(s.len() as int) =~= s);
    assert(right.skip(right.len() - s.len()) =~= s);
}

/// A row of the table holds the slug, the price of input, the price of output,
/// the context and whether tools are taken, in this order, each in a column of
/// its own with a space between neighbours.
pub proof fn rows_hold_their_columns(
    slug: Seq<char>,
    price_in: Seq<char>,
    price_out: Seq<char>,
    context: Seq<char>,
    tools: Seq<char>,
)
    ensures
        report::row_text(slug, price_in, price_out, context, tools) == text_laws::joined(
            seq![
                report::left_aligned(slug, 42),
                report::right_aligned(price_in, 9),
                report::right_aligned(price_out, 9),
                report::right_aligned(context, 7),
                report::right_aligned(tools, 5),
            ],
            ' ',
        ),
{
    let a = report::left_aligned(slug, 42);
    let b = report::right_aligned(price_in, 9);
    let c = report::right_aligned(price_out, 9);
    let d = report::right_aligned(context, 7);
    let e = report::right_aligned(tools, 5);
    reveal_with_fuel(text_laws::joined, 5);
    assert(seq![a, b, c, d, e].drop_last() =~= seq![a, b, c, d]);
    assert(seq![a, b, c, d].drop_last() =~= seq![a, b, c]);
    assert(seq![a, b, c].drop_last() =~= seq![a, b]);
    assert(seq![a, b].drop_last() =~= seq![a]);
    assert(report::row_text(slug, price_in, price_out, context, tools) =~= text_laws::joined(
        seq![a, b, c, d, e],
        ' ',
    ));
}

/// A context window is shown as a number of tokens, of thousands of tokens or of
/// millions, whichever is the largest unit that it reaches, rounded down.
pub proof fn contexts_are_rounded_down(n: usize, units: nat)
    ensures
        n < 1_000 ==> brain::short_form(n) == text::decimal(n as nat),
        n >= 1_000 && n < 1_000_000 && units * 1_000 <= n < units * 1_000 + 1_000
            ==> brain::short_form(n) == text::decimal(units).push('k'),
        n >= 1_000_000 && units * 1_000_000 <= n < units * 1_000_000 + 1_000_000
            ==> brain::short_form(n) == text::decimal(units).push('m'),
{
    reveal_strlit("k");
    reveal_strlit("m");
    if n >= 1_000 && n < 1_000_000 && units * 1_000 <= n < units * 1_000 + 1_000 {
        assert(n / 1_000 == units);
        assert(brain::short_form(n) =~= text::decimal(units).push('k'));
    }
    if n >= 1_000_000 && units * 1_000_000 <= n < units * 1_000_000 + 1_000_000 {
        assert(n / 1_000_000 == units);
        assert(brain::short_form(n) =~= text::decimal(units).push('m'));
    }
}

/// One for a value that is there, none for one that is not.
pub open spec fn one_if<T>(value: Option<T>) -> int {
    if value is Some {
        1
    } else {
        0
    }
}

/// The details of a model are its name, its slug, its provider, its context and
/// its two prices; its limits, where it has any; whether it takes tools and
/// images; its region, where it has one; and its scores, where any is known.
pub proof fn details_hold_every_field(model: ModelData, amounts: WrittenAmounts)
    ensures
        ({
            let lines = report::detail_lines(model, amounts);
            let limits = one_if(model.tpm) + one_if(model.rpm);
            let scores = one_if(amounts.mmlu) + one_if(amounts.humaneval) + one_if(amounts.math);
            let flags = 6 + limits;
            &&& lines.len() == 8 + limits + one_if(model.region) + scores + if scores > 0 {
                1int
            } else {
                0
            }
            &&& lines[0] == model.name
            &&& lines[1] == "  slug:      "@ + model.slug
            &&& lines[2] == "  provider:  "@ + model.provider
            &&& lines[3] == "  context:   "@ + brain::short_form(model.context_window)
            &&& lines[4] == "  price in:  $"@ + amounts.price_in@ + "/1M tok"@
            &&& lines[5] == "  price out: $"@ + amounts.price_out@ + "/1M tok"@
            &&& model.tpm is Some ==> lines[6] == "  tpm:       "@ + text::decimal(
                model.tpm->0 as nat,
            )
            &&& model.rpm is Some ==> lines[flags - 1] == "  rpm:       "@ + text::decimal(
                model.rpm->0 as nat,
            )
            &&& model.supports_tools ==> lines[flags] == "  tools:     "@ + "yes"@
            &&& !model.supports_tools ==> lines[flags] == "  tools:     "@ + "no"@
            &&& model.supports_vision ==> lines[flags + 1] == "  vision:    "@ + "yes"@
            &&& !model.supports_vision ==> lines[flags + 1] == "  vision:    "@ + "no"@
            &&& model.region is Some ==> lines[flags + 2] == "  region:    "@ + model.region->0
        }),
{
}

/// The scores of a model are shown behind a heading, each under its own name,
/// and nothing is shown where no score is known.
pub proof fn scores_are_shown_by_name(
    mmlu: Option<Seq<char>>,
    humaneval: Option<Seq<char>>,
    math: Option<Seq<char>>,
)
    ensures
        ({
            let lines = report::benchmark_lines(mmlu, humaneval, math);
            let known = one_if(mmlu) + one_if(humaneval) + one_if(math);
            &&& known == 0 ==> lines.len() == 0
            &&& known > 0 ==> lines.len() == 1 + known && lines[0] == "  benchmarks:"@
            &&& mmlu is Some ==> lines[1] == "    mmlu:      "@ + mmlu->0
            &&& humaneval is Some ==> lines[1 + one_if(mmlu)] == "    humaneval: "@ + humaneval->0
            &&& math is Some ==> lines[known] == "    math:      "@ + math->0
        }),
{
}

/// The report of a refresh counts the models, names each source that answered
/// with how many it described, says whether the baseline was used, warns of each
/// failure in order, and ends with where the snapshot lies. Only failures are
/// warnings.
pub proof fn reports_count_and_warn(summary: SyncSummary, snapshot: Seq<char>, i: int)
    ensures
        ({
            let lines = report::sync_lines(summary, snapshot);
            let openrouter = 1 + one_if(summary.litellm_models);
            let baseline = openrouter + one_if(summary.openrouter_models);
            let warnings = baseline + if summary.fallback_used {
                1int
            } else {
                0
            };
            &&& lines.len() == warnings + summary.errors@.len() + 1
            &&& lines[0] == (
                false,
                "catalog: "@ + text::decimal(summary.total_models as nat) + " models (+"@
                    + text::decimal(summary.new_models as nat) + " new)"@,
            )
            &&& summary.litellm_models is Some ==> lines[1] == (
                false,
                "  litellm:    "@ + text::decimal(summary.litellm_models->0 as nat) + " models"@,
            )
            &&& summary.openrouter_models is Some ==> lines[openrouter] == (
                false,
                "  openrouter: "@ + text::decimal(summary.openrouter_models->0 as nat)
                    + " models"@,
            )
            &&& summary.fallback_used ==> !lines[baseline].0
            &&& 0 <= i < summary.errors@.len() ==> lines[warnings + i] == (
                true,
                "  warn: "@ + summary.errors@[i]@,
            )
            &&& lines.last() == (false, "snapshot \u{2192} "@ + snapshot)
        }),
{
    let lines = report::sync_lines(summary, snapshot);
    if 0 <= i < summary.errors@.len() {
        assert(text::texts(summary.errors@)[i] == summary.errors@[i]@);
    }
}

/// The summary of a refresh says how many models each source that answered
/// described, and records the failure of each that did not, by its name, by
/// whether it could not be fetched or not be read, and by the reason.
pub proof fn summaries_record_each_source(
    summary: SyncSummary,
    before: Seq<ModelData>,
    after: Seq<ModelData>,
    live: LiveReplies,
)
    requires
        sync::is_summary(summary, before, after, Some(live)),
    ensures
        summary.total_models == after.len(),
        summary.total_models == before.len() + summary.new_models,
        live.litellm matches SourceReply::Models(models) ==> summary.litellm_models == Some(
            models@.len() as usize,
        ),
        live.openrouter matches SourceReply::Models(models) ==> summary.openrouter_models == Some(
            models@.len() as usize,
        ),
        !(live.litellm is Models) ==> summary.litellm_models is None && summary.errors@.len() > 0,
        !(live.openrouter is Models) ==> summary.openrouter_models is None && summary.errors@.len()
            > 0,
        live.litellm is Models && live.openrouter is Models <==> summary.errors@.len() == 0,
        live.litellm matches SourceReply::FetchFailed(reason) ==> summary.errors@[0]@ == "litellm"@
            + " fetch: "@ + reason@,
        live.litellm matches SourceReply::ParseFailed(reason) ==> summary.errors@[0]@ == "litellm"@
            + " parse: "@ + reason@,
        live.openrouter matches SourceReply::FetchFailed(reason) ==> summary.errors@.last()@
            == "openrouter"@ + " fetch: "@ + reason@,
        live.openrouter matches SourceReply::ParseFailed(reason) ==> summary.errors@.last()@
            == "openrouter"@ + " parse: "@ + reason@,
{
    let errors = text::texts(summary.errors@);
    assert(errors.len() == summary.errors@.len());
    if errors.len() > 0 {
        assert(errors[0] == summary.errors@[0]@);
        assert(errors.last() == summary.errors@.last()@);
    }
}

/// A path below a directory is the directory, a slash and the name: one slash,
/// also where the directory ends in one.
pub proof fn paths_have_one_slash(directory: Seq<char>, name: Seq<char>)
    ensures
        directory.len() > 0 && directory.last() != '/' ==> config::below(directory, name)
            == directory + seq!['/'] + name,
        config::below(directory + seq!['/'], name) == directory + seq!['/'] + name,
        config::below(Seq::empty(), name) == name,
{
    assert((directory + seq!['/']).last() == '/');
    assert(Seq::<char>::empty() + name =~= name);
}

/// A key is shown by its first three and its last four characters, around four
/// asterisks, where something stands between them; nothing is shown of a shorter
/// one.
pub proof fn keys_are_shown_by_their_ends(
    first: Seq<char>,
    middle: Seq<char>,
    last: Seq<char>,
)
    requires
        first.len() == 3,
        last.len() == 4,
    ensures
        middle.len() > 0 ==> config::masked(first + middle + last) == first + seq![
            '*',
            '*',
            '*',
            '*',
        ] + last,
        config::masked(first + last) == seq!['*', '*', '*', '*'],
        config::masked(first) == seq!['*', '*', '*', '*'],
{
    let key = first + middle + last;
    reveal_strlit("****");
    assert("****"@ =~= seq!['*', '*', '*', '*']);
    assert(key.take(3) =~= first);
    assert(key.skip(key.len() - 4) =~= last);
}

/// The lines of a list of keys: a line for each, with the provider and the key
/// as it is shown.
pub open spec fn lines_of_keys(keys: Seq<(Seq<char>, Seq<char>)>) -> Seq<Seq<char>> {
    Seq::new(
        keys.len(),
        |i: int| "api_keys."@ + keys[i].0 + " = "@ + config::masked(keys[i].1) + "\n"@,
    )
}

proof fn lemma_key_lines(keys: Seq<(Seq<char>, Seq<char>)>)
    ensures
        config::key_lines(keys) == lines_of_keys(keys).flatten(),
    decreases keys.len(),
{
    let lines = lines_of_keys(keys);
    lines.lemma_flatten_and_flatten_alt_are_equivalent();
    if keys.len() > 0 {
        let rest = keys.drop_last();
        lemma_key_lines(rest);
        lines_of_keys(rest).lemma_flatten_and_flatten_alt_are_equivalent();
        assert(lines.drop_last() =~= lines_of_keys(rest));
        assert(lines.last() == "api_keys."@ + keys.last().0 + " = "@ + config::masked(
            keys.last().1,
        ) + "\n"@);
    }
}

/// What is shown of a configuration is its default model, its budget, and a line
/// for each provider with a key, in order; what is not set is said to be unset.
pub proof fn settings_are_shown_in_order(config: ConfigModel, dollars: Seq<char>)
    ensures
        config::shown(config, dollars) == "default_model    = "@ + match config.default_model {
            Some(slug) => slug,
            None => "(unset)"@,
        } + "\ndaily_budget_usd = "@ + match config.daily_budget_usd {
            Some(_) => "$"@ + dollars,
            None => "(unset)"@,
        } + "\n"@ + lines_of_keys(text_map::ordered_pairs(config.api_keys)).flatten(),
{
    lemma_key_lines(text_map::ordered_pairs(config.api_keys));
}

/// The variable of a provider is its name in upper case, with an underscore for
/// each hyphen, between a prefix and a suffix.
pub proof fn key_variables_name_the_provider(upper: Seq<char>, i: int)
    requires
        0 <= i < upper.len(),
    ensures
        ({
            let name = config::variable_of(upper);
            &&& name.len() == upper.len() + 12
            &&& name.take(8) == "FERROUS_"@
            &&& name.skip(name.len() - 4) == "_KEY"@
            &&& upper[i] == '-' ==> name[8 + i] == '_'
            &&& upper[i] != '-' ==> name[8 + i] == upper[i]
        }),
{
    reveal_strlit("FERROUS_");
    reveal_strlit("_KEY");
    let name = config::variable_of(upper);
    assert(name.take(8) =~= "FERROUS_"@);
    assert(name.skip(name.len() - 4) =~= "_KEY"@);
}

/// The key of a provider is what its variable holds, and else what the
/// configuration holds for that provider.
pub proof fn variables_win_over_the_configuration(
    keys: Map<Seq<char>, Seq<char>>,
    provider: Seq<char>,
    from_env: Seq<char>,
    key: Seq<char>,
    other: Seq<char>,
)
    ensures
        config::resolved(keys, provider, Some(from_env)) == Some(from_env),
        config::resolved(keys.insert(provider, key), provider, None) == Some(key),
        config::resolved(keys.remove(provider), provider, None) is None,
        other != provider ==> config::resolved(keys.insert(other, key), provider, None)
            == config::resolved(keys, provider, None),
{
}

/// Every refresh uses the bundled baseline, and one that asked no live source has
/// neither counts nor failures of any.
pub proof fn refreshes_use_the_baseline(
    summary: SyncSummary,
    before: Seq<ModelData>,
    after: Seq<ModelData>,
    live: Option<LiveReplies>,
)
    requires
        sync::is_summary(summary, before, after, live),
    ensures
        summary.fallback_used,
        live is None ==> {
            &&& summary.litellm_models is None
            &&& summary.openrouter_models is None
            &&& summary.errors@.len() == 0
            &&& summary.total_models == after.len()
            &&& summary.total_models == before.len() + summary.new_models
        },
{
}

} // verus!
