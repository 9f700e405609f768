//! What the command line shows of the brain.

use vstd::prelude::*;
use crate::brain;
use crate::model::Model;
use crate::sync::SyncSummary;
use crate::text;

verus! {

/// A number of spaces.
pub open spec fn spaces(n: int) -> Seq<char> {
    Seq::new(
        if n > 0 {
            n as nat
        } else {
            0
        },
        |i: int| ' ',
    )
}

/// A text filled up behind it to a width.
pub open spec fn left_aligned(s: Seq<char>, width: nat) -> Seq<char> {
    s + spaces(width - s.len())
}

/// A text filled up in front of it to a width.
pub open spec fn right_aligned(s: Seq<char>, width: nat) -> Seq<char> {
    spaces(width - s.len()) + s
}

/// The spaces that fill a text up to a width.
fn filling(s: &str, width: usize) -> (r: String)
    ensures
        r@ == spaces(width - s@.len()),
{
    let chars = text::chars_of(s);
    let mut r = String::new();
    let mut at: usize = chars.len();
    assert(r@ =~= spaces(0));
    while at < width
        invariant
            chars.len() == s@.len(),
            chars.len() <= at,
            at <= width || at == chars.len(),
            r@ == spaces(at - s@.len()),
        decreases width - at,
    {
        r.push(' ');
        at = at + 1;
        assert(r@ =~= spaces(at - s@.len()));
    }
    assert(r@ =~= spaces(width - s@.len()));
    r
}

/// Append a text filled up behind it to a width.
fn append_left(out: &mut String, s: &str, width: usize)
    ensures
        final(out)@ == old(out)@ + left_aligned(s@, width as nat),
{
    let fill = filling(s, width);
    out.append(s);
    out.append(fill.as_str());
    assert(out@ =~= old(out)@ + left_aligned(s@, width as nat));
}

/// Append a text filled up in front of it to a width, behind a space.
fn append_right(out: &mut String, s: &str, width: usize)
    ensures
        final(out)@ == old(out)@ + seq![' '] + right_aligned(s@, width as nat),
{
    let fill = filling(s, width);
    out.push(' ');
    out.append(fill.as_str());
    out.append(s);
    assert(out@ =~= old(out)@ + seq![' '] + right_aligned(s@, width as nat));
}

/// One line of the table of models.
pub open spec fn row_text(
    slug: Seq<char>,
    price_in: Seq<char>,
    price_out: Seq<char>,
    context: Seq<char>,
    tools: Seq<char>,
) -> Seq<char> {
    left_aligned(slug, 42) + seq![' '] + right_aligned(price_in, 9) + seq![' '] + right_aligned(
        price_out,
        9,
    ) + seq![' '] + right_aligned(context, 7) + seq![' '] + right_aligned(tools, 5)
}

/// One line of the table of models.
fn row(slug: &str, price_in: &str, price_out: &str, context: &str, tools: &str) -> (r: String)
    ensures
        r@ == row_text(slug@, price_in@, price_out@, context@, tools@),
{
    let mut r = String::new();
    append_left(&mut r, slug, 42);
    assert(r@ =~= left_aligned(slug@, 42));
    append_right(&mut r, price_in, 9);
    append_right(&mut r, price_out, 9);
    append_right(&mut r, context, 7);
    append_right(&mut r, tools, 5);
    r
}

/// The heading of the table of models.
pub fn table_heading() -> (r: String)
    ensures
        r@ == row_text("slug"@, "$in/1M"@, "$out/1M"@, "ctx"@, "tools"@),
{
    row("slug", "$in/1M", "$out/1M", "ctx", "tools")
}

/// The line of a model in the table, given its prices with two decimals.
pub fn table_row(model: &Model, price_in: &str, price_out: &str) -> (r: String)
    ensures
        r@ == row_text(
            model@.slug,
            price_in@,
            price_out@,
            brain::short_form(model@.context_window),
            if model@.supports_tools {
                "yes"@
            } else {
                ""@
            },
        ),
{
    let context = brain::fmt_ctx(model.context_window);
    row(
        model.slug.as_str(),
        price_in,
        price_out,
        context.as_str(),
        if model.supports_tools {
            "yes"
        } else {
            ""
        },
    )
}

/// The amounts of a model, written out.
#[derive(Debug, PartialEq, Eq)]
pub struct WrittenAmounts {
    /// USD per 1M input tokens, with four decimals.
    pub price_in: String,
    /// USD per 1M output tokens, with four decimals.
    pub price_out: String,
    /// MMLU score.
    pub mmlu: Option<String>,
    /// HumanEval score.
    pub humaneval: Option<String>,
    /// MATH score.
    pub math: Option<String>,
}

/// A line with a label, if there is something to show.
pub open spec fn optional_line(label: Seq<char>, value: Option<Seq<char>>) -> Seq<Seq<char>> {
    match value {
        Some(value) => seq![label + value],
        None => Seq::empty(),
    }
}

/// A number written out, if there is one.
pub open spec fn written(value: Option<u64>) -> Option<Seq<char>> {
    match value {
        Some(value) => Some(text::decimal(value as nat)),
        None => None,
    }
}

/// Yes or no.
pub open spec fn yes_or_no(value: bool) -> Seq<char> {
    if value {
        "yes"@
    } else {
        "no"@
    }
}

/// The lines that show the benchmarks of a model; none where no score is known.
pub open spec fn benchmark_lines(
    mmlu: Option<Seq<char>>,
    humaneval: Option<Seq<char>>,
    math: Option<Seq<char>>,
) -> Seq<Seq<char>> {
    if mmlu is None && humaneval is None && math is None {
        Seq::empty()
    } else {
        seq!["  benchmarks:"@] + optional_line("    mmlu:      "@, mmlu) + optional_line(
            "    humaneval: "@,
            humaneval,
        ) + optional_line("    math:      "@, math)
    }
}

/// The lines that show a model in full.
pub open spec fn detail_lines(
    model: crate::model::ModelData,
    amounts: WrittenAmounts,
) -> Seq<Seq<char>> {
    seq![
        model.name,
        "  slug:      "@ + model.slug,
        "  provider:  "@ + model.provider,
        "  context:   "@ + brain::short_form(model.context_window),
        "  price in:  $"@ + amounts.price_in@ + "/1M tok"@,
        "  price out: $"@ + amounts.price_out@ + "/1M tok"@,
    ] + optional_line("  tpm:       "@, written(model.tpm)) + optional_line(
        "  rpm:       "@,
        written(model.rpm),
    ) + seq![
        "  tools:     "@ + yes_or_no(model.supports_tools),
        "  vision:    "@ + yes_or_no(model.supports_vision),
    ] + optional_line("  region:    "@, model.region) + benchmark_lines(
        text::optional(amounts.mmlu),
        text::optional(amounts.humaneval),
        text::optional(amounts.math),
    )
}

/// Append a line.
fn push_line(lines: &mut Vec<String>, line: String)
    ensures
        text::texts(final(lines)@) == text::texts(old(lines)@) + seq![line@],
{
    lines.push(line);
    assert(text::texts(lines@) =~= text::texts(old(lines)@) + seq![line@]);
}

/// Append a line with a label, if there is something to show.
fn push_optional(lines: &mut Vec<String>, label: &str, value: &Option<String>)
    ensures
        text::texts(final(lines)@) == text::texts(old(lines)@) + optional_line(
            label@,
            text::optional(*value),
        ),
{
    match value {
        Some(value) => push_line(lines, text::joined(label, value.as_str())),
        None => {
            assert(text::texts(lines@) =~= text::texts(lines@) + Seq::<Seq<char>>::empty());
        },
    }
}

/// A number written out, if there is one.
fn write_number(value: Option<u64>) -> (r: Option<String>)
    ensures
        text::optional(r) == written(value),
{
    match value {
        Some(value) => {
            let r = text::around_number("", value, "");
            proof {
                reveal_strlit("");
                assert(r@ =~= text::decimal(value as nat));
            }
            Some(r)
        },
        None => None,
    }
}

/// Yes or no.
fn yes_no(value: bool) -> (r: &'static str)
    ensures
        r@ == yes_or_no(value),
{
    if value {
        "yes"
    } else {
        "no"
    }
}

/// The lines that show a model in full, given its amounts written out.
pub fn model_details(model: &Model, amounts: &WrittenAmounts) -> (r: Vec<String>)
    ensures
        text::texts(r@) == detail_lines(model@, *amounts),
{
    let mut r: Vec<String> = Vec::new();
    push_line(&mut r, model.name.clone());
    push_line(&mut r, text::joined("  slug:      ", model.slug.as_str()));
    push_line(&mut r, text::joined("  provider:  ", model.provider.as_str()));
    push_line(
        &mut r,
        text::joined("  context:   ", brain::fmt_ctx(model.context_window).as_str()),
    );
    let mut line = text::joined("  price in:  $", amounts.price_in.as_str());
    line.append("/1M tok");
    push_line(&mut r, line);
    let mut line = text::joined("  price out: $", amounts.price_out.as_str());
    line.append("/1M tok");
    push_line(&mut r, line);
    let ghost head = text::texts(r@);
    proof {
        assert(head =~= seq![
            model@.name,
            "  slug:      "@ + model@.slug,
            "  provider:  "@ + model@.provider,
            "  context:   "@ + brain::short_form(model@.context_window),
            "  price in:  $"@ + amounts.price_in@ + "/1M tok"@,
            "  price out: $"@ + amounts.price_out@ + "/1M tok"@,
        ]);
    }
    push_optional(&mut r, "  tpm:       ", &write_number(model.tpm));
    push_optional(&mut r, "  rpm:       ", &write_number(model.rpm));
    let ghost limits = text::texts(r@);
    push_line(&mut r, text::joined("  tools:     ", yes_no(model.supports_tools)));
    push_line(&mut r, text::joined("  vision:    ", yes_no(model.supports_vision)));
    proof {
        assert(text::texts(r@) =~= limits + seq![
            "  tools:     "@ + yes_or_no(model@.supports_tools),
            "  vision:    "@ + yes_or_no(model@.supports_vision),
        ]);
    }
    push_optional(&mut r, "  region:    ", &model.region);
    let ghost before = text::texts(r@);
    if amounts.mmlu.is_some() || amounts.humaneval.is_some() || amounts.math.is_some() {
        push_line(&mut r, "  benchmarks:".to_owned());
        push_optional(&mut r, "    mmlu:      ", &amounts.mmlu);
        push_optional(&mut r, "    humaneval: ", &amounts.humaneval);
        push_optional(&mut r, "    math:      ", &amounts.math);
    }
    proof {
        assert(text::texts(r@) =~= before + benchmark_lines(
            text::optional(amounts.mmlu),
            text::optional(amounts.humaneval),
            text::optional(amounts.math),
        ));
    }
    r
}

/// One line of a report.
#[derive(Debug, PartialEq, Eq)]
pub enum ReportLine {
    /// A line for the output.
    Out(String),
    /// A line for the error output.
    Warning(String),
}

/// What a [`ReportLine`] denotes: whether it is a warning, and its text.
pub open spec fn line_model(line: ReportLine) -> (bool, Seq<char>) {
    match line {
        ReportLine::Out(line) => (false, line@),
        ReportLine::Warning(line) => (true, line@),
    }
}

/// What a list of report lines denotes.
pub open spec fn line_models(lines: Seq<ReportLine>) -> Seq<(bool, Seq<char>)> {
    Seq::new(lines.len(), |i: int| line_model(lines[i]))
}

/// The line that counts the models of a source, if it answered.
pub open spec fn source_line(label: Seq<char>, count: Option<usize>) -> Seq<(bool, Seq<char>)> {
    match count {
        Some(count) => seq![(false, label + text::decimal(count as nat) + " models"@)],
        None => Seq::empty(),
    }
}

/// The line that names the bundled baseline, if it was used.
pub open spec fn baseline_line(used: bool) -> Seq<(bool, Seq<char>)> {
    if used {
        seq![
            (
                false,
                "  fallback:   bundled baseline (approximate prices \u{2014} use --live to refresh)"@,
            ),
        ]
    } else {
        Seq::empty()
    }
}

/// The lines that warn of failures.
pub open spec fn warning_lines(errors: Seq<Seq<char>>) -> Seq<(bool, Seq<char>)> {
    Seq::new(errors.len(), |i: int| (true, "  warn: "@ + errors[i]))
}

/// The lines that report a sync pass.
pub open spec fn sync_lines(summary: SyncSummary, snapshot: Seq<char>) -> Seq<(bool, Seq<char>)> {
    seq![
        (
            false,
            "catalog: "@ + text::decimal(summary.total_models as nat) + " models (+"@
                + text::decimal(summary.new_models as nat) + " new)"@,
        ),
    ] + source_line("  litellm:    "@, summary.litellm_models) + source_line(
        "  openrouter: "@,
        summary.openrouter_models,
    ) + baseline_line(summary.fallback_used) + warning_lines(text::texts(summary.errors@)) + seq![
        (false, "snapshot \u{2192} "@ + snapshot),
    ]
}

/// Append a line of a report.
fn push_report(lines: &mut Vec<ReportLine>, line: ReportLine)
    ensures
        line_models(final(lines)@) == line_models(old(lines)@) + seq![line_model(line)],
{
    lines.push(line);
    assert(line_models(lines@) =~= line_models(old(lines)@) + seq![line_model(line)]);
}

/// Append the line that counts the models of a source, if it answered.
fn push_source(lines: &mut Vec<ReportLine>, label: &str, count: Option<usize>)
    ensures
        line_models(final(lines)@) == line_models(old(lines)@) + source_line(label@, count),
{
    match count {
        Some(count) => push_report(
            lines,
            ReportLine::Out(text::around_number(label, count as u64, " models")),
        ),
        None => {
            assert(line_models(lines@) =~= line_models(lines@) + source_line(label@, count));
        },
    }
}

/// The lines that report a sync pass, given where the snapshot lies.
pub fn sync_report(summary: &SyncSummary, snapshot: &str) -> (r: Vec<ReportLine>)
    ensures
        line_models(r@) == sync_lines(*summary, snapshot@),
{
    let mut r: Vec<ReportLine> = Vec::new();
    let mut first = text::around_number("catalog: ", summary.total_models as u64, " models (+");
    text::push_decimal(&mut first, summary.new_models as u64);
    first.append(" new)");
    push_report(&mut r, ReportLine::Out(first));
    assert(line_models(r@) =~= seq![
        (
            false,
            "catalog: "@ + text::decimal(summary.total_models as nat) + " models (+"@
                + text::decimal(summary.new_models as nat) + " new)"@,
        ),
    ]);
    push_source(&mut r, "  litellm:    ", summary.litellm_models);
    push_source(&mut r, "  openrouter: ", summary.openrouter_models);
    let ghost counted = line_models(r@);
    if summary.fallback_used {
        push_report(
            &mut r,
            ReportLine::Out(
                "  fallback:   bundled baseline (approximate prices \u{2014} use --live to refresh)".to_owned(),
            ),
        );
    }
    assert(line_models(r@) =~= counted + baseline_line(summary.fallback_used));
    let ghost before = line_models(r@);
    let ghost errors = text::texts(summary.errors@);
    let mut i: usize = 0;
    assert(before =~= before + warning_lines(errors.take(0)));
    while i < summary.errors.len()
        invariant
            i <= summary.errors.len(),
            errors == text::texts(summary.errors@),
            line_models(r@) == before + warning_lines(errors.take(i as int)),
        decreases summary.errors.len() - i,
    {
        let line = text::joined("  warn: ", summary.errors[i].as_str());
        let ghost so_far = warning_lines(errors.take(i as int));
        let ghost added = line@;
        push_report(&mut r, ReportLine::Warning(line));
        assert(warning_lines(errors.take(i + 1)) =~= so_far + seq![(true, added)]);
        assert(line_models(r@) =~= before + warning_lines(errors.take(i + 1)));
        i = i + 1;
    }
    assert(errors.take(i as int) =~= errors);
    push_report(&mut r, ReportLine::Out(text::joined("snapshot \u{2192} ", snapshot)));
    r
}

} // verus!
