//! The model catalog data model: the thing the whole brain reasons over.
//!
//! An amount of money or a score is carried as the bits of its IEEE double;
//! [`amount_rank`] gives the order of two such amounts.

use vstd::prelude::*;
use crate::text;
use crate::text_case;

verus! {

/// The benchmarks that matter for routing decisions.
#[derive(Debug, Clone, Copy, PartialEq, Eq)]
pub struct Benchmarks {
    /// MMLU score, as bits.
    pub mmlu: Option<u64>,
    /// HumanEval score, as bits.
    pub humaneval: Option<u64>,
    /// MATH score, as bits.
    pub math: Option<u64>,
    /// Median time-to-first-token in ms, when measured.
    pub latency_ms: Option<u64>,
}

/// No benchmark is known.
pub open spec fn no_benchmarks() -> Benchmarks {
    Benchmarks { mmlu: None, humaneval: None, math: None, latency_ms: None }
}

impl Default for Benchmarks {
    fn default() -> (r: Self)
        ensures
            r == no_benchmarks(),
    {
        Benchmarks { mmlu: None, humaneval: None, math: None, latency_ms: None }
    }
}

/// One LLM the router can choose from.
///
/// Lives in memory, persists as a compact snapshot, and is refreshed from
/// LiteLLM, OpenRouter or the bundled fallback.
#[derive(Debug, PartialEq, Eq)]
pub struct Model {
    /// Canonical id, e.g. `deepseek/deepseek-chat`.
    pub slug: String,
    /// Human name, e.g. "DeepSeek Chat".
    pub name: String,
    /// Serving provider (slug prefix by convention).
    pub provider: String,
    /// Context window in tokens.
    pub context_window: usize,
    /// USD per 1M *input* tokens, as bits.
    pub price_in_usd: u64,
    /// USD per 1M *output* tokens, as bits.
    pub price_out_usd: u64,
    /// Tokens-per-minute limit, when known.
    pub tpm: Option<u64>,
    /// Requests-per-minute limit, when known.
    pub rpm: Option<u64>,
    /// Whether it can call tools.
    pub supports_tools: bool,
    /// Whether it can read images.
    pub supports_vision: bool,
    /// Its benchmarks.
    pub benchmarks: Benchmarks,
    /// Hosting region, when the source exposes it.
    pub region: Option<String>,
    /// Unix seconds of the last refresh.
    pub updated_at: i64,
}

/// What a [`Model`] denotes.
pub struct ModelData {
    /// Canonical id.
    pub slug: Seq<char>,
    /// Human name.
    pub name: Seq<char>,
    /// Serving provider.
    pub provider: Seq<char>,
    /// Context window in tokens.
    pub context_window: usize,
    /// USD per 1M input tokens, as bits.
    pub price_in_usd: u64,
    /// USD per 1M output tokens, as bits.
    pub price_out_usd: u64,
    /// Tokens-per-minute limit, when known.
    pub tpm: Option<u64>,
    /// Requests-per-minute limit, when known.
    pub rpm: Option<u64>,
    /// Whether it can call tools.
    pub supports_tools: bool,
    /// Whether it can read images.
    pub supports_vision: bool,
    /// Its benchmarks.
    pub benchmarks: Benchmarks,
    /// Hosting region, when known.
    pub region: Option<Seq<char>>,
    /// Unix seconds of the last refresh.
    pub updated_at: i64,
}

impl View for Model {
    type V = ModelData;

    open spec fn view(&self) -> ModelData {
        ModelData {
            slug: self.slug@,
            name: self.name@,
            provider: self.provider@,
            context_window: self.context_window,
            price_in_usd: self.price_in_usd,
            price_out_usd: self.price_out_usd,
            tpm: self.tpm,
            rpm: self.rpm,
            supports_tools: self.supports_tools,
            supports_vision: self.supports_vision,
            benchmarks: self.benchmarks,
            region: text::optional(self.region),
            updated_at: self.updated_at,
        }
    }
}

impl Clone for Model {
    fn clone(&self) -> (r: Self)
        ensures
            r@ == self@,
    {
        Model {
            slug: self.slug.clone(),
            name: self.name.clone(),
            provider: self.provider.clone(),
            context_window: self.context_window,
            price_in_usd: self.price_in_usd,
            price_out_usd: self.price_out_usd,
            tpm: self.tpm,
            rpm: self.rpm,
            supports_tools: self.supports_tools,
            supports_vision: self.supports_vision,
            benchmarks: self.benchmarks,
            region: match &self.region {
                Some(region) => Some(region.clone()),
                None => None,
            },
            updated_at: self.updated_at,
        }
    }
}

/// Whether a text is found in the slug, the name or the provider of a model,
/// all four in lower case. An empty one is found in every model.
pub open spec fn is_mentioned(
    needle: Seq<char>,
    slug: Seq<char>,
    name: Seq<char>,
    provider: Seq<char>,
) -> bool {
    ||| needle.len() == 0
    ||| text::holds_text(slug, needle)
    ||| text::holds_text(name, needle)
    ||| text::holds_text(provider, needle)
}

/// Whether a text is found in the slug, the name or the provider of a model,
/// all four in lower case.
pub fn mentioned(needle: &str, slug: &str, name: &str, provider: &str) -> (r: bool)
    ensures
        r == is_mentioned(needle@, slug@, name@, provider@),
{
    needle.is_empty() || text::has_text(slug, needle) || text::has_text(name, needle)
        || text::has_text(provider, needle)
}

/// Whether a query finds a model: the query without the white space around it
/// stands in the slug, the name or the provider, whatever the case of each.
pub open spec fn is_match(model: ModelData, query: Seq<char>) -> bool {
    is_mentioned(
        text_case::lowercase(text::trimmed(query)),
        text_case::lowercase(model.slug),
        text_case::lowercase(model.name),
        text_case::lowercase(model.provider),
    )
}

/// Whether a query finds a model, where all texts are ASCII.
pub open spec fn is_ascii_match(model: ModelData, query: Seq<char>) -> bool {
    is_mentioned(
        text_case::ascii_lower(text::trimmed(query)),
        text_case::ascii_lower(model.slug),
        text_case::ascii_lower(model.name),
        text_case::ascii_lower(model.provider),
    )
}

/// Whether the texts that a query looks through are ASCII.
pub open spec fn is_ascii_model(model: ModelData) -> bool {
    &&& text_case::ascii(model.slug)
    &&& text_case::ascii(model.name)
    &&& text_case::ascii(model.provider)
}

impl Model {
    /// Loose substring match across slug, name and provider. A blank query
    /// matches every model.
    pub fn matches(&self, query: &str) -> (r: bool)
        ensures
            r == is_match(self@, query@),
            text::trimmed(query@).len() == 0 ==> r,
            text_case::ascii(query@) && is_ascii_model(self@) ==> r == is_ascii_match(
                self@,
                query@,
            ),
    {
        proof {
            text_case::lemma_trimmed_ascii(query@);
        }
        let trimmed = text::trim_text(query);
        let needle = text_case::to_lowercase(trimmed.as_str());
        let slug = text_case::to_lowercase(self.slug.as_str());
        let name = text_case::to_lowercase(self.name.as_str());
        let provider = text_case::to_lowercase(self.provider.as_str());
        mentioned(needle.as_str(), slug.as_str(), name.as_str(), provider.as_str())
    }
}

/// Where an amount stands in the total order of IEEE doubles, given its bits:
/// the sign decides first, and among negative amounts the greater magnitude
/// comes first.
pub open spec fn amount_rank(bits: u64) -> int {
    if bits < 0x8000_0000_0000_0000 {
        bits as int
    } else {
        0x7fff_ffff_ffff_ffff - bits
    }
}

/// Whether one amount comes before another in the total order of IEEE doubles.
pub fn is_less(a: u64, b: u64) -> (r: bool)
    ensures
        r == (amount_rank(a) < amount_rank(b)),
{
    let negative: u64 = 0x8000_0000_0000_0000;
    if a < negative {
        b < negative && a < b
    } else {
        b < negative || b < a
    }
}

} // verus!
