//! The model catalog, its sources and the configuration.

use ferrous::brain::{fmt_ctx, Ferrous};
use ferrous::catalog::Catalog;
use ferrous::config::{home_or_here, key_variable, Config};
use ferrous::error::FerrousError;
use ferrous::model::{is_less, Benchmarks, Model};
use ferrous::report::{
    model_details, sync_report, table_heading, table_row, ReportLine, WrittenAmounts,
};
use ferrous::shared::{secret_from_env, Secret, SharedError};
use ferrous::sources::{
    from_fallback, from_litellm, from_openrouter, LiteLlmEntry, LiteLlmMap,
    OpenRouterArchitecture, OpenRouterModel, OpenRouterPricing, OpenRouterResponse,
};
use ferrous::sync::{
    ask_sources, now_secs, refresh, Fetcher, LiveReplies, SourceReply, LITELLM_COST_URL,
    OPENROUTER_MODELS_URL,
};
use serde_json::Value;

fn model(slug: &str, context: usize, price_in: f64, price_out: f64, tools: bool) -> Model {
    Model {
        slug: slug.to_string(),
        name: slug.to_string(),
        provider: slug.split('/').next().unwrap_or("x").to_string(),
        context_window: context,
        price_in_usd: price_in.to_bits(),
        price_out_usd: price_out.to_bits(),
        tpm: None,
        rpm: None,
        supports_tools: tools,
        supports_vision: false,
        benchmarks: Benchmarks::default(),
        region: None,
        updated_at: 0,
    }
}

fn sample_models() -> Vec<Model> {
    vec![
        model("openai/gpt-4o", 128_000, 2.50, 10.00, true),
        model("deepseek/deepseek-chat", 128_000, 0.27, 1.10, true),
        model("google/gemini-2.5-flash", 1_000_000, 0.30, 2.50, true),
        model("openai/gpt-4o-mini", 128_000, 0.15, 0.60, true),
        model("meta/llama-3.3-70b", 128_000, 0.10, 0.30, false),
    ]
}

fn sample() -> Catalog {
    let mut c = Catalog::new();
    c.merge(sample_models());
    c
}

fn costs(catalog: &Catalog) -> Vec<u64> {
    catalog
        .iter()
        .iter()
        .map(|m| {
            let price_in = f64::from_bits(m.price_in_usd);
            let price_out = f64::from_bits(m.price_out_usd);
            ((2_000.0 * price_in + 1_000.0 * price_out) / 1_000_000.0).to_bits()
        })
        .collect()
}

fn per_million(written: &str) -> Option<u64> {
    written
        .parse::<f64>()
        .ok()
        .map(|price| (price * 1_000_000.0).to_bits())
}

#[test]
fn upsert_dedupes_by_slug() {
    let mut c = sample();
    let before = c.len();
    let new = c.upsert(model("openai/gpt-4o", 128_000, 9.99, 9.99, true));
    assert!(!new);
    assert_eq!(c.len(), before);
    assert_eq!(
        f64::from_bits(c.get("openai/gpt-4o").unwrap().price_in_usd),
        9.99
    );
    // It keeps its place.
    assert_eq!(c.iter()[0].slug, "openai/gpt-4o");
}

#[test]
fn merge_counts_only_new() {
    let mut c = sample();
    let added = c.merge(vec![
        model("openai/gpt-4o", 128_000, 9.99, 9.99, true), // exists
        model("qwen/qwen3-coder", 131_072, 0.22, 0.90, true), // new
    ]);
    assert_eq!(added, 1);
    assert_eq!(c.len(), 6);
    assert_eq!(c.merge(sample_models()), 0);
    assert_eq!(c.len(), 6);
}

#[test]
fn cheapest_respects_constraints() {
    let c = sample();
    let costs = costs(&c);
    let cheapest = c.cheapest(128_000, true, false, &costs).unwrap();
    assert_eq!(cheapest.slug, "openai/gpt-4o-mini");
    // tools off: llama becomes eligible and wins on price
    let no_tools = c.cheapest(128_000, false, false, &costs).unwrap();
    assert_eq!(no_tools.slug, "meta/llama-3.3-70b");
    // impossible constraint set: None, no panic
    assert!(c.cheapest(2_000_000, true, false, &costs).is_none());
    assert!(c.cheapest(0, false, true, &costs).is_none());
}

#[test]
fn by_price_is_stable_and_ascending() {
    let mut c = sample();
    c.upsert(model("twin/of-mini", 1, 0.15, 0.60, true));
    let slugs: Vec<&str> = c
        .by_price(&costs(&c))
        .iter()
        .map(|m| m.slug.as_str())
        .collect();
    assert_eq!(
        slugs,
        [
            "meta/llama-3.3-70b",
            "openai/gpt-4o-mini",
            "twin/of-mini",
            "deepseek/deepseek-chat",
            "google/gemini-2.5-flash",
            "openai/gpt-4o",
        ]
    );
}

#[test]
fn amounts_are_ordered_as_total_cmp_orders_them() {
    let amounts = [
        -f64::NAN,
        f64::NEG_INFINITY,
        -2.5,
        -1e-300,
        -0.0,
        0.0,
        1e-300,
        0.15,
        2.5,
        f64::INFINITY,
        f64::NAN,
    ];
    for a in amounts {
        for b in amounts {
            assert_eq!(
                is_less(a.to_bits(), b.to_bits()),
                a.total_cmp(&b).is_lt(),
                "{a} against {b}"
            );
        }
    }
}

#[test]
fn search_matches_slug_name_provider() {
    let c = sample();
    assert_eq!(c.search("deepseek").len(), 1);
    assert_eq!(c.search("google").len(), 1);
    assert!(c.search("gpt").len() >= 2);
    assert_eq!(c.search("").len(), c.len());
    assert!(c.search("nope").is_empty());
}

#[test]
fn search_ignores_case_and_surrounding_space() {
    let mut c = sample();
    assert_eq!(c.search("  DeepSeek\n").len(), 1);
    assert_eq!(c.search(" \t").len(), c.len());
    let mut named = model("x/y", 1, 0.0, 0.0, false);
    named.name = "\u{c9}cole Model".to_owned();
    c.upsert(named);
    assert_eq!(c.search("\u{e9}COLE").len(), 1);
}

#[test]
fn providers_are_sorted_unique() {
    let c = sample();
    assert_eq!(c.providers(), vec!["deepseek", "google", "meta", "openai"]);
}

#[test]
fn capable_models_meet_every_constraint() {
    let mut c = sample();
    let mut seeing = model("x/seeing", 8_000, 1.0, 1.0, false);
    seeing.supports_vision = true;
    c.upsert(seeing);
    let slugs = |found: Vec<&Model>| -> Vec<String> {
        found.into_iter().map(|m| m.slug.clone()).collect()
    };
    assert_eq!(c.capable(0, false, false).len(), c.len());
    assert_eq!(
        slugs(c.capable(200_000, true, false)),
        vec!["google/gemini-2.5-flash"]
    );
    assert_eq!(slugs(c.capable(0, false, true)), vec!["x/seeing"]);
    assert_eq!(slugs(c.capable(8_000, false, true)), vec!["x/seeing"]);
    assert!(c.capable(8_001, false, true).is_empty());
    assert!(c.capable(0, true, true).is_empty());
}

#[test]
fn a_clone_holds_the_same_models() {
    let c = sample();
    let copy = c.clone();
    assert_eq!(copy.iter(), c.iter());
    assert!(copy.get("meta/llama-3.3-70b").is_some());
}

#[test]
fn redacted_hides_keys() {
    let mut cfg = Config::default();
    cfg.api_keys
        .insert("openai".into(), "sk-supersecret1234".into());
    let out = cfg.redacted("");
    assert!(out.contains("sk-****1234"));
    assert!(!out.contains("supersecret"));
}

#[test]
fn redacted_shows_nothing_of_short_keys() {
    for key in ["", "abc", "wxyz", "abcdefg"] {
        let mut cfg = Config::default();
        cfg.api_keys.insert("p".into(), key.into());
        assert!(cfg.redacted("").ends_with("api_keys.p = ****\n"));
    }
    let mut cfg = Config::default();
    cfg.api_keys.insert("p".into(), "abcdefgh".into());
    assert!(cfg.redacted("").ends_with("api_keys.p = abc****efgh\n"));
}

#[test]
fn redacted_shows_what_is_set() {
    let mut cfg = Config::default();
    assert_eq!(
        cfg.redacted("9.99"),
        "default_model    = (unset)\ndaily_budget_usd = (unset)\n"
    );
    cfg.default_model = Some("a/b".to_owned());
    cfg.daily_budget_usd = Some(0.5f64.to_bits());
    cfg.api_keys.insert("z".into(), "abc".into());
    cfg.api_keys.insert("b".into(), "k\u{e9}yk\u{e9}ykey".into());
    assert_eq!(
        cfg.clone().redacted("0.50"),
        "default_model    = a/b\ndaily_budget_usd = $0.50\napi_keys.b = k\u{e9}y****ykey\napi_keys.z = ****\n"
    );
}

#[test]
fn env_var_overrides_file() {
    let mut cfg = Config::default();
    cfg.api_keys.insert("openai".into(), "file-key".into());
    let set = |name: &str| match name {
        "FERROUS_OPENAI_KEY" => Some("env-key".to_owned()),
        _ => None,
    };
    assert_eq!(cfg.key("openai", &set).unwrap(), "env-key");
    let unset = |_: &str| None;
    assert_eq!(cfg.key("openai", &unset).unwrap(), "file-key");
    assert_eq!(cfg.key("other", &unset), None);
    assert_eq!(cfg.resolved_key("openai", None).unwrap(), "file-key");
}

#[test]
fn key_variables_are_upper_case_with_underscores() {
    assert_eq!(key_variable("open-router"), "FERROUS_OPEN_ROUTER_KEY");
    assert_eq!(key_variable("stra\u{df}e"), "FERROUS_STRASSE_KEY");
}

#[test]
fn paths_lie_below_the_home_directory() {
    assert_eq!(Config::default_path("/home/u"), "/home/u/.ferrous/config.toml");
    assert_eq!(Config::data_dir("/"), "/.ferrous/data");
    let here = home_or_here(None);
    assert_eq!(
        Config::snapshot_path(&here),
        "./.ferrous/data/catalog.fr"
    );
}

#[test]
fn fallback_parses_and_stamps_time() {
    let v = from_fallback(Some(sample_models()), 42);
    assert!(v.len() >= 5, "fallback should carry a useful baseline");
    assert!(v.iter().all(|m| m.updated_at == 42));
    assert!(from_fallback(None, 42).is_empty());
}

#[test]
fn litellm_map_converts() {
    let mut map = LiteLlmMap::new();
    map.insert(
        "openai/gpt-4o".into(),
        LiteLlmEntry {
            input_price_usd: Some((0.0000025f64 * 1_000_000.0).to_bits()),
            output_price_usd: Some((0.00001f64 * 1_000_000.0).to_bits()),
            max_tokens: Some(128_000),
        },
    );
    map.insert(
        "weird/empty".into(),
        LiteLlmEntry {
            input_price_usd: None,
            output_price_usd: None,
            max_tokens: None,
        },
    );
    let v = from_litellm(&map, 7);
    assert_eq!(v.len(), 1, "entries without pricing must be skipped");
    assert!((f64::from_bits(v[0].price_in_usd) - 2.5).abs() < 1e-9);
    assert!((f64::from_bits(v[0].price_out_usd) - 10.0).abs() < 1e-9);
    assert_eq!(v[0].context_window, 128_000);
    assert_eq!(v[0].provider, "openai");
    assert_eq!(v[0].updated_at, 7);
}

fn texts(value: &Value) -> Option<Vec<String>> {
    value.as_array().map(|items| {
        items
            .iter()
            .filter_map(|item| item.as_str().map(str::to_owned))
            .collect()
    })
}

fn listing(raw: &str) -> OpenRouterResponse {
    let value: Value = serde_json::from_str(raw).expect("valid JSON");
    let data = value["data"].as_array().expect("a list");
    OpenRouterResponse {
        data: data
            .iter()
            .map(|m| OpenRouterModel {
                id: m["id"].as_str().expect("id").to_owned(),
                name: m["name"].as_str().expect("name").to_owned(),
                context_length: m["context_length"].as_u64(),
                pricing: OpenRouterPricing {
                    prompt: m["pricing"]["prompt"].as_str().map(str::to_owned),
                    completion: m["pricing"]["completion"].as_str().map(str::to_owned),
                },
                architecture: m["architecture"].as_object().map(|_| OpenRouterArchitecture {
                    input_modalities: texts(&m["architecture"]["input_modalities"]),
                }),
                supported_parameters: texts(&m["supported_parameters"]),
            })
            .collect(),
    }
}

#[test]
fn openrouter_converts_vision_and_tools() {
    let resp = listing(
        r#"{
            "data": [{
                "id": "google/gemini-2.5-flash",
                "name": "Gemini 2.5 Flash",
                "context_length": 1048576,
                "pricing": { "prompt": "0.0000003", "completion": "0.0000025" },
                "architecture": { "input_modalities": ["text", "image"] },
                "supported_parameters": ["tools", "temperature"]
            }]
        }"#,
    );
    let v = from_openrouter(&resp, 1, &per_million);
    assert_eq!(v.len(), 1);
    assert!(v[0].supports_vision);
    assert!(v[0].supports_tools);
    assert!((f64::from_bits(v[0].price_in_usd) - 0.3).abs() < 1e-9);
    assert_eq!(v[0].context_window, 1_048_576);
}

#[test]
fn openrouter_defaults_what_is_missing() {
    let resp = listing(
        r#"{ "data": [{ "id": "solo", "name": "S", "pricing": { "prompt": "dear" } }] }"#,
    );
    let v = from_openrouter(&resp, 1, &per_million);
    assert_eq!(v[0].provider, "solo");
    assert_eq!(v[0].context_window, 0);
    assert_eq!(f64::from_bits(v[0].price_in_usd), 0.0);
    assert_eq!(f64::from_bits(v[0].price_out_usd), 0.0);
    assert!(!v[0].supports_tools && !v[0].supports_vision);
}

fn live() -> LiveReplies {
    let mut map = LiteLlmMap::new();
    map.insert(
        "acme/a".into(),
        LiteLlmEntry {
            input_price_usd: Some((1e-7f64 * 1_000_000.0).to_bits()),
            output_price_usd: Some((2e-7f64 * 1_000_000.0).to_bits()),
            max_tokens: Some(32_000),
        },
    );
    let resp = listing(
        r#"{"data": [{"id": "acme/b", "name": "B", "context_length": 64000, "pricing": {"prompt": "0.000001", "completion": "0.000002"}, "supported_parameters": ["tools"]}]}"#,
    );
    LiveReplies {
        litellm: SourceReply::Models(from_litellm(&map, 5)),
        openrouter: SourceReply::Models(from_openrouter(&resp, 5, &per_million)),
    }
}

#[test]
fn offline_refresh_uses_only_fallback() {
    let mut catalog = Catalog::new();
    let summary = refresh(&mut catalog, from_fallback(Some(sample_models()), 5), None);
    assert_eq!(summary.litellm_models, None);
    assert!(summary.openrouter_models.is_none());
    assert!(summary.fallback_used);
    assert_eq!(summary.total_models, catalog.len());
    assert!(catalog.get("acme/a").is_none());
}

#[test]
fn live_refresh_merges_all_sources() {
    let base = from_fallback(Some(sample_models()), 0).len();
    let mut catalog = Catalog::new();
    let fallback = from_fallback(Some(sample_models()), 5);
    let summary = refresh(&mut catalog, fallback, Some(live()));
    assert!(catalog.get("acme/a").is_some(), "litellm model present");
    assert!(catalog.get("acme/b").is_some(), "openrouter model present");
    assert!(catalog.get("acme/b").unwrap().supports_tools);
    assert!(summary.new_models >= base + 2);
    assert!(summary.errors.is_empty());
    assert_eq!(summary.litellm_models, Some(1));
    assert_eq!(summary.openrouter_models, Some(1));
    // The same again brings nothing new.
    let fallback = from_fallback(Some(sample_models()), 5);
    let again = refresh(&mut catalog, fallback, Some(live()));
    assert_eq!(again.new_models, 0);
    assert_eq!(again.total_models, summary.total_models);
}

/// A fetcher that knows one body.
struct Canned {
    url: &'static str,
    body: &'static str,
}

impl Fetcher for Canned {
    fn get(&self, url: &str) -> Result<String, FerrousError> {
        if url == self.url {
            Ok(self.body.to_owned())
        } else {
            Err(FerrousError::network("no route".to_owned()))
        }
    }
}

#[test]
fn sources_are_asked_at_their_own_addresses() {
    let unreachable = "network error: no route".to_owned();
    let named = |body: &str| Ok(vec![model(body, 1, 0.0, 0.0, false)]);
    let broken = |body: &str| Err(format!("cannot read {body}"));
    let first = Canned {
        url: LITELLM_COST_URL,
        body: "acme/a",
    };
    assert_eq!(
        ask_sources(&first, &named, &broken),
        LiveReplies {
            litellm: SourceReply::Models(vec![model("acme/a", 1, 0.0, 0.0, false)]),
            openrouter: SourceReply::FetchFailed(unreachable.clone()),
        }
    );
    let second = Canned {
        url: OPENROUTER_MODELS_URL,
        body: "acme/b",
    };
    assert_eq!(
        ask_sources(&second, &named, &broken),
        LiveReplies {
            litellm: SourceReply::FetchFailed(unreachable),
            openrouter: SourceReply::ParseFailed("cannot read acme/b".to_owned()),
        }
    );
}

#[test]
fn broken_source_is_recorded_not_fatal() {
    let mut catalog = Catalog::new();
    let summary = refresh(
        &mut catalog,
        from_fallback(Some(sample_models()), 5),
        Some(LiveReplies {
            litellm: SourceReply::ParseFailed("not json".into()),
            openrouter: SourceReply::FetchFailed("no route".into()),
        }),
    );
    assert_eq!(summary.errors.len(), 2);
    assert_eq!(summary.errors[0], "litellm parse: not json");
    assert_eq!(summary.errors[1], "openrouter fetch: no route");
    assert!(!catalog.is_empty(), "fallback still loaded");
}

#[test]
fn live_prices_override_the_baseline() {
    let mut catalog = Catalog::new();
    let mut update = model("openai/gpt-4o", 1, 1.0, 1.0, true);
    update.name = "live".to_owned();
    refresh(
        &mut catalog,
        from_fallback(Some(sample_models()), 5),
        Some(LiveReplies {
            litellm: SourceReply::Models(vec![update]),
            openrouter: SourceReply::Models(Vec::new()),
        }),
    );
    assert_eq!(catalog.get("openai/gpt-4o").unwrap().name, "live");
    assert_eq!(catalog.len(), 5);
}

#[test]
fn an_empty_snapshot_is_filled_from_the_fallback() {
    let fresh = Ferrous::load(Config::default(), Catalog::new(), sample_models());
    assert_eq!(fresh.catalog.len(), 5);
    let mut kept = Catalog::new();
    kept.upsert(model("only/one", 1, 0.0, 0.0, false));
    let mut brain = Ferrous::load(Config::default(), kept, sample_models());
    assert_eq!(brain.catalog.len(), 1);
    let summary = brain.sync(sample_models(), None);
    assert_eq!(summary.new_models, 5);
    assert_eq!(brain.catalog.len(), 6);
}

#[test]
fn clocks_before_the_epoch_read_zero() {
    assert_eq!(now_secs(Some(1_700_000_000)), 1_700_000_000);
    assert_eq!(now_secs(None), 0);
}

#[test]
fn context_windows_are_shortened() {
    assert_eq!(fmt_ctx(128_000), "128k");
    assert_eq!(fmt_ctx(1_048_576), "1m");
    assert_eq!(fmt_ctx(999), "999");
    assert_eq!(fmt_ctx(1_000), "1k");
    assert_eq!(fmt_ctx(999_999), "999k");
    assert_eq!(fmt_ctx(0), "0");
}

#[test]
fn the_table_lines_up() {
    assert_eq!(
        table_heading(),
        format!(
            "{:<42} {:>9} {:>9} {:>7} {:>5}",
            "slug", "$in/1M", "$out/1M", "ctx", "tools"
        )
    );
    let m = model("openai/gpt-4o", 128_000, 2.5, 10.0, true);
    assert_eq!(
        table_row(&m, "2.50", "10.00"),
        format!(
            "{:<42} {:>9.2} {:>9.2} {:>7} {:>5}",
            m.slug, 2.5, 10.0, "128k", "yes"
        )
    );
    let long = model(
        "a-provider/with-a-very-long-slug-that-does-not-fit-the-column",
        5,
        0.0,
        0.0,
        false,
    );
    assert_eq!(
        table_row(&long, "0.00", "0.00"),
        format!(
            "{:<42} {:>9.2} {:>9.2} {:>7} {:>5}",
            long.slug, 0.0, 0.0, "5", ""
        )
    );
}

#[test]
fn details_show_what_is_known() {
    let mut m = model("a/b", 128_000, 0.27, 1.1, true);
    m.name = "B".to_owned();
    let mut amounts = WrittenAmounts {
        price_in: "0.2700".to_owned(),
        price_out: "1.1000".to_owned(),
        mmlu: None,
        humaneval: None,
        math: None,
    };
    assert_eq!(
        model_details(&m, &amounts),
        [
            "B",
            "  slug:      a/b",
            "  provider:  a",
            "  context:   128k",
            "  price in:  $0.2700/1M tok",
            "  price out: $1.1000/1M tok",
            "  tools:     yes",
            "  vision:    no",
        ]
    );
    m.tpm = Some(10_000);
    m.rpm = Some(100);
    m.region = Some("cn".to_owned());
    amounts.mmlu = Some("88".to_owned());
    amounts.math = Some("7.5".to_owned());
    let lines = model_details(&m, &amounts);
    assert_eq!(
        lines[6..],
        [
            "  tpm:       10000",
            "  rpm:       100",
            "  tools:     yes",
            "  vision:    no",
            "  region:    cn",
            "  benchmarks:",
            "    mmlu:      88",
            "    math:      7.5",
        ]
    );
}

#[test]
fn sync_reports_go_to_the_right_stream() {
    let mut catalog = Catalog::new();
    let summary = refresh(
        &mut catalog,
        sample_models(),
        Some(LiveReplies {
            litellm: SourceReply::Models(Vec::new()),
            openrouter: SourceReply::FetchFailed("down".to_owned()),
        }),
    );
    assert_eq!(
        sync_report(&summary, "/x/catalog.fr"),
        [
            ReportLine::Out("catalog: 5 models (+5 new)".to_owned()),
            ReportLine::Out("  litellm:    0 models".to_owned()),
            ReportLine::Out(
                "  fallback:   bundled baseline (approximate prices \u{2014} use --live to refresh)"
                    .to_owned()
            ),
            ReportLine::Warning("  warn: openrouter fetch: down".to_owned()),
            ReportLine::Out("snapshot \u{2192} /x/catalog.fr".to_owned()),
        ]
    );
}

#[test]
fn core_errors_read_well() {
    assert_eq!(
        FerrousError::network("timed out".to_owned()).message(),
        "network error: timed out"
    );
    assert_eq!(
        FerrousError::Io("gone".to_owned()).message(),
        "I/O error: gone"
    );
    assert_eq!(
        FerrousError::TomlParse("x".to_owned()).message(),
        "config parse error: x"
    );
    assert_eq!(
        FerrousError::TomlSerialize("x".to_owned()).message(),
        "config serialize error: x"
    );
    assert_eq!(
        FerrousError::Snapshot("x".to_owned()).message(),
        "snapshot corrupted: x"
    );
    assert_eq!(
        FerrousError::no_such_model("a/b").message(),
        "model not found: a/b \u{2014} try `ferrous models search a/b`"
    );
}

#[test]
fn debug_is_redacted() {
    let secret = Secret::new("hunter2".to_owned());
    let debug = format!("{secret:?}");

    assert!(debug.contains("REDACTED"));
    assert!(!debug.contains("hunter2"));
}

#[test]
fn expose_roundtrips() {
    let secret = Secret::new("hunter2".to_owned());
    assert_eq!(secret.expose_secret(), "hunter2");
}

#[test]
fn secret_from_env_reports_missing_var() {
    let err = secret_from_env("__FERROUS_DEFINITELY_NOT_SET_12345__", None).unwrap_err();
    match err {
        SharedError::EnvVarMissing { name } => {
            assert_eq!(name, "__FERROUS_DEFINITELY_NOT_SET_12345__");
        }
    }
    let secret = secret_from_env("KEY", Some("value".to_owned())).expect("present");
    assert_eq!(secret.expose_secret(), "value");
    assert_eq!(
        SharedError::EnvVarMissing { name: "KEY" }.message(),
        "environment variable `KEY` is not set or not valid UTF-8"
    );
}
