//! `~/.ferrous/config.toml`: the single source of truth for the brain's knobs.
//!
//! Secrets are never logged; `show` redacts them.

use vstd::prelude::*;
use crate::text;
use crate::text_case;
use crate::text_map;
use crate::text_map::TextMap;

verus! {

/// User-editable configuration.
#[derive(Debug, PartialEq, Eq)]
pub struct Config {
    /// Model to use when the router has no opinion.
    pub default_model: Option<String>,
    /// Hard daily spend cap in USD across all providers, as bits.
    pub daily_budget_usd: Option<u64>,
    /// Provider to API key. File values are overridable through
    /// `FERROUS_<PROVIDER>_KEY`.
    pub api_keys: TextMap<String>,
}

/// What a [`Config`] denotes.
pub struct ConfigModel {
    /// The default model.
    pub default_model: Option<Seq<char>>,
    /// The daily budget, as bits.
    pub daily_budget_usd: Option<u64>,
    /// The API keys.
    pub api_keys: Map<Seq<char>, Seq<char>>,
}

impl View for Config {
    type V = ConfigModel;

    open spec fn view(&self) -> ConfigModel {
        ConfigModel {
            default_model: text::optional(self.default_model),
            daily_budget_usd: self.daily_budget_usd,
            api_keys: self.api_keys@,
        }
    }
}

impl Default for Config {
    fn default() -> (r: Self)
        ensures
            r@ == (ConfigModel {
                default_model: None,
                daily_budget_usd: None,
                api_keys: Map::empty(),
            }),
    {
        Config { default_model: None, daily_budget_usd: None, api_keys: TextMap::new() }
    }
}

impl Clone for Config {
    fn clone(&self) -> (r: Self)
        ensures
            r@ == self@,
    {
        Config {
            default_model: match &self.default_model {
                Some(slug) => Some(slug.clone()),
                None => None,
            },
            daily_budget_usd: self.daily_budget_usd,
            api_keys: self.api_keys.clone(),
        }
    }
}

/// A relative path below a directory.
pub open spec fn below(directory: Seq<char>, name: Seq<char>) -> Seq<char> {
    if directory.len() == 0 || directory.last() == '/' {
        directory + name
    } else {
        directory + seq!['/'] + name
    }
}

/// A relative path below a directory.
fn path_below(directory: &str, name: &str) -> (r: String)
    ensures
        r@ == below(directory@, name@),
{
    let chars = text::chars_of(directory);
    let mut r = directory.to_owned();
    if chars.len() > 0 && chars[chars.len() - 1] != '/' {
        r.push('/');
        assert(r@ =~= directory@ + seq!['/']);
    }
    r.append(name);
    r
}

/// The home directory, or the working directory where none is known.
pub fn home_or_here(home: Option<String>) -> (r: String)
    ensures
        r@ == match home {
            Some(home) => home@,
            None => "."@,
        },
{
    match home {
        Some(home) => home,
        None => ".".to_owned(),
    }
}

/// A key with everything but its first three and last four characters replaced.
/// Nothing is shown of a key that these would make up whole.
pub open spec fn masked(key: Seq<char>) -> Seq<char> {
    if key.len() >= 8 {
        key.take(3) + "****"@ + key.skip(key.len() - 4)
    } else {
        "****"@
    }
}

/// A key with everything but its first three and last four characters replaced.
fn mask(key: &str) -> (r: String)
    ensures
        r@ == masked(key@),
{
    let chars = text::chars_of(key);
    if chars.len() >= 8 {
        let mut r = text::text_between(&chars, 0, 3);
        assert(r@ =~= key@.take(3));
        r.append("****");
        let tail = text::text_between(&chars, chars.len() - 4, chars.len());
        assert(tail@ =~= key@.skip(key@.len() - 4));
        r.append(tail.as_str());
        r
    } else {
        "****".to_owned()
    }
}

/// The lines that show API keys, masked, in the order of the providers.
pub open spec fn key_lines(keys: Seq<(Seq<char>, Seq<char>)>) -> Seq<char>
    decreases keys.len(),
{
    if keys.len() == 0 {
        Seq::empty()
    } else {
        key_lines(keys.drop_last()) + ("api_keys."@ + keys.last().0 + " = "@ + masked(
            keys.last().1,
        ) + "\n"@)
    }
}

/// The lines that show everything but the API keys.
pub open spec fn settings_lines(default_model: Option<Seq<char>>, budget: Option<Seq<char>>) -> Seq<
    char,
> {
    "default_model    = "@ + match default_model {
        Some(slug) => slug,
        None => "(unset)"@,
    } + "\ndaily_budget_usd = "@ + match budget {
        Some(dollars) => "$"@ + dollars,
        None => "(unset)"@,
    } + "\n"@
}

/// What is shown of a configuration, given its daily budget written out.
pub open spec fn shown(config: ConfigModel, dollars: Seq<char>) -> Seq<char> {
    settings_lines(
        config.default_model,
        match config.daily_budget_usd {
            Some(_) => Some(dollars),
            None => None,
        },
    ) + key_lines(text_map::ordered_pairs(config.api_keys))
}

/// A text with underscores in place of hyphens.
pub open spec fn underscored(s: Seq<char>) -> Seq<char> {
    Seq::new(
        s.len(),
        |i: int|
            if s[i] == '-' {
                '_'
            } else {
                s[i]
            },
    )
}

/// The environment variable that overrides a provider's key, given the
/// provider's name in upper case.
pub open spec fn variable_of(upper: Seq<char>) -> Seq<char> {
    "FERROUS_"@ + underscored(upper) + "_KEY"@
}

/// The environment variable that overrides a provider's key, given the
/// provider's name in upper case.
pub fn variable_name(upper: &str) -> (r: String)
    ensures
        r@ == variable_of(upper@),
{
    let chars = text::chars_of(upper);
    let mut name = String::new();
    let mut i: usize = 0;
    while i < chars.len()
        invariant
            i <= chars.len(),
            chars@ == upper@,
            name@ == underscored(upper@.take(i as int)),
        decreases chars.len() - i,
    {
        let c = chars[i];
        name.push(
            if c == '-' {
                '_'
            } else {
                c
            },
        );
        i = i + 1;
        assert(name@ =~= underscored(upper@.take(i as int)));
    }
    assert(upper@.take(i as int) =~= upper@);
    let mut r = text::joined("FERROUS_", name.as_str());
    r.append("_KEY");
    r
}

/// The environment variable that overrides a provider's key.
pub fn key_variable(provider: &str) -> (r: String)
    ensures
        r@ == variable_of(text_case::uppercase(provider@)),
        text_case::ascii(provider@) ==> r@ == variable_of(text_case::ascii_upper(provider@)),
{
    let upper = text_case::to_uppercase(provider);
    variable_name(upper.as_str())
}

/// The key of a provider, given the value of its environment variable: the
/// variable wins, then the config file.
pub open spec fn resolved(
    keys: Map<Seq<char>, Seq<char>>,
    provider: Seq<char>,
    from_env: Option<Seq<char>>,
) -> Option<Seq<char>> {
    match from_env {
        Some(key) => Some(key),
        None => if keys.dom().contains(provider) {
            Some(keys[provider])
        } else {
            None
        },
    }
}

/// Whether a variable can have a value, as far as a lookup tells.
pub open spec fn can_hold<F: Fn(&str) -> Option<String>>(
    lookup: &F,
    name: Seq<char>,
    value: Option<Seq<char>>,
) -> bool {
    exists|asked: &str, given: Option<String>|
        asked@ == name && text::optional(given) == value && #[trigger] call_ensures(
            *lookup,
            (asked,),
            given,
        )
}

/// Whether an environment variable can be the one of a provider: the one that
/// its name in upper case makes, where the name is ASCII, and else at least of
/// that form.
pub open spec fn can_be_asked(provider: Seq<char>, name: Seq<char>) -> bool {
    if text_case::ascii(provider) {
        name == variable_of(text_case::ascii_upper(provider))
    } else {
        exists|upper: Seq<char>| name == #[trigger] variable_of(upper)
    }
}

impl Config {
    /// Where the configuration lies: `.ferrous/config.toml` below the home
    /// directory.
    pub fn default_path(home: &str) -> (r: String)
        ensures
            r@ == below(below(home@, ".ferrous"@), "config.toml"@),
    {
        let directory = path_below(home, ".ferrous");
        path_below(directory.as_str(), "config.toml")
    }

    /// Where snapshots and caches live: `.ferrous/data` below the home
    /// directory.
    pub fn data_dir(home: &str) -> (r: String)
        ensures
            r@ == below(below(home@, ".ferrous"@), "data"@),
    {
        let directory = path_below(home, ".ferrous");
        path_below(directory.as_str(), "data")
    }

    /// Where the catalog snapshot lies: `.ferrous/data/catalog.fr` below the
    /// home directory.
    pub fn snapshot_path(home: &str) -> (r: String)
        ensures
            r@ == below(below(below(home@, ".ferrous"@), "data"@), "catalog.fr"@),
    {
        let directory = Config::data_dir(home);
        path_below(directory.as_str(), "catalog.fr")
    }

    /// Resolve a provider key, given the value of its environment variable:
    /// the variable wins, then the config file.
    pub fn resolved_key(&self, provider: &str, from_env: Option<String>) -> (r: Option<String>)
        ensures
            text::optional(r) == resolved(self@.api_keys, provider@, text::optional(from_env)),
    {
        match from_env {
            Some(key) => Some(key),
            None => match self.api_keys.get(provider) {
                Some(key) => Some(key.clone()),
                None => None,
            },
        }
    }

    /// Resolve a provider key: the environment variable of the provider wins,
    /// then the config file. `lookup` reads an environment variable; it is asked
    /// for the one of the provider only.
    pub fn key<F: Fn(&str) -> Option<String>>(&self, provider: &str, lookup: &F) -> (r: Option<
        String,
    >)
        requires
            forall|name: &str|
                can_be_asked(provider@, name@) ==> #[trigger] call_requires(*lookup, (name,)),
        ensures
            exists|from_env: Option<Seq<char>>| #[trigger]
                can_hold(lookup, variable_of(text_case::uppercase(provider@)), from_env)
                    && text::optional(r) == resolved(self@.api_keys, provider@, from_env),
    {
        let name = key_variable(provider);
        assert(can_be_asked(provider@, name@));
        let from_env = lookup(name.as_str());
        assert(can_hold(lookup, name@, text::optional(from_env)));
        self.resolved_key(provider, from_env)
    }

    /// Human-readable, fully redacted dump: no API key can be read off it.
    /// `dollars` is the daily budget with two decimals; it is left out where
    /// there is none.
    pub fn redacted(&self, dollars: &str) -> (r: String)
        ensures
            r@ == shown(self@, dollars@),
    {
        let mut out = "default_model    = ".to_owned();
        match &self.default_model {
            Some(slug) => out.append(slug.as_str()),
            None => out.append("(unset)"),
        }
        out.append("\ndaily_budget_usd = ");
        match self.daily_budget_usd {
            Some(_) => {
                let amount = text::joined("$", dollars);
                out.append(amount.as_str())
            },
            None => out.append("(unset)"),
        }
        out.append("\n");
        let ghost settings = out@;
        let count = self.api_keys.len();
        let ghost pairs = self.api_keys.pairs();
        let mut i: usize = 0;
        assert(pairs.take(0) =~= Seq::empty());
        assert(settings + key_lines(pairs.take(0)) =~= settings);
        while i < count
            invariant
                i <= count,
                count == pairs.len(),
                pairs == self.api_keys.pairs(),
                out@ == settings + key_lines(pairs.take(i as int)),
            decreases count - i,
        {
            let (provider, key) = self.api_keys.entry(i);
            proof {
                assert(pairs.take(i + 1).drop_last() =~= pairs.take(i as int));
                assert(pairs.take(i + 1).last() == (provider@, key@));
            }
            let mut line = text::joined("api_keys.", provider);
            line.append(" = ");
            let hidden = mask(key.as_str());
            line.append(hidden.as_str());
            line.append("\n");
            let ghost before = out@;
            out.append(line.as_str());
            proof {
                assert(out@ =~= settings + (key_lines(pairs.take(i as int)) + line@));
            }
            i = i + 1;
        }
        assert(pairs.take(count as int) =~= pairs);
        out
    }
}

/// Only the ends of a key are ever shown: keys of eight characters or more with
/// the same first three and the same last four look the same, and so do all
/// shorter keys.
pub proof fn only_the_ends_of_a_key_are_shown(a: Seq<char>, b: Seq<char>)
    requires
        (a.len() < 8 && b.len() < 8) || (a.len() >= 8 && b.len() >= 8 && a.take(3) == b.take(3)
            && a.skip(a.len() - 4) == b.skip(b.len() - 4)),
    ensures
        masked(a) == masked(b),
{
}

/// No key is shown whole. Of one of fewer than eight characters nothing is
/// shown, and in a longer one any other middle looks the same, whatever its
/// length.
pub proof fn no_key_is_shown_whole(key: Seq<char>, middle: Seq<char>)
    ensures
        key.len() < 8 ==> masked(key) == "****"@,
        key.len() >= 8 ==> masked(key).len() == 11,
        key.len() >= 8 && middle.len() >= 1 ==> masked(
            key.take(3) + middle + key.skip(key.len() - 4),
        ) == masked(key),
{
    reveal_strlit("****");
    if key.len() >= 8 {
        let other = key.take(3) + middle + key.skip(key.len() - 4);
        assert(other.take(3) =~= key.take(3));
        assert(other.skip(other.len() - 4) =~= key.skip(key.len() - 4));
    }
}

} // verus!
