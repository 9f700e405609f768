//! The assembled brain: config and catalog, ready to serve a front end.

use vstd::prelude::*;
use crate::catalog;
use crate::catalog::Catalog;
use crate::config::Config;
use crate::model::Model;
use crate::sync;
use crate::sync::{LiveReplies, SyncSummary};
use crate::text;

verus! {

/// The assembled brain: config and catalog.
pub struct Ferrous {
    /// The configuration.
    pub config: Config,
    /// The models.
    pub catalog: Catalog,
}

impl Ferrous {
    /// Assemble a configuration and the catalog of the last snapshot.
    ///
    /// Where the snapshot holds nothing, the bundled fallback fills the catalog
    /// so the brain is not empty on a fresh machine, even offline.
    pub fn load(config: Config, snapshot: Catalog, fallback: Vec<Model>) -> (r: Self)
        ensures
            r.config == config,
            r.catalog@ == if snapshot@.len() == 0 {
                catalog::merged(snapshot@, catalog::data_of(fallback@))
            } else {
                snapshot@
            },
    {
        let mut catalog = snapshot;
        if catalog.is_empty() {
            let _ = catalog.merge(fallback);
        }
        Ferrous { config, catalog }
    }

    /// Refresh sources into the catalog: the fallback always, live sources when
    /// they were asked.
    pub fn sync(&mut self, fallback: Vec<Model>, live: Option<LiveReplies>) -> (r: SyncSummary)
        ensures
            final(self).config == old(self).config,
            final(self).catalog@ == sync::refreshed(
                old(self).catalog@,
                catalog::data_of(fallback@),
                live,
            ),
            sync::is_summary(r, old(self).catalog@, final(self).catalog@, live),
    {
        sync::refresh(&mut self.catalog, fallback, live)
    }
}

/// A context window in short form: millions, thousands or the plain number of
/// tokens, rounded down.
pub open spec fn short_form(n: usize) -> Seq<char> {
    if n >= 1_000_000 {
        text::decimal((n / 1_000_000) as nat) + "m"@
    } else if n >= 1_000 {
        text::decimal((n / 1_000) as nat) + "k"@
    } else {
        text::decimal(n as nat)
    }
}

/// A context window in short form: 128000 is `128k`, 1048576 is `1m`.
pub fn fmt_ctx(n: usize) -> (r: String)
    ensures
        r@ == short_form(n),
{
    let mut r = String::new();
    if n >= 1_000_000 {
        text::push_decimal(&mut r, (n / 1_000_000) as u64);
        r.append("m");
    } else if n >= 1_000 {
        text::push_decimal(&mut r, (n / 1_000) as u64);
        r.append("k");
    } else {
        text::push_decimal(&mut r, n as u64);
    }
    assert(r@ =~= short_form(n));
    r
}

} // verus!
