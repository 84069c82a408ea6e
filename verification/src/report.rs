//! The report of one invocation: the snapshot rendered in the mode
//! the configuration picked.

use vstd::prelude::*;
use crate::args::Config;
use crate::json::render_json;
use crate::json::spec_json;
use crate::render::lemma_human_nonempty;
use crate::render::render_human_readable;
use crate::render::spec_human;
use crate::snapshot::SnapshotView;
use crate::snapshot::SystemSnapshot;

verus! {

/// The report text: the structured document in JSON mode, the
/// human-readable lines otherwise.
pub open spec fn spec_report(cfg: Config, v: SnapshotView) -> Seq<char> {
    if cfg.json {
        spec_json(v)
    } else {
        spec_human(v)
    }
}

/// Renders the snapshot in the configured mode.
pub fn render_report(cfg: &Config, info: &SystemSnapshot) -> (s: String)
    ensures
        s@ == spec_report(*cfg, info@),
{
    if cfg.json {
        render_json(info)
    } else {
        render_human_readable(info)
    }
}

/// Whatever the configuration, a successful run's report is never
/// empty.
pub proof fn lemma_report_nonempty(cfg: Config, v: SnapshotView)
    ensures
        spec_report(cfg, v).len() > 0,
{
    if !cfg.json {
        lemma_human_nonempty(v);
    }
}

} // verus!
