//! The pipeline: classification and planning composed over a
//! caller-supplied list of file paths, with the counts the verbose
//! report needs.

use vstd::prelude::*;

use crate::classify::{classify_files, file_views, spec_classify, ClassifiedFile};
use crate::config::{spec_build_config, Config, ConfigError, ConfigView, ErrorView};
use crate::plan::{op_views, plan_renames, spec_plan, RenameOperation};

verus! {

/// Everything the planner produced for one run: the operations to carry
/// out, the subtitles no video matched, and how many subtitles and
/// videos were classified.
pub struct RunPlan {
    pub operations: Vec<RenameOperation>,
    pub unmatched: Vec<ClassifiedFile>,
    pub subtitle_count: usize,
    pub video_count: usize,
}

/// Whether a plan is exactly what classifying `files` under `cfg` and
/// planning the renames gives.
pub open spec fn plan_matches(plan: RunPlan, cfg: ConfigView, files: Seq<Seq<char>>) -> bool {
    let classified = spec_classify(cfg, files);
    let planned = spec_plan(classified.0, classified.1);
    &&& op_views(plan.operations@) == planned.0
    &&& file_views(plan.unmatched@) == planned.1
    &&& plan.subtitle_count == classified.0.len()
    &&& plan.video_count == classified.1.len()
}

/// Classifies the given paths and plans the renames.
pub fn plan_run(cfg: &Config, files: &Vec<String>) -> (r: RunPlan)
    requires
        cfg.wf(),
    ensures
        plan_matches(r, cfg@, files.deep_view()),
{
    let (subtitles, videos) = classify_files(cfg, files);
    let (operations, unmatched) = plan_renames(&subtitles, &videos);
    let subtitle_count = subtitles.len();
    let video_count = videos.len();
    RunPlan { operations, unmatched, subtitle_count, video_count }
}

/// Builds a configuration from raw settings and, when that succeeds,
/// plans the run over the given paths: the whole pipeline short of
/// touching the filesystem.
pub fn build_and_plan(
    subtitle_pattern: Option<String>,
    video_pattern: Option<String>,
    subtitle_ext: &str,
    video_ext: &str,
    root: String,
    root_exists: bool,
    recursive: bool,
    dry_run: bool,
    quiet: bool,
    verbose: bool,
    files: &Vec<String>,
) -> (r: Result<(Config, RunPlan), ConfigError>)
    ensures
        ({
            let outcome = spec_build_config(
                subtitle_pattern.deep_view(),
                video_pattern.deep_view(),
                subtitle_ext@,
                video_ext@,
                root@,
                root_exists,
                recursive,
                dry_run,
                quiet,
                verbose,
            );
            match r {
                Ok(p) => outcome == Ok::<ConfigView, ErrorView>(p.0@) && p.0.wf() && plan_matches(
                    p.1,
                    p.0@,
                    files.deep_view(),
                ),
                Err(e) => outcome == Err::<ConfigView, ErrorView>(e@),
            }
        }),
{
    let cfg = match Config::new(
        subtitle_pattern,
        video_pattern,
        subtitle_ext,
        video_ext,
        root,
        root_exists,
        recursive,
        dry_run,
        quiet,
        verbose,
    ) {
        Ok(cfg) => cfg,
        Err(e) => {
            return Err(e);
        },
    };
    let plan = plan_run(&cfg, files);
    Ok((cfg, plan))
}

} // verus!
