//! Planning a run over the files a directory search produced: which files are
//! rewritten and which are only reported, and whether the search came up
//! empty. The directory listing itself is file-system work and stays outside
//! the library; this module decides what is done with its outcome.

use vstd::prelude::*;

verus! {

/// What one candidate file gets: a rewrite, or only a report line (dry run).
#[derive(Debug, PartialEq, Eq, Structural)]
pub enum RunMode {
    Apply,
    DryRun,
}

/// One planned step: the path of a candidate file, and whether it is to be
/// rewritten or only reported.
#[derive(Debug, PartialEq, Eq)]
pub struct PlannedStep {
    pub path: String,
    pub mode: RunMode,
}

/// The whole run's plan: one step per candidate file, in search order, and
/// whether the search found nothing (reported as an error by the caller).
#[derive(Debug, PartialEq, Eq)]
pub struct RunPlan {
    pub steps: Vec<PlannedStep>,
    pub zero_matches: bool,
}

/// The search pattern for a directory prefix: the prefix with `*.xml`
/// appended, by plain concatenation.
pub fn xml_pattern(dir: &str) -> (r: String)
    ensures
        r@ == dir@ + "*.xml"@,
{
    let mut s = dir.to_owned();
    s.append("*.xml");
    s
}

/// Lay out one run: every candidate file becomes one step, rewritten only
/// when `confirm` is set, and an empty candidate list is flagged. With
/// `confirm` unset no step asks for a rewrite, so no file is touched.
pub fn plan_run(paths: &Vec<String>, confirm: bool) -> (p: RunPlan)
    ensures
        p.zero_matches == (paths@.len() == 0),
        p.steps@.len() == paths@.len(),
        forall|i: int| 0 <= i < paths@.len() ==> (#[trigger] p.steps@[i]).path@ == paths@[i]@,
        forall|i: int| 0 <= i < paths@.len()
            ==> (#[trigger] p.steps@[i]).mode == (if confirm { RunMode::Apply } else { RunMode::DryRun }),
{
    let mut steps: Vec<PlannedStep> = Vec::new();
    let mut i: usize = 0;
    while i < paths.len()
        invariant
            i <= paths@.len(),
            steps@.len() == i,
            forall|j: int| 0 <= j < i ==> (#[trigger] steps@[j]).path@ == paths@[j]@,
            forall|j: int| 0 <= j < i
                ==> (#[trigger] steps@[j]).mode == (if confirm { RunMode::Apply } else { RunMode::DryRun }),
        decreases paths@.len() - i,
    {
        let mode = if confirm { RunMode::Apply } else { RunMode::DryRun };
        steps.push(PlannedStep { path: paths[i].clone(), mode });
        i += 1;
    }
    let zero_matches = paths.len() == 0;
    RunPlan { steps, zero_matches }
}

} // verus!
