use vstd::prelude::*;

use crate::args::{Arguments, ArgumentsV};
use crate::dimension::{dir_name_spec, Dimension};
use crate::error::ConfigError;
use crate::job::{build_jobs, is_job_for, Image};
use crate::schedule::{batch_views, is_partition, partition_jobs};

verus! {

/// Everything a run needs before any network work starts: the dimension, the
/// resolved target directory, and the jobs already partitioned into one batch
/// per worker.
pub struct RunPlan {
    pub dimension: Dimension,
    pub directory: String,
    pub batches: Vec<Vec<Image>>,
}

/// Whether `plan` faithfully prepares configuration `a`: the dimension is the
/// configured one, the batches partition the canonical job sequence for
/// `a.count` at the canonical cut points for `a.threads` workers, and the
/// directory is the configured base — or some home's `Downloads` folder —
/// joined with the dimension's subdirectory name.
pub open spec fn plan_matches(plan: RunPlan, a: ArgumentsV) -> bool {
    let d = Dimension { width: a.width, height: a.height };
    let jobs = batch_views(plan.batches@).flatten();
    &&& plan.dimension == d
    &&& jobs.len() == a.count
    &&& forall|i: int| 0 <= i < a.count ==> is_job_for(#[trigger] jobs[i], i as nat, d)
    &&& is_partition(batch_views(plan.batches@), jobs, a.threads as int)
    &&& match a.dir {
        Some(b) => plan.directory@ == b + seq!['/'] + dir_name_spec(d),
        None => exists|h: Seq<char>| plan.directory@ == h + "/Downloads/"@ + dir_name_spec(d),
    }
}

/// Prepares a run: resolves the target directory, builds the jobs and
/// partitions them for the workers. The only failure is an unresolvable save
/// location, and then only when no base directory was configured.
pub fn prepare(args: &Arguments) -> (r: Result<RunPlan, ConfigError>)
    requires
        args.threads >= 1,
    ensures
        match r {
            Ok(plan) => plan_matches(plan, args@),
            Err(e) => {
                &&& e == ConfigError::HomeDirectoryUnresolved
                &&& args.dir is None
            },
        },
{
    let dimension = Dimension::new(args.width, args.height);
    let dir_opt: Option<String> = match &args.dir {
        Some(d) => Some(d.clone()),
        None => None,
    };
    let directory = match dimension.get_download_dir(dir_opt) {
        Ok(p) => p,
        Err(e) => {
            return Err(e);
        },
    };
    let jobs = build_jobs(args.count, dimension);
    let batches = partition_jobs(jobs, args.threads);
    Ok(RunPlan { dimension, directory, batches })
}

} // verus!
