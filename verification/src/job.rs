use vstd::prelude::*;

use crate::digits::dec_rep;
use crate::dimension::{url_spec, Dimension};

verus! {

/// One unit of work: a single image to download and save. `path` is unset
/// until the download succeeds, and set exactly once, to the file it was
/// saved to.
#[derive(Clone, Debug)]
pub struct Image {
    pub url: String,
    pub dimension: Dimension,
    pub path: Option<String>,
    pub name: String,
}

/// The deterministic name of the job at an index: `image-{index}.jpg`.
pub open spec fn job_name_spec(i: nat) -> Seq<char> {
    "image-"@ + dec_rep(i) + ".jpg"@
}

/// Whether an image is the freshly built job at index `i` for dimension `d`:
/// canonical name and URL, no result path yet.
pub open spec fn is_job_for(img: Image, i: nat, d: Dimension) -> bool {
    &&& img.name@ == job_name_spec(i)
    &&& img.url@ == url_spec(d)
    &&& img.dimension == d
    &&& img.path is None
}

/// Renders the job name `image-{index}.jpg`.
pub fn job_name(i: u16) -> (s: String)
    ensures
        s@ == job_name_spec(i as nat),
{
    let mut s = String::from_str("image-");
    let digits = crate::digits::u16_to_string(i);
    s.append(digits.as_str());
    s.append(".jpg");
    proof {
        assert(s@ =~= job_name_spec(i as nat));
    }
    s
}

impl Image {
    pub fn new(name: String, dimension: Dimension) -> (img: Image)
        ensures
            img.name == name,
            img.url@ == url_spec(dimension),
            img.dimension == dimension,
            img.path is None,
    {
        let url = dimension.url();
        Image { url, dimension, path: None, name }
    }
}

/// Produces the ordered job sequence for a run: exactly `count` jobs, indices
/// `0..count-1`, all with the canonical name and URL for `dimension` and no
/// result path. Pure: no side effects.
pub fn build_jobs(count: u16, dimension: Dimension) -> (jobs: Vec<Image>)
    ensures
        jobs@.len() == count,
        forall|i: int| 0 <= i < count ==> is_job_for(#[trigger] jobs@[i], i as nat, dimension),
{
    let mut jobs: Vec<Image> = Vec::new();
    let mut i: u16 = 0;
    while i < count
        invariant
            0 <= i <= count,
            jobs@.len() == i,
            forall|k: int| 0 <= k < i ==> is_job_for(#[trigger] jobs@[k], k as nat, dimension),
        decreases count - i,
    {
        let name = job_name(i);
        jobs.push(Image::new(name, dimension));
        i += 1;
    }
    jobs
}

/// Two job sequences built to the same count and dimension carry the same
/// names, in the same order: job naming is deterministic, whatever run
/// produced them.
pub proof fn lemma_job_names_deterministic(
    a: Seq<Image>,
    b: Seq<Image>,
    count: nat,
    d: Dimension,
)
    requires
        a.len() == count,
        b.len() == count,
        forall|i: int| 0 <= i < count ==> is_job_for(#[trigger] a[i], i as nat, d),
        forall|i: int| 0 <= i < count ==> is_job_for(#[trigger] b[i], i as nat, d),
    ensures
        forall|i: int| 0 <= i < count ==> #[trigger] a[i].name@ == b[i].name@,
        forall|i: int| 0 <= i < count ==> #[trigger] a[i].url@ == b[i].url@,
{
}

/// How a single job failed; the run tolerates any of these and carries on
/// with its sibling jobs.
#[derive(Clone, Copy, Debug, PartialEq, Eq, Structural)]
pub enum FetchError {
    /// The endpoint answered with a non-success HTTP status.
    Status(u16),
    /// The request never completed: connection, protocol or body transfer
    /// failure.
    Transport,
    /// The response arrived but could not be written to disk.
    Write,
}

/// The outcome of one fetch unit: the job, with its path set exactly when the
/// download succeeded, and the failure otherwise.
#[derive(Clone, Debug)]
pub struct JobResult {
    pub image: Image,
    pub error: Option<FetchError>,
}

/// The file a job is saved to: the resolved directory joined with the job
/// name.
pub open spec fn target_path_spec(dir: Seq<char>, name: Seq<char>) -> Seq<char> {
    dir + seq!['/'] + name
}

/// Joins a resolved directory and a file name into the save path.
pub fn target_path(dir: &str, name: &str) -> (p: String)
    ensures
        p@ == target_path_spec(dir@, name@),
{
    let mut p = String::from_str(dir);
    let sep = "/";
    proof {
        reveal_strlit("/");
        assert(sep@ =~= seq!['/']);
    }
    p.append(sep);
    p.append(name);
    p
}

/// Whether `r` is the finished record of job `img` saved under `dir` with
/// fetch outcome `outcome`: the job is unchanged but for its path, which is
/// set to the save path exactly when the fetch succeeded.
pub open spec fn result_matches(
    r: JobResult,
    img: Image,
    dir: Seq<char>,
    outcome: Option<FetchError>,
) -> bool {
    &&& r.error == outcome
    &&& r.image.name == img.name
    &&& r.image.url == img.url
    &&& r.image.dimension == img.dimension
    &&& match outcome {
        None => {
            &&& r.image.path is Some
            &&& r.image.path->Some_0@ == target_path_spec(dir, img.name@)
        },
        Some(_) => r.image.path == img.path,
    }
}

/// Records the outcome of one fetch unit on its job: on success the job's
/// path is set to the save path, on failure the job is left as it was and the
/// failure is kept.
pub fn apply_outcome(img: Image, dir: &str, outcome: Option<FetchError>) -> (r: JobResult)
    ensures
        result_matches(r, img, dir@, outcome),
{
    match outcome {
        None => {
            let p = target_path(dir, img.name.as_str());
            let done = Image { url: img.url, dimension: img.dimension, path: Some(p), name: img.name };
            JobResult { image: done, error: None }
        },
        Some(e) => JobResult { image: img, error: Some(e) },
    }
}

/// Records the outcomes of a whole batch, job by job: every job gets its own
/// record from its own outcome alone, so one job's failure never touches its
/// siblings.
pub fn apply_batch_outcomes(batch: Vec<Image>, dir: &str, outcomes: &Vec<Option<FetchError>>) -> (rs:
    Vec<JobResult>)
    requires
        outcomes@.len() == batch@.len(),
    ensures
        rs@.len() == batch@.len(),
        forall|i: int|
            0 <= i < batch@.len() ==> result_matches(
                #[trigger] rs@[i],
                batch@[i],
                dir@,
                outcomes@[i],
            ),
{
    let ghost orig = batch@;
    let mut batch = batch;
    let mut rs: Vec<JobResult> = Vec::new();
    let n = batch.len();
    let mut i: usize = 0;
    while i < n
        invariant
            0 <= i <= n,
            n == orig.len(),
            outcomes@.len() == orig.len(),
            batch@ =~= orig.skip(i as int),
            rs@.len() == i,
            forall|k: int|
                0 <= k < i ==> result_matches(#[trigger] rs@[k], orig[k], dir@, outcomes@[k]),
        decreases n - i,
    {
        let img = batch.remove(0);
        proof {
            assert(img == orig[i as int]);
            assert(batch@ =~= orig.skip(i + 1));
        }
        let outcome = match &outcomes[i] {
            Some(e) => Some(*e),
            None => None,
        };
        let r = apply_outcome(img, dir, outcome);
        rs.push(r);
        i += 1;
    }
    rs
}

} // verus!
