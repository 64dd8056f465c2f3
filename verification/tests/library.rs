use picsum::args::{parse_arguments, Arguments, ParseOutcome};
use picsum::controller::prepare;
use picsum::digits::{parse_decimal, parse_u16, parse_u8, u16_to_string};
use picsum::dimension::Dimension;
use picsum::error::ConfigError;
use picsum::job::{apply_batch_outcomes, apply_outcome, build_jobs, job_name, FetchError, Image};
use picsum::schedule::{collect_results, partition_jobs, summarize};

fn strings(items: &[&str]) -> Vec<String> {
    items.iter().map(|s| s.to_string()).collect()
}

#[test]
fn decimal_rendering() {
    assert_eq!(u16_to_string(0), "0");
    assert_eq!(u16_to_string(7), "7");
    assert_eq!(u16_to_string(100), "100");
    assert_eq!(u16_to_string(1920), "1920");
    assert_eq!(u16_to_string(65535), "65535");
}

#[test]
fn decimal_parsing() {
    assert_eq!(parse_u16("0"), Some(0));
    assert_eq!(parse_u16("100"), Some(100));
    assert_eq!(parse_u16("65535"), Some(65535));
    assert_eq!(parse_u16("65536"), None);
    assert_eq!(parse_u16(""), None);
    assert_eq!(parse_u16("12a"), None);
    assert_eq!(parse_u16("-5"), None);
    assert_eq!(parse_u8("4"), Some(4));
    assert_eq!(parse_u8("255"), Some(255));
    assert_eq!(parse_u8("256"), None);
    assert_eq!(parse_decimal("4294967295"), Some(u32::MAX));
    assert_eq!(parse_decimal("4294967296"), None);
}

#[test]
fn dimension_strings() {
    let d = Dimension::new(100, 100);
    assert_eq!(d.dir_name(), "100x100");
    assert_eq!(d.url(), "https://picsum.photos/100/100");
    let d = Dimension::new(1920, 1080);
    assert_eq!(d.dir_name(), "1920x1080");
    assert_eq!(d.url(), "https://picsum.photos/1920/1080");
}

#[test]
fn directory_resolution_with_base() {
    let d = Dimension::new(100, 100);
    let r = d.get_download_dir(Some("/tmp/pics".to_string()));
    assert_eq!(r.unwrap(), "/tmp/pics/100x100");
}

#[test]
fn directory_resolution_idempotent() {
    let d = Dimension::new(640, 480);
    let first = d.get_download_dir(Some("/tmp/pics".to_string())).unwrap();
    let second = d.get_download_dir(Some("/tmp/pics".to_string())).unwrap();
    assert_eq!(first, second);
}

#[test]
fn directory_resolution_from_home() {
    // Without a base directory the platform home decides; every outcome is
    // either a Downloads path for this dimension or an unresolvable location.
    let d = Dimension::new(100, 100);
    match d.get_download_dir(None) {
        Ok(p) => assert!(p.ends_with("/Downloads/100x100")),
        Err(e) => assert_eq!(e, ConfigError::HomeDirectoryUnresolved),
    }
}

#[test]
fn job_naming() {
    let d = Dimension::new(100, 100);
    let jobs = build_jobs(5, d);
    let names: Vec<String> = jobs.iter().map(|j| j.name.clone()).collect();
    assert_eq!(
        names,
        vec!["image-0.jpg", "image-1.jpg", "image-2.jpg", "image-3.jpg", "image-4.jpg"]
    );
    for j in &jobs {
        assert_eq!(j.url, "https://picsum.photos/100/100");
        assert!(j.path.is_none());
    }
    assert_eq!(job_name(12), "image-12.jpg");
}

#[test]
fn partition_sizes_and_order() {
    let d = Dimension::new(100, 100);
    let jobs = build_jobs(17, d);
    let batches = partition_jobs(jobs, 4);
    let sizes: Vec<usize> = batches.iter().map(|b| b.len()).collect();
    assert_eq!(sizes, vec![4, 4, 4, 5]);
    let mut names = Vec::new();
    for b in &batches {
        for j in b {
            names.push(j.name.clone());
        }
    }
    let expected: Vec<String> = (0..17).map(|i| format!("image-{}.jpg", i)).collect();
    assert_eq!(names, expected);
}

#[test]
fn partition_zero_jobs() {
    let d = Dimension::new(100, 100);
    let jobs = build_jobs(0, d);
    let batches = partition_jobs(jobs, 3);
    assert_eq!(batches.len(), 3);
    for b in &batches {
        assert!(b.is_empty());
    }
}

#[test]
fn partition_more_workers_than_jobs() {
    let d = Dimension::new(100, 100);
    let jobs = build_jobs(2, d);
    let batches = partition_jobs(jobs, 5);
    let sizes: Vec<usize> = batches.iter().map(|b| b.len()).collect();
    assert_eq!(sizes, vec![0, 0, 0, 0, 2]);
}

#[test]
fn success_sets_path() {
    let d = Dimension::new(100, 100);
    let img = Image::new(job_name(0), d);
    let r = apply_outcome(img, "/tmp/pics/100x100", None);
    assert!(r.error.is_none());
    assert_eq!(r.image.path, Some("/tmp/pics/100x100/image-0.jpg".to_string()));
}

#[test]
fn failure_leaves_path_unset() {
    let d = Dimension::new(100, 100);
    let img = Image::new(job_name(3), d);
    let r = apply_outcome(img, "/tmp/pics/100x100", Some(FetchError::Status(503)));
    assert_eq!(r.error, Some(FetchError::Status(503)));
    assert!(r.image.path.is_none());
}

#[test]
fn one_failure_is_isolated() {
    let d = Dimension::new(100, 100);
    let batch = build_jobs(5, d);
    let outcomes = vec![None, None, Some(FetchError::Transport), None, None];
    let results = apply_batch_outcomes(batch, "/tmp/pics/100x100", &outcomes);
    assert_eq!(results.len(), 5);
    for (i, r) in results.iter().enumerate() {
        if i == 2 {
            assert_eq!(r.error, Some(FetchError::Transport));
            assert!(r.image.path.is_none());
        } else {
            assert!(r.error.is_none());
            assert_eq!(
                r.image.path,
                Some(format!("/tmp/pics/100x100/image-{}.jpg", i))
            );
        }
    }
    let (succeeded, failed) = summarize(&results);
    assert_eq!(succeeded, 4);
    assert_eq!(failed, 1);
}

#[test]
fn write_failure_is_per_job() {
    let d = Dimension::new(100, 100);
    let batch = build_jobs(2, d);
    let outcomes = vec![Some(FetchError::Write), None];
    let results = apply_batch_outcomes(batch, "/base/100x100", &outcomes);
    assert_eq!(results[0].error, Some(FetchError::Write));
    assert!(results[1].error.is_none());
    let (succeeded, failed) = summarize(&results);
    assert_eq!(succeeded, 1);
    assert_eq!(failed, 1);
}

#[test]
fn results_aggregate_in_batch_order() {
    let d = Dimension::new(100, 100);
    let batches = partition_jobs(build_jobs(5, d), 2);
    let mut per_batch = Vec::new();
    for b in batches {
        let outcomes = vec![None; b.len()];
        per_batch.push(apply_batch_outcomes(b, "/base/100x100", &outcomes));
    }
    let all = collect_results(per_batch);
    let names: Vec<String> = all.iter().map(|r| r.image.name.clone()).collect();
    let expected: Vec<String> = (0..5).map(|i| format!("image-{}.jpg", i)).collect();
    assert_eq!(names, expected);
    let (succeeded, failed) = summarize(&all);
    assert_eq!(succeeded, 5);
    assert_eq!(failed, 0);
}

#[test]
fn zero_count_reports_zero() {
    let d = Dimension::new(100, 100);
    let jobs = build_jobs(0, d);
    let batches = partition_jobs(jobs, 1);
    let mut results = Vec::new();
    for b in batches {
        let outcomes = vec![None; b.len()];
        results.extend(apply_batch_outcomes(b, "/tmp/pics/100x100", &outcomes));
    }
    let (succeeded, failed) = summarize(&results);
    assert_eq!(succeeded, 0);
    assert_eq!(failed, 0);
}

#[test]
fn parse_defaults() {
    match parse_arguments(&strings(&[])) {
        ParseOutcome::Run(a) => {
            assert_eq!(a.width, 1920);
            assert_eq!(a.height, 1080);
            assert_eq!(a.count, 50);
            assert_eq!(a.threads, 4);
            assert!(a.dir.is_none());
        }
        _ => panic!("expected a run configuration"),
    }
}

#[test]
fn parse_all_flags() {
    let args = strings(&[
        "--count", "2", "--width", "100", "--height", "100", "--threads", "1", "--dir",
        "/tmp/pics",
    ]);
    match parse_arguments(&args) {
        ParseOutcome::Run(a) => {
            assert_eq!(a.count, 2);
            assert_eq!(a.width, 100);
            assert_eq!(a.height, 100);
            assert_eq!(a.threads, 1);
            assert_eq!(a.dir, Some("/tmp/pics".to_string()));
        }
        _ => panic!("expected a run configuration"),
    }
}

#[test]
fn parse_help() {
    assert!(matches!(
        parse_arguments(&strings(&["--help"])),
        ParseOutcome::Help
    ));
    assert!(matches!(
        parse_arguments(&strings(&["--count", "3", "--help", "--bogus"])),
        ParseOutcome::Help
    ));
}

#[test]
fn parse_zero_threads_is_fatal() {
    match parse_arguments(&strings(&["--threads", "0"])) {
        ParseOutcome::Fail(e) => assert_eq!(e, ConfigError::ZeroWorkerCount),
        _ => panic!("expected a fatal configuration error"),
    }
}

#[test]
fn parse_unknown_flag() {
    match parse_arguments(&strings(&["bogus"])) {
        ParseOutcome::Fail(e) => assert_eq!(e, ConfigError::UnknownFlag("bogus".to_string())),
        _ => panic!("expected a fatal configuration error"),
    }
}

#[test]
fn parse_missing_value() {
    match parse_arguments(&strings(&["--count"])) {
        ParseOutcome::Fail(e) => assert_eq!(e, ConfigError::MissingFlagValue("count".to_string())),
        _ => panic!("expected a fatal configuration error"),
    }
}

#[test]
fn parse_non_numeric_value() {
    match parse_arguments(&strings(&["--width", "wide"])) {
        ParseOutcome::Fail(e) => {
            assert_eq!(e, ConfigError::NonNumericFlagValue("width".to_string()))
        }
        _ => panic!("expected a fatal configuration error"),
    }
    match parse_arguments(&strings(&["--count", "70000"])) {
        ParseOutcome::Fail(e) => {
            assert_eq!(e, ConfigError::NonNumericFlagValue("count".to_string()))
        }
        _ => panic!("expected a fatal configuration error"),
    }
}

#[test]
fn parse_later_flags_override() {
    match parse_arguments(&strings(&["--count", "3", "--count", "9"])) {
        ParseOutcome::Run(a) => assert_eq!(a.count, 9),
        _ => panic!("expected a run configuration"),
    }
}

#[test]
fn error_messages() {
    assert_eq!(
        ConfigError::UnknownFlag("bogus".to_string()).message(),
        "Invalid argument bogus"
    );
    assert_eq!(
        ConfigError::MissingFlagValue("count".to_string()).message(),
        "Please pass a valid count after --count flag"
    );
    assert_eq!(
        ConfigError::NonNumericFlagValue("count".to_string()).message(),
        "Could not parse count. Please make sure it's a numeric value"
    );
    assert_eq!(
        ConfigError::HomeDirectoryUnresolved.message(),
        "Could not resolve home directory. Please pass --dir flag with appropriate value for save location"
    );
}

#[test]
fn prepare_builds_full_plan() {
    let args = Arguments {
        width: 100,
        height: 100,
        dir: Some("/tmp/base".to_string()),
        threads: 2,
        count: 5,
    };
    let plan = prepare(&args).unwrap();
    assert_eq!(plan.directory, "/tmp/base/100x100");
    let sizes: Vec<usize> = plan.batches.iter().map(|b| b.len()).collect();
    assert_eq!(sizes, vec![2, 3]);
    let mut names = Vec::new();
    for b in &plan.batches {
        for j in b {
            names.push(j.name.clone());
        }
    }
    let expected: Vec<String> = (0..5).map(|i| format!("image-{}.jpg", i)).collect();
    assert_eq!(names, expected);
}

#[test]
fn prepare_without_base_uses_home() {
    let args = Arguments {
        width: 100,
        height: 100,
        dir: None,
        threads: 1,
        count: 1,
    };
    match prepare(&args) {
        Ok(plan) => assert!(plan.directory.ends_with("/Downloads/100x100")),
        Err(e) => assert_eq!(e, ConfigError::HomeDirectoryUnresolved),
    }
}
