use asset_hasher::rewrite::{Action, AssetJob, AssetKind, Event, RunConfig, RunError, Stage};
use std::collections::HashMap;

fn config(base: &str, keep: bool) -> RunConfig {
    RunConfig { base: base.to_string(), keep }
}

/// Handles one reference against an in-memory set of files; returns the new
/// attribute value, if any, or the error that aborts the run.
fn run(
    files: &mut HashMap<String, Vec<u8>>,
    reference: &str,
    cfg: &RunConfig,
    fail_writes: bool,
    fail_removes: bool,
) -> Result<Option<String>, RunError> {
    let (mut job, mut action) = AssetJob::start(reference, cfg);
    let mut value = None;
    loop {
        let event = match action {
            Action::Read { source } => Event::Read(files.get(&source).cloned()),
            Action::Write { target, content } => {
                if fail_writes {
                    Event::Written(false)
                } else {
                    files.insert(target, content);
                    Event::Written(true)
                }
            }
            Action::Rewrite { value: v, remove } => {
                value = Some(v);
                match remove {
                    Some(path) => {
                        if fail_removes {
                            Event::Removed(false)
                        } else {
                            Event::Removed(files.remove(&path).is_some())
                        }
                    }
                    None => return Ok(value),
                }
            }
            Action::Leave => return Ok(None),
            Action::Done => return Ok(value),
            Action::Abort(e) => return Err(e),
        };
        assert!(job.accepts(&event));
        let (next, act) = job.step(event);
        job = next;
        action = act;
    }
}

fn site() -> HashMap<String, Vec<u8>> {
    let mut files = HashMap::new();
    files.insert("site/app.js".to_string(), b"console.log(1)".to_vec());
    files
}

#[test]
fn tracked_attributes() {
    assert_eq!(AssetKind::Script.attribute(), "src");
    assert_eq!(AssetKind::Stylesheet.attribute(), "href");
}

#[test]
fn start_reads_the_resolved_path() {
    let (job, action) = AssetJob::start("/app.js", &config("site", false));
    assert_eq!(job.path, "site/app.js");
    assert!(matches!(job.stage, Stage::Reading));
    match action {
        Action::Read { source } => assert_eq!(source, "site/app.js"),
        _ => panic!("expected a read"),
    }
}

#[test]
fn script_is_fingerprinted_and_original_removed() {
    let mut files = site();
    let value = run(&mut files, "/app.js", &config("site", false), false, false).ok().unwrap();
    assert_eq!(value, Some("app_937555a4.js".to_string()));
    assert!(!files.contains_key("site/app.js"));
    assert_eq!(files.get("site/app_937555a4.js").unwrap(), &b"console.log(1)".to_vec());
    assert_eq!(files.len(), 1);
}

#[test]
fn keep_policy_leaves_original() {
    let mut files = site();
    let value = run(&mut files, "/app.js", &config("site", true), false, false).ok().unwrap();
    assert_eq!(value, Some("app_937555a4.js".to_string()));
    assert_eq!(files.get("site/app.js").unwrap(), &b"console.log(1)".to_vec());
    assert_eq!(files.get("site/app_937555a4.js").unwrap(), &b"console.log(1)".to_vec());
}

#[test]
fn missing_asset_is_left_alone() {
    let mut files = site();
    let value = run(&mut files, "/missing.js", &config("site", false), false, false).ok().unwrap();
    assert_eq!(value, None);
    assert_eq!(files.len(), 1);
}

#[test]
fn failed_copy_is_left_alone() {
    let mut files = site();
    let value = run(&mut files, "/app.js", &config("site", false), true, false).ok().unwrap();
    assert_eq!(value, None);
    assert!(files.contains_key("site/app.js"));
    assert_eq!(files.len(), 1);
}

#[test]
fn unnameable_asset_is_left_alone() {
    let mut files = HashMap::new();
    files.insert("site/LICENSE".to_string(), b"MIT".to_vec());
    let value = run(&mut files, "/LICENSE", &config("site", false), false, false).ok().unwrap();
    assert_eq!(value, None);
    assert_eq!(files.get("site/LICENSE").unwrap(), &b"MIT".to_vec());
    assert_eq!(files.len(), 1);
}

#[test]
fn rerun_is_a_no_op() {
    let mut files = HashMap::new();
    files.insert("app.js".to_string(), b"console.log(1)".to_vec());
    let cfg = config("", false);
    let value = run(&mut files, "/app.js", &cfg, false, false).ok().unwrap().unwrap();
    assert_eq!(value, "app_937555a4.js");
    let before = files.clone();
    let again = run(&mut files, &value, &cfg, false, false).ok().unwrap();
    assert_eq!(again, None);
    assert_eq!(files, before);
    assert_eq!(files.get("app_937555a4.js").unwrap(), &b"console.log(1)".to_vec());
}

#[test]
fn stale_fingerprint_is_fingerprinted_again() {
    let mut files = HashMap::new();
    files.insert("app_937555a4.js".to_string(), b"console.log(2)".to_vec());
    let value = run(&mut files, "app_937555a4.js", &config("", true), false, false).ok().unwrap();
    let name = value.unwrap();
    assert!(name.starts_with("app_937555a4_"));
    assert_eq!(files.get(&name).unwrap(), &b"console.log(2)".to_vec());
}

#[test]
fn failed_removal_aborts() {
    let mut files = site();
    match run(&mut files, "/app.js", &config("site", false), false, true) {
        Err(RunError::RemoveFailed { removed }) => assert_eq!(removed, "site/app.js"),
        _ => panic!("expected an abort"),
    }
    assert!(files.contains_key("site/app_937555a4.js"));
}

#[test]
fn relative_reference_under_empty_base() {
    let mut files = HashMap::new();
    files.insert("css/main.css".to_string(), b"body { color: red; }\n".to_vec());
    let value = run(&mut files, "css/main.css", &config("", false), false, false).ok().unwrap();
    assert_eq!(value, Some("main_ae35baac.css".to_string()));
    assert!(files.contains_key("main_ae35baac.css"));
}

#[test]
fn accepts_only_the_awaited_report() {
    let (job, _) = AssetJob::start("app.js", &config("", false));
    assert!(job.accepts(&Event::Read(None)));
    assert!(!job.accepts(&Event::Written(true)));
    assert!(!job.accepts(&Event::Removed(true)));
}
