//! End-to-end transfer scenarios, with the network and the filesystem
//! simulated in memory: the resource is a byte slice, the working file a
//! byte vector, and the loop is driven exactly as an application drives it.

use download_manager::engine::{
    apply_chunk, begin_transfer, current_progress, mark_emitted, plan_range, should_emit,
};
use download_manager::error::Error;
use download_manager::manager::{CheckpointAction, Download};
use download_manager::models::DownloadStatus;

/// What one simulated transfer ended as.
enum Outcome {
    Completed { final_path: String },
    Stopped,
    StreamEnded,
    Failed(Error),
}

/// Runs one transfer for `key` the way an application would: negotiates the
/// range, checks the response, streams `chunk_size`-byte chunks of
/// `resource` into `working`, and takes every decision through the engine
/// and the manager's checkpoint. `honor_range` says whether the simulated
/// server answers a ranged request with partial content.
fn run_transfer(
    d: &mut Download,
    key: &String,
    resource: &[u8],
    working: &mut Vec<u8>,
    honor_range: bool,
    chunk_size: usize,
) -> Outcome {
    let downloaded_size = working.len() as u64;
    let offset = plan_range(downloaded_size);
    // The simulated server: partial content exactly when a range was asked
    // for and honored; the remaining bytes from the offset on.
    let ranged = offset.is_some();
    let partial_content = ranged && honor_range;
    let body: &[u8] = if ranged && honor_range {
        &resource[downloaded_size as usize..]
    } else {
        resource
    };
    let content_length = Some(body.len() as u64);

    let mut t = match begin_transfer(downloaded_size, partial_content, content_length) {
        Ok(t) => t,
        Err(e) => return Outcome::Failed(e),
    };

    if d.transfer_started(key).is_none() {
        return Outcome::Stopped;
    }

    let mut pos = 0usize;
    while pos < body.len() {
        let end = usize::min(pos + chunk_size, body.len());
        let data = &body[pos..end];
        pos = end;
        working.extend_from_slice(data);
        t = apply_chunk(&t, data.len() as u64);
        if !should_emit(&t) {
            continue;
        }
        let p = current_progress(&t).expect("total is known here");
        t = mark_emitted(&t, p);
        match d.checkpoint(key, p) {
            CheckpointAction::Persisted(_) => {},
            CheckpointAction::Completed { finished, .. } => {
                return Outcome::Completed { final_path: finished.path };
            },
            CheckpointAction::Stopped => return Outcome::Stopped,
            CheckpointAction::Ignored => {},
        }
    }
    Outcome::StreamEnded
}

fn resource_bytes(n: usize) -> Vec<u8> {
    (0..n).map(|i| (i * 31 % 251) as u8).collect()
}

fn created(key: &str) -> (Download, String) {
    let mut d = Download::new();
    d.create(key.to_string(), "https://example.org/r".to_string(), "file.bin".to_string())
        .unwrap();
    (d, key.to_string())
}

#[test]
fn fresh_download_completes_with_all_bytes() {
    let (mut d, key) = created("job");
    let resource = resource_bytes(1000);
    let mut working = Vec::new();
    d.start(&key).unwrap();
    match run_transfer(&mut d, &key, &resource, &mut working, true, 64) {
        Outcome::Completed { final_path } => assert_eq!(final_path, "file.bin"),
        _ => panic!("expected completion"),
    }
    assert_eq!(working, resource);
    // The finished record is removed: the renamed file is the artifact.
    assert_eq!(d.get(&key).status, DownloadStatus::Pending);
}

#[test]
fn resumed_download_equals_fresh_download() {
    let resource = resource_bytes(1000);

    // A fresh, uninterrupted download of the same resource.
    let (mut d1, k1) = created("fresh");
    let mut fresh = Vec::new();
    d1.start(&k1).unwrap();
    assert!(matches!(
        run_transfer(&mut d1, &k1, &resource, &mut fresh, true, 128),
        Outcome::Completed { .. }
    ));

    // A partial working file of N bytes, resumed against a server that
    // honors the range.
    let n = 437;
    let (mut d2, k2) = created("resumed");
    let mut working: Vec<u8> = resource[..n].to_vec();
    d2.transfer_started(&k2).unwrap();
    d2.checkpoint(&k2, 4370);
    d2.pause(&k2).unwrap();
    d2.resume(&k2).unwrap();
    match run_transfer(&mut d2, &k2, &resource, &mut working, true, 128) {
        Outcome::Completed { final_path } => assert_eq!(final_path, "file.bin"),
        _ => panic!("expected completion"),
    }
    assert_eq!(working, fresh);
    assert_eq!(working, resource);
}

#[test]
fn pause_then_resume_reaches_completion_with_identical_bytes() {
    let resource = resource_bytes(2000);
    let (mut d, key) = created("job");
    let mut working = Vec::new();

    // First leg: pause as soon as the first checkpoint has persisted some
    // progress; the loop observes the pause at its next checkpoint.
    d.start(&key).unwrap();
    {
        let downloaded_size = working.len() as u64;
        let mut t =
            begin_transfer(downloaded_size, false, Some(resource.len() as u64)).unwrap();
        d.transfer_started(&key).unwrap();
        let mut pos = 0usize;
        let mut paused = false;
        loop {
            assert!(pos < resource.len(), "pause was never observed");
            let end = usize::min(pos + 100, resource.len());
            let data = &resource[pos..end];
            pos = end;
            working.extend_from_slice(data);
            t = apply_chunk(&t, data.len() as u64);
            if !should_emit(&t) {
                continue;
            }
            let p = current_progress(&t).unwrap();
            t = mark_emitted(&t, p);
            match d.checkpoint(&key, p) {
                CheckpointAction::Persisted(_) => {
                    if !paused {
                        d.pause(&key).unwrap();
                        paused = true;
                    }
                },
                CheckpointAction::Stopped => break,
                _ => panic!("unexpected checkpoint outcome"),
            }
        }
    }
    let at_pause = d.get(&key);
    assert_eq!(at_pause.status, DownloadStatus::Paused);
    assert!(working.len() < resource.len());

    // Second leg: resume immediately; the transfer runs to completion.
    let (_, launch) = d.resume(&key).unwrap();
    assert!(launch);
    match run_transfer(&mut d, &key, &resource, &mut working, true, 100) {
        Outcome::Completed { final_path } => assert_eq!(final_path, "file.bin"),
        _ => panic!("expected completion"),
    }
    assert_eq!(working, resource);
    assert_eq!(d.get(&key).status, DownloadStatus::Pending);
}

#[test]
fn cancel_during_transfer_stops_within_one_checkpoint() {
    let resource = resource_bytes(3000);
    let (mut d, key) = created("job");
    let mut working: Vec<u8> = Vec::new();

    d.start(&key).unwrap();
    let mut t = begin_transfer(0, false, Some(resource.len() as u64)).unwrap();
    d.transfer_started(&key).unwrap();

    let mut pos = 0usize;
    let mut cancelled = false;
    let mut checkpoints_after_cancel = 0u32;
    let stopped = loop {
        if pos >= resource.len() {
            break false;
        }
        let end = usize::min(pos + 60, resource.len());
        let data = &resource[pos..end];
        pos = end;
        working.extend_from_slice(data);
        t = apply_chunk(&t, data.len() as u64);
        if !should_emit(&t) {
            continue;
        }
        let p = current_progress(&t).unwrap();
        t = mark_emitted(&t, p);
        match d.checkpoint(&key, p) {
            CheckpointAction::Persisted(_) => {
                if !cancelled {
                    // The first chunk is on disk; cancel now. The manager
                    // deletes the record; the application removes the file.
                    let r = d.cancel(&key).unwrap();
                    assert_eq!(r.download.status, DownloadStatus::Cancelled);
                    cancelled = true;
                } else {
                    panic!("progress persisted after the record was deleted");
                }
            },
            CheckpointAction::Stopped => {
                checkpoints_after_cancel += 1;
                break true;
            },
            _ => panic!("unexpected checkpoint outcome"),
        }
    };
    assert!(stopped, "the loop must stop before the stream ends");
    assert_eq!(checkpoints_after_cancel, 1);
    assert!(d.list().is_empty());
    assert_eq!(d.get(&key).status, DownloadStatus::Pending);
    // The application deletes the working file on cancel; simulate it.
    working.clear();
    assert!(working.is_empty());
}

#[test]
fn server_rejecting_range_fails_resume_and_leaves_job_paused() {
    let resource = resource_bytes(100);
    let (mut d, key) = created("job");

    // A paused job with a 10-byte working file.
    let mut working: Vec<u8> = resource[..10].to_vec();
    d.transfer_started(&key).unwrap();
    d.checkpoint(&key, 1000);
    d.pause(&key).unwrap();

    let (_, launch) = d.resume(&key).unwrap();
    assert!(launch);
    // The simulated server answers the ranged request with a plain 200.
    match run_transfer(&mut d, &key, &resource, &mut working, false, 20) {
        Outcome::Failed(Error::Http(_)) => {},
        _ => panic!("expected an HTTP failure"),
    }
    // The failure happened before any store write: the job stays paused.
    assert_eq!(d.get(&key).status, DownloadStatus::Paused);
    assert_eq!(d.get(&key).progress, 1000);
    assert_eq!(working.len(), 10);
}

#[test]
fn mid_stream_failure_removes_the_record() {
    let (mut d, key) = created("job");
    d.start(&key).unwrap();
    d.transfer_started(&key).unwrap();
    d.checkpoint(&key, 500);
    // A chunk read fails: the application reports the failure.
    d.transfer_failed(&key);
    assert!(d.list().is_empty());
    assert_eq!(d.get(&key).status, DownloadStatus::Pending);
}
