use download_manager::manager::Download;
use download_manager::models::{DownloadItem, DownloadStatus, PROGRESS_FULL};
use download_manager::reconcile::reconcile_item;
use download_manager::store::JobStore;

fn seeded(key: &str, progress: u64, status: DownloadStatus) -> DownloadItem {
    DownloadItem {
        key: key.to_string(),
        url: "https://example.org/r".to_string(),
        path: "file.bin.download".to_string(),
        progress,
        status,
    }
}

#[test]
fn reconciler_demotes_stale_in_progress_jobs() {
    // A store left behind by an unclean shutdown: two jobs still marked in
    // progress, one without any progress, one at 45%.
    let mut store = JobStore::new();
    store.update(seeded("a", 0, DownloadStatus::InProgress));
    store.update(seeded("b", 4500, DownloadStatus::InProgress));
    let mut d = Download::from_store(store);

    d.init();

    assert_eq!(d.get(&"a".to_string()).status, DownloadStatus::Idle);
    assert_eq!(d.get(&"a".to_string()).progress, 0);
    assert_eq!(d.get(&"b".to_string()).status, DownloadStatus::Paused);
    assert_eq!(d.get(&"b".to_string()).progress, 4500);
}

#[test]
fn reconciler_leaves_settled_jobs_alone() {
    let mut store = JobStore::new();
    store.update(seeded("idle", 0, DownloadStatus::Idle));
    store.update(seeded("paused", 300, DownloadStatus::Paused));
    store.update(seeded("done", PROGRESS_FULL, DownloadStatus::Completed));
    let mut d = Download::from_store(store);

    d.init();

    assert_eq!(d.get(&"idle".to_string()).status, DownloadStatus::Idle);
    let paused = d.get(&"paused".to_string());
    assert_eq!(paused.status, DownloadStatus::Paused);
    assert_eq!(paused.progress, 300);
    let done = d.get(&"done".to_string());
    assert_eq!(done.status, DownloadStatus::Completed);
    assert_eq!(done.progress, PROGRESS_FULL);
    assert_eq!(d.list().len(), 3);
}

#[test]
fn reconcile_item_demotes_exactly_in_progress() {
    let fresh = reconcile_item(&seeded("x", 0, DownloadStatus::InProgress));
    assert_eq!(fresh.status, DownloadStatus::Idle);
    let partial = reconcile_item(&seeded("x", 1, DownloadStatus::InProgress));
    assert_eq!(partial.status, DownloadStatus::Paused);
    assert_eq!(partial.progress, 1);
    let idle = reconcile_item(&seeded("x", 0, DownloadStatus::Idle));
    assert_eq!(idle.status, DownloadStatus::Idle);
}
