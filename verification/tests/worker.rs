use afc_finder::commands::{AfcCommands, AfcMode, FileInfo, GuiAfcCommands, LocalPlace};
use afc_finder::remote_path::Host;
use afc_finder::worker::{
    download_progress, upload_progress, Action, EntryKind, Event, Job, LocalEntry, Turn, Worker,
};
use idevice::usbmuxd::{Connection, UsbmuxdDevice};
use std::path::PathBuf;

fn device() -> UsbmuxdDevice {
    UsbmuxdDevice { connection_type: Connection::Usb, udid: "udid".to_string(), device_id: 3 }
}

fn info(kind: &str) -> FileInfo {
    FileInfo { size: 5, modified: 0, st_ifmt: kind.to_string() }
}

fn texts(all: &[&str]) -> Vec<String> {
    all.iter().map(|t| t.to_string()).collect()
}

fn place(base: &str, below: &[&str]) -> LocalPlace {
    LocalPlace { base: PathBuf::from(base), below: texts(below) }
}

fn is_place(place: &LocalPlace, base: &str, below: &[&str]) -> bool {
    place.base == PathBuf::from(base) && place.below == texts(below)
}

/// Hands the task an event that it has to be waiting for.
fn step(worker: Worker, event: Event) -> (Worker, Turn) {
    assert!(worker.accepts(&event));
    worker.step(event)
}

fn connected() -> Worker {
    let (worker, _) = step(Worker::new(Host::Unix), Event::Command(AfcCommands::Connect(
        device(),
        AfcMode::Root,
    )));
    let (worker, _) = step(worker, Event::Connected(Ok(())));
    worker
}

fn command(command: AfcCommands) -> (Worker, Turn) {
    let (worker, turn) = step(connected(), Event::Command(command));
    assert!(turn.queued.is_none());
    assert!(turn.report.is_none());
    (worker, turn)
}

/// The report on an operation that ended the job.
fn outcome(worker: &Worker, turn: Turn) -> Result<String, String> {
    assert!(matches!(worker.job, Job::Idle));
    assert!(matches!(turn.action, Action::Wait));
    match turn.report {
        Some(GuiAfcCommands::OperationStatus(result)) => result,
        _ => panic!("no report"),
    }
}

#[test]
fn a_connection_is_made_and_dropped() {
    let worker = Worker::new(Host::Unix);
    assert!(!worker.connected);
    let mode = AfcMode::Container("com.example".to_string());
    let (worker, turn) = step(worker, Event::Command(AfcCommands::Connect(device(), mode)));
    match turn.action {
        Action::Connect(device, mode) => {
            assert_eq!(device.device_id, 3);
            assert_eq!(mode, AfcMode::Container("com.example".to_string()));
        }
        _ => panic!("no connection"),
    }
    assert!(turn.report.is_none());
    let (worker, turn) = step(worker, Event::Connected(Ok(())));
    assert!(worker.connected);
    assert!(matches!(turn.report, Some(GuiAfcCommands::ConnectionStatus(Ok(())))));
    assert!(matches!(turn.action, Action::Wait));
    let (worker, turn) = step(worker, Event::Command(AfcCommands::Disconnect));
    assert!(!worker.connected);
    assert!(matches!(turn.action, Action::Disconnect));
    assert!(turn.report.is_none());
}

#[test]
fn a_failed_attempt_leaves_the_connection_as_it_is() {
    for before in [Worker::new(Host::Unix), connected()] {
        let had = before.connected;
        let (worker, _) =
            step(before, Event::Command(AfcCommands::Connect(device(), AfcMode::Root)));
        let (worker, turn) = step(worker, Event::Connected(Err("locked".to_string())));
        assert_eq!(worker.connected, had);
        assert!(matches!(
            turn.report,
            Some(GuiAfcCommands::ConnectionStatus(Err(e))) if e == "locked"
        ));
    }
}

#[test]
fn nothing_is_done_without_a_connection() {
    let p = || PathBuf::from("/tmp/x");
    for command in [
        AfcCommands::ListDirectory("/".to_string()),
        AfcCommands::DownloadFile("/x".to_string(), place("/tmp/x", &[])),
        AfcCommands::UploadFile(p(), "/x".to_string()),
        AfcCommands::CreateDirectory("/x".to_string()),
        AfcCommands::DeletePath("/x".to_string()),
        AfcCommands::DownloadDirectory("/x".to_string(), place("/tmp", &["x"])),
        AfcCommands::UploadDirectory(p(), "/x".to_string()),
    ] {
        let (worker, turn) = step(Worker::new(Host::Unix), Event::Command(command));
        assert!(!worker.connected);
        assert!(matches!(worker.job, Job::Idle));
        assert!(matches!(turn.action, Action::Wait));
        assert!(turn.report.is_none());
        assert!(turn.queued.is_none());
    }
}

#[test]
fn a_listing_asks_about_every_entry_of_its_own() {
    let (worker, turn) = command(AfcCommands::ListDirectory("/DCIM".to_string()));
    assert!(matches!(turn.action, Action::List(path) if path == "/DCIM"));
    let (worker, turn) = step(worker, Event::Names(Ok(texts(&[".", "..", "b", "a", "c"]))));
    assert!(matches!(turn.action, Action::Inspect(path) if path == "/DCIM/b"));
    let (worker, turn) = step(worker, Event::Info(Some(info("S_IFREG"))));
    assert!(matches!(turn.action, Action::Inspect(path) if path == "/DCIM/a"));
    assert!(turn.report.is_none());
    let (worker, turn) = step(worker, Event::Info(None));
    assert!(matches!(turn.action, Action::Inspect(path) if path == "/DCIM/c"));
    let (worker, turn) = step(worker, Event::Info(Some(info("S_IFDIR"))));
    assert!(matches!(worker.job, Job::Idle));
    assert!(matches!(turn.action, Action::Wait));
    match turn.report {
        Some(GuiAfcCommands::DirectoryListing(Ok(items))) => {
            assert_eq!(items.len(), 2);
            assert_eq!(items[0].name, "b");
            assert!(!items[0].info.is_dir());
            assert_eq!(items[1].name, "c");
            assert!(items[1].info.is_dir());
        }
        _ => panic!("no listing"),
    }
}

#[test]
fn a_listing_of_nothing_is_empty() {
    let (worker, _) = command(AfcCommands::ListDirectory("/".to_string()));
    let (_, turn) = step(worker, Event::Names(Ok(texts(&[".", ".."]))));
    assert!(matches!(
        turn.report,
        Some(GuiAfcCommands::DirectoryListing(Ok(items))) if items.is_empty()
    ));
}

#[test]
fn a_listing_that_fails_is_reported() {
    let (worker, _) = command(AfcCommands::ListDirectory("/".to_string()));
    let (worker, turn) = step(worker, Event::Names(Err("no".to_string())));
    assert!(matches!(worker.job, Job::Idle));
    assert!(matches!(
        turn.report,
        Some(GuiAfcCommands::DirectoryListing(Err(e))) if e == "no"
    ));
}

#[test]
fn a_file_is_downloaded() {
    let start = || {
        command(AfcCommands::DownloadFile("/DCIM/a.jpg".to_string(), place("/tmp", &["a.jpg"])))
    };
    let (worker, turn) = start();
    match turn.action {
        Action::Download(remote, local) => {
            assert_eq!(remote, "/DCIM/a.jpg");
            assert!(is_place(&local, "/tmp", &["a.jpg"]));
        }
        _ => panic!("no download"),
    }
    let (worker, turn) = step(worker, Event::Downloaded(Ok("/tmp/a.jpg".to_string())));
    assert_eq!(outcome(&worker, turn), Ok("Downloaded a.jpg to /tmp/a.jpg".to_string()));
    let (worker, turn) = step(start().0, Event::Downloaded(Err("gone".to_string())));
    assert_eq!(outcome(&worker, turn), Err("gone".to_string()));
}

#[test]
fn a_download_without_a_name_says_none() {
    let (worker, _) =
        command(AfcCommands::DownloadFile("/..".to_string(), place("/tmp/x", &[])));
    let (worker, turn) = step(worker, Event::Downloaded(Ok("/tmp/x".to_string())));
    assert_eq!(outcome(&worker, turn), Ok("Downloaded  to /tmp/x".to_string()));
}

#[test]
fn a_file_is_uploaded() {
    let start = || {
        command(AfcCommands::UploadFile(PathBuf::from("/tmp/a.jpg"), "/DCIM/a.jpg".to_string()))
    };
    let (worker, turn) = start();
    match turn.action {
        Action::Upload(local, remote) => {
            assert_eq!(local, PathBuf::from("/tmp/a.jpg"));
            assert_eq!(remote, "/DCIM/a.jpg");
        }
        _ => panic!("no upload"),
    }
    let (worker, turn) = step(worker, Event::Uploaded(Ok("a.jpg".to_string())));
    assert_eq!(outcome(&worker, turn), Ok("Uploaded a.jpg to /DCIM/a.jpg".to_string()));
    let (worker, turn) = step(start().0, Event::Uploaded(Err("full".to_string())));
    assert_eq!(outcome(&worker, turn), Err("full".to_string()));
}

#[test]
fn directories_are_made_and_things_deleted() {
    let (worker, turn) = command(AfcCommands::CreateDirectory("/x".to_string()));
    assert!(matches!(turn.action, Action::Make(path) if path == "/x"));
    let (worker, turn) = step(worker, Event::Made(Ok(())));
    assert_eq!(outcome(&worker, turn), Ok("Created directory: /x".to_string()));
    let (worker, _) = step(worker, Event::Command(AfcCommands::CreateDirectory("/x".to_string())));
    let (worker, turn) = step(worker, Event::Made(Err("exists".to_string())));
    assert_eq!(outcome(&worker, turn), Err("exists".to_string()));
    let (worker, turn) = step(worker, Event::Command(AfcCommands::DeletePath("/x".to_string())));
    assert!(matches!(turn.action, Action::Delete(path) if path == "/x"));
    let (worker, turn) = step(worker, Event::Deleted(Ok(())));
    assert_eq!(outcome(&worker, turn), Ok("Deleted: /x".to_string()));
    let (worker, _) = step(worker, Event::Command(AfcCommands::DeletePath("/x".to_string())));
    let (worker, turn) = step(worker, Event::Deleted(Err("busy".to_string())));
    assert_eq!(outcome(&worker, turn), Err("busy".to_string()));
}

#[test]
fn a_directory_is_downloaded_entry_by_entry() {
    let (worker, turn) =
        command(AfcCommands::DownloadDirectory("/DCIM".to_string(), place("/tmp", &["DCIM"])));
    assert!(matches!(turn.action, Action::MakeLocal(local) if is_place(&local, "/tmp", &["DCIM"])));
    let (worker, turn) = step(worker, Event::LocalMade(Ok(()), "/tmp/DCIM".to_string()));
    assert!(matches!(turn.action, Action::List(path) if path == "/DCIM"));
    let (worker, turn) = step(worker, Event::Names(Ok(texts(&["..", "sub", "lost", "a", "."]))));
    assert!(matches!(turn.action, Action::Inspect(path) if path == "/DCIM/sub"));
    let (worker, turn) = step(worker, Event::Info(Some(info("S_IFDIR"))));
    match turn.queued {
        Some(AfcCommands::DownloadDirectory(remote, local)) => {
            assert_eq!(remote, "/DCIM/sub");
            assert!(is_place(&local, "/tmp", &["DCIM", "sub"]));
        }
        _ => panic!("nothing queued"),
    }
    assert!(matches!(turn.action, Action::Inspect(path) if path == "/DCIM/lost"));
    let (worker, turn) = step(worker, Event::Info(None));
    assert!(turn.queued.is_none());
    assert!(turn.report.is_none());
    let (worker, mut turn) = step(worker, Event::Info(Some(info("S_IFREG"))));
    match turn.queued.take() {
        Some(AfcCommands::DownloadFile(remote, local)) => {
            assert_eq!(remote, "/DCIM/a");
            assert!(is_place(&local, "/tmp", &["DCIM", "a"]));
        }
        _ => panic!("nothing queued"),
    }
    assert_eq!(outcome(&worker, turn), Ok("Queued 3 items from /DCIM".to_string()));
}

#[test]
fn places_lead_on_by_names() {
    let dir = LocalPlace::at(PathBuf::from("/tmp")).child("a");
    let inner = dir.child("b");
    assert!(is_place(&dir, "/tmp", &["a"]));
    assert!(is_place(&inner, "/tmp", &["a", "b"]));
    assert!(is_place(&inner.clone(), "/tmp", &["a", "b"]));
}

#[test]
fn windows_rules_hold_for_the_task() {
    let worker = Worker { host: Host::Windows, ..connected() };
    let (worker, _) = step(worker, Event::Command(AfcCommands::ListDirectory("/DCIM".to_string())));
    let (worker, turn) = step(worker, Event::Names(Ok(texts(&["a"]))));
    assert!(matches!(turn.action, Action::Inspect(path) if path == r"/DCIM\a"));
    assert_eq!(worker.host, Host::Windows);
}

#[test]
fn a_directory_that_cannot_be_downloaded_is_reported() {
    let start = || {
        command(AfcCommands::DownloadDirectory("/x".to_string(), place("/tmp", &["x"]))).0
    };
    let made = Event::LocalMade(Err("read-only".to_string()), "/tmp/x".to_string());
    let (worker, turn) = step(start(), made);
    assert_eq!(
        outcome(&worker, turn),
        Err("Failed to create local directory /tmp/x: read-only".to_string())
    );
    let (worker, _) = step(start(), Event::LocalMade(Ok(()), "/tmp/x".to_string()));
    let (worker, turn) = step(worker, Event::Names(Err("gone".to_string())));
    assert_eq!(
        outcome(&worker, turn),
        Err("Failed to list directory /x: gone".to_string())
    );
    let (worker, _) = step(start(), Event::LocalMade(Ok(()), "/tmp/x".to_string()));
    let (worker, turn) = step(worker, Event::Names(Ok(Vec::new())));
    assert_eq!(outcome(&worker, turn), Ok("Queued 0 items from /x".to_string()));
}

#[test]
fn a_directory_is_uploaded_entry_by_entry() {
    let (worker, turn) =
        command(AfcCommands::UploadDirectory(PathBuf::from("/tmp/lib"), "/Books".to_string()));
    assert!(matches!(turn.action, Action::Make(path) if path == "/Books"));
    let (worker, turn) = step(worker, Event::Made(Ok(())));
    assert!(matches!(turn.action, Action::OpenLocal(local) if local == PathBuf::from("/tmp/lib")));
    let (mut worker, turn) = step(worker, Event::LocalOpened(Ok(()), "/tmp/lib".to_string()));
    assert!(matches!(turn.action, Action::NextLocal));
    let mut queued = Vec::new();
    for (name, kind) in [
        ("sub", EntryKind::Directory),
        ("a", EntryKind::File),
        ("link", EntryKind::Other),
        ("odd", EntryKind::Unknown),
    ] {
        let entry = LocalEntry {
            path: PathBuf::from(format!("/tmp/lib/{name}")),
            name: name.to_string(),
            kind,
        };
        let (next, turn) = step(worker, Event::LocalEntry(Some(entry)));
        assert!(turn.report.is_none());
        assert!(matches!(turn.action, Action::NextLocal));
        queued.extend(turn.queued);
        worker = next;
    }
    assert_eq!(queued.len(), 2);
    match &queued[0] {
        AfcCommands::UploadDirectory(local, remote) => {
            assert_eq!(*local, PathBuf::from("/tmp/lib/sub"));
            assert_eq!(remote, "/Books/sub");
        }
        _ => panic!("no directory"),
    }
    match &queued[1] {
        AfcCommands::UploadFile(local, remote) => {
            assert_eq!(*local, PathBuf::from("/tmp/lib/a"));
            assert_eq!(remote, "/Books/a");
        }
        _ => panic!("no file"),
    }
    let (worker, turn) = step(worker, Event::LocalEntry(None));
    assert!(turn.queued.is_none());
    assert_eq!(outcome(&worker, turn), Ok("Queued 4 items from /tmp/lib".to_string()));
}

#[test]
fn a_directory_that_cannot_be_uploaded_is_reported() {
    let start = || {
        command(AfcCommands::UploadDirectory(PathBuf::from("/tmp/x"), "/x".to_string())).0
    };
    let (worker, turn) = step(start(), Event::Made(Err("exists".to_string())));
    assert_eq!(
        outcome(&worker, turn),
        Err("Failed to create remote directory /x: exists".to_string())
    );
    let (worker, _) = step(start(), Event::Made(Ok(())));
    let opened = Event::LocalOpened(Err("denied".to_string()), "/tmp/x".to_string());
    let (worker, turn) = step(worker, opened);
    assert_eq!(
        outcome(&worker, turn),
        Err("Failed to read local directory /tmp/x: denied".to_string())
    );
}

#[test]
fn only_awaited_events_are_accepted() {
    let idle = connected();
    assert!(idle.accepts(&Event::Command(AfcCommands::Disconnect)));
    assert!(!idle.accepts(&Event::Made(Ok(()))));
    assert!(!idle.accepts(&Event::LocalEntry(None)));
    let (busy, _) = command(AfcCommands::CreateDirectory("/x".to_string()));
    assert!(busy.accepts(&Event::Made(Ok(()))));
    assert!(!busy.accepts(&Event::Deleted(Ok(()))));
    assert!(!busy.accepts(&Event::Command(AfcCommands::Disconnect)));
}

#[test]
fn progress_reports() {
    assert!(matches!(
        upload_progress("/x".to_string(), 0, 3),
        GuiAfcCommands::UploadProgress(path, 1, 3) if path == "/x"
    ));
    assert!(matches!(
        download_progress("/x".to_string(), 5, 9),
        GuiAfcCommands::DownloadProgress(path, 5, 9) if path == "/x"
    ));
}
