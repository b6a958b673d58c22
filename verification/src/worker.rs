//! The task that works on the device's files, as a machine: it is handed what happened and says
//! what to do next.

use idevice::usbmuxd::UsbmuxdDevice;
use std::path::PathBuf;
use vstd::prelude::*;

use crate::commands::{
    self, AfcCommandModel, AfcCommands, AfcItem, AfcMode, FileInfo, GuiAfcCommands, GuiAfcModel,
    LocalPlace, ModeModel, PlaceModel,
};
use crate::remote_path::{self, file_name, join, Host};
use crate::text::{self, decimal_text, joined, same_text};

verus! {

/// What a directory entry on the host is.
#[derive(Clone, Copy, PartialEq, Eq, Structural, Debug)]
pub enum EntryKind {
    Directory,
    File,
    /// A link, a socket and the like.
    Other,
    /// The host could not tell.
    Unknown,
}

/// An entry of a directory on the host.
#[derive(Debug)]
pub struct LocalEntry {
    pub path: PathBuf,
    pub name: String,
    pub kind: EntryKind,
}

/// What happened.
#[derive(Debug)]
pub enum Event {
    /// A command came.
    Command(AfcCommands),
    /// An attempt to connect ended.
    Connected(Result<(), String>),
    /// A directory on the device was listed.
    Names(Result<Vec<String>, String>),
    /// What the device told of an entry, if it told anything.
    Info(Option<FileInfo>),
    /// A file was downloaded; on success, where to.
    Downloaded(Result<String, String>),
    /// A file was uploaded; on success, under what name it lies on the host.
    Uploaded(Result<String, String>),
    /// A directory on the device was made.
    Made(Result<(), String>),
    /// Something on the device was deleted.
    Deleted(Result<(), String>),
    /// A directory on the host was made; the path as text.
    LocalMade(Result<(), String>, String),
    /// A directory on the host was opened; the path as text.
    LocalOpened(Result<(), String>, String),
    /// The next entry of the directory on the host, if there is one.
    LocalEntry(Option<LocalEntry>),
}

/// The model of [`Event`].
#[verifier::ext_equal]
pub enum EventModel {
    Command(AfcCommandModel),
    Connected(Result<(), Seq<char>>),
    Names(Result<Seq<String>, Seq<char>>),
    Info(Option<FileInfo>),
    Downloaded(Result<Seq<char>, Seq<char>>),
    Uploaded(Result<Seq<char>, Seq<char>>),
    Made(Result<(), Seq<char>>),
    Deleted(Result<(), Seq<char>>),
    LocalMade(Result<(), Seq<char>>, Seq<char>),
    LocalOpened(Result<(), Seq<char>>, Seq<char>),
    LocalEntry(Option<LocalEntry>),
}

/// The model of a result that is nothing but success or an error.
pub open spec fn unit_result(outcome: Result<(), String>) -> Result<(), Seq<char>> {
    match outcome {
        Ok(done) => Ok(done),
        Err(e) => Err(e@),
    }
}

impl View for Event {
    type V = EventModel;

    open spec fn view(&self) -> EventModel {
        match *self {
            Event::Command(command) => EventModel::Command(command@),
            Event::Connected(outcome) => EventModel::Connected(unit_result(outcome)),
            Event::Names(Ok(names)) => EventModel::Names(Ok(names@)),
            Event::Names(Err(e)) => EventModel::Names(Err(e@)),
            Event::Info(info) => EventModel::Info(info),
            Event::Downloaded(outcome) => EventModel::Downloaded(commands::text_result(outcome)),
            Event::Uploaded(outcome) => EventModel::Uploaded(commands::text_result(outcome)),
            Event::Made(outcome) => EventModel::Made(unit_result(outcome)),
            Event::Deleted(outcome) => EventModel::Deleted(unit_result(outcome)),
            Event::LocalMade(outcome, text) => EventModel::LocalMade(unit_result(outcome), text@),
            Event::LocalOpened(outcome, text) => EventModel::LocalOpened(
                unit_result(outcome),
                text@,
            ),
            Event::LocalEntry(entry) => EventModel::LocalEntry(entry),
        }
    }
}

/// What to do next.
#[derive(Debug)]
pub enum Action {
    /// Wait for a command.
    Wait,
    /// Connect to the device.
    Connect(UsbmuxdDevice, AfcMode),
    /// Drop the connection, and wait for a command.
    Disconnect,
    /// List a directory on the device.
    List(String),
    /// Ask the device about a path.
    Inspect(String),
    /// Download a file.
    Download(String, LocalPlace),
    /// Upload a file.
    Upload(PathBuf, String),
    /// Make a directory on the device.
    Make(String),
    /// Delete something on the device, with all that is in it.
    Delete(String),
    /// Make a directory on the host, with those above it.
    MakeLocal(LocalPlace),
    /// Open a directory on the host.
    OpenLocal(PathBuf),
    /// Read the next entry of the directory that was opened.
    NextLocal,
}

/// The model of [`Action`].
#[verifier::ext_equal]
pub enum ActionModel {
    Wait,
    Connect(UsbmuxdDevice, ModeModel),
    Disconnect,
    List(Seq<char>),
    Inspect(Seq<char>),
    Download(Seq<char>, PlaceModel),
    Upload(PathBuf, Seq<char>),
    Make(Seq<char>),
    Delete(Seq<char>),
    MakeLocal(PlaceModel),
    OpenLocal(PathBuf),
    NextLocal,
}

impl View for Action {
    type V = ActionModel;

    open spec fn view(&self) -> ActionModel {
        match *self {
            Action::Wait => ActionModel::Wait,
            Action::Connect(device, mode) => ActionModel::Connect(device, mode@),
            Action::Disconnect => ActionModel::Disconnect,
            Action::List(path) => ActionModel::List(path@),
            Action::Inspect(path) => ActionModel::Inspect(path@),
            Action::Download(remote, local) => ActionModel::Download(remote@, local@),
            Action::Upload(local, remote) => ActionModel::Upload(local, remote@),
            Action::Make(path) => ActionModel::Make(path@),
            Action::Delete(path) => ActionModel::Delete(path@),
            Action::MakeLocal(local) => ActionModel::MakeLocal(local@),
            Action::OpenLocal(local) => ActionModel::OpenLocal(local),
            Action::NextLocal => ActionModel::NextLocal,
        }
    }
}

/// What follows from an event: a command to put at the end of the queue, a report to the screens,
/// and what to do next.
#[derive(Debug)]
pub struct Turn {
    pub queued: Option<AfcCommands>,
    pub report: Option<GuiAfcCommands>,
    pub action: Action,
}

/// The model of [`Turn`].
#[verifier::ext_equal]
pub struct TurnModel {
    pub queued: Option<AfcCommandModel>,
    pub report: Option<GuiAfcModel>,
    pub action: ActionModel,
}

impl View for Turn {
    type V = TurnModel;

    open spec fn view(&self) -> TurnModel {
        TurnModel {
            queued: commands::command_view(self.queued),
            report: match self.report {
                Some(report) => Some(report@),
                None => None,
            },
            action: self.action@,
        }
    }
}

/// What the task is in the middle of.
#[derive(Debug)]
pub enum Job {
    /// Nothing.
    Idle,
    /// Connecting.
    Connect,
    /// Listing a directory for the screens.
    List(String),
    /// Asking about the entries of a listing.
    Inspect(Inspection),
    /// Downloading a file.
    Download(String),
    /// Uploading a file.
    Upload(String),
    /// Making a directory on the device.
    Create(String),
    /// Deleting something on the device.
    Delete(String),
    /// Making the directory on the host into which one of the device is downloaded.
    FetchMake(String, LocalPlace),
    /// Listing the directory to download.
    FetchList(String, LocalPlace),
    /// Asking about the entries of the directory to download.
    FetchEntries(Fetching),
    /// Making the directory on the device into which one of the host is uploaded.
    SendMake(PathBuf, String),
    /// Opening the directory to upload.
    SendOpen(String),
    /// Reading the directory to upload.
    SendEntries(Sending),
}

/// The questions about the entries of a listing.
#[derive(Debug)]
pub struct Inspection {
    pub dir: String,
    pub names: Vec<String>,
    /// The entry that is asked about.
    pub next: usize,
    /// What is known so far.
    pub items: Vec<AfcItem>,
}

/// The questions about the entries of a directory to download.
#[derive(Debug)]
pub struct Fetching {
    pub dir: String,
    /// Where the directory is downloaded to.
    pub local: LocalPlace,
    pub names: Vec<String>,
    /// The entry that is asked about.
    pub next: usize,
}

/// The reading of a directory to upload.
#[derive(Debug)]
pub struct Sending {
    /// The directory on the host, as text.
    pub local: String,
    pub dir: String,
    /// How many entries were read.
    pub count: usize,
}

/// The model of [`Job`].
#[verifier::ext_equal]
pub enum JobModel {
    Idle,
    Connect,
    List(Seq<char>),
    Inspect(InspectionModel),
    Download(Seq<char>),
    Upload(Seq<char>),
    Create(Seq<char>),
    Delete(Seq<char>),
    FetchMake(Seq<char>, PlaceModel),
    FetchList(Seq<char>, PlaceModel),
    FetchEntries(FetchingModel),
    SendMake(PathBuf, Seq<char>),
    SendOpen(Seq<char>),
    SendEntries(SendingModel),
}

/// The model of [`Inspection`].
#[verifier::ext_equal]
pub struct InspectionModel {
    pub dir: Seq<char>,
    pub names: Seq<String>,
    pub next: int,
    pub items: Seq<AfcItem>,
}

/// The model of [`Fetching`].
#[verifier::ext_equal]
pub struct FetchingModel {
    pub dir: Seq<char>,
    pub local: PlaceModel,
    pub names: Seq<String>,
    pub next: int,
}

/// The model of [`Sending`].
#[verifier::ext_equal]
pub struct SendingModel {
    pub local: Seq<char>,
    pub dir: Seq<char>,
    pub count: int,
}

impl View for Job {
    type V = JobModel;

    open spec fn view(&self) -> JobModel {
        match *self {
            Job::Idle => JobModel::Idle,
            Job::Connect => JobModel::Connect,
            Job::List(dir) => JobModel::List(dir@),
            Job::Inspect(inspection) => JobModel::Inspect(inspection.model()),
            Job::Download(remote) => JobModel::Download(remote@),
            Job::Upload(remote) => JobModel::Upload(remote@),
            Job::Create(path) => JobModel::Create(path@),
            Job::Delete(path) => JobModel::Delete(path@),
            Job::FetchMake(dir, local) => JobModel::FetchMake(dir@, local@),
            Job::FetchList(dir, local) => JobModel::FetchList(dir@, local@),
            Job::FetchEntries(fetching) => JobModel::FetchEntries(fetching.model()),
            Job::SendMake(local, dir) => JobModel::SendMake(local, dir@),
            Job::SendOpen(dir) => JobModel::SendOpen(dir@),
            Job::SendEntries(s) => JobModel::SendEntries(
                SendingModel { local: s.local@, dir: s.dir@, count: s.count as int },
            ),
        }
    }
}

/// The task: whose rules hold for paths, whether it has a connection, and what it is in the middle
/// of.
#[derive(Debug)]
pub struct Worker {
    pub host: Host,
    pub connected: bool,
    pub job: Job,
}

/// The model of [`Worker`].
#[verifier::ext_equal]
pub struct WorkerModel {
    pub host: Host,
    pub connected: bool,
    pub job: JobModel,
}

impl View for Worker {
    type V = WorkerModel;

    open spec fn view(&self) -> WorkerModel {
        WorkerModel { host: self.host, connected: self.connected, job: self.job@ }
    }
}

/// Whether a name stands for the directory itself or the one above it.
pub open spec fn is_dots(name: Seq<char>) -> bool {
    name == "."@ || name == ".."@
}

/// The names in a directory that stand for something of its own.
pub open spec fn own_names(names: Seq<String>) -> Seq<String> {
    names.filter(|name: String| !is_dots(name@))
}

/// What is reported of an operation: a text of its own on success, and otherwise the error.
pub open spec fn status(outcome: Result<(), Seq<char>>, done: Seq<char>) -> GuiAfcModel {
    GuiAfcModel::OperationStatus(
        match outcome {
            Ok(_) => Ok(done),
            Err(e) => Err(e),
        },
    )
}

/// What is reported of the download of a file, `outcome` telling where it lies now.
pub open spec fn downloaded_status(
    host: Host,
    remote: Seq<char>,
    outcome: Result<Seq<char>, Seq<char>>,
) -> GuiAfcModel {
    let name = match remote_path::file_name_of(host, remote) {
        Some(name) => name,
        None => seq![],
    };
    GuiAfcModel::OperationStatus(
        match outcome {
            Ok(local) => Ok("Downloaded "@ + name + " to "@ + local),
            Err(e) => Err(e),
        },
    )
}

/// What is reported of the upload of a file, `outcome` telling its name.
pub open spec fn uploaded_status(
    remote: Seq<char>,
    outcome: Result<Seq<char>, Seq<char>>,
) -> GuiAfcModel {
    GuiAfcModel::OperationStatus(
        match outcome {
            Ok(name) => Ok("Uploaded "@ + name + " to "@ + remote),
            Err(e) => Err(e),
        },
    )
}

/// What is reported of a directory that was gone through.
pub open spec fn queued_status(count: nat, dir: Seq<char>) -> GuiAfcModel {
    GuiAfcModel::OperationStatus(Ok("Queued "@ + text::decimal(count) + " items from "@ + dir))
}

/// What is reported of work on a directory that came to nothing.
pub open spec fn failed_status(what: Seq<char>, dir: Seq<char>, e: Seq<char>) -> GuiAfcModel {
    GuiAfcModel::OperationStatus(Err(what + dir + ": "@ + e))
}

/// The command that downloads an entry, a directory as a directory and anything else as a file.
pub open spec fn download_of(
    path: Seq<char>,
    local: PlaceModel,
    info: FileInfo,
) -> AfcCommandModel {
    if info.is_directory() {
        AfcCommandModel::DownloadDirectory(path, local)
    } else {
        AfcCommandModel::DownloadFile(path, local)
    }
}

/// The command that uploads an entry, if it is a directory or a file.
pub open spec fn upload_of(host: Host, dir: Seq<char>, entry: LocalEntry) -> Option<
    AfcCommandModel,
> {
    let remote = remote_path::join_of(host, dir, entry.name@);
    match entry.kind {
        EntryKind::Directory => Some(AfcCommandModel::UploadDirectory(entry.path, remote)),
        EntryKind::File => Some(AfcCommandModel::UploadFile(entry.path, remote)),
        EntryKind::Other => None,
        EntryKind::Unknown => None,
    }
}

impl InspectionModel {
    /// The question about the next entry, or the listing once all were asked about.
    pub open spec fn proceed(self, host: Host) -> (JobModel, TurnModel) {
        if self.next < self.names.len() {
            (
                JobModel::Inspect(self),
                TurnModel {
                    queued: None,
                    report: None,
                    action: ActionModel::Inspect(
                        remote_path::join_of(host, self.dir, self.names[self.next]@),
                    ),
                },
            )
        } else {
            finish(GuiAfcModel::DirectoryListing(Ok(self.items)))
        }
    }

    /// The questions after one was answered: an entry of which the device told nothing is left
    /// out of the listing.
    pub open spec fn answered(self, info: Option<FileInfo>) -> InspectionModel {
        InspectionModel {
            next: self.next + 1,
            items: match info {
                Some(info) => self.items.push(AfcItem { name: self.names[self.next], info }),
                None => self.items,
            },
            ..self
        }
    }
}

impl FetchingModel {
    /// The question about the next entry, or the report once all were asked about.
    pub open spec fn proceed(self, host: Host, queued: Option<AfcCommandModel>) -> (
        JobModel,
        TurnModel,
    ) {
        if self.next < self.names.len() {
            (
                JobModel::FetchEntries(self),
                TurnModel {
                    queued,
                    report: None,
                    action: ActionModel::Inspect(
                        remote_path::join_of(host, self.dir, self.names[self.next]@),
                    ),
                },
            )
        } else {
            (
                JobModel::Idle,
                TurnModel {
                    queued,
                    report: Some(queued_status(self.names.len(), self.dir)),
                    action: ActionModel::Wait,
                },
            )
        }
    }

    /// The command for the entry that was asked about, if the device told anything of it: what has
    /// a name on the device gets that name on the host.
    pub open spec fn queued(self, host: Host, info: Option<FileInfo>) -> Option<AfcCommandModel> {
        let name = self.names[self.next]@;
        match info {
            Some(info) => Some(
                download_of(
                    remote_path::join_of(host, self.dir, name),
                    self.local.child(name),
                    info,
                ),
            ),
            None => None,
        }
    }
}

/// The end of a job: a report, and the wait for the next command.
pub open spec fn finish(report: GuiAfcModel) -> (JobModel, TurnModel) {
    (
        JobModel::Idle,
        TurnModel { queued: None, report: Some(report), action: ActionModel::Wait },
    )
}

/// A job that goes on with an action.
pub open spec fn go_on(job: JobModel, action: ActionModel) -> (JobModel, TurnModel) {
    (job, TurnModel { queued: None, report: None, action })
}

impl WorkerModel {
    /// Whether an event is one that the task waits for.
    pub open spec fn awaits(self, event: EventModel) -> bool {
        match event {
            EventModel::Command(_) => self.job is Idle,
            EventModel::Connected(_) => self.job is Connect,
            EventModel::Names(_) => self.job is List || self.job is FetchList,
            EventModel::Info(_) => match self.job {
                JobModel::Inspect(i) => 0 <= i.next < i.names.len(),
                JobModel::FetchEntries(f) => 0 <= f.next < f.names.len(),
                _ => false,
            },
            EventModel::Downloaded(_) => self.job is Download,
            EventModel::Uploaded(_) => self.job is Upload,
            EventModel::Made(_) => self.job is Create || self.job is SendMake,
            EventModel::Deleted(_) => self.job is Delete,
            EventModel::LocalMade(_, _) => self.job is FetchMake,
            EventModel::LocalOpened(_, _) => self.job is SendOpen,
            EventModel::LocalEntry(entry) => self.job matches JobModel::SendEntries(s) && (
            entry is Some ==> s.count < usize::MAX),
        }
    }

    /// Whether a command is one that is carried out: without a connection there is nothing to do
    /// but to make one, or to drop it.
    pub open spec fn carries_out(self, command: AfcCommandModel) -> bool {
        self.connected || command is Connect || command is Disconnect
    }

    /// How a command starts.
    pub open spec fn started(self, command: AfcCommandModel) -> (JobModel, TurnModel) {
        if !self.carries_out(command) {
            go_on(JobModel::Idle, ActionModel::Wait)
        } else {
            match command {
                AfcCommandModel::Connect(device, mode) => go_on(
                    JobModel::Connect,
                    ActionModel::Connect(device, mode),
                ),
                AfcCommandModel::Disconnect => go_on(JobModel::Idle, ActionModel::Disconnect),
                AfcCommandModel::ListDirectory(path) => go_on(
                    JobModel::List(path),
                    ActionModel::List(path),
                ),
                AfcCommandModel::DownloadFile(remote, local) => go_on(
                    JobModel::Download(remote),
                    ActionModel::Download(remote, local),
                ),
                AfcCommandModel::UploadFile(local, remote) => go_on(
                    JobModel::Upload(remote),
                    ActionModel::Upload(local, remote),
                ),
                AfcCommandModel::CreateDirectory(path) => go_on(
                    JobModel::Create(path),
                    ActionModel::Make(path),
                ),
                AfcCommandModel::DeletePath(path) => go_on(
                    JobModel::Delete(path),
                    ActionModel::Delete(path),
                ),
                AfcCommandModel::DownloadDirectory(dir, local) => go_on(
                    JobModel::FetchMake(dir, local),
                    ActionModel::MakeLocal(local),
                ),
                AfcCommandModel::UploadDirectory(local, dir) => go_on(
                    JobModel::SendMake(local, dir),
                    ActionModel::Make(dir),
                ),
            }
        }
    }

    /// How a job goes on after an event that it waits for.
    pub open spec fn advanced(self, event: EventModel) -> (JobModel, TurnModel) {
        match (self.job, event) {
            (JobModel::Idle, EventModel::Command(command)) => self.started(command),
            (JobModel::Connect, EventModel::Connected(outcome)) => finish(
                GuiAfcModel::ConnectionStatus(outcome),
            ),
            (JobModel::List(dir), EventModel::Names(outcome)) => match outcome {
                Ok(names) => InspectionModel {
                    dir,
                    names: own_names(names),
                    next: 0,
                    items: seq![],
                }.proceed(self.host),
                Err(e) => finish(GuiAfcModel::DirectoryListing(Err(e))),
            },
            (JobModel::Inspect(i), EventModel::Info(info)) => i.answered(info).proceed(
                self.host,
            ),
            (JobModel::Download(remote), EventModel::Downloaded(outcome)) => finish(
                downloaded_status(self.host, remote, outcome),
            ),
            (JobModel::Upload(remote), EventModel::Uploaded(outcome)) => finish(
                uploaded_status(remote, outcome),
            ),
            (JobModel::Create(path), EventModel::Made(outcome)) => finish(
                status(outcome, "Created directory: "@ + path),
            ),
            (JobModel::Delete(path), EventModel::Deleted(outcome)) => finish(
                status(outcome, "Deleted: "@ + path),
            ),
            (JobModel::FetchMake(dir, local), EventModel::LocalMade(outcome, text)) => match outcome {
                Ok(_) => go_on(JobModel::FetchList(dir, local), ActionModel::List(dir)),
                Err(e) => finish(failed_status("Failed to create local directory "@, text, e)),
            },
            (JobModel::FetchList(dir, local), EventModel::Names(outcome)) => match outcome {
                Ok(names) => FetchingModel {
                    dir,
                    local,
                    names: own_names(names),
                    next: 0,
                }.proceed(self.host, None),
                Err(e) => finish(failed_status("Failed to list directory "@, dir, e)),
            },
            (JobModel::FetchEntries(f), EventModel::Info(info)) => FetchingModel {
                next: f.next + 1,
                ..f
            }.proceed(self.host, f.queued(self.host, info)),
            (JobModel::SendMake(local, dir), EventModel::Made(outcome)) => match outcome {
                Ok(_) => go_on(JobModel::SendOpen(dir), ActionModel::OpenLocal(local)),
                Err(e) => finish(failed_status("Failed to create remote directory "@, dir, e)),
            },
            (JobModel::SendOpen(dir), EventModel::LocalOpened(outcome, text)) => match outcome {
                Ok(_) => go_on(
                    JobModel::SendEntries(SendingModel { local: text, dir, count: 0 }),
                    ActionModel::NextLocal,
                ),
                Err(e) => finish(failed_status("Failed to read local directory "@, text, e)),
            },
            (JobModel::SendEntries(s), EventModel::LocalEntry(entry)) => match entry {
                Some(entry) => (
                    JobModel::SendEntries(SendingModel { count: s.count + 1, ..s }),
                    TurnModel {
                        queued: upload_of(self.host, s.dir, entry),
                        report: None,
                        action: ActionModel::NextLocal,
                    },
                ),
                None => finish(queued_status(s.count as nat, s.local)),
            },
            _ => go_on(self.job, ActionModel::Wait),
        }
    }

    /// Whether there is a connection after an event: a failed attempt leaves an earlier one as it
    /// is.
    pub open spec fn connected_after(self, event: EventModel) -> bool {
        match event {
            EventModel::Connected(outcome) => self.connected || outcome is Ok,
            EventModel::Command(AfcCommandModel::Disconnect) => false,
            _ => self.connected,
        }
    }

    /// The task after an event that it waits for.
    pub open spec fn after(self, event: EventModel) -> WorkerModel {
        WorkerModel {
            host: self.host,
            connected: self.connected_after(event),
            job: self.advanced(event).0,
        }
    }

    /// What follows from an event that the task waits for.
    pub open spec fn turn(self, event: EventModel) -> TurnModel {
        self.advanced(event).1
    }
}

/// Keeps the names that stand for something of the directory's own.
fn keep_own_names(names: Vec<String>) -> (own: Vec<String>)
    ensures
        own@ == own_names(names@),
{
    let mut own: Vec<String> = Vec::new();
    let ghost all = names@;
    let ghost pred = |name: String| !is_dots(name@);
    proof {
        reveal(Seq::filter);
        assert(all.take(0).filter(pred) =~= seq![]);
    }
    for name in iter: names
        invariant
            iter.seq() == all,
            pred == (|name: String| !is_dots(name@)),
            own@ == all.take(iter.index()).filter(pred),
    {
        proof {
            let i = iter.index();
            reveal(Seq::filter);
            assert(all.take(i + 1).drop_last() =~= all.take(i));
            assert(all.take(i + 1).last() == name);
        }
        if !same_text(name.as_str(), ".") && !same_text(name.as_str(), "..") {
            own.push(name);
        }
    }
    proof {
        assert(all.take(all.len() as int) =~= all);
    }
    own
}

/// Puts two texts between others.
fn phrase(start: &str, first: &str, middle: &str, second: &str) -> (text: String)
    ensures
        text@ == start@ + first@ + middle@ + second@,
{
    let mut text = joined(start, first);
    text.append(middle);
    text.append(second);
    text
}

/// Ends a job with a report.
fn finished(host: Host, connected: bool, report: GuiAfcCommands) -> (next: (Worker, Turn))
    ensures
        next.0@ == (WorkerModel { host, connected, job: JobModel::Idle }),
        (next.0@.job, next.1@) == finish(report@),
{
    (
        Worker { host, connected, job: Job::Idle },
        Turn { queued: None, report: Some(report), action: Action::Wait },
    )
}

/// Goes on with a job by an action.
fn going_on(host: Host, connected: bool, job: Job, action: Action) -> (next: (Worker, Turn))
    ensures
        next.0@.host == host,
        next.0@.connected == connected,
        (next.0@.job, next.1@) == go_on(job@, action@),
{
    (Worker { host, connected, job }, Turn { queued: None, report: None, action })
}

/// Ends a job with a report on an operation.
fn finished_operation(host: Host, connected: bool, result: Result<String, String>) -> (next: (
    Worker,
    Turn,
))
    ensures
        next.0@.host == host,
        next.0@.connected == connected,
        (next.0@.job, next.1@) == finish(
            GuiAfcModel::OperationStatus(commands::text_result(result)),
        ),
{
    finished(host, connected, GuiAfcCommands::OperationStatus(result))
}

impl Inspection {
    /// The model of the questions.
    pub open spec fn model(self) -> InspectionModel {
        InspectionModel {
            dir: self.dir@,
            names: self.names@,
            next: self.next as int,
            items: self.items@,
        }
    }

    /// Asks about the next entry, or reports the listing.
    fn proceed(self, host: Host, connected: bool) -> (next: (Worker, Turn))
        ensures
            next.0@.host == host,
            next.0@.connected == connected,
            (next.0@.job, next.1@) == self.model().proceed(host),
    {
        if self.next < self.names.len() {
            let path = join(host, self.dir.as_str(), self.names[self.next].as_str());
            going_on(host, connected, Job::Inspect(self), Action::Inspect(path))
        } else {
            finished(host, connected, GuiAfcCommands::DirectoryListing(Ok(self.items)))
        }
    }

    /// Takes in what the device told of the entry that was asked about.
    fn answer(self, info: Option<FileInfo>) -> (next: Inspection)
        requires
            self.next < self.names@.len(),
        ensures
            next.model() == self.model().answered(info),
    {
        proof {
            assert(self.next < self.names.len());
        }
        let mut items = self.items;
        match info {
            Some(info) => {
                items.push(AfcItem { name: self.names[self.next].clone(), info });
            },
            None => {},
        }
        Inspection { dir: self.dir, next: self.next + 1, names: self.names, items }
    }
}

impl Fetching {
    /// The model of the questions.
    pub open spec fn model(self) -> FetchingModel {
        FetchingModel {
            dir: self.dir@,
            local: self.local@,
            names: self.names@,
            next: self.next as int,
        }
    }

    /// Asks about the next entry, or reports how many there were.
    fn proceed(self, host: Host, connected: bool, queued: Option<AfcCommands>) -> (next: (
        Worker,
        Turn,
    ))
        ensures
            next.0@.host == host,
            next.0@.connected == connected,
            (next.0@.job, next.1@) == self.model().proceed(
                host,
                commands::command_view(queued),
            ),
    {
        if self.next < self.names.len() {
            let path = join(host, self.dir.as_str(), self.names[self.next].as_str());
            (
                Worker { host, connected, job: Job::FetchEntries(self) },
                Turn { queued, report: None, action: Action::Inspect(path) },
            )
        } else {
            let count = decimal_text(self.names.len() as u128);
            let done = phrase("Queued ", count.as_str(), " items from ", self.dir.as_str());
            (
                Worker { host, connected, job: Job::Idle },
                Turn {
                    queued,
                    report: Some(GuiAfcCommands::OperationStatus(Ok(done))),
                    action: Action::Wait,
                },
            )
        }
    }

    /// The command for the entry that was asked about.
    fn command(&self, host: Host, info: Option<FileInfo>) -> (queued: Option<AfcCommands>)
        requires
            self.next < self.names@.len(),
        ensures
            commands::command_view(queued) == self.model().queued(host, info),
    {
        match info {
            Some(info) => {
                let name = self.names[self.next].as_str();
                let path = join(host, self.dir.as_str(), name);
                let local = self.local.child(name);
                if info.is_dir() {
                    Some(AfcCommands::DownloadDirectory(path, local))
                } else {
                    Some(AfcCommands::DownloadFile(path, local))
                }
            },
            None => None,
        }
    }
}

/// The command that uploads an entry of the host into a directory on the device.
fn upload_command(host: Host, dir: &str, entry: LocalEntry) -> (queued: Option<AfcCommands>)
    ensures
        commands::command_view(queued) == upload_of(host, dir@, entry),
{
    let remote = join(host, dir, entry.name.as_str());
    match entry.kind {
        EntryKind::Directory => Some(AfcCommands::UploadDirectory(entry.path, remote)),
        EntryKind::File => Some(AfcCommands::UploadFile(entry.path, remote)),
        EntryKind::Other => None,
        EntryKind::Unknown => None,
    }
}

impl Worker {
    /// The task at the start.
    pub fn new(host: Host) -> (worker: Worker)
        ensures
            worker@ == (WorkerModel { host, connected: false, job: JobModel::Idle }),
    {
        Worker { host, connected: false, job: Job::Idle }
    }

    /// Starts on a command.
    fn start(host: Host, connected: bool, command: AfcCommands) -> (next: (Worker, Turn))
        ensures
            next.0@.host == host,
            next.0@.connected == (connected && !(command is Disconnect)),
            (next.0@.job, next.1@) == (WorkerModel {
                host,
                connected,
                job: JobModel::Idle,
            }).started(command@),
    {
        match command {
            AfcCommands::Connect(device, mode) => going_on(
                host,
                connected,
                Job::Connect,
                Action::Connect(device, mode),
            ),
            AfcCommands::Disconnect => going_on(host, false, Job::Idle, Action::Disconnect),
            _ if !connected => going_on(host, connected, Job::Idle, Action::Wait),
            AfcCommands::ListDirectory(path) => going_on(
                host,
                connected,
                Job::List(path.clone()),
                Action::List(path),
            ),
            AfcCommands::DownloadFile(remote, local) => going_on(
                host,
                connected,
                Job::Download(remote.clone()),
                Action::Download(remote, local),
            ),
            AfcCommands::UploadFile(local, remote) => going_on(
                host,
                connected,
                Job::Upload(remote.clone()),
                Action::Upload(local, remote),
            ),
            AfcCommands::CreateDirectory(path) => going_on(
                host,
                connected,
                Job::Create(path.clone()),
                Action::Make(path),
            ),
            AfcCommands::DeletePath(path) => going_on(
                host,
                connected,
                Job::Delete(path.clone()),
                Action::Delete(path),
            ),
            AfcCommands::DownloadDirectory(dir, local) => going_on(
                host,
                connected,
                Job::FetchMake(dir, local.clone()),
                Action::MakeLocal(local),
            ),
            AfcCommands::UploadDirectory(local, dir) => going_on(
                host,
                connected,
                Job::SendMake(local, dir.clone()),
                Action::Make(dir),
            ),
        }
    }

    /// Tells whether an event is one that the task waits for.
    pub fn accepts(&self, event: &Event) -> (accepted: bool)
        ensures
            accepted == self@.awaits(event@),
    {
        match (&self.job, event) {
            (Job::Idle, Event::Command(_)) => true,
            (Job::Connect, Event::Connected(_)) => true,
            (Job::List(_), Event::Names(_)) => true,
            (Job::Inspect(inspection), Event::Info(_)) => inspection.next < inspection.names.len(),
            (Job::Download(_), Event::Downloaded(_)) => true,
            (Job::Upload(_), Event::Uploaded(_)) => true,
            (Job::Create(_), Event::Made(_)) => true,
            (Job::Delete(_), Event::Deleted(_)) => true,
            (Job::FetchMake(_, _), Event::LocalMade(_, _)) => true,
            (Job::FetchList(_, _), Event::Names(_)) => true,
            (Job::FetchEntries(fetching), Event::Info(_)) => fetching.next < fetching.names.len(),
            (Job::SendMake(_, _), Event::Made(_)) => true,
            (Job::SendOpen(_), Event::LocalOpened(_, _)) => true,
            (Job::SendEntries(sending), Event::LocalEntry(entry)) => entry.is_none()
                || sending.count < usize::MAX,
            _ => false,
        }
    }

    /// Takes in an event that the task waits for, and says what follows.
    pub fn step(self, event: Event) -> (next: (Worker, Turn))
        requires
            self@.awaits(event@),
        ensures
            next.0@ == self@.after(event@),
            next.1@ == self@.turn(event@),
    {
        let host = self.host;
        let connected = self.connected;
        match (self.job, event) {
            (Job::Idle, Event::Command(command)) => Self::start(host, connected, command),
            (Job::Connect, Event::Connected(outcome)) => finished(
                host,
                connected || outcome.is_ok(),
                GuiAfcCommands::ConnectionStatus(outcome),
            ),
            (Job::List(dir), Event::Names(outcome)) => match outcome {
                Ok(names) => Inspection {
                    dir,
                    names: keep_own_names(names),
                    next: 0,
                    items: Vec::new(),
                }.proceed(host, connected),
                Err(e) => finished(host, connected, GuiAfcCommands::DirectoryListing(Err(e))),
            },
            (Job::Inspect(inspection), Event::Info(info)) => inspection.answer(info).proceed(
                host,
                connected,
            ),
            (Job::Download(remote), Event::Downloaded(outcome)) => {
                let result = match outcome {
                    Ok(local) => {
                        let name = match file_name(host, remote.as_str()) {
                            Some(name) => name,
                            None => String::new(),
                        };
                        Ok(phrase("Downloaded ", name.as_str(), " to ", local.as_str()))
                    },
                    Err(e) => Err(e),
                };
                finished_operation(host, connected, result)
            },
            (Job::Upload(remote), Event::Uploaded(outcome)) => {
                let result = match outcome {
                    Ok(name) => Ok(phrase("Uploaded ", name.as_str(), " to ", remote.as_str())),
                    Err(e) => Err(e),
                };
                finished_operation(host, connected, result)
            },
            (Job::Create(path), Event::Made(outcome)) => {
                let result = match outcome {
                    Ok(_) => Ok(joined("Created directory: ", path.as_str())),
                    Err(e) => Err(e),
                };
                finished_operation(host, connected, result)
            },
            (Job::Delete(path), Event::Deleted(outcome)) => {
                let result = match outcome {
                    Ok(_) => Ok(joined("Deleted: ", path.as_str())),
                    Err(e) => Err(e),
                };
                finished_operation(host, connected, result)
            },
            (Job::FetchMake(dir, local), Event::LocalMade(outcome, text)) => match outcome {
                Ok(_) => going_on(
                    host,
                    connected,
                    Job::FetchList(dir.clone(), local),
                    Action::List(dir),
                ),
                Err(e) => finished_operation(
                    host,
                    connected,
                    Err(
                        phrase(
                            "Failed to create local directory ",
                            text.as_str(),
                            ": ",
                            e.as_str(),
                        ),
                    ),
                ),
            },
            (Job::FetchList(dir, local), Event::Names(outcome)) => match outcome {
                Ok(names) => Fetching {
                    dir,
                    local,
                    names: keep_own_names(names),
                    next: 0,
                }.proceed(host, connected, None),
                Err(e) => finished_operation(
                    host,
                    connected,
                    Err(phrase("Failed to list directory ", dir.as_str(), ": ", e.as_str())),
                ),
            },
            (Job::FetchEntries(fetching), Event::Info(info)) => {
                proof {
                    assert(fetching.next < fetching.names.len());
                }
                let queued = fetching.command(host, info);
                Fetching {
                    dir: fetching.dir,
                    local: fetching.local,
                    next: fetching.next + 1,
                    names: fetching.names,
                }.proceed(host, connected, queued)
            },
            (Job::SendMake(local, dir), Event::Made(outcome)) => match outcome {
                Ok(_) => going_on(host, connected, Job::SendOpen(dir), Action::OpenLocal(local)),
                Err(e) => finished_operation(
                    host,
                    connected,
                    Err(
                        phrase(
                            "Failed to create remote directory ",
                            dir.as_str(),
                            ": ",
                            e.as_str(),
                        ),
                    ),
                ),
            },
            (Job::SendOpen(dir), Event::LocalOpened(outcome, text)) => match outcome {
                Ok(_) => going_on(
                    host,
                    connected,
                    Job::SendEntries(Sending { local: text, dir, count: 0 }),
                    Action::NextLocal,
                ),
                Err(e) => finished_operation(
                    host,
                    connected,
                    Err(
                        phrase(
                            "Failed to read local directory ",
                            text.as_str(),
                            ": ",
                            e.as_str(),
                        ),
                    ),
                ),
            },
            (Job::SendEntries(sending), Event::LocalEntry(entry)) => match entry {
                Some(entry) => {
                    let queued = upload_command(host, sending.dir.as_str(), entry);
                    (
                        Worker {
                            host,
                            connected,
                            job: Job::SendEntries(
                                Sending {
                                    local: sending.local,
                                    dir: sending.dir,
                                    count: sending.count + 1,
                                },
                            ),
                        },
                        Turn { queued, report: None, action: Action::NextLocal },
                    )
                },
                None => {
                    let count = decimal_text(sending.count as u128);
                    let done = phrase(
                        "Queued ",
                        count.as_str(),
                        " items from ",
                        sending.local.as_str(),
                    );
                    finished_operation(host, connected, Ok(done))
                },
            },
            (job, _) => going_on(host, connected, job, Action::Wait),
        }
    }
}

/// Reports that a part of a file was uploaded. Parts are counted from zero.
pub fn upload_progress(path: String, part: usize, total: usize) -> (report: GuiAfcCommands)
    requires
        part < usize::MAX,
    ensures
        report@ == GuiAfcModel::UploadProgress(path@, (part + 1) as usize, total),
{
    GuiAfcCommands::UploadProgress(path, part + 1, total)
}

/// Reports how much of a file was downloaded.
pub fn download_progress(path: String, done: usize, total: usize) -> (report: GuiAfcCommands)
    ensures
        report@ == GuiAfcModel::DownloadProgress(path@, done, total),
{
    GuiAfcCommands::DownloadProgress(path, done, total)
}

} // verus!
