//! What the task that works on files does about every command and every outcome, said with the
//! paths, places and texts written out.

use idevice::usbmuxd::UsbmuxdDevice;
use std::path::PathBuf;
use vstd::prelude::*;

use crate::commands::{
    AfcCommandModel, AfcCommands, AfcItem, FileInfo, GuiAfcModel, LocalPlace, ModeModel, PlaceModel,
};
use crate::remote_path;
use crate::worker::{
    self, Action, ActionModel, EntryKind, Event, EventModel, FetchingModel, InspectionModel, Job,
    JobModel, LocalEntry, SendingModel, Turn, TurnModel, Worker, WorkerModel,
};

verus! {

/// Law: the place of a name in a place has the same base, and one name more, which is that name
/// behind all the names that were there.
pub proof fn a_child_lies_one_name_deeper(place: PlaceModel, name: Seq<char>)
    ensures
        place.child(name).base == place.base,
        place.child(name).below.len() == place.below.len() + 1,
        place.child(name).below.drop_last() == place.below,
        place.child(name).below.last() == name,
{
    assert(place.child(name).below.drop_last() =~= place.below);
}

/// Law: different names and different directories have different places.
pub proof fn children_of_different_places_differ(
    one: PlaceModel,
    first: Seq<char>,
    other: PlaceModel,
    second: Seq<char>,
)
    requires
        one.child(first) == other.child(second),
    ensures
        one == other,
        first == second,
{
    a_child_lies_one_name_deeper(one, first);
    a_child_lies_one_name_deeper(other, second);
}

/// The place that a row of names leads to.
pub open spec fn descendant(place: PlaceModel, names: Seq<Seq<char>>) -> PlaceModel
    decreases names.len(),
{
    if names.len() == 0 {
        place
    } else {
        descendant(place, names.drop_last()).child(names.last())
    }
}

/// Law: at any depth a place holds the base and all the names on the way, in their order.
pub proof fn places_hold_the_whole_way(place: PlaceModel, names: Seq<Seq<char>>)
    ensures
        descendant(place, names).base == place.base,
        descendant(place, names).below == place.below + names,
    decreases names.len(),
{
    if names.len() > 0 {
        places_hold_the_whole_way(place, names.drop_last());
        a_child_lies_one_name_deeper(descendant(place, names.drop_last()), names.last());
        let below = descendant(place, names).below;
        assert(below =~= below.drop_last().push(below.last()));
        assert(below =~= place.below + names);
    } else {
        assert(place.below + names =~= place.below);
    }
}

/// Law: a path is a place without further names.
pub proof fn a_path_is_a_place(base: PathBuf)
    ensures
        PlaceModel::at(base).base == base,
        PlaceModel::at(base).below.len() == 0,
{
}

/// Law: the model of a place is the place, name by name.
pub proof fn places_are_their_models(place: LocalPlace, i: int)
    ensures
        place@.base == place.base,
        place@.below.len() == place.below@.len(),
        0 <= i < place.below@.len() ==> place@.below[i] == place.below@[i]@,
{
}

/// Law: the names of a directory that count are all but the two texts `.` and `..`, in their order.
pub proof fn all_names_count_but_dots(names: Seq<String>)
    ensures
        worker::own_names(names) == names.filter(
            |name: String| name@ != seq!['.'] && name@ != seq!['.', '.'],
        ),
        forall|name: String|
            names.contains(name) && name@ != seq!['.'] && name@ != seq!['.', '.']
                ==> #[trigger] worker::own_names(names).contains(name),
        forall|name: String| #[trigger]
            worker::own_names(names).contains(name) ==> names.contains(name) && name@ != seq!['.']
                && name@ != seq!['.', '.'],
{
    broadcast use vstd::seq_lib::group_filter_ensures;

    let kept = |name: String| !worker::is_dots(name@);
    let direct = |name: String| name@ != seq!['.'] && name@ != seq!['.', '.'];
    reveal_strlit(".");
    reveal_strlit("..");
    assert("."@ =~= seq!['.']);
    assert(".."@ =~= seq!['.', '.']);
    assert forall|name: String| #[trigger] kept(name) == direct(name) by {}
    assert(kept =~= direct);
    let own = worker::own_names(names);
    assert(own == names.filter(direct));
    assert forall|name: String|
        names.contains(name) && name@ != seq!['.'] && name@ != seq!['.', '.'] implies #[trigger]
    own.contains(name) by {
        let k = choose|k: int| 0 <= k < names.len() && names[k] == name;
        assert(direct(names[k]));
        assert(names.filter(direct).contains(names[k]));
    }
    assert forall|name: String| #[trigger] own.contains(name) implies names.contains(name)
        && name@ != seq!['.'] && name@ != seq!['.', '.'] by {
        names.lemma_filter_contains_rev(direct, name);
        let k = choose|k: int| 0 <= k < own.len() && own[k] == name;
        assert(direct(own[k]));
    }
}

/// Law: a file is a directory where the device says `S_IFDIR`.
pub proof fn directories_are_told_by_the_device(info: FileInfo)
    ensures
        info.is_directory() <==> info.st_ifmt@ == "S_IFDIR"@,
{
}

/// What follows where there is nothing to queue and nothing to report.
pub open spec fn only(action: ActionModel) -> TurnModel {
    TurnModel { queued: None, report: None, action }
}

/// What follows from the end of an operation.
pub open spec fn told(result: Result<Seq<char>, Seq<char>>) -> TurnModel {
    TurnModel {
        queued: None,
        report: Some(GuiAfcModel::OperationStatus(result)),
        action: ActionModel::Wait,
    }
}

/// Law: a connection is made and dropped when it is asked for, connected or not, and an outcome is
/// told; only a success makes a connection where there was none.
pub proof fn connections_are_made_and_dropped(
    worker: WorkerModel,
    device: UsbmuxdDevice,
    mode: ModeModel,
    outcome: Result<(), Seq<char>>,
)
    requires
        worker.job is Idle,
    ensures
        ({
            let connect = EventModel::Command(AfcCommandModel::Connect(device, mode));
            let drop = EventModel::Command(AfcCommandModel::Disconnect);
            let trying = worker.after(connect);
            &&& worker.turn(connect) == only(ActionModel::Connect(device, mode))
            &&& trying == (WorkerModel { job: JobModel::Connect, ..worker })
            &&& trying.turn(EventModel::Connected(outcome)) == (TurnModel {
                queued: None,
                report: Some(GuiAfcModel::ConnectionStatus(outcome)),
                action: ActionModel::Wait,
            })
            &&& trying.after(EventModel::Connected(outcome)) == (WorkerModel {
                connected: worker.connected || outcome is Ok,
                ..worker
            })
            &&& worker.turn(drop) == only(ActionModel::Disconnect)
            &&& worker.after(drop) == (WorkerModel { connected: false, ..worker })
        }),
{
}

/// Law: with a connection a command starts with the first thing to be done for it, on the very
/// paths that it names.
pub proof fn commands_start_on_their_paths(
    worker: WorkerModel,
    path: Seq<char>,
    place: PlaceModel,
    local: PathBuf,
)
    requires
        worker.job is Idle,
        worker.connected,
    ensures
        worker.turn(EventModel::Command(AfcCommandModel::ListDirectory(path))) == only(
            ActionModel::List(path),
        ),
        worker.turn(EventModel::Command(AfcCommandModel::DownloadFile(path, place))) == only(
            ActionModel::Download(path, place),
        ),
        worker.turn(EventModel::Command(AfcCommandModel::UploadFile(local, path))) == only(
            ActionModel::Upload(local, path),
        ),
        worker.turn(EventModel::Command(AfcCommandModel::CreateDirectory(path))) == only(
            ActionModel::Make(path),
        ),
        worker.turn(EventModel::Command(AfcCommandModel::DeletePath(path))) == only(
            ActionModel::Delete(path),
        ),
        worker.turn(EventModel::Command(AfcCommandModel::DownloadDirectory(path, place))) == only(
            ActionModel::MakeLocal(place),
        ),
        worker.turn(EventModel::Command(AfcCommandModel::UploadDirectory(local, path))) == only(
            ActionModel::Make(path),
        ),
{
}

/// Law: the outcome of a single operation is told in words that name what it was about, and ends
/// it; the connection stays as it was.
pub proof fn operations_are_told_with_their_paths(
    worker: WorkerModel,
    path: Seq<char>,
    place: PlaceModel,
    local: PathBuf,
    text: Seq<char>,
    e: Seq<char>,
)
    requires
        worker.job is Idle,
        worker.connected,
    ensures
        ({
            let fetching = worker.after(
                EventModel::Command(AfcCommandModel::DownloadFile(path, place)),
            );
            let name = match remote_path::file_name_of(worker.host, path) {
                Some(name) => name,
                None => Seq::<char>::empty(),
            };
            &&& fetching.turn(EventModel::Downloaded(Ok(text))) == told(
                Ok("Downloaded "@ + name + " to "@ + text),
            )
            &&& fetching.turn(EventModel::Downloaded(Err(e))) == told(Err(e))
            &&& fetching.after(EventModel::Downloaded(Ok(text))) == worker
            &&& fetching.after(EventModel::Downloaded(Err(e))) == worker
        }),
        ({
            let sending = worker.after(
                EventModel::Command(AfcCommandModel::UploadFile(local, path)),
            );
            &&& sending.turn(EventModel::Uploaded(Ok(text))) == told(
                Ok("Uploaded "@ + text + " to "@ + path),
            )
            &&& sending.turn(EventModel::Uploaded(Err(e))) == told(Err(e))
            &&& sending.after(EventModel::Uploaded(Ok(text))) == worker
            &&& sending.after(EventModel::Uploaded(Err(e))) == worker
        }),
        ({
            let making = worker.after(EventModel::Command(AfcCommandModel::CreateDirectory(path)));
            &&& making.turn(EventModel::Made(Ok(()))) == told(Ok("Created directory: "@ + path))
            &&& making.turn(EventModel::Made(Err(e))) == told(Err(e))
            &&& making.after(EventModel::Made(Ok(()))) == worker
            &&& making.after(EventModel::Made(Err(e))) == worker
        }),
        ({
            let deleting = worker.after(EventModel::Command(AfcCommandModel::DeletePath(path)));
            &&& deleting.turn(EventModel::Deleted(Ok(()))) == told(Ok("Deleted: "@ + path))
            &&& deleting.turn(EventModel::Deleted(Err(e))) == told(Err(e))
            &&& deleting.after(EventModel::Deleted(Ok(()))) == worker
            &&& deleting.after(EventModel::Deleted(Err(e))) == worker
        }),
{
}

/// Law: a listing that fails is told with its error.
pub proof fn failed_listings_are_told(worker: WorkerModel, path: Seq<char>, e: Seq<char>)
    requires
        worker.job is Idle,
        worker.connected,
    ensures
        ({
            let listing = worker.after(EventModel::Command(AfcCommandModel::ListDirectory(path)));
            &&& listing.turn(EventModel::Names(Err(e))) == (TurnModel {
                queued: None,
                report: Some(GuiAfcModel::DirectoryListing(Err(e))),
                action: ActionModel::Wait,
            })
            &&& listing.after(EventModel::Names(Err(e))) == worker
        }),
{
}

/// Law: the download of a directory makes its place on the host, lists it, and tells what fails of
/// the two.
pub proof fn directories_to_download_are_made_and_listed(
    worker: WorkerModel,
    dir: Seq<char>,
    place: PlaceModel,
    text: Seq<char>,
    e: Seq<char>,
)
    requires
        worker.job is Idle,
        worker.connected,
    ensures
        ({
            let making = worker.after(
                EventModel::Command(AfcCommandModel::DownloadDirectory(dir, place)),
            );
            let listing = making.after(EventModel::LocalMade(Ok(()), text));
            &&& making.turn(EventModel::LocalMade(Ok(()), text)) == only(ActionModel::List(dir))
            &&& listing == (WorkerModel { job: JobModel::FetchList(dir, place), ..worker })
            &&& making.turn(EventModel::LocalMade(Err(e), text)) == told(
                Err("Failed to create local directory "@ + text + ": "@ + e),
            )
            &&& making.after(EventModel::LocalMade(Err(e), text)) == worker
            &&& listing.turn(EventModel::Names(Err(e))) == told(
                Err("Failed to list directory "@ + dir + ": "@ + e),
            )
            &&& listing.after(EventModel::Names(Err(e))) == worker
        }),
{
}

/// Law: the upload of a directory makes it on the device, opens that of the host, and tells what
/// fails of the two.
pub proof fn directories_to_upload_are_made_and_opened(
    worker: WorkerModel,
    dir: Seq<char>,
    local: PathBuf,
    text: Seq<char>,
    e: Seq<char>,
)
    requires
        worker.job is Idle,
        worker.connected,
    ensures
        ({
            let making = worker.after(
                EventModel::Command(AfcCommandModel::UploadDirectory(local, dir)),
            );
            let opening = making.after(EventModel::Made(Ok(())));
            let reading = opening.after(EventModel::LocalOpened(Ok(()), text));
            &&& making.turn(EventModel::Made(Ok(()))) == only(ActionModel::OpenLocal(local))
            &&& making.turn(EventModel::Made(Err(e))) == told(
                Err("Failed to create remote directory "@ + dir + ": "@ + e),
            )
            &&& making.after(EventModel::Made(Err(e))) == worker
            &&& opening.turn(EventModel::LocalOpened(Ok(()), text)) == only(ActionModel::NextLocal)
            &&& reading == (WorkerModel {
                job: JobModel::SendEntries(SendingModel { local: text, dir, count: 0 }),
                ..worker
            })
            &&& opening.turn(EventModel::LocalOpened(Err(e), text)) == told(
                Err("Failed to read local directory "@ + text + ": "@ + e),
            )
            &&& opening.after(EventModel::LocalOpened(Err(e), text)) == worker
        }),
{
}

/// Law: in a directory that is listed the task asks about each name that counts, one after the
/// other, behind the directory's path; it keeps what it is told under that name, and tells all of
/// it in the end.
pub proof fn listings_ask_about_each_name(
    worker: WorkerModel,
    dir: Seq<char>,
    names: Seq<String>,
    next: int,
    items: Seq<AfcItem>,
    info: Option<FileInfo>,
)
    requires
        0 <= next < names.len(),
    ensures
        ({
            let asking = WorkerModel {
                job: JobModel::Inspect(InspectionModel { dir, names, next, items }),
                ..worker
            };
            let known = match info {
                Some(info) => items.push(AfcItem { name: names[next], info }),
                None => items,
            };
            let event = EventModel::Info(info);
            &&& next + 1 < names.len() ==> asking.turn(event) == only(
                ActionModel::Inspect(
                    remote_path::join_of(worker.host, dir, names[next + 1]@),
                ),
            ) && asking.after(event) == (WorkerModel {
                job: JobModel::Inspect(
                    InspectionModel { dir, names, next: next + 1, items: known },
                ),
                ..worker
            })
            &&& next + 1 == names.len() ==> asking.turn(event) == (TurnModel {
                queued: None,
                report: Some(GuiAfcModel::DirectoryListing(Ok(known))),
                action: ActionModel::Wait,
            }) && asking.after(event) == (WorkerModel { job: JobModel::Idle, ..worker })
        }),
{
}

/// Law: the questions about a directory start with the first name that counts; without one the
/// listing is empty.
pub proof fn listings_start_with_the_first_name(
    worker: WorkerModel,
    dir: Seq<char>,
    names: Seq<String>,
)
    ensures
        ({
            let own = names.filter(|name: String| name@ != seq!['.'] && name@ != seq!['.', '.']);
            let listing = WorkerModel { job: JobModel::List(dir), ..worker };
            let event = EventModel::Names(Ok(names));
            &&& own.len() > 0 ==> listing.turn(event) == only(
                ActionModel::Inspect(remote_path::join_of(worker.host, dir, own[0]@)),
            ) && listing.after(event) == (WorkerModel {
                job: JobModel::Inspect(
                    InspectionModel {
                        dir,
                        names: own,
                        next: 0,
                        items: Seq::<AfcItem>::empty(),
                    },
                ),
                ..worker
            })
            &&& own.len() == 0 ==> listing.turn(event) == (TurnModel {
                queued: None,
                report: Some(GuiAfcModel::DirectoryListing(Ok(Seq::<AfcItem>::empty()))),
                action: ActionModel::Wait,
            }) && listing.after(event) == (WorkerModel { job: JobModel::Idle, ..worker })
        }),
{
    all_names_count_but_dots(names);
}

/// Law: in a directory that is downloaded the task asks about each name that counts, behind the
/// directory's path, and queues the download of what it is told of, a directory as a directory, to
/// that name in the directory's place; in the end it tells how many names there were.
pub proof fn downloads_ask_about_each_name(
    worker: WorkerModel,
    dir: Seq<char>,
    local: PlaceModel,
    names: Seq<String>,
    next: int,
    info: Option<FileInfo>,
)
    requires
        0 <= next < names.len(),
    ensures
        ({
            let asking = WorkerModel {
                job: JobModel::FetchEntries(FetchingModel { dir, local, names, next }),
                ..worker
            };
            let event = EventModel::Info(info);
            let path = remote_path::join_of(worker.host, dir, names[next]@);
            let place = PlaceModel { base: local.base, below: local.below.push(names[next]@) };
            &&& asking.turn(event).queued == match info {
                Some(info) => Some(
                    if info.st_ifmt@ == "S_IFDIR"@ {
                        AfcCommandModel::DownloadDirectory(path, place)
                    } else {
                        AfcCommandModel::DownloadFile(path, place)
                    },
                ),
                None => None,
            }
            &&& next + 1 < names.len() ==> asking.turn(event).report is None && asking.turn(
                event,
            ).action == ActionModel::Inspect(
                remote_path::join_of(worker.host, dir, names[next + 1]@),
            ) && asking.after(event) == (WorkerModel {
                job: JobModel::FetchEntries(FetchingModel { dir, local, names, next: next + 1 }),
                ..worker
            })
            &&& next + 1 == names.len() ==> asking.turn(event).report == Some(
                GuiAfcModel::OperationStatus(
                    Ok(
                        "Queued "@ + crate::text::decimal(names.len()) + " items from "@ + dir,
                    ),
                ),
            ) && asking.turn(event).action == ActionModel::Wait && asking.after(event) == (
            WorkerModel { job: JobModel::Idle, ..worker })
        }),
{
    a_child_lies_one_name_deeper(local, names[next]@);
    let place = PlaceModel { base: local.base, below: local.below.push(names[next]@) };
    assert(place =~= local.child(names[next]@));
}

/// Law: the questions about a directory to download start with the first name that counts; without
/// one there is nothing to queue.
pub proof fn downloads_start_with_the_first_name(
    worker: WorkerModel,
    dir: Seq<char>,
    local: PlaceModel,
    names: Seq<String>,
)
    ensures
        ({
            let own = names.filter(|name: String| name@ != seq!['.'] && name@ != seq!['.', '.']);
            let listing = WorkerModel { job: JobModel::FetchList(dir, local), ..worker };
            let event = EventModel::Names(Ok(names));
            &&& own.len() > 0 ==> listing.turn(event) == only(
                ActionModel::Inspect(remote_path::join_of(worker.host, dir, own[0]@)),
            ) && listing.after(event) == (WorkerModel {
                job: JobModel::FetchEntries(FetchingModel { dir, local, names: own, next: 0 }),
                ..worker
            })
            &&& own.len() == 0 ==> listing.turn(event) == told(
                Ok("Queued "@ + crate::text::decimal(0) + " items from "@ + dir),
            ) && listing.after(event) == (WorkerModel { job: JobModel::Idle, ..worker })
        }),
{
    all_names_count_but_dots(names);
}

/// Law: of a directory that is uploaded each directory and each file is queued, from its own path
/// on the host to its name behind the directory's path; anything else is left out. Every entry
/// counts in the end.
pub proof fn uploads_queue_directories_and_files(
    worker: WorkerModel,
    dir: Seq<char>,
    local: Seq<char>,
    count: int,
    entry: LocalEntry,
)
    requires
        0 <= count,
    ensures
        ({
            let reading = WorkerModel {
                job: JobModel::SendEntries(SendingModel { local, dir, count }),
                ..worker
            };
            let path = remote_path::join_of(worker.host, dir, entry.name@);
            let event = EventModel::LocalEntry(Some(entry));
            let end = EventModel::LocalEntry(None);
            &&& reading.turn(event) == (TurnModel {
                queued: match entry.kind {
                    EntryKind::Directory => Some(
                        AfcCommandModel::UploadDirectory(entry.path, path),
                    ),
                    EntryKind::File => Some(AfcCommandModel::UploadFile(entry.path, path)),
                    EntryKind::Other => None,
                    EntryKind::Unknown => None,
                },
                report: None,
                action: ActionModel::NextLocal,
            })
            &&& reading.after(event) == (WorkerModel {
                job: JobModel::SendEntries(SendingModel { local, dir, count: count + 1 }),
                ..worker
            })
            &&& reading.turn(end) == told(
                Ok("Queued "@ + crate::text::decimal(count as nat) + " items from "@ + local),
            )
            &&& reading.after(end) == (WorkerModel { job: JobModel::Idle, ..worker })
        }),
{
}

/// Law: the task waits for a command when it has nothing to do, and otherwise for the outcome of
/// what it asked for, and for nothing else.
pub proof fn only_outcomes_are_awaited(worker: WorkerModel, event: EventModel)
    ensures
        worker.awaits(event) <==> match worker.job {
            JobModel::Idle => event is Command,
            JobModel::Connect => event is Connected,
            JobModel::List(_) => event is Names,
            JobModel::Inspect(i) => event is Info && 0 <= i.next < i.names.len(),
            JobModel::Download(_) => event is Downloaded,
            JobModel::Upload(_) => event is Uploaded,
            JobModel::Create(_) => event is Made,
            JobModel::Delete(_) => event is Deleted,
            JobModel::FetchMake(_, _) => event is LocalMade,
            JobModel::FetchList(_, _) => event is Names,
            JobModel::FetchEntries(f) => event is Info && 0 <= f.next < f.names.len(),
            JobModel::SendMake(_, _) => event is Made,
            JobModel::SendOpen(_) => event is LocalOpened,
            JobModel::SendEntries(s) => event is LocalEntry && (event == EventModel::LocalEntry(
                None,
            ) || s.count < usize::MAX),
        },
{
}

/// Law: the model of an event is the event, with every text in it.
pub proof fn events_are_their_models(event: Event)
    ensures
        match event {
            Event::Command(command) => event@ == EventModel::Command(command@),
            Event::Connected(Ok(())) => event@ == EventModel::Connected(Ok(())),
            Event::Connected(Err(e)) => event@ == EventModel::Connected(Err(e@)),
            Event::Names(Ok(names)) => event@ == EventModel::Names(Ok(names@)),
            Event::Names(Err(e)) => event@ == EventModel::Names(Err(e@)),
            Event::Info(info) => event@ == EventModel::Info(info),
            Event::Downloaded(Ok(text)) => event@ == EventModel::Downloaded(Ok(text@)),
            Event::Downloaded(Err(e)) => event@ == EventModel::Downloaded(Err(e@)),
            Event::Uploaded(Ok(text)) => event@ == EventModel::Uploaded(Ok(text@)),
            Event::Uploaded(Err(e)) => event@ == EventModel::Uploaded(Err(e@)),
            Event::Made(Ok(())) => event@ == EventModel::Made(Ok(())),
            Event::Made(Err(e)) => event@ == EventModel::Made(Err(e@)),
            Event::Deleted(Ok(())) => event@ == EventModel::Deleted(Ok(())),
            Event::Deleted(Err(e)) => event@ == EventModel::Deleted(Err(e@)),
            Event::LocalMade(Ok(()), text) => event@ == EventModel::LocalMade(Ok(()), text@),
            Event::LocalMade(Err(e), text) => event@ == EventModel::LocalMade(Err(e@), text@),
            Event::LocalOpened(Ok(()), text) => event@ == EventModel::LocalOpened(Ok(()), text@),
            Event::LocalOpened(Err(e), text) => event@ == EventModel::LocalOpened(Err(e@), text@),
            Event::LocalEntry(entry) => event@ == EventModel::LocalEntry(entry),
        },
{
}

/// Law: the model of what follows is what follows, with every path and place in it.
pub proof fn turns_are_their_models(turn: Turn)
    ensures
        turn.queued is None <==> turn@.queued is None,
        turn.queued matches Some(command) ==> turn@.queued == Some(command@),
        turn.report is None <==> turn@.report is None,
        turn.report matches Some(report) ==> turn@.report == Some(report@),
        match turn.action {
            Action::Wait => turn@.action == ActionModel::Wait,
            Action::Connect(device, mode) => turn@.action == ActionModel::Connect(device, mode@),
            Action::Disconnect => turn@.action == ActionModel::Disconnect,
            Action::List(path) => turn@.action == ActionModel::List(path@),
            Action::Inspect(path) => turn@.action == ActionModel::Inspect(path@),
            Action::Download(remote, local) => turn@.action == ActionModel::Download(
                remote@,
                local@,
            ),
            Action::Upload(local, remote) => turn@.action == ActionModel::Upload(local, remote@),
            Action::Make(path) => turn@.action == ActionModel::Make(path@),
            Action::Delete(path) => turn@.action == ActionModel::Delete(path@),
            Action::MakeLocal(local) => turn@.action == ActionModel::MakeLocal(local@),
            Action::OpenLocal(local) => turn@.action == ActionModel::OpenLocal(local),
            Action::NextLocal => turn@.action == ActionModel::NextLocal,
        },
{
}

/// Law: the model of the task is the task, with every path and number in it.
pub proof fn tasks_are_their_models(worker: Worker)
    ensures
        worker@.host == worker.host,
        worker@.connected == worker.connected,
        match worker.job {
            Job::Idle => worker@.job == JobModel::Idle,
            Job::Connect => worker@.job == JobModel::Connect,
            Job::List(dir) => worker@.job == JobModel::List(dir@),
            Job::Inspect(i) => worker@.job == JobModel::Inspect(
                InspectionModel {
                    dir: i.dir@,
                    names: i.names@,
                    next: i.next as int,
                    items: i.items@,
                },
            ),
            Job::Download(remote) => worker@.job == JobModel::Download(remote@),
            Job::Upload(remote) => worker@.job == JobModel::Upload(remote@),
            Job::Create(path) => worker@.job == JobModel::Create(path@),
            Job::Delete(path) => worker@.job == JobModel::Delete(path@),
            Job::FetchMake(dir, local) => worker@.job == JobModel::FetchMake(dir@, local@),
            Job::FetchList(dir, local) => worker@.job == JobModel::FetchList(dir@, local@),
            Job::FetchEntries(f) => worker@.job == JobModel::FetchEntries(
                FetchingModel {
                    dir: f.dir@,
                    local: f.local@,
                    names: f.names@,
                    next: f.next as int,
                },
            ),
            Job::SendMake(local, dir) => worker@.job == JobModel::SendMake(local, dir@),
            Job::SendOpen(dir) => worker@.job == JobModel::SendOpen(dir@),
            Job::SendEntries(s) => worker@.job == JobModel::SendEntries(
                SendingModel { local: s.local@, dir: s.dir@, count: s.count as int },
            ),
        },
{
}

/// Law: the models of commands are those of the commands, one by one.
pub proof fn lists_of_commands_are_their_models(
    commands: Seq<AfcCommands>,
    command: Option<AfcCommands>,
    i: int,
)
    ensures
        crate::commands::commands_view(commands).len() == commands.len(),
        0 <= i < commands.len() ==> crate::commands::commands_view(commands)[i] == commands[i]@,
        command is None <==> crate::commands::command_view(command) is None,
        command matches Some(inner) ==> crate::commands::command_view(command) == Some(inner@),
{
}

} // verus!
