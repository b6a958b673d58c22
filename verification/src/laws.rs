//! What holds of the program as a whole, whatever comes in and in whatever order.

use idevice::usbmuxd::UsbmuxdDevice;
use vstd::prelude::*;

use crate::app::AppModel;
use crate::commands::{
    AfcCommandModel, AfcItem, FileInfo, GuiAfcModel, GuiModel, ModeModel, PlaceModel,
};
use crate::name_map;
use crate::remote_path::{self, Host, PrefixKind};
use crate::state::{AfcModel, SortColumn};
use crate::text;
use crate::worker::{
    self, ActionModel, EntryKind, EventModel, FetchingModel, InspectionModel, JobModel, LocalEntry,
    SendingModel, TurnModel, WorkerModel,
};

verus! {

/// Law: after a search for devices the chosen device, if there is one, is among those found; and
/// where the choice changed, the old device is left: a disconnection is asked for and nothing
/// counts as connected.
pub proof fn choice_is_among_the_found(app: AppModel, found: Seq<(Seq<char>, UsbmuxdDevice)>)
    ensures
        ({
            let after = app.received(GuiModel::Devices(found));
            &&& after.selected_device.len() > 0 ==> name_map::has_name(found, after.selected_device)
            &&& after.selected_device != app.selected_device ==> {
                &&& !after.afc_state.is_connected
                &&& app.requests(GuiModel::Devices(found)).contains(AfcCommandModel::Disconnect)
            }
        }),
{
    let after = app.received(GuiModel::Devices(found));
    let requests = app.requests(GuiModel::Devices(found));
    if app.adopts_device(found) {
        assert(found.last().0 == after.selected_device);
        assert(requests.last() == AfcCommandModel::Disconnect);
    } else if app.loses_device(found) {
        assert(requests[0] == AfcCommandModel::Disconnect);
    }
}

/// Law: a device that is alone is chosen.
pub proof fn lone_device_is_chosen(app: AppModel, found: Seq<(Seq<char>, UsbmuxdDevice)>)
    requires
        found.len() == 1,
    ensures
        app.received(GuiModel::Devices(found)).selected_device == found[0].0,
{
    name_map::lemma_place(found, app.selected_device);
}

/// Law: a chosen device that is found again stays chosen, and nothing of its files is lost.
pub proof fn found_again_stays(app: AppModel, found: Seq<(Seq<char>, UsbmuxdDevice)>)
    requires
        app.selected_device.len() > 0,
        name_map::has_name(found, app.selected_device),
    ensures
        app.received(GuiModel::Devices(found)).selected_device == app.selected_device,
        app.received(GuiModel::Devices(found)).afc_state == app.afc_state,
        app.requests(GuiModel::Devices(found)).len() == 0,
{
}

/// Law: the same devices found once more change nothing.
pub proof fn found_twice(app: AppModel, found: Seq<(Seq<char>, UsbmuxdDevice)>)
    ensures
        ({
            let message = GuiModel::Devices(found);
            let after = app.received(message);
            &&& after.received(message) == after
            &&& after.selected_device.len() > 0 || found.len() != 1 ==> after.requests(
                message,
            ).len() == 0
        }),
{
    choice_is_among_the_found(app, found);
}

/// Law: an empty set of devices is never kept; the placeholder stands in its place.
pub proof fn no_empty_choice_of_devices(app: AppModel, message: GuiModel)
    requires
        app.devices matches Some(devices) ==> devices.len() > 0,
    ensures
        app.received(message).devices matches Some(devices) ==> devices.len() > 0,
{
}

/// Law: no report makes a transfer show that has nothing to transfer, so that the share that is
/// done can always be computed.
pub proof fn progress_stays_sound(app: AppModel, message: GuiModel)
    requires
        app.afc_state.progress_is_sound(),
    ensures
        AfcModel::fresh(app.afc_state.host).progress_is_sound(),
        app.received(message).afc_state.progress_is_sound(),
{
}

/// Law: the list of installed apps is asked for once. It is not wanted again while it is awaited,
/// nor once it came, be it as an error.
pub proof fn apps_are_asked_for_once(
    app: AppModel,
    apps: Result<Seq<(Seq<char>, String)>, Seq<char>>,
)
    ensures
        !app.asking_for_apps().wants_apps(),
        !app.received(GuiModel::InstalledApps(apps)).wants_apps(),
{
}

/// Law: no connection to an app's files is asked for without saying which app.
pub proof fn connection_names_its_app(state: AfcModel)
    requires
        state.can_connect(),
    ensures
        state.mode_to_open() matches ModeModel::Documents(id) ==> id.len() > 0,
        state.mode_to_open() matches ModeModel::Container(id) ==> id.len() > 0,
{
}

/// Law: a connection opens at the directory that bounds the way up.
pub proof fn connection_opens_inside_the_jail(state: AfcModel)
    ensures
        ({
            let after = state.received(GuiAfcModel::ConnectionStatus(Ok(())));
            &&& after.is_connected
            &&& remote_path::is_inside(state.host, after.jail_root(), after.current_path)
        }),
{
    let root = state.jail_root();
    assert(root.take(root.len() as int) =~= root);
}

/// Law: the way up from inside the jail stays inside it.
pub proof fn way_up_stays_in_the_jail(state: AfcModel)
    requires
        remote_path::is_inside(state.host, state.jail_root(), state.current_path),
    ensures
        state.way_up() matches Some(path) ==> remote_path::is_inside(
            state.host,
            state.jail_root(),
            path,
        ),
{
    remote_path::climbed_stays_inside(state.host, state.jail_root(), state.current_path);
}

/// Law: the way into a directory that is listed inside the jail stays inside it.
pub proof fn way_in_stays_in_the_jail(state: AfcModel, name: Seq<char>)
    requires
        remote_path::is_inside(state.host, state.jail_root(), state.current_path),
        remote_path::prefix_of(state.host, name).kind == PrefixKind::Nothing,
        !remote_path::is_rooted(state.host, name),
    ensures
        remote_path::is_inside(
            state.host,
            state.jail_root(),
            state.going_to(state.path_of(name)).current_path,
        ),
{
    let root = state.jail_root();
    let here = state.current_path;
    reveal_strlit("/");
    reveal_strlit("/Documents");
    assert(here[0] == here.take(root.len() as int)[0]);
    remote_path::joined_is_inside(state.host, here, name);
    let inner = state.path_of(name);
    assert(inner.take(root.len() as int) =~= inner.take(here.len() as int).take(root.len() as int));
    if root.len() < here.len() {
        assert(inner[root.len() as int] == inner.take(here.len() as int)[root.len() as int]);
    }
}

/// Law: the way up undoes the way into a directory, unless the path that was left ends in idle
/// components, is shorter than that of the jail or is read in another way with the name behind it,
/// as a share on Windows is.
pub proof fn way_up_undoes_the_way_in(state: AfcModel, name: Seq<char>)
    requires
        remote_path::is_component(state.host, name),
        state.host == Host::Unix || remote_path::extends(state.host, state.current_path, name),
        remote_path::core_of(state.host, state.current_path) == state.current_path,
        vstd::utf8::encode_utf8(state.current_path).len() >= vstd::utf8::encode_utf8(
            state.jail_root(),
        ).len(),
    ensures
        state.going_to(state.path_of(name)).way_up() == Some(state.current_path),
{
    let here = state.current_path;
    let inner = state.path_of(name);
    if state.host == Host::Unix {
        remote_path::unix_components_extend(here, name);
    }
    remote_path::parent_of_joined(state.host, here, name);
    assert(inner.take(here.len() as int) =~= here);
    remote_path::lemma_encoded_prefix(inner, here.len() as int);
}

/// Law: inside the jail no path is shorter than that of the jail.
pub proof fn inside_is_no_shorter(state: AfcModel)
    requires
        remote_path::is_inside(state.host, state.jail_root(), state.current_path),
    ensures
        vstd::utf8::encode_utf8(state.current_path).len() >= vstd::utf8::encode_utf8(
            state.jail_root(),
        ).len(),
{
    remote_path::lemma_encoded_prefix(state.current_path, state.jail_root().len() as int);
}

/// Law: pressing the head of the ordering column twice leaves the order as it was.
pub proof fn header_pressed_twice(state: AfcModel, column: SortColumn)
    ensures
        state.sort_column == column ==> state.header_pressed(column).header_pressed(column)
            == state,
        state.header_pressed(column).sort_column == column,
{
}

impl WorkerModel {
    /// Whether the task's numbers are in order, and whether it works on files with a connection
    /// only.
    pub open spec fn is_sound(self) -> bool {
        &&& self.connected || self.job is Idle || self.job is Connect
        &&& self.job matches JobModel::Inspect(i) ==> 0 <= i.next < i.names.len()
        &&& self.job matches JobModel::FetchEntries(f) ==> 0 <= f.next < f.names.len()
        &&& self.job matches JobModel::SendEntries(s) ==> 0 <= s.count
    }

    /// How many stages a job still has before it.
    pub open spec fn stages(self) -> int {
        match self.job {
            JobModel::Idle => 0,
            JobModel::FetchMake(_, _) => 3,
            JobModel::SendMake(_, _) => 3,
            JobModel::FetchList(_, _) => 2,
            JobModel::SendOpen(_) => 2,
            JobModel::List(_) => 2,
            _ => 1,
        }
    }

    /// How many entries the stage still has before it, where that is known.
    pub open spec fn entries_left(self) -> int {
        match self.job {
            JobModel::Inspect(i) => i.names.len() - i.next,
            JobModel::FetchEntries(f) => f.names.len() - f.next,
            _ => 0,
        }
    }

    /// The task after a series of events.
    pub open spec fn after_all(self, events: Seq<EventModel>) -> WorkerModel
        decreases events.len(),
    {
        if events.len() == 0 {
            self
        } else {
            self.after_all(events.drop_last()).after(events.last())
        }
    }

    /// Whether each event of a series is awaited when it comes.
    pub open spec fn awaits_all(self, events: Seq<EventModel>) -> bool
        decreases events.len(),
    {
        events.len() == 0 || {
            &&& self.awaits_all(events.drop_last())
            &&& self.after_all(events.drop_last()).awaits(events.last())
        }
    }

    /// What follows from the last event of a series.
    pub open spec fn last_turn(self, events: Seq<EventModel>) -> TurnModel {
        self.after_all(events.drop_last()).turn(events.last())
    }

    /// The commands that are queued over a series of events.
    pub open spec fn queued_by(self, events: Seq<EventModel>) -> Seq<AfcCommandModel>
        decreases events.len(),
    {
        if events.len() == 0 {
            seq![]
        } else {
            let before = self.queued_by(events.drop_last());
            match self.last_turn(events).queued {
                Some(command) => before.push(command),
                None => before,
            }
        }
    }
}

/// Law: the task stays sound: in particular it never works on files without a connection.
pub proof fn worker_stays_sound(worker: WorkerModel, event: EventModel)
    requires
        worker.is_sound(),
        worker.awaits(event),
    ensures
        worker.after(event).is_sound(),
{
}

/// Law: a job is reported on once, when it ends: never at the start, and not before it is over.
pub proof fn every_job_is_reported_once(worker: WorkerModel, event: EventModel)
    requires
        worker.is_sound(),
        worker.awaits(event),
    ensures
        event is Command ==> worker.turn(event).report is None,
        !(event is Command) ==> (worker.turn(event).report is Some <==> worker.after(
            event,
        ).job is Idle),
{
}

/// Law: a job comes to its end. Every event takes it a stage or an entry further, but for the
/// entries of a directory on the host, of which nobody knows how many there are.
pub proof fn every_job_ends(worker: WorkerModel, event: EventModel)
    requires
        worker.is_sound(),
        worker.awaits(event),
        !(event is Command),
        !(event matches EventModel::LocalEntry(Some(_))),
    ensures
        ({
            let after = worker.after(event);
            ||| after.stages() < worker.stages()
            ||| after.stages() == worker.stages() && 0 <= after.entries_left()
                < worker.entries_left()
        }),
{
}

/// Whether an event is an answer to an action.
pub open spec fn answers(action: ActionModel, event: EventModel) -> bool {
    match action {
        ActionModel::Wait => event is Command,
        ActionModel::Connect(_, _) => event is Connected,
        ActionModel::Disconnect => event is Command,
        ActionModel::List(_) => event is Names,
        ActionModel::Inspect(_) => event is Info,
        ActionModel::Download(_, _) => event is Downloaded,
        ActionModel::Upload(_, _) => event is Uploaded,
        ActionModel::Make(_) => event is Made,
        ActionModel::Delete(_) => event is Deleted,
        ActionModel::MakeLocal(_) => event is LocalMade,
        ActionModel::OpenLocal(_) => event is LocalOpened,
        ActionModel::NextLocal => event is LocalEntry,
    }
}

/// Law: the task waits for every answer to what it asked for, so that it never gets stuck, as long
/// as the entries of a directory on the host can be counted.
pub proof fn every_answer_is_awaited(worker: WorkerModel, event: EventModel, answer: EventModel)
    requires
        worker.is_sound(),
        worker.awaits(event),
        answers(worker.turn(event).action, answer),
        answer matches EventModel::LocalEntry(Some(_)) ==> (worker.after(
            event,
        ).job matches JobModel::SendEntries(s) ==> s.count < usize::MAX),
    ensures
        worker.after(event).awaits(answer),
{
}

/// Law: without a connection a command that needs one has no effect and no answer.
pub proof fn commands_need_a_connection(worker: WorkerModel, command: AfcCommandModel)
    requires
        worker.job is Idle,
        !worker.connected,
        !(command is Connect),
        !(command is Disconnect),
    ensures
        worker.after(EventModel::Command(command)) == worker,
        worker.turn(EventModel::Command(command)) == (TurnModel {
            queued: None,
            report: None,
            action: ActionModel::Wait,
        }),
{
}

/// The items that a listing shows: the entries of which the device told something.
pub open spec fn known_items(names: Seq<String>, infos: Seq<Option<FileInfo>>) -> Seq<AfcItem>
    decreases infos.len(),
{
    if infos.len() == 0 {
        seq![]
    } else {
        let before = known_items(names, infos.drop_last());
        match infos.last() {
            Some(info) => before.push(AfcItem { name: names[infos.len() - 1], info }),
            None => before,
        }
    }
}

/// The events of the reading of a directory on the device: the names, and then what the device
/// tells of each entry.
pub open spec fn listing_events(names: Seq<String>, infos: Seq<Option<FileInfo>>) -> Seq<
    EventModel,
> {
    seq![EventModel::Names(Ok(names))] + infos.map_values(
        |info: Option<FileInfo>| EventModel::Info(info),
    )
}

proof fn lemma_listing_events(names: Seq<String>, infos: Seq<Option<FileInfo>>)
    ensures
        infos.len() > 0 ==> {
            &&& listing_events(names, infos).drop_last() == listing_events(names, infos.drop_last())
            &&& listing_events(names, infos).last() == EventModel::Info(infos.last())
        },
        infos.len() == 0 ==> listing_events(names, infos) == seq![EventModel::Names(Ok(names))],
{
    if infos.len() > 0 {
        assert(listing_events(names, infos).drop_last() =~= listing_events(
            names,
            infos.drop_last(),
        ));
    } else {
        assert(listing_events(names, infos) =~= seq![EventModel::Names(Ok(names))]);
    }
}

proof fn lemma_listing(worker: WorkerModel, names: Seq<String>, infos: Seq<Option<FileInfo>>)
    requires
        worker.job is List,
        infos.len() <= worker::own_names(names).len(),
    ensures
        ({
            let own = worker::own_names(names);
            let events = listing_events(names, infos);
            let seen = InspectionModel {
                dir: worker.job->List_0,
                names: own,
                next: infos.len() as int,
                items: known_items(own, infos),
            };
            &&& worker.awaits_all(events)
            &&& worker.after_all(events) == (WorkerModel {
                job: seen.proceed(worker.host).0,
                ..worker
            })
            &&& worker.last_turn(events) == seen.proceed(worker.host).1
        }),
    decreases infos.len(),
{
    reveal_with_fuel(WorkerModel::after_all, 2);
    reveal_with_fuel(WorkerModel::awaits_all, 2);
    lemma_listing_events(names, infos);
    let events = listing_events(names, infos);
    if infos.len() == 0 {
        assert(events.drop_last() =~= seq![]);
    } else {
        lemma_listing(worker, names, infos.drop_last());
    }
}

/// Law: a listing shows, in the device's own order, the entries of which the device told
/// something; `.` and `..` are not asked about.
pub proof fn listing_shows_what_is_known(
    worker: WorkerModel,
    names: Seq<String>,
    infos: Seq<Option<FileInfo>>,
)
    requires
        worker.job is List,
        infos.len() == worker::own_names(names).len(),
    ensures
        ({
            let events = listing_events(names, infos);
            &&& worker.awaits_all(events)
            &&& worker.after_all(events) == (WorkerModel { job: JobModel::Idle, ..worker })
            &&& worker.last_turn(events).report == Some(
                GuiAfcModel::DirectoryListing(
                    Ok(known_items(worker::own_names(names), infos)),
                ),
            )
        }),
{
    lemma_listing(worker, names, infos);
}

/// Law: a listing never shows `.` or `..`.
pub proof fn listing_hides_dots(names: Seq<String>, infos: Seq<Option<FileInfo>>)
    requires
        infos.len() <= worker::own_names(names).len(),
    ensures
        forall|k: int|
            0 <= k < known_items(worker::own_names(names), infos).len() ==> !worker::is_dots(
                (#[trigger] known_items(worker::own_names(names), infos)[k]).name@,
            ),
    decreases infos.len(),
{
    if infos.len() > 0 {
        let own = worker::own_names(names);
        let before = known_items(own, infos.drop_last());
        let all = known_items(own, infos);
        listing_hides_dots(names, infos.drop_last());
        lemma_own_names(names, infos.len() - 1);
        assert forall|k: int| 0 <= k < all.len() implies !worker::is_dots(
            (#[trigger] all[k]).name@,
        ) by {
            if k < before.len() {
                assert(all[k] == before[k]);
            }
        }
    }
}

proof fn lemma_own_names(names: Seq<String>, i: int)
    requires
        0 <= i < worker::own_names(names).len(),
    ensures
        !worker::is_dots(worker::own_names(names)[i]@),
    decreases names.len(),
{
    reveal(Seq::filter);
    if names.len() > 0 {
        let before = worker::own_names(names.drop_last());
        if i < before.len() {
            lemma_own_names(names.drop_last(), i);
        }
    }
}

/// The commands that download the entries of a directory of which the device told something, each
/// to its name in the place of the directory.
pub open spec fn downloads(
    host: Host,
    dir: Seq<char>,
    local: PlaceModel,
    names: Seq<String>,
    infos: Seq<Option<FileInfo>>,
) -> Seq<AfcCommandModel>
    decreases infos.len(),
{
    if infos.len() == 0 {
        seq![]
    } else {
        let before = downloads(host, dir, local, names, infos.drop_last());
        let name = names[infos.len() - 1]@;
        let path = remote_path::join_of(host, dir, name);
        let place = PlaceModel { base: local.base, below: local.below.push(name) };
        match infos.last() {
            Some(info) => if info.st_ifmt@ == "S_IFDIR"@ {
                before.push(AfcCommandModel::DownloadDirectory(path, place))
            } else {
                before.push(AfcCommandModel::DownloadFile(path, place))
            },
            None => before,
        }
    }
}

proof fn lemma_download(worker: WorkerModel, names: Seq<String>, infos: Seq<Option<FileInfo>>)
    requires
        worker.job is FetchList,
        infos.len() <= worker::own_names(names).len(),
    ensures
        ({
            let own = worker::own_names(names);
            let events = listing_events(names, infos);
            let seen = FetchingModel {
                dir: worker.job->FetchList_0,
                local: worker.job->FetchList_1,
                names: own,
                next: infos.len() as int,
            };
            &&& worker.awaits_all(events)
            &&& worker.after_all(events) == (WorkerModel {
                job: seen.proceed(worker.host, None).0,
                ..worker
            })
            &&& worker.last_turn(events).report == seen.proceed(worker.host, None).1.report
            &&& worker.queued_by(events) == downloads(
                worker.host,
                seen.dir,
                seen.local,
                own,
                infos,
            )
        }),
    decreases infos.len(),
{
    reveal_with_fuel(WorkerModel::after_all, 2);
    reveal_with_fuel(WorkerModel::awaits_all, 2);
    reveal_with_fuel(WorkerModel::queued_by, 2);
    lemma_listing_events(names, infos);
    let events = listing_events(names, infos);
    if infos.len() == 0 {
        assert(events.drop_last() =~= seq![]);
    } else {
        lemma_download(worker, names, infos.drop_last());
    }
}

/// Law: the download of a directory, once its place on the host was made, queues each entry of
/// which the device told something, in the device's own order and to its name in that place, and
/// reports how many entries there were.
pub proof fn download_queues_what_is_known(
    worker: WorkerModel,
    names: Seq<String>,
    infos: Seq<Option<FileInfo>>,
)
    requires
        worker.job is FetchList,
        infos.len() == worker::own_names(names).len(),
    ensures
        ({
            let own = worker::own_names(names);
            let dir = worker.job->FetchList_0;
            let local = worker.job->FetchList_1;
            let events = listing_events(names, infos);
            &&& worker.awaits_all(events)
            &&& worker.after_all(events) == (WorkerModel { job: JobModel::Idle, ..worker })
            &&& worker.queued_by(events) == downloads(worker.host, dir, local, own, infos)
            &&& worker.last_turn(events).report == Some(
                GuiAfcModel::OperationStatus(
                    Ok("Queued "@ + text::decimal(own.len()) + " items from "@ + dir),
                ),
            )
        }),
{
    lemma_download(worker, names, infos);
}

/// The commands that upload the entries of a directory, where they can be uploaded.
pub open spec fn uploads(host: Host, dir: Seq<char>, entries: Seq<LocalEntry>) -> Seq<
    AfcCommandModel,
>
    decreases entries.len(),
{
    if entries.len() == 0 {
        seq![]
    } else {
        let before = uploads(host, dir, entries.drop_last());
        let path = remote_path::join_of(host, dir, entries.last().name@);
        match entries.last().kind {
            EntryKind::Directory => before.push(
                AfcCommandModel::UploadDirectory(entries.last().path, path),
            ),
            EntryKind::File => before.push(AfcCommandModel::UploadFile(entries.last().path, path)),
            EntryKind::Other => before,
            EntryKind::Unknown => before,
        }
    }
}

/// The events of the reading of a directory on the host.
pub open spec fn reading_events(entries: Seq<LocalEntry>) -> Seq<EventModel> {
    entries.map_values(|entry: LocalEntry| EventModel::LocalEntry(Some(entry)))
}

proof fn lemma_upload(worker: WorkerModel, entries: Seq<LocalEntry>)
    requires
        worker.job matches JobModel::SendEntries(s) && s.count == 0,
        entries.len() <= usize::MAX,
    ensures
        ({
            let start = worker.job->SendEntries_0;
            let events = reading_events(entries);
            &&& worker.awaits_all(events)
            &&& worker.after_all(events) == (WorkerModel {
                job: JobModel::SendEntries(SendingModel { count: entries.len() as int, ..start }),
                ..worker
            })
            &&& worker.queued_by(events) == uploads(worker.host, start.dir, entries)
        }),
    decreases entries.len(),
{
    if entries.len() > 0 {
        let events = reading_events(entries);
        assert(events.drop_last() =~= reading_events(entries.drop_last()));
        assert(events.last() == EventModel::LocalEntry(Some(entries.last())));
        lemma_upload(worker, entries.drop_last());
    }
}

/// Law: the upload of a directory queues each directory and each file in it, in the order in which
/// the host names them, and reports how many entries there were, of whatever kind.
pub proof fn upload_queues_directories_and_files(worker: WorkerModel, entries: Seq<LocalEntry>)
    requires
        worker.job matches JobModel::SendEntries(s) && s.count == 0,
        entries.len() <= usize::MAX,
    ensures
        ({
            let start = worker.job->SendEntries_0;
            let events = reading_events(entries).push(EventModel::LocalEntry(None));
            &&& worker.awaits_all(events)
            &&& worker.after_all(events) == (WorkerModel { job: JobModel::Idle, ..worker })
            &&& worker.queued_by(events) == uploads(worker.host, start.dir, entries)
            &&& worker.last_turn(events).report == Some(
                GuiAfcModel::OperationStatus(
                    Ok("Queued "@ + text::decimal(entries.len()) + " items from "@ + start.local),
                ),
            )
        }),
{
    lemma_upload(worker, entries);
    let events = reading_events(entries).push(EventModel::LocalEntry(None));
    assert(events.drop_last() =~= reading_events(entries));
}

} // verus!
