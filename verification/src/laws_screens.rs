//! What the screens show and what every report and every click does to them, said field by field.

use idevice::usbmuxd::UsbmuxdDevice;
use vstd::prelude::*;

use crate::app::{AppModel, MyApp};
use crate::commands::{
    AfcCommandModel, AfcCommands, AfcItem, AfcMode, GuiAfcCommands, GuiAfcModel, GuiCommands,
    GuiModel, ModeModel,
};
use crate::connection::{self, FoundApps, SearchedApp};
use crate::explorer::DownloadModel;
use crate::outside::TIME_FORMAT;
use crate::remote_path::{self, Host};
use crate::state::{AfcModel, AfcState, ProgressModel, SortColumn, SortDirection};
use crate::text;

verus! {

/// Whether a device of a name is among those found.
pub open spec fn is_among(found: Seq<(Seq<char>, UsbmuxdDevice)>, name: Seq<char>) -> bool {
    exists|i: int| 0 <= i < found.len() && (#[trigger] found[i]).0 == name
}

proof fn lemma_is_among(found: Seq<(Seq<char>, UsbmuxdDevice)>, name: Seq<char>)
    ensures
        is_among(found, name) == crate::name_map::has_name(found, name),
{
    crate::name_map::lemma_place(found, name);
}

/// Law: the devices that are offered after a search are those that it found, whatever was there
/// before.
pub proof fn found_devices_are_offered(app: AppModel, found: Seq<(Seq<char>, UsbmuxdDevice)>)
    ensures
        ({
            let after = app.received(GuiModel::Devices(found));
            &&& found.len() > 0 ==> after.devices == Some(found)
            &&& found.len() > 0 ==> after.devices_placeholder == app.devices_placeholder
            &&& found.len() == 0 ==> after.devices is None
            &&& found.len() == 0 ==> after.devices_placeholder == "No devices detected"@
            &&& after.show_logs == app.show_logs
        }),
{
}

/// Law: a search keeps the choice while the device is there, drops it when the device is gone, and
/// takes a lone device where none is chosen.
pub proof fn searches_keep_drop_or_take(app: AppModel, found: Seq<(Seq<char>, UsbmuxdDevice)>)
    ensures
        ({
            let message = GuiModel::Devices(found);
            let after = app.received(message);
            let requests = app.requests(message);
            let old = app.selected_device;
            &&& old.len() > 0 && is_among(found, old) ==> after.selected_device == old
                && after.afc_state == app.afc_state && requests == Seq::<AfcCommandModel>::empty()
            &&& old.len() > 0 && !is_among(found, old) && found.len() != 1
                ==> after.selected_device.len() == 0 && after.afc_state == (AfcModel {
                status_message: "Device disconnected"@,
                ..AfcModel::fresh(app.afc_state.host)
            }) && requests == seq![AfcCommandModel::Disconnect]
            &&& old.len() > 0 && !is_among(found, old) && found.len() == 1
                ==> after.selected_device == found[0].0 && after.afc_state == AfcModel::fresh(
                app.afc_state.host,
            ) && requests == seq![AfcCommandModel::Disconnect, AfcCommandModel::Disconnect]
            &&& old.len() == 0 && found.len() == 1 ==> after.selected_device == found[0].0
                && after.afc_state == AfcModel::fresh(app.afc_state.host) && requests
                == seq![AfcCommandModel::Disconnect]
            &&& old.len() == 0 && found.len() != 1 ==> after.selected_device.len() == 0
                && after.afc_state == app.afc_state && requests == Seq::<AfcCommandModel>::empty()
        }),
{
    let message = GuiModel::Devices(found);
    let requests = app.requests(message);
    lemma_is_among(found, app.selected_device);
    if app.selected_device.len() > 0 && !is_among(found, app.selected_device) && found.len() == 1 {
        assert(requests =~= seq![AfcCommandModel::Disconnect, AfcCommandModel::Disconnect]);
    }
}

/// Law: the chosen device is the one that was found under the chosen name.
pub proof fn the_chosen_device_is_that_of_the_name(
    app: AppModel,
    found: Seq<(Seq<char>, UsbmuxdDevice)>,
    i: int,
)
    requires
        0 <= i < found.len(),
        app.received(GuiModel::Devices(found)).selected_device == found[i].0,
        forall|j: int| i < j < found.len() ==> (#[trigger] found[j]).0 != found[i].0,
    ensures
        app.received(GuiModel::Devices(found)).chosen_device() == Some(found[i].1),
{
    let after = app.received(GuiModel::Devices(found));
    crate::name_map::lemma_place(found, after.selected_device);
}

/// Law: a device is chosen where one of the chosen name is offered.
pub proof fn choices_are_among_the_offered(app: AppModel)
    ensures
        app.devices is None ==> app.chosen_device() is None,
        app.devices matches Some(devices) ==> (app.chosen_device() is Some <==> is_among(
            devices,
            app.selected_device,
        )),
        app.devices matches Some(devices) ==> forall|i: int|
            0 <= i < devices.len() && (#[trigger] devices[i]).0 == app.selected_device && (forall|
                j: int,
            |
                i < j < devices.len() ==> (#[trigger] devices[j]).0 != app.selected_device)
                ==> app.chosen_device() == Some(devices[i].1),
{
    if let Some(devices) = app.devices {
        lemma_is_among(devices, app.selected_device);
        crate::name_map::lemma_place(devices, app.selected_device);
    }
}

/// Law: the program starts with nothing found, nothing chosen and nothing done.
pub proof fn the_start_is_empty(host: Host)
    ensures
        AppModel::initial(host).devices is None,
        AppModel::initial(host).devices_placeholder == "Loading..."@,
        AppModel::initial(host).selected_device.len() == 0,
        AppModel::initial(host).afc_state == AfcModel::fresh(host),
        !AppModel::initial(host).show_logs,
        AfcModel::fresh(host) == (AfcModel {
            host,
            is_connected: false,
            current_path: Seq::<char>::empty(),
            directory_listing: None,
            status_message: Seq::<char>::empty(),
            selected_item: None,
            new_folder_name: Seq::<char>::empty(),
            show_new_folder_popup: false,
            afc_mode: ModeModel::Root,
            bundle_id_input: Seq::<char>::empty(),
            installed_apps: None,
            apps_loading: false,
            upload_progress: None,
            download_progress: None,
            sort_column: SortColumn::Name,
            sort_direction: SortDirection::Ascending,
        }),
{
}

/// Law: a failed search says so where the devices would be, and changes nothing else.
pub proof fn failed_searches_are_told(app: AppModel, e: Seq<char>)
    ensures
        app.received(GuiModel::NoUsbmuxd(e)) == (AppModel {
            devices_placeholder: "Failed to connect to usbmuxd: "@ + e,
            ..app
        }),
        app.received(GuiModel::GetDevicesFailure(e)) == (AppModel {
            devices_placeholder: "Failed to get device list: "@ + e,
            ..app
        }),
        app.requests(GuiModel::NoUsbmuxd(e)).len() == 0,
        app.requests(GuiModel::GetDevicesFailure(e)).len() == 0,
{
}

/// Law: the installed apps are kept as they came, errors too, and are awaited no longer.
pub proof fn installed_apps_are_kept(
    app: AppModel,
    apps: Result<Seq<(Seq<char>, String)>, Seq<char>>,
)
    ensures
        app.received(GuiModel::InstalledApps(apps)) == (AppModel {
            afc_state: AfcModel { installed_apps: Some(apps), apps_loading: false, ..app.afc_state },
            ..app
        }),
        app.requests(GuiModel::InstalledApps(apps)).len() == 0,
{
}

/// Law: a report of the task that works on files changes the state of the files alone.
pub proof fn file_reports_change_the_files(app: AppModel, message: GuiAfcModel)
    ensures
        app.received(GuiModel::Afc(message)) == (AppModel {
            afc_state: app.afc_state.received(message),
            ..app
        }),
        app.afc_state.listed_after(message) matches Some(path) ==> app.requests(
            GuiModel::Afc(message),
        ) == seq![AfcCommandModel::ListDirectory(path)],
        app.afc_state.listed_after(message) is None ==> app.requests(GuiModel::Afc(message)).len()
            == 0,
{
}

/// Law: the way up is bounded by the documents of an app where those are shown, and by the root
/// otherwise.
pub proof fn the_jail_is_the_documents_or_the_root(state: AfcModel)
    ensures
        state.afc_mode is Documents ==> state.jail_root() == "/Documents"@,
        !(state.afc_mode is Documents) ==> state.jail_root() == "/"@,
{
}

/// Law: a connection shows and lists its root, and a failed one says why.
pub proof fn connections_open_their_root(state: AfcModel, e: Seq<char>)
    ensures
        state.received(GuiAfcModel::ConnectionStatus(Ok(()))) == (AfcModel {
            is_connected: true,
            current_path: if state.afc_mode is Documents {
                "/Documents"@
            } else {
                "/"@
            },
            ..state
        }),
        state.listed_after(GuiAfcModel::ConnectionStatus(Ok(()))) == Some(
            if state.afc_mode is Documents {
                "/Documents"@
            } else {
                "/"@
            },
        ),
        state.received(GuiAfcModel::ConnectionStatus(Err(e))) == (AfcModel {
            status_message: "Connection failed: "@ + e,
            ..state
        }),
        state.listed_after(GuiAfcModel::ConnectionStatus(Err(e))) is None,
{
}

/// Law: a listing is shown as it came, and nothing in it is selected.
pub proof fn listings_are_shown_as_they_come(
    state: AfcModel,
    listing: Result<Seq<AfcItem>, Seq<char>>,
)
    ensures
        state.received(GuiAfcModel::DirectoryListing(listing)) == (AfcModel {
            directory_listing: Some(listing),
            selected_item: None,
            status_message: "Connected"@,
            ..state
        }),
        state.listed_after(GuiAfcModel::DirectoryListing(listing)) is None,
        listing matches Ok(items) ==> state.received(
            GuiAfcModel::DirectoryListing(listing),
        ).items() == items,
        state.directory_listing is None ==> state.items().len() == 0,
        state.directory_listing matches Some(Err(_)) ==> state.items().len() == 0,
{
}

/// Law: progress is shown with its path and its two numbers, unless there is nothing to transfer;
/// a download takes the place of an upload.
pub proof fn progress_is_shown_as_it_comes(
    state: AfcModel,
    path: Seq<char>,
    done: usize,
    total: usize,
)
    ensures
        total > 0 ==> state.received(GuiAfcModel::UploadProgress(path, done, total)) == (AfcModel {
            status_message: "Uploading "@ + path + "..."@,
            upload_progress: Some(ProgressModel { path, done, total }),
            ..state
        }),
        total > 0 ==> state.received(GuiAfcModel::DownloadProgress(path, done, total)) == (
        AfcModel {
            status_message: "Downloading "@ + path + "..."@,
            download_progress: Some(ProgressModel { path, done, total }),
            upload_progress: None,
            ..state
        }),
        total == 0 ==> state.received(GuiAfcModel::UploadProgress(path, done, total)) == state,
        total == 0 ==> state.received(GuiAfcModel::DownloadProgress(path, done, total)) == state,
        state.listed_after(GuiAfcModel::UploadProgress(path, done, total)) is None,
        state.listed_after(GuiAfcModel::DownloadProgress(path, done, total)) is None,
{
}

/// Law: the end of an operation is told, ends what is shown of transfers, and lists the directory
/// anew.
pub proof fn operations_end_in_a_new_listing(state: AfcModel, result: Result<Seq<char>, Seq<char>>)
    ensures
        state.received(GuiAfcModel::OperationStatus(result)) == (AfcModel {
            status_message: match result {
                Ok(text) => text,
                Err(e) => "Error: "@ + e,
            },
            upload_progress: None,
            download_progress: None,
            ..state
        }),
        state.listed_after(GuiAfcModel::OperationStatus(result)) == Some(state.current_path),
{
}

/// Whether a text holds another as a stretch of its characters.
pub open spec fn holds(whole: Seq<char>, part: Seq<char>) -> bool {
    exists|i: int, j: int| 0 <= i <= j <= whole.len() && #[trigger] whole.subrange(i, j) == part
}

/// Law: a search shows the apps whose lower-case name or identifier holds what was typed, and no
/// others.
pub proof fn searches_show_what_holds_the_text(
    apps: Seq<SearchedApp>,
    typed: Seq<char>,
    app: SearchedApp,
)
    ensures
        connection::answering(apps, typed).contains(app) <==> apps.contains(app) && (holds(
            app.name,
            typed,
        ) || holds(app.id, typed)),
{
    broadcast use vstd::seq_lib::group_filter_ensures;

    let pred = |app: SearchedApp| connection::answers_to(app, typed);
    crate::laws_text::occurrence_is_a_stretch(typed, app.name);
    crate::laws_text::occurrence_is_a_stretch(typed, app.id);
    if typed.len() == 0 {
        assert(app.name.subrange(0, 0) =~= typed);
    }
    if connection::answering(apps, typed).contains(app) {
        apps.lemma_filter_contains_rev(pred, app);
        let k = choose|k: int|
            0 <= k < apps.filter(pred).len() && apps.filter(pred)[k] == app;
        assert(pred(apps.filter(pred)[k]));
    }
    if apps.contains(app) && (holds(app.name, typed) || holds(app.id, typed)) {
        let k = choose|k: int| 0 <= k < apps.len() && apps[k] == app;
        assert(pred(apps[k]));
        assert(apps.filter(pred).contains(apps[k]));
    }
}

/// Law: a search keeps the order of the apps, and shows each with its name and identifier; it says
/// how many there are, and that there are none where something was typed.
pub proof fn searches_show_names_and_identifiers(
    found: FoundApps,
    apps: Seq<SearchedApp>,
    typed: Seq<char>,
)
    requires
        found.shows(apps, typed),
    ensures
        ({
            let shown = apps.filter(
                |app: SearchedApp| holds(app.name, typed) || holds(app.id, typed),
            );
            &&& found.choices@.len() == shown.len()
            &&& forall|k: int|
                0 <= k < shown.len() ==> {
                    let (name, id) = (#[trigger] shown[k]).app;
                    &&& found.choices@[k].label@ == name + " ("@ + id@ + ")"@
                    &&& found.choices@[k].id@ == id@
                }
            &&& found.count@ == text::decimal(shown.len()) + " apps found:"@
            &&& found.none_match == (shown.len() == 0 && typed.len() > 0)
        }),
{
    let pred = |app: SearchedApp| connection::answers_to(app, typed);
    let direct = |app: SearchedApp| holds(app.name, typed) || holds(app.id, typed);
    assert forall|app: SearchedApp| #[trigger] pred(app) == direct(app) by {
        crate::laws_text::occurrence_is_a_stretch(typed, app.name);
        crate::laws_text::occurrence_is_a_stretch(typed, app.id);
        if typed.len() == 0 {
            assert(app.name.subrange(0, 0) =~= typed);
        }
    }
    assert(pred =~= direct);
    let shown = apps.filter(direct);
    let views = connection::choices_view(found.choices@);
    assert(views.len() == shown.len());
    assert forall|k: int| 0 <= k < shown.len() implies {
        let (name, id) = (#[trigger] shown[k]).app;
        &&& found.choices@[k].label@ == name + " ("@ + id@ + ")"@
        &&& found.choices@[k].id@ == id@
    } by {
        assert(views[k] == found.choices@[k]@);
        assert(views[k] == connection::choice_of(shown[k]));
    }
}

/// Law: apps are searched by their names and identifiers in lower case.
pub proof fn apps_are_searched_in_lower_case(
    apps: Seq<(Seq<char>, String)>,
    names: Seq<String>,
    ids: Seq<String>,
    i: int,
)
    requires
        0 <= i < apps.len(),
        names.len() == apps.len(),
        ids.len() == apps.len(),
    ensures
        connection::searched(apps).len() == apps.len(),
        connection::searched(apps)[i].app == apps[i],
        connection::searched(apps)[i].name == text::lowercase(apps[i].0),
        connection::searched(apps)[i].id == text::lowercase(apps[i].1@),
        connection::searched_with(apps, names, ids).len() == apps.len(),
        connection::searched_with(apps, names, ids)[i].app == apps[i],
        connection::searched_with(apps, names, ids)[i].name == names[i]@,
        connection::searched_with(apps, names, ids)[i].id == ids[i]@,
{
}

/// Law: what belongs to an app can be opened once an app is named, and is opened for that app;
/// anything else can always be opened.
pub proof fn apps_are_needed_where_files_are_theirs(state: AfcModel)
    ensures
        match state.afc_mode {
            ModeModel::Root => !state.requires_bundle_id() && state.can_connect()
                && state.mode_to_open() == ModeModel::Root,
            ModeModel::CrashReports => !state.requires_bundle_id() && state.can_connect()
                && state.mode_to_open() == ModeModel::CrashReports,
            ModeModel::Documents(_) => state.requires_bundle_id() && (state.can_connect()
                <==> state.bundle_id_input.len() > 0) && state.mode_to_open()
                == ModeModel::Documents(state.bundle_id_input),
            ModeModel::Container(_) => state.requires_bundle_id() && (state.can_connect()
                <==> state.bundle_id_input.len() > 0) && state.mode_to_open()
                == ModeModel::Container(state.bundle_id_input),
        },
{
}

/// Law: the installed apps are asked for where an app is needed and a device is there, if they are
/// neither known nor awaited; and they are awaited from then on.
pub proof fn apps_are_asked_for_where_needed(app: AppModel)
    ensures
        app.wants_apps() <==> {
            &&& app.afc_state.afc_mode is Documents || app.afc_state.afc_mode is Container
            &&& app.afc_state.installed_apps is None
            &&& !app.afc_state.apps_loading
            &&& app.devices matches Some(devices) && is_among(devices, app.selected_device)
        },
        app.asking_for_apps() == (AppModel {
            afc_state: AfcModel {
                apps_loading: true,
                status_message: "Loading installed apps..."@,
                ..app.afc_state
            },
            ..app
        }),
{
    choices_are_among_the_offered(app);
}

/// Law: picking an app types its identifier.
pub proof fn picking_types_the_identifier(state: AfcModel, id: Seq<char>)
    ensures
        state.picking(id) == (AfcModel { bundle_id_input: id, ..state }),
{
}

/// Law: a press on a column's head orders by that column, upwards unless it already did.
pub proof fn headers_order_and_turn(state: AfcModel, column: SortColumn)
    ensures
        ({
            let after = state.header_pressed(column);
            &&& after == (AfcModel {
                sort_column: after.sort_column,
                sort_direction: after.sort_direction,
                ..state
            })
            &&& after.sort_column == column
            &&& after.sort_direction == SortDirection::Descending <==> state.sort_column == column
                && state.sort_direction == SortDirection::Ascending
        }),
{
}

/// Law: on the way to a directory nothing changes but the path and the message.
pub proof fn going_somewhere_changes_the_path(state: AfcModel, path: Seq<char>)
    ensures
        state.going_to(path) == (AfcModel {
            current_path: path,
            status_message: "Loading directory..."@,
            ..state
        }),
{
}

/// Law: what is named in a directory lies behind its path.
pub proof fn names_lie_behind_the_path(state: AfcModel, name: Seq<char>)
    ensures
        state.path_of(name) == remote_path::join_of(state.host, state.current_path, name),
{
}

/// Law: the way up leads to the parent, but never to a path shorter than that of the jail, and
/// there is none from the jail's root.
pub proof fn the_way_up_leads_to_the_parent(state: AfcModel)
    ensures
        ({
            let root = if state.afc_mode is Documents {
                "/Documents"@
            } else {
                "/"@
            };
            let room = vstd::utf8::encode_utf8(root).len();
            &&& state.current_path == root ==> state.way_up() is None
            &&& state.current_path != root ==> (state.way_up() is None <==> remote_path::parent_of(
                state.host,
                state.current_path,
            ) is None)
            &&& state.current_path != root ==> (remote_path::parent_of(
                state.host,
                state.current_path,
            ) matches Some(dir) ==> state.way_up() == Some(
                if vstd::utf8::encode_utf8(dir).len() >= room {
                    dir
                } else {
                    root
                },
            ))
        }),
{
}

/// Law: the button for downloads asks for the selected item, as what the listing says it is.
pub proof fn downloads_take_the_selected_item(state: AfcModel, i: int)
    ensures
        state.selected_item is None <==> state.download() is Nothing,
        state.selected_item matches Some(name) ==> (state.download() is Missing <==> forall|k: int|
            0 <= k < state.items().len() ==> (#[trigger] state.items()[k]).name@ != name),
        0 <= i < state.items().len() && state.selected_item == Some(state.items()[i].name@) && (
        forall|k: int|
            0 <= k < i ==> (#[trigger] state.items()[k]).name@ != state.items()[i].name@) ==> {
            let item = state.items()[i];
            let path = remote_path::join_of(state.host, state.current_path, item.name@);
            state.download() == if item.info.st_ifmt@ == "S_IFDIR"@ {
                DownloadModel::Folder(item.name@, path)
            } else {
                DownloadModel::File(item.name@, path)
            }
        },
{
    if let Some(name) = state.selected_item {
        crate::laws_listing::the_first_of_a_name_is_found(state.items(), name);
    }
}

/// Law: times are written as the year, month and day, and the hour and minute.
pub proof fn times_are_written_to_the_minute()
    ensures
        TIME_FORMAT@ == "%Y-%m-%d %H:%M"@,
{
}

/// Law: the model of the state of the files is the state, field by field.
pub proof fn the_state_is_its_model(state: AfcState)
    ensures
        state@.host == state.host,
        state@.is_connected == state.is_connected,
        state@.current_path == state.current_path@,
        state@.status_message == state.status_message@,
        state@.new_folder_name == state.new_folder_name@,
        state@.show_new_folder_popup == state.show_new_folder_popup,
        state@.bundle_id_input == state.bundle_id_input@,
        state@.apps_loading == state.apps_loading,
        state@.sort_column == state.sort_column,
        state@.sort_direction == state.sort_direction,
        state.selected_item is None <==> state@.selected_item is None,
        state.selected_item matches Some(name) ==> state@.selected_item == Some(name@),
        state.directory_listing is None <==> state@.directory_listing is None,
        state.directory_listing matches Some(Ok(items)) ==> state@.directory_listing == Some(
            Ok::<Seq<AfcItem>, Seq<char>>(items@),
        ),
        state.directory_listing matches Some(Err(e)) ==> state@.directory_listing == Some(
            Err::<Seq<AfcItem>, Seq<char>>(e@),
        ),
        state.installed_apps is None <==> state@.installed_apps is None,
        state.installed_apps matches Some(Ok(apps)) ==> state@.installed_apps == Some(
            Ok::<Seq<(Seq<char>, String)>, Seq<char>>(apps@),
        ),
        state.installed_apps matches Some(Err(e)) ==> state@.installed_apps == Some(
            Err::<Seq<(Seq<char>, String)>, Seq<char>>(e@),
        ),
        state.upload_progress is None <==> state@.upload_progress is None,
        state.upload_progress matches Some(p) ==> state@.upload_progress == Some(
            ProgressModel { path: p.path@, done: p.done, total: p.total },
        ),
        state.download_progress is None <==> state@.download_progress is None,
        state.download_progress matches Some(p) ==> state@.download_progress == Some(
            ProgressModel { path: p.path@, done: p.done, total: p.total },
        ),
        state.afc_mode is Root <==> state@.afc_mode is Root,
        state.afc_mode is CrashReports <==> state@.afc_mode is CrashReports,
        state.afc_mode matches AfcMode::Documents(id) ==> state@.afc_mode == ModeModel::Documents(
            id@,
        ),
        state.afc_mode matches AfcMode::Container(id) ==> state@.afc_mode == ModeModel::Container(
            id@,
        ),
{
}

/// Law: the model of the program's state is the state, field by field.
pub proof fn the_program_is_its_model(app: MyApp)
    ensures
        app.devices is None <==> app@.devices is None,
        app.devices matches Some(devices) ==> app@.devices == Some(devices@),
        app@.devices_placeholder == app.devices_placeholder@,
        app@.selected_device == app.selected_device@,
        app@.afc_state == app.afc_state@,
        app@.show_logs == app.show_logs,
{
}

/// Law: the model of a command is the command, with every path and place that it names.
pub proof fn commands_are_their_models(command: AfcCommands)
    ensures
        match command {
            AfcCommands::Connect(device, mode) => command@ == AfcCommandModel::Connect(
                device,
                mode@,
            ),
            AfcCommands::Disconnect => command@ == AfcCommandModel::Disconnect,
            AfcCommands::ListDirectory(path) => command@ == AfcCommandModel::ListDirectory(path@),
            AfcCommands::DownloadFile(remote, local) => command@ == AfcCommandModel::DownloadFile(
                remote@,
                local@,
            ),
            AfcCommands::UploadFile(local, remote) => command@ == AfcCommandModel::UploadFile(
                local,
                remote@,
            ),
            AfcCommands::CreateDirectory(path) => command@ == AfcCommandModel::CreateDirectory(
                path@,
            ),
            AfcCommands::DeletePath(path) => command@ == AfcCommandModel::DeletePath(path@),
            AfcCommands::DownloadDirectory(remote, local) => command@
                == AfcCommandModel::DownloadDirectory(remote@, local@),
            AfcCommands::UploadDirectory(local, remote) => command@
                == AfcCommandModel::UploadDirectory(local, remote@),
        },
{
}

/// Law: the model of a report is the report, with every text and number in it.
pub proof fn reports_are_their_models(message: GuiCommands, report: GuiAfcCommands)
    ensures
        match message {
            GuiCommands::NoUsbmuxd(e) => message@ == GuiModel::NoUsbmuxd(e@),
            GuiCommands::GetDevicesFailure(e) => message@ == GuiModel::GetDevicesFailure(e@),
            GuiCommands::Devices(devices) => message@ == GuiModel::Devices(devices@),
            GuiCommands::Afc(inner) => message@ == GuiModel::Afc(inner@),
            GuiCommands::InstalledApps(Ok(apps)) => message@ == GuiModel::InstalledApps(Ok(apps@)),
            GuiCommands::InstalledApps(Err(e)) => message@ == GuiModel::InstalledApps(Err(e@)),
        },
        match report {
            GuiAfcCommands::ConnectionStatus(Ok(())) => report@ == GuiAfcModel::ConnectionStatus(
                Ok(()),
            ),
            GuiAfcCommands::ConnectionStatus(Err(e)) => report@ == GuiAfcModel::ConnectionStatus(
                Err(e@),
            ),
            GuiAfcCommands::DirectoryListing(Ok(items)) => report@
                == GuiAfcModel::DirectoryListing(Ok(items@)),
            GuiAfcCommands::DirectoryListing(Err(e)) => report@ == GuiAfcModel::DirectoryListing(
                Err(e@),
            ),
            GuiAfcCommands::OperationStatus(Ok(text)) => report@ == GuiAfcModel::OperationStatus(
                Ok(text@),
            ),
            GuiAfcCommands::OperationStatus(Err(e)) => report@ == GuiAfcModel::OperationStatus(
                Err(e@),
            ),
            GuiAfcCommands::UploadProgress(path, done, total) => report@
                == GuiAfcModel::UploadProgress(path@, done, total),
            GuiAfcCommands::DownloadProgress(path, done, total) => report@
                == GuiAfcModel::DownloadProgress(path@, done, total),
        },
{
}

} // verus!
