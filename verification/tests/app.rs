use afc_finder::app::{DeviceBar, MyApp, Screen, StatusBar};
use afc_finder::commands::{AfcCommands, AfcItem, AfcMode, FileInfo, GuiAfcCommands, GuiCommands};
use afc_finder::name_map::NameMap;
use afc_finder::remote_path::Host;
use afc_finder::state::{AfcState, SortColumn, SortDirection};
use idevice::usbmuxd::{Connection, UsbmuxdDevice};

fn device(id: u32) -> UsbmuxdDevice {
    UsbmuxdDevice { connection_type: Connection::Usb, udid: format!("udid-{id}"), device_id: id }
}

fn found(names: &[&str]) -> GuiCommands {
    let mut map = NameMap::new();
    for (i, name) in names.iter().enumerate() {
        map.insert(name.to_string(), device(i as u32));
    }
    GuiCommands::Devices(map)
}

fn disconnects(requests: &[AfcCommands]) -> usize {
    assert!(requests.iter().all(|r| matches!(r, AfcCommands::Disconnect)));
    requests.len()
}

fn listed(request: Option<AfcCommands>) -> String {
    match request {
        Some(AfcCommands::ListDirectory(path)) => path,
        _ => panic!("not a listing"),
    }
}

#[test]
fn the_start() {
    let app = MyApp::new(Host::Unix);
    assert!(app.devices.is_none());
    assert_eq!(app.devices_placeholder, "Loading...");
    assert_eq!(app.selected_device, "");
    assert!(!app.show_logs);
    assert!(!app.afc_state.is_connected);
    assert_eq!(app.afc_state.afc_mode, AfcMode::Root);
    assert_eq!(app.afc_state.sort_column, SortColumn::Name);
    assert_eq!(app.afc_state.sort_direction, SortDirection::Ascending);
    assert_eq!(app.screen(), Screen::Default);
    assert_eq!(app.device_bar(), DeviceBar::Placeholder);
    assert_eq!(app.status_bar(), StatusBar::Message);
}

#[test]
fn failures_show_in_place_of_the_devices() {
    let mut app = MyApp::new(Host::Unix);
    assert!(app.receive(GuiCommands::NoUsbmuxd("Refused".to_string())).is_empty());
    assert_eq!(app.devices_placeholder, "Failed to connect to usbmuxd: Refused");
    assert!(app.receive(GuiCommands::GetDevicesFailure("Lost".to_string())).is_empty());
    assert_eq!(app.devices_placeholder, "Failed to get device list: Lost");
}

#[test]
fn a_lone_device_is_chosen() {
    let mut app = MyApp::new(Host::Unix);
    assert_eq!(disconnects(&app.receive(found(&["phone"]))), 1);
    assert_eq!(app.selected_device, "phone");
    assert_eq!(app.screen(), Screen::Connection);
    assert_eq!(app.device_bar(), DeviceBar::Choice);
    assert_eq!(app.devices_placeholder, "Loading...");
}

#[test]
fn several_devices_leave_the_choice_open() {
    let mut app = MyApp::new(Host::Unix);
    assert_eq!(disconnects(&app.receive(found(&["phone", "pad"]))), 0);
    assert_eq!(app.selected_device, "");
    assert_eq!(app.screen(), Screen::Default);
    assert!(matches!(app.choose_device("pad".to_string()), AfcCommands::Disconnect));
    assert_eq!(app.selected_device, "pad");
    assert_eq!(disconnects(&app.receive(found(&["phone", "pad", "other"]))), 0);
    assert_eq!(app.selected_device, "pad");
}

#[test]
fn a_device_that_went_is_left() {
    let mut app = MyApp::new(Host::Unix);
    app.receive(found(&["phone", "pad"]));
    app.choose_device("pad".to_string());
    app.afc_state.is_connected = true;
    assert_eq!(disconnects(&app.receive(found(&["phone", "other"]))), 1);
    assert_eq!(app.selected_device, "");
    assert!(!app.afc_state.is_connected);
    assert_eq!(app.afc_state.status_message, "Device disconnected");
    assert_eq!(app.screen(), Screen::Default);
}

#[test]
fn a_device_that_went_gives_way_to_a_lone_one() {
    let mut app = MyApp::new(Host::Unix);
    app.receive(found(&["pad"]));
    app.afc_state.is_connected = true;
    assert_eq!(disconnects(&app.receive(found(&["phone"]))), 2);
    assert_eq!(app.selected_device, "phone");
    assert_eq!(app.afc_state.status_message, "");
    assert!(!app.afc_state.is_connected);
}

#[test]
fn no_devices_show_the_placeholder() {
    let mut app = MyApp::new(Host::Unix);
    app.receive(found(&["pad"]));
    assert_eq!(disconnects(&app.receive(found(&[]))), 1);
    assert!(app.devices.is_none());
    assert_eq!(app.devices_placeholder, "No devices detected");
    assert_eq!(app.device_bar(), DeviceBar::Placeholder);
    assert_eq!(app.afc_state.status_message, "Device disconnected");
}

#[test]
fn choosing_a_device_starts_afresh() {
    let mut app = MyApp::new(Host::Unix);
    app.receive(found(&["phone", "pad"]));
    app.show_logs = true;
    app.afc_state.is_connected = true;
    app.afc_state.current_path = "/DCIM".to_string();
    app.choose_device("phone".to_string());
    assert!(!app.afc_state.is_connected);
    assert_eq!(app.afc_state.current_path, "");
    assert!(app.show_logs);
}

#[test]
fn installed_apps_are_kept_with_the_state() {
    let mut app = MyApp::new(Host::Unix);
    app.afc_state.apps_loading = true;
    let mut apps = NameMap::new();
    apps.insert("Notes".to_string(), "com.example.memo".to_string());
    assert!(app.receive(GuiCommands::InstalledApps(Ok(apps))).is_empty());
    assert!(!app.afc_state.apps_loading);
    match &app.afc_state.installed_apps {
        Some(Ok(apps)) => assert_eq!(apps.get("Notes").unwrap(), "com.example.memo"),
        _ => panic!("no apps"),
    }
}

#[test]
fn a_connection_opens_its_root() {
    for (mode, root) in [
        (AfcMode::Root, "/"),
        (AfcMode::Documents("x".to_string()), "/Documents"),
        (AfcMode::Container("x".to_string()), "/"),
        (AfcMode::CrashReports, "/"),
    ] {
        let mut app = MyApp::new(Host::Unix);
        app.afc_state.afc_mode = mode;
        let mut requests =
            app.receive(GuiCommands::Afc(GuiAfcCommands::ConnectionStatus(Ok(()))));
        assert_eq!(requests.len(), 1);
        assert_eq!(listed(requests.pop()), root);
        assert!(app.afc_state.is_connected);
        assert_eq!(app.afc_state.current_path, root);
        assert_eq!(app.afc_state.jail_root(), root);
        assert_eq!(app.screen(), Screen::Explorer);
    }
}

#[test]
fn a_failed_connection_is_reported() {
    let mut state = AfcState::new(Host::Unix);
    let failed = GuiAfcCommands::ConnectionStatus(Err("denied".to_string()));
    assert!(state.receive(failed).is_none());
    assert!(!state.is_connected);
    assert_eq!(state.status_message, "Connection failed: denied");
}

#[test]
fn a_listing_drops_the_selection() {
    let mut state = AfcState::new(Host::Unix);
    state.selected_item = Some("a".to_string());
    let item = AfcItem {
        name: "b".to_string(),
        info: FileInfo { size: 1, modified: 0, st_ifmt: "S_IFREG".to_string() },
    };
    assert!(state.receive(GuiAfcCommands::DirectoryListing(Ok(vec![item]))).is_none());
    assert!(state.selected_item.is_none());
    assert_eq!(state.status_message, "Connected");
    match &state.directory_listing {
        Some(Ok(items)) => assert_eq!(items[0].name, "b"),
        _ => panic!("no listing"),
    }
    assert!(state.receive(GuiAfcCommands::DirectoryListing(Err("gone".to_string()))).is_none());
    assert!(matches!(&state.directory_listing, Some(Err(e)) if e == "gone"));
    assert_eq!(state.status_message, "Connected");
}

#[test]
fn progress_shows_and_ends() {
    let mut app = MyApp::new(Host::Unix);
    app.receive(GuiCommands::Afc(GuiAfcCommands::UploadProgress("/a".to_string(), 1, 4)));
    assert_eq!(app.status_bar(), StatusBar::Upload);
    assert_eq!(app.afc_state.status_message, "Uploading /a...");
    let shown = app.afc_state.upload_progress.as_ref().unwrap();
    assert_eq!((shown.path.as_str(), shown.done, shown.total), ("/a", 1, 4));
    app.receive(GuiCommands::Afc(GuiAfcCommands::DownloadProgress("/b".to_string(), 3, 9)));
    assert_eq!(app.status_bar(), StatusBar::Download);
    assert_eq!(app.afc_state.status_message, "Downloading /b...");
    let shown = app.afc_state.download_progress.as_ref().unwrap();
    assert_eq!((shown.path.as_str(), shown.done, shown.total), ("/b", 3, 9));
    assert!(app.afc_state.upload_progress.is_none());
    app.receive(GuiCommands::Afc(GuiAfcCommands::UploadProgress("/c".to_string(), 1, 1)));
    assert_eq!(app.status_bar(), StatusBar::Upload);
    assert!(app.afc_state.download_progress.is_some());
    app.afc_state.current_path = "/here".to_string();
    let mut requests = app.receive(GuiCommands::Afc(GuiAfcCommands::OperationStatus(Ok(
        "done".to_string(),
    ))));
    assert_eq!(listed(requests.pop()), "/here");
    assert_eq!(app.status_bar(), StatusBar::Message);
    assert_eq!(app.afc_state.status_message, "done");
    assert!(app.afc_state.upload_progress.is_none());
    assert!(app.afc_state.download_progress.is_none());
}

#[test]
fn progress_of_nothing_is_not_shown() {
    let mut state = AfcState::new(Host::Unix);
    assert!(state.receive(GuiAfcCommands::UploadProgress("/a".to_string(), 1, 0)).is_none());
    assert!(state.receive(GuiAfcCommands::DownloadProgress("/a".to_string(), 0, 0)).is_none());
    assert!(state.upload_progress.is_none());
    assert!(state.download_progress.is_none());
    assert_eq!(state.status_message, "");
}

#[test]
fn a_failed_operation_lists_the_directory_anew() {
    let mut state = AfcState::new(Host::Unix);
    state.current_path = "/x".to_string();
    let request = state.receive(GuiAfcCommands::OperationStatus(Err("full".to_string())));
    assert_eq!(listed(request), "/x");
    assert_eq!(state.status_message, "Error: full");
}

#[test]
fn a_device_found_again_keeps_its_state() {
    let mut app = MyApp::new(Host::Unix);
    app.receive(found(&["phone", "pad"]));
    app.choose_device("pad".to_string());
    app.afc_state.is_connected = true;
    app.afc_state.current_path = "/DCIM".to_string();
    for names in [["phone", "pad"], ["pad", "other"]] {
        assert_eq!(disconnects(&app.receive(found(&names))), 0);
        assert_eq!(app.selected_device, "pad");
        assert!(app.afc_state.is_connected);
        assert_eq!(app.afc_state.current_path, "/DCIM");
    }
    assert_eq!(disconnects(&app.receive(found(&["pad"]))), 0);
    assert_eq!(app.afc_state.current_path, "/DCIM");
}
