use afc_finder::app::MyApp;
use afc_finder::commands::{AfcCommands, AfcMode, AppCommands, GuiCommands};
use afc_finder::connection::{find_among, find_apps, AppsPanel};
use afc_finder::name_map::NameMap;
use afc_finder::remote_path::Host;
use idevice::usbmuxd::{Connection, UsbmuxdDevice};

fn device(id: u32) -> UsbmuxdDevice {
    UsbmuxdDevice { connection_type: Connection::Usb, udid: format!("udid-{id}"), device_id: id }
}

fn apps() -> NameMap<String> {
    let mut apps = NameMap::new();
    apps.insert("Notes".to_string(), "com.example.memo".to_string());
    apps.insert("Élan".to_string(), "com.example.Elan".to_string());
    apps.insert("Maps".to_string(), "org.other.maps".to_string());
    apps
}

fn app_with_device(mode: AfcMode) -> MyApp {
    let mut app = MyApp::new(Host::Unix);
    let mut found = NameMap::new();
    found.insert("phone".to_string(), device(7));
    app.receive(GuiCommands::Devices(found));
    app.afc_state.afc_mode = mode;
    app
}

fn documents() -> AfcMode {
    AfcMode::Documents(String::new())
}

#[test]
fn search_finds_names_and_identifiers_in_any_case() {
    let found = find_apps(&apps(), "EXAMPLE");
    assert_eq!(found.count, "2 apps found:");
    assert_eq!(found.choices.len(), 2);
    assert_eq!(found.choices[0].label, "Notes (com.example.memo)");
    assert_eq!(found.choices[0].id, "com.example.memo");
    assert_eq!(found.choices[1].label, "Élan (com.example.Elan)");
    assert!(!found.none_match);
    let found = find_apps(&apps(), "éL");
    assert_eq!(found.choices.len(), 1);
    assert_eq!(found.choices[0].id, "com.example.Elan");
}

#[test]
fn an_empty_search_shows_every_app() {
    let found = find_apps(&apps(), "");
    assert_eq!(found.count, "3 apps found:");
    assert_eq!(found.choices.len(), 3);
    assert!(!found.none_match);
    let found = find_apps(&NameMap::new(), "");
    assert_eq!(found.count, "0 apps found:");
    assert!(!found.none_match);
}

#[test]
fn a_search_without_a_match_says_so() {
    let found = find_apps(&apps(), "zzz");
    assert_eq!(found.count, "0 apps found:");
    assert!(found.choices.is_empty());
    assert!(found.none_match);
}

#[test]
fn search_goes_by_the_given_texts() {
    let names = vec!["one".to_string(), "two".to_string(), "three".to_string()];
    let ids = vec!["x".to_string(), "y".to_string(), "two".to_string()];
    let found = find_among(&apps(), &names, &ids, "tw");
    assert_eq!(found.count, "2 apps found:");
    assert_eq!(found.choices[0].label, "Élan (com.example.Elan)");
    assert_eq!(found.choices[1].label, "Maps (org.other.maps)");
}

#[test]
fn apps_panel_follows_the_list() {
    let mut app = app_with_device(documents());
    assert!(matches!(app.afc_state.apps_panel(), AppsPanel::Waiting));
    assert!(app.request_apps().is_some());
    assert!(matches!(app.afc_state.apps_panel(), AppsPanel::Loading));
    app.receive(GuiCommands::InstalledApps(Err("no luck".to_string())));
    match app.afc_state.apps_panel() {
        AppsPanel::Failed(text) => assert_eq!(text, "Error loading apps: no luck"),
        _ => panic!("not failed"),
    }
    app.receive(GuiCommands::InstalledApps(Ok(apps())));
    app.afc_state.bundle_id_input = "MAPS".to_string();
    match app.afc_state.apps_panel() {
        AppsPanel::Found(found) => {
            assert_eq!(found.choices.len(), 1);
            assert_eq!(found.choices[0].id, "org.other.maps");
        }
        _ => panic!("not found"),
    }
}

#[test]
fn the_list_of_apps_is_asked_for_once() {
    let mut app = app_with_device(documents());
    match app.request_apps() {
        Some(AppCommands::GetInstalledApps(device)) => assert_eq!(device.device_id, 7),
        None => panic!("no request"),
    }
    assert!(app.afc_state.apps_loading);
    assert_eq!(app.afc_state.status_message, "Loading installed apps...");
    assert!(app.request_apps().is_none());
    app.receive(GuiCommands::InstalledApps(Err("e".to_string())));
    assert!(!app.afc_state.apps_loading);
    assert!(app.request_apps().is_none());
}

#[test]
fn apps_are_not_asked_for_without_need() {
    for mode in [AfcMode::Root, AfcMode::CrashReports] {
        let mut app = app_with_device(mode);
        assert!(!app.afc_state.requires_bundle_id());
        assert!(app.request_apps().is_none());
        assert!(!app.afc_state.apps_loading);
    }
    let mut app = MyApp::new(Host::Unix);
    app.afc_state.afc_mode = documents();
    assert!(app.afc_state.requires_bundle_id());
    assert!(app.request_apps().is_none());
}

#[test]
fn a_connection_names_its_app() {
    let mut app = app_with_device(documents());
    assert!(!app.afc_state.can_connect());
    assert!(app.connect().is_none());
    assert_eq!(app.afc_state.status_message, "");
    app.afc_state.bundle_id_input = "com.example.memo".to_string();
    assert!(app.afc_state.can_connect());
    match app.connect() {
        Some(AfcCommands::Connect(device, mode)) => {
            assert_eq!(device.udid, "udid-7");
            assert_eq!(mode, AfcMode::Documents("com.example.memo".to_string()));
        }
        _ => panic!("no request"),
    }
    assert_eq!(app.afc_state.status_message, "Connecting...");
    app.afc_state.afc_mode = AfcMode::Container(String::new());
    match app.connect() {
        Some(AfcCommands::Connect(_, mode)) => {
            assert_eq!(mode, AfcMode::Container("com.example.memo".to_string()));
        }
        _ => panic!("no request"),
    }
}

#[test]
fn other_connections_need_no_app() {
    for mode in [AfcMode::Root, AfcMode::CrashReports] {
        let mut app = app_with_device(mode.clone());
        match app.connect() {
            Some(AfcCommands::Connect(device, opened)) => {
                assert_eq!(device.device_id, 7);
                assert_eq!(opened, mode);
            }
            _ => panic!("no request"),
        }
    }
    assert!(MyApp::new(Host::Unix).connect().is_none());
}

#[test]
fn a_picked_app_stays_in_the_list() {
    let mut app = app_with_device(documents());
    app.receive(GuiCommands::InstalledApps(Ok(apps())));
    app.afc_state.bundle_id_input = "ÉL".to_string();
    let id = match app.afc_state.apps_panel() {
        AppsPanel::Found(found) => found.choices[0].id.clone(),
        _ => panic!("not found"),
    };
    assert_eq!(id, "com.example.Elan");
    app.afc_state.pick_app(id);
    assert_eq!(app.afc_state.bundle_id_input, "com.example.Elan");
    match app.afc_state.apps_panel() {
        AppsPanel::Found(found) => {
            assert_eq!(found.choices.len(), 1);
            assert_eq!(found.choices[0].id, "com.example.Elan");
        }
        _ => panic!("not found"),
    }
    assert!(app.afc_state.can_connect());
    match app.connect() {
        Some(AfcCommands::Connect(_, mode)) => {
            assert_eq!(mode, AfcMode::Documents("com.example.Elan".to_string()));
        }
        _ => panic!("no request"),
    }
}

#[test]
fn an_app_without_an_identifier_cannot_be_opened() {
    let mut app = app_with_device(documents());
    app.afc_state.pick_app(String::new());
    assert!(!app.afc_state.can_connect());
}
