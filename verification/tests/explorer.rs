use afc_finder::commands::{AfcCommands, AfcItem, AfcMode, FileInfo};
use afc_finder::explorer::{item_row, Download, ListingPanel};
use afc_finder::remote_path::Host;
use afc_finder::state::{AfcState, SortColumn, SortDirection};
use std::path::PathBuf;

fn item(name: &str, size: usize, modified: i64, kind: &str) -> AfcItem {
    AfcItem {
        name: name.to_string(),
        info: FileInfo { size, modified, st_ifmt: kind.to_string() },
    }
}

fn state_at(path: &str) -> AfcState {
    let mut state = AfcState::new(Host::Unix);
    state.is_connected = true;
    state.current_path = path.to_string();
    state.directory_listing = Some(Ok(vec![
        item("b.txt", 1536, 1_700_000_000_000_000_000, "S_IFREG"),
        item("Dir", 96, 0, "S_IFDIR"),
        item("a.txt", 10, -1, "S_IFREG"),
    ]));
    state
}

fn names(state: &AfcState) -> Vec<String> {
    match &state.directory_listing {
        Some(Ok(items)) => items.iter().map(|i| i.name.clone()).collect(),
        _ => panic!("no listing"),
    }
}

fn listed(request: Option<AfcCommands>) -> String {
    match request {
        Some(AfcCommands::ListDirectory(path)) => path,
        _ => panic!("not a listing"),
    }
}

#[test]
fn headers_choose_the_column_and_turn_it_round() {
    let mut state = AfcState::new(Host::Unix);
    state.press_header(SortColumn::Name);
    assert_eq!(
        (state.sort_column, state.sort_direction),
        (SortColumn::Name, SortDirection::Descending)
    );
    state.press_header(SortColumn::Name);
    assert_eq!(
        (state.sort_column, state.sort_direction),
        (SortColumn::Name, SortDirection::Ascending)
    );
    state.press_header(SortColumn::Size);
    assert_eq!(
        (state.sort_column, state.sort_direction),
        (SortColumn::Size, SortDirection::Ascending)
    );
    state.press_header(SortColumn::Size);
    state.press_header(SortColumn::Modified);
    assert_eq!(
        (state.sort_column, state.sort_direction),
        (SortColumn::Modified, SortDirection::Ascending)
    );
}

#[test]
fn the_listing_is_sorted_as_the_headers_say() {
    let mut state = state_at("/");
    state.sort_listing();
    assert_eq!(names(&state), vec!["a.txt", "b.txt", "Dir"]);
    state.press_header(SortColumn::Size);
    state.sort_listing();
    assert_eq!(names(&state), vec!["a.txt", "Dir", "b.txt"]);
    state.press_header(SortColumn::Modified);
    state.press_header(SortColumn::Modified);
    state.sort_listing();
    assert_eq!(names(&state), vec!["b.txt", "Dir", "a.txt"]);
    state.directory_listing = Some(Err("gone".to_string()));
    state.sort_listing();
    assert!(matches!(&state.directory_listing, Some(Err(e)) if e == "gone"));
    state.directory_listing = None;
    state.sort_listing();
    assert!(state.directory_listing.is_none());
}

#[test]
fn a_new_folder_is_asked_for_by_name() {
    let mut state = state_at("/Documents");
    state.open_new_folder();
    assert!(state.show_new_folder_popup);
    state.new_folder_name = "New".to_string();
    match state.create_folder() {
        AfcCommands::CreateDirectory(path) => assert_eq!(path, "/Documents/New"),
        _ => panic!("not a new folder"),
    }
    assert!(!state.show_new_folder_popup);
    assert_eq!(state.new_folder_name, "");
    state.open_new_folder();
    state.new_folder_name = "Other".to_string();
    state.cancel_new_folder();
    assert!(!state.show_new_folder_popup);
    assert_eq!(state.new_folder_name, "");
}

#[test]
fn the_way_up_ends_at_the_root() {
    let mut state = state_at("/DCIM/100APPLE");
    assert!(!state.at_jail_root());
    assert_eq!(listed(state.go_up()), "/DCIM");
    assert_eq!(state.current_path, "/DCIM");
    assert_eq!(state.status_message, "Loading directory...");
    assert_eq!(listed(state.go_up()), "/");
    assert!(state.at_jail_root());
    state.status_message = "Connected".to_string();
    assert!(state.go_up().is_none());
    assert_eq!(state.current_path, "/");
    assert_eq!(state.status_message, "Connected");
}

#[test]
fn the_way_up_ends_at_the_documents() {
    let mut state = state_at("/Documents/Inbox");
    state.afc_mode = AfcMode::Documents(String::new());
    assert_eq!(listed(state.go_up()), "/Documents");
    assert!(state.at_jail_root());
    assert!(state.go_up().is_none());
    state.current_path = "/Documents/".to_string();
    assert!(!state.at_jail_root());
    assert_eq!(listed(state.go_up()), "/Documents");
    state.current_path = "/tmp".to_string();
    assert_eq!(listed(state.go_up()), "/Documents");
    state.current_path = "/private/var/x".to_string();
    assert_eq!(listed(state.go_up()), "/private/var");
}

#[test]
fn there_is_no_way_up_from_an_empty_path() {
    let mut state = state_at("");
    assert!(!state.at_jail_root());
    assert!(state.go_up().is_none());
    assert_eq!(state.current_path, "");
    state.current_path = "DCIM".to_string();
    assert_eq!(listed(state.go_up()), "/");
}

#[test]
fn the_way_up_undoes_the_way_in() {
    let mut state = state_at("/DCIM");
    assert_eq!(listed(state.open_item(1)), "/DCIM/Dir");
    assert_eq!(listed(state.go_up()), "/DCIM");
    assert_eq!(state.current_path, "/DCIM");
}

#[test]
fn the_path_bar_is_followed() {
    let mut state = state_at("/typed/by hand");
    match state.go_to_path() {
        AfcCommands::ListDirectory(path) => assert_eq!(path, "/typed/by hand"),
        _ => panic!("not a listing"),
    }
    assert_eq!(state.current_path, "/typed/by hand");
    assert_eq!(state.status_message, "Loading directory...");
}

#[test]
fn uploads_go_to_the_current_directory() {
    let mut state = state_at("/Books");
    match state.upload_file(PathBuf::from("/home/me/x.epub"), "x.epub") {
        AfcCommands::UploadFile(local, remote) => {
            assert_eq!(local, PathBuf::from("/home/me/x.epub"));
            assert_eq!(remote, "/Books/x.epub");
        }
        _ => panic!("not an upload"),
    }
    assert_eq!(state.status_message, "");
    match state.upload_folder(PathBuf::from("/home/me/lib"), Some("lib".to_string())) {
        Some(AfcCommands::UploadDirectory(local, remote)) => {
            assert_eq!(local, PathBuf::from("/home/me/lib"));
            assert_eq!(remote, "/Books/lib");
        }
        _ => panic!("not an upload"),
    }
    assert_eq!(state.status_message, "Starting upload of folder lib...");
    assert!(state.upload_folder(PathBuf::from("/"), None).is_none());
    assert_eq!(state.status_message, "Error: Could not get folder name.");
}

#[test]
fn downloads_go_by_the_kind_of_the_item() {
    let mut state = state_at("/Books");
    assert!(!state.has_selection());
    assert!(matches!(state.press_download(), Download::Nothing));
    state.click_item(0);
    assert!(state.has_selection());
    match state.press_download() {
        Download::File(name, remote) => {
            assert_eq!((name.as_str(), remote.as_str()), ("b.txt", "/Books/b.txt"));
            match state.start_file_download(&name, remote, PathBuf::from("/tmp/b")) {
                AfcCommands::DownloadFile(remote, local) => {
                    assert_eq!(remote, "/Books/b.txt");
                    assert_eq!(local.base, PathBuf::from("/tmp/b"));
                    assert!(local.below.is_empty());
                }
                _ => panic!("not a download"),
            }
        }
        _ => panic!("not a file"),
    }
    assert_eq!(state.status_message, "Starting download of file b.txt...");
    state.click_item(1);
    match state.press_download() {
        Download::Folder(name, remote) => {
            assert_eq!((name.as_str(), remote.as_str()), ("Dir", "/Books/Dir"));
            match state.start_folder_download(&name, remote, PathBuf::from("/tmp")) {
                AfcCommands::DownloadDirectory(remote, local) => {
                    assert_eq!(remote, "/Books/Dir");
                    assert_eq!(local.base, PathBuf::from("/tmp"));
                    assert_eq!(local.below, vec!["Dir"]);
                }
                _ => panic!("not a download"),
            }
        }
        _ => panic!("not a folder"),
    }
    assert_eq!(state.status_message, "Starting download of folder Dir...");
}

#[test]
fn a_selection_that_is_not_listed_is_missing() {
    let mut state = state_at("/");
    state.selected_item = Some("c.txt".to_string());
    assert!(matches!(state.press_download(), Download::Missing));
    assert_eq!(state.status_message, "Error: Could not find selected item info.");
    state.selected_item = Some("a.txt".to_string());
    state.directory_listing = Some(Err("gone".to_string()));
    assert!(matches!(state.press_download(), Download::Missing));
    state.directory_listing = None;
    assert!(matches!(state.press_download(), Download::Missing));
}

#[test]
fn the_first_item_of_a_name_counts() {
    let mut state = state_at("/");
    state.directory_listing =
        Some(Ok(vec![item("x", 1, 0, "S_IFDIR"), item("x", 1, 0, "S_IFREG")]));
    state.click_item(1);
    assert!(matches!(state.press_download(), Download::Folder(_, _)));
}

#[test]
fn deletion_takes_the_selected_item() {
    let mut state = state_at("/Books");
    assert!(state.delete_selected().is_none());
    state.click_item(2);
    match state.delete_selected() {
        Some(AfcCommands::DeletePath(path)) => assert_eq!(path, "/Books/a.txt"),
        _ => panic!("not a deletion"),
    }
}

#[test]
fn rows_show_name_size_and_time() {
    let mut state = state_at("/");
    state.click_item(1);
    let row = state.row(0).unwrap();
    assert_eq!(row.label, "📄 b.txt");
    assert_eq!(row.size, "1.5 KB");
    assert_eq!(row.modified, "2023-11-14 22:13");
    assert!(!row.is_dir);
    assert!(!row.selected);
    let row = state.row(1).unwrap();
    assert_eq!(row.label, "📁 Dir");
    assert_eq!(row.size, "--");
    assert_eq!(row.modified, "1970-01-01 00:00");
    assert!(row.is_dir);
    assert!(row.selected);
    let row = state.row(2).unwrap();
    assert_eq!(row.size, "10 B");
    assert_eq!(row.modified, "1969-12-31 23:59");
    assert!(state.row(3).is_none());
    state.directory_listing = None;
    assert!(state.row(0).is_none());
}

#[test]
fn rows_of_the_earliest_and_the_latest_time() {
    let mut state = state_at("/");
    state.directory_listing = Some(Ok(vec![
        item("first", 0, i64::MIN, "S_IFREG"),
        item("last", 0, i64::MAX, "S_IFREG"),
    ]));
    assert_eq!(state.row(0).unwrap().modified, "1677-09-21 00:12");
    assert_eq!(state.row(1).unwrap().modified, "2262-04-11 23:47");
}

#[test]
fn a_row_takes_the_text_of_its_time() {
    let row = item_row(&item("x", 2048, 5, "S_IFLNK"), "some time".to_string(), true);
    assert_eq!(row.label, "📄 x");
    assert_eq!(row.size, "2.0 KB");
    assert_eq!(row.modified, "some time");
    assert!(!row.is_dir);
    assert!(row.selected);
}

#[test]
fn only_directories_are_entered() {
    let mut state = state_at("/");
    assert!(state.open_item(0).is_none());
    assert!(state.open_item(9).is_none());
    assert_eq!(state.current_path, "/");
    assert_eq!(listed(state.open_item(1)), "/Dir");
    assert_eq!(state.current_path, "/Dir");
    assert_eq!(state.status_message, "Loading directory...");
    state.click_item(9);
    assert!(state.selected_item.is_none());
    state.directory_listing = Some(Err("gone".to_string()));
    state.click_item(0);
    assert!(state.selected_item.is_none());
    assert!(state.open_item(0).is_none());
}

#[test]
fn windows_rules_hold_on_windows() {
    let mut state = state_at("/Books");
    state.host = Host::Windows;
    assert_eq!(listed(state.open_item(1)), r"/Books\Dir");
    assert_eq!(listed(state.go_up()), "/Books");
    state.click_item(2);
    match state.delete_selected() {
        Some(AfcCommands::DeletePath(path)) => assert_eq!(path, r"/Books\a.txt"),
        _ => panic!("not a deletion"),
    }
    state.afc_mode = AfcMode::Documents(String::new());
    state.current_path = r"/Documents\Inbox".to_string();
    assert_eq!(listed(state.go_up()), "/Documents");
}

#[test]
fn the_listing_panel_follows_the_listing() {
    let mut state = state_at("/");
    assert!(matches!(state.listing_panel(), ListingPanel::Rows(3)));
    state.directory_listing = Some(Ok(Vec::new()));
    assert!(matches!(state.listing_panel(), ListingPanel::Rows(0)));
    state.directory_listing = Some(Err("gone".to_string()));
    assert!(matches!(state.listing_panel(), ListingPanel::Failed(e) if e == "gone"));
    state.directory_listing = None;
    assert!(matches!(state.listing_panel(), ListingPanel::Loading));
}
