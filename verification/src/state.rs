//! The state behind the screens, and what the reports of the background tasks do to it.

use vstd::prelude::*;

use crate::commands::{
    self, AfcCommandModel, AfcCommands, AfcItem, AfcMode, GuiAfcCommands, GuiAfcModel, ModeModel,
};
use crate::name_map::NameMap;
use crate::remote_path::Host;
use crate::text::joined;

verus! {

/// The column that orders a listing.
#[derive(Clone, Copy, PartialEq, Eq, Structural, Debug)]
pub enum SortColumn {
    Name,
    Size,
    Modified,
}

/// The direction in which a column orders a listing.
#[derive(Clone, Copy, PartialEq, Eq, Structural, Debug)]
pub enum SortDirection {
    Ascending,
    Descending,
}

impl Default for SortColumn {
    fn default() -> (column: Self)
        ensures
            column == SortColumn::Name,
    {
        SortColumn::Name
    }
}

impl Default for SortDirection {
    fn default() -> (direction: Self)
        ensures
            direction == SortDirection::Ascending,
    {
        SortDirection::Ascending
    }
}

/// How far a transfer has come.
#[derive(Debug)]
pub struct Progress {
    pub path: String,
    pub done: usize,
    pub total: usize,
}

/// The model of [`Progress`].
#[verifier::ext_equal]
pub struct ProgressModel {
    pub path: Seq<char>,
    pub done: usize,
    pub total: usize,
}

impl View for Progress {
    type V = ProgressModel;

    open spec fn view(&self) -> ProgressModel {
        ProgressModel { path: self.path@, done: self.done, total: self.total }
    }
}

/// What is known of the device's files and how they are shown.
#[derive(Debug)]
pub struct AfcState {
    /// Whose rules hold for paths.
    pub host: Host,
    pub is_connected: bool,
    pub current_path: String,
    pub directory_listing: Option<Result<Vec<AfcItem>, String>>,
    pub status_message: String,
    pub selected_item: Option<String>,
    pub new_folder_name: String,
    pub show_new_folder_popup: bool,
    pub afc_mode: AfcMode,
    pub bundle_id_input: String,
    pub installed_apps: Option<Result<NameMap<String>, String>>,
    pub apps_loading: bool,
    pub upload_progress: Option<Progress>,
    pub download_progress: Option<Progress>,
    pub sort_column: SortColumn,
    pub sort_direction: SortDirection,
}

/// The model of [`AfcState`].
#[verifier::ext_equal]
pub struct AfcModel {
    pub host: Host,
    pub is_connected: bool,
    pub current_path: Seq<char>,
    pub directory_listing: Option<Result<Seq<AfcItem>, Seq<char>>>,
    pub status_message: Seq<char>,
    pub selected_item: Option<Seq<char>>,
    pub new_folder_name: Seq<char>,
    pub show_new_folder_popup: bool,
    pub afc_mode: ModeModel,
    pub bundle_id_input: Seq<char>,
    pub installed_apps: Option<Result<Seq<(Seq<char>, String)>, Seq<char>>>,
    pub apps_loading: bool,
    pub upload_progress: Option<ProgressModel>,
    pub download_progress: Option<ProgressModel>,
    pub sort_column: SortColumn,
    pub sort_direction: SortDirection,
}

impl View for AfcState {
    type V = AfcModel;

    open spec fn view(&self) -> AfcModel {
        AfcModel {
            host: self.host,
            is_connected: self.is_connected,
            current_path: self.current_path@,
            directory_listing: match self.directory_listing {
                Some(listing) => Some(commands::listing_view(listing)),
                None => None,
            },
            status_message: self.status_message@,
            selected_item: match self.selected_item {
                Some(name) => Some(name@),
                None => None,
            },
            new_folder_name: self.new_folder_name@,
            show_new_folder_popup: self.show_new_folder_popup,
            afc_mode: self.afc_mode@,
            bundle_id_input: self.bundle_id_input@,
            installed_apps: match self.installed_apps {
                Some(apps) => Some(commands::apps_view(apps)),
                None => None,
            },
            apps_loading: self.apps_loading,
            upload_progress: match self.upload_progress {
                Some(progress) => Some(progress@),
                None => None,
            },
            download_progress: match self.download_progress {
                Some(progress) => Some(progress@),
                None => None,
            },
            sort_column: self.sort_column,
            sort_direction: self.sort_direction,
        }
    }
}

impl AfcModel {
    /// The state before anything was done with a device.
    pub open spec fn fresh(host: Host) -> AfcModel {
        AfcModel {
            host,
            is_connected: false,
            current_path: seq![],
            directory_listing: None,
            status_message: seq![],
            selected_item: None,
            new_folder_name: seq![],
            show_new_folder_popup: false,
            afc_mode: ModeModel::Root,
            bundle_id_input: seq![],
            installed_apps: None,
            apps_loading: false,
            upload_progress: None,
            download_progress: None,
            sort_column: SortColumn::Name,
            sort_direction: SortDirection::Ascending,
        }
    }

    /// The directory that bounds the way up: an app's documents live in a directory of their own.
    pub open spec fn jail_root(self) -> Seq<char> {
        if self.afc_mode is Documents {
            "/Documents"@
        } else {
            "/"@
        }
    }

    /// Whether the transfers that are shown have something to transfer.
    pub open spec fn progress_is_sound(self) -> bool {
        &&& self.upload_progress matches Some(progress) ==> progress.total > 0
        &&& self.download_progress matches Some(progress) ==> progress.total > 0
    }

    /// The state after a report of the task that works on files.
    pub open spec fn received(self, message: GuiAfcModel) -> AfcModel {
        match message {
            GuiAfcModel::ConnectionStatus(Ok(_)) => AfcModel {
                is_connected: true,
                current_path: self.jail_root(),
                ..self
            },
            GuiAfcModel::ConnectionStatus(Err(e)) => AfcModel {
                status_message: "Connection failed: "@ + e,
                ..self
            },
            GuiAfcModel::DirectoryListing(listing) => AfcModel {
                directory_listing: Some(listing),
                selected_item: None,
                status_message: "Connected"@,
                ..self
            },
            GuiAfcModel::UploadProgress(path, done, total) => if total > 0 {
                AfcModel {
                    status_message: "Uploading "@ + path + "..."@,
                    upload_progress: Some(ProgressModel { path, done, total }),
                    ..self
                }
            } else {
                self
            },
            GuiAfcModel::DownloadProgress(path, done, total) => if total > 0 {
                AfcModel {
                    status_message: "Downloading "@ + path + "..."@,
                    download_progress: Some(ProgressModel { path, done, total }),
                    upload_progress: None,
                    ..self
                }
            } else {
                self
            },
            GuiAfcModel::OperationStatus(result) => AfcModel {
                status_message: match result {
                    Ok(text) => text,
                    Err(e) => "Error: "@ + e,
                },
                upload_progress: None,
                download_progress: None,
                ..self
            },
        }
    }

    /// The directory that is listed anew after a report of the task that works on files: on a new
    /// connection and after every operation.
    pub open spec fn listed_after(self, message: GuiAfcModel) -> Option<Seq<char>> {
        match message {
            GuiAfcModel::ConnectionStatus(Ok(_)) => Some(self.jail_root()),
            GuiAfcModel::OperationStatus(_) => Some(self.current_path),
            _ => None,
        }
    }
}

impl AfcState {
    /// The state before anything was done with a device.
    pub fn new(host: Host) -> (state: Self)
        ensures
            state@ == AfcModel::fresh(host),
    {
        AfcState {
            host,
            is_connected: false,
            current_path: String::new(),
            directory_listing: None,
            status_message: String::new(),
            selected_item: None,
            new_folder_name: String::new(),
            show_new_folder_popup: false,
            afc_mode: AfcMode::Root,
            bundle_id_input: String::new(),
            installed_apps: None,
            apps_loading: false,
            upload_progress: None,
            download_progress: None,
            sort_column: SortColumn::Name,
            sort_direction: SortDirection::Ascending,
        }
    }

    /// The directory that bounds the way up.
    pub fn jail_root(&self) -> (root: &'static str)
        ensures
            root@ == self@.jail_root(),
    {
        match self.afc_mode {
            AfcMode::Documents(_) => "/Documents",
            _ => "/",
        }
    }

    /// Takes in a report of the task that works on files, and returns the request that follows.
    pub fn receive(&mut self, message: GuiAfcCommands) -> (request: Option<AfcCommands>)
        ensures
            final(self)@ == old(self)@.received(message@),
            commands::command_view(request) == match old(self)@.listed_after(message@) {
                Some(path) => Some(AfcCommandModel::ListDirectory(path)),
                None => None,
            },
    {
        match message {
            GuiAfcCommands::ConnectionStatus(Ok(_)) => {
                self.is_connected = true;
                self.current_path = self.jail_root().to_owned();
                Some(AfcCommands::ListDirectory(self.current_path.clone()))
            },
            GuiAfcCommands::ConnectionStatus(Err(e)) => {
                self.status_message = joined("Connection failed: ", e.as_str());
                None
            },
            GuiAfcCommands::DirectoryListing(listing) => {
                self.directory_listing = Some(listing);
                self.selected_item = None;
                self.status_message = "Connected".to_owned();
                None
            },
            GuiAfcCommands::UploadProgress(path, done, total) => {
                if total > 0 {
                    self.status_message = joined(joined("Uploading ", path.as_str()).as_str(), "...");
                    self.upload_progress = Some(Progress { path, done, total });
                }
                None
            },
            GuiAfcCommands::DownloadProgress(path, done, total) => {
                if total > 0 {
                    self.status_message = joined(
                        joined("Downloading ", path.as_str()).as_str(),
                        "...",
                    );
                    self.download_progress = Some(Progress { path, done, total });
                    self.upload_progress = None;
                }
                None
            },
            GuiAfcCommands::OperationStatus(result) => {
                self.status_message = match result {
                    Ok(text) => text,
                    Err(e) => joined("Error: ", e.as_str()),
                };
                self.upload_progress = None;
                self.download_progress = None;
                Some(AfcCommands::ListDirectory(self.current_path.clone()))
            },
        }
    }
}

} // verus!
