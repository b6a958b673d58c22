//! The screen that shows the files of a device.

use std::path::PathBuf;
use vstd::prelude::*;

use crate::commands::{
    self, AfcCommandModel, AfcCommands, AfcItem, LocalPlace, PlaceModel,
};
use crate::listing::{self, sorted_items};
use crate::outside::{self, format_time, TIME_FORMAT};
use crate::remote_path::{self, join, parent};
use crate::size::{self, format_size};
use crate::state::{AfcModel, AfcState, SortColumn, SortDirection};
use crate::text::{joined, same_text};

verus! {

/// A row of the listing.
#[derive(Debug)]
pub struct Row {
    pub label: String,
    pub size: String,
    pub modified: String,
    pub is_dir: bool,
    pub selected: bool,
}

/// What is shown in place of the listing.
#[derive(Debug)]
pub enum ListingPanel {
    /// So many rows.
    Rows(usize),
    /// The listing could not be had; says why.
    Failed(String),
    /// The listing is awaited.
    Loading,
}

/// What the button for downloads asks for.
#[derive(Debug)]
pub enum Download {
    /// Nothing is selected.
    Nothing,
    /// What is selected is not in the listing.
    Missing,
    /// A directory: its name and its path on the device.
    Folder(String, String),
    /// A file: its name and its path on the device.
    File(String, String),
}

/// The model of [`Download`].
#[verifier::ext_equal]
pub enum DownloadModel {
    Nothing,
    Missing,
    Folder(Seq<char>, Seq<char>),
    File(Seq<char>, Seq<char>),
}

impl View for Download {
    type V = DownloadModel;

    open spec fn view(&self) -> DownloadModel {
        match *self {
            Download::Nothing => DownloadModel::Nothing,
            Download::Missing => DownloadModel::Missing,
            Download::Folder(name, remote) => DownloadModel::Folder(name@, remote@),
            Download::File(name, remote) => DownloadModel::File(name@, remote@),
        }
    }
}

/// The place of the first item with a name, or -1.
pub open spec fn first_named(items: Seq<AfcItem>, name: Seq<char>) -> int
    decreases items.len(),
{
    if items.len() == 0 {
        -1
    } else if first_named(items.drop_last(), name) >= 0 {
        first_named(items.drop_last(), name)
    } else if items.last().name@ == name {
        items.len() - 1
    } else {
        -1
    }
}

/// The text of a row's first column.
pub open spec fn label_text(item: AfcItem) -> Seq<char> {
    (if item.info.is_directory() {
        "📁 "@
    } else {
        "📄 "@
    }) + item.name@
}

/// The text of a row's second column: directories show no size.
pub open spec fn size_column(item: AfcItem) -> Seq<char> {
    if item.info.is_directory() {
        "--"@
    } else {
        size::size_text(item.info.size as nat)
    }
}

impl Row {
    /// Whether this is what is to be shown of an item, with the text of its time.
    pub open spec fn shows(self, item: AfcItem, modified: Seq<char>, selected: bool) -> bool {
        &&& self.label@ == label_text(item)
        &&& self.size@ == size_column(item)
        &&& self.modified@ == modified
        &&& self.is_dir == item.info.is_directory()
        &&& self.selected == selected
    }
}

/// What is shown of an item, with the text of its time.
pub fn item_row(item: &AfcItem, modified: String, selected: bool) -> (row: Row)
    ensures
        row.shows(*item, modified@, selected),
{
    let is_dir = item.info.is_dir();
    let icon = if is_dir {
        "📁 "
    } else {
        "📄 "
    };
    let size = if is_dir {
        "--".to_owned()
    } else {
        format_size(item.info.size)
    };
    Row { label: joined(icon, item.name.as_str()), size, modified, is_dir, selected }
}

impl AfcModel {
    /// The items that are listed.
    pub open spec fn items(self) -> Seq<AfcItem> {
        match self.directory_listing {
            Some(Ok(items)) => items,
            _ => seq![],
        }
    }

    /// The path of an item of the current directory.
    pub open spec fn path_of(self, name: Seq<char>) -> Seq<char> {
        remote_path::join_of(self.host, self.current_path, name)
    }

    /// The state after the head of a column was pressed: the column orders the listing upwards,
    /// or turns round if it already did.
    pub open spec fn header_pressed(self, column: SortColumn) -> AfcModel {
        AfcModel {
            sort_column: column,
            sort_direction: if self.sort_column == column {
                listing::turned(self.sort_direction)
            } else {
                SortDirection::Ascending
            },
            ..self
        }
    }

    /// The state on the way to another directory.
    pub open spec fn going_to(self, path: Seq<char>) -> AfcModel {
        AfcModel { status_message: "Loading directory..."@, current_path: path, ..self }
    }

    /// Where the way up leads, if there is one.
    pub open spec fn way_up(self) -> Option<Seq<char>> {
        if self.current_path == self.jail_root() {
            None
        } else {
            remote_path::climbed(self.host, self.jail_root(), self.current_path)
        }
    }

    /// What the button for downloads asks for.
    pub open spec fn download(self) -> DownloadModel {
        match self.selected_item {
            None => DownloadModel::Nothing,
            Some(name) => {
                let at = first_named(self.items(), name);
                if at < 0 {
                    DownloadModel::Missing
                } else if self.items()[at].info.is_directory() {
                    DownloadModel::Folder(name, self.path_of(name))
                } else {
                    DownloadModel::File(name, self.path_of(name))
                }
            },
        }
    }
}

impl AfcState {
    /// Handles a press on the head of a column.
    pub fn press_header(&mut self, column: SortColumn)
        ensures
            final(self)@ == old(self)@.header_pressed(column),
    {
        if self.sort_column == column {
            self.sort_direction = match self.sort_direction {
                SortDirection::Ascending => SortDirection::Descending,
                SortDirection::Descending => SortDirection::Ascending,
            };
        } else {
            self.sort_column = column;
            self.sort_direction = SortDirection::Ascending;
        }
    }

    /// Opens the window that asks for the name of a new folder.
    pub fn open_new_folder(&mut self)
        ensures
            final(self)@ == (AfcModel { show_new_folder_popup: true, ..old(self)@ }),
    {
        self.show_new_folder_popup = true;
    }

    /// Asks for a folder of the name that was typed, and closes the window.
    pub fn create_folder(&mut self) -> (request: AfcCommands)
        ensures
            final(self)@ == (AfcModel {
                show_new_folder_popup: false,
                new_folder_name: seq![],
                ..old(self)@
            }),
            request@ == AfcCommandModel::CreateDirectory(
                old(self)@.path_of(old(self)@.new_folder_name),
            ),
    {
        let path = join(self.host, self.current_path.as_str(), self.new_folder_name.as_str());
        self.show_new_folder_popup = false;
        self.new_folder_name = String::new();
        AfcCommands::CreateDirectory(path)
    }

    /// Closes the window that asks for the name of a new folder.
    pub fn cancel_new_folder(&mut self)
        ensures
            final(self)@ == (AfcModel {
                show_new_folder_popup: false,
                new_folder_name: seq![],
                ..old(self)@
            }),
    {
        self.show_new_folder_popup = false;
        self.new_folder_name = String::new();
    }

    /// Whether the current directory is the one that bounds the way up.
    pub fn at_jail_root(&self) -> (there: bool)
        ensures
            there == (self@.current_path == self@.jail_root()),
    {
        same_text(self.current_path.as_str(), self.jail_root())
    }

    /// Goes one directory up, though not past the one that bounds the way.
    pub fn go_up(&mut self) -> (request: Option<AfcCommands>)
        ensures
            match old(self)@.way_up() {
                Some(path) => {
                    &&& final(self)@ == old(self)@.going_to(path)
                    &&& commands::command_view(request) == Some(
                        AfcCommandModel::ListDirectory(path),
                    )
                },
                None => final(self)@ == old(self)@ && request is None,
            },
    {
        if self.at_jail_root() {
            return None;
        }
        let root = self.jail_root();
        match parent(self.host, self.current_path.as_str()) {
            Some(dir) => {
                self.status_message = "Loading directory...".to_owned();
                self.current_path = if dir.as_str().as_bytes().len() < root.as_bytes().len() {
                    root.to_owned()
                } else {
                    dir
                };
                Some(AfcCommands::ListDirectory(self.current_path.clone()))
            },
            None => None,
        }
    }

    /// Goes to the path that stands in the path bar.
    pub fn go_to_path(&mut self) -> (request: AfcCommands)
        ensures
            final(self)@ == old(self)@.going_to(old(self)@.current_path),
            request@ == AfcCommandModel::ListDirectory(old(self)@.current_path),
    {
        self.status_message = "Loading directory...".to_owned();
        AfcCommands::ListDirectory(self.current_path.clone())
    }

    /// Asks to upload a file of the host into the current directory, under its own name.
    pub fn upload_file(&self, local: PathBuf, file_name: &str) -> (request: AfcCommands)
        ensures
            request@ == AfcCommandModel::UploadFile(local, self@.path_of(file_name@)),
    {
        AfcCommands::UploadFile(local, join(self.host, self.current_path.as_str(), file_name))
    }

    /// Asks to upload a folder of the host into the current directory, under its own name, if it
    /// has one.
    pub fn upload_folder(&mut self, local: PathBuf, folder_name: Option<String>) -> (request:
        Option<AfcCommands>)
        ensures
            match folder_name {
                Some(name) => {
                    &&& final(self)@ == (AfcModel {
                        status_message: "Starting upload of folder "@ + name@ + "..."@,
                        ..old(self)@
                    })
                    &&& commands::command_view(request) == Some(
                        AfcCommandModel::UploadDirectory(local, old(self)@.path_of(name@)),
                    )
                },
                None => {
                    &&& final(self)@ == (AfcModel {
                        status_message: "Error: Could not get folder name."@,
                        ..old(self)@
                    })
                    &&& request is None
                },
            },
    {
        match folder_name {
            Some(name) => {
                self.status_message = joined(
                    joined("Starting upload of folder ", name.as_str()).as_str(),
                    "...",
                );
                Some(
                    AfcCommands::UploadDirectory(
                        local,
                        join(self.host, self.current_path.as_str(), name.as_str()),
                    ),
                )
            },
            None => {
                self.status_message = "Error: Could not get folder name.".to_owned();
                None
            },
        }
    }

    /// Whether the buttons that need a selected item can be pressed.
    pub fn has_selection(&self) -> (selected: bool)
        ensures
            selected == (self@.selected_item is Some),
    {
        self.selected_item.is_some()
    }

    /// Finds the first item of a name.
    fn find_item(&self, name: &str) -> (at: Option<usize>)
        ensures
            match at {
                Some(at) => first_named(self@.items(), name@) == at && at < self@.items().len(),
                None => first_named(self@.items(), name@) == -1,
            },
    {
        match &self.directory_listing {
            Some(Ok(items)) => {
                let ghost all = self@.items();
                let mut i: usize = 0;
                proof {
                    assert(all.take(0) =~= seq![]);
                }
                while i < items.len()
                    invariant
                        i <= items@.len(),
                        all == items@,
                        all == self@.items(),
                        first_named(all.take(i as int), name@) == -1,
                    decreases items@.len() - i,
                {
                    proof {
                        assert(all.take(i + 1).drop_last() =~= all.take(i as int));
                        assert(all.take(i + 1).last() == all[i as int]);
                    }
                    if same_text(items[i].name.as_str(), name) {
                        proof {
                            lemma_first_named_stays(all, name@, i + 1);
                        }
                        return Some(i);
                    }
                    i += 1;
                }
                proof {
                    assert(all.take(i as int) =~= all);
                }
                None
            },
            _ => None,
        }
    }

    /// Handles a press on the button for downloads.
    pub fn press_download(&mut self) -> (download: Download)
        ensures
            download@ == old(self)@.download(),
            final(self)@ == if download is Missing {
                AfcModel {
                    status_message: "Error: Could not find selected item info."@,
                    ..old(self)@
                }
            } else {
                old(self)@
            },
    {
        let name = match &self.selected_item {
            Some(name) => name.clone(),
            None => {
                return Download::Nothing;
            },
        };
        let at = self.find_item(name.as_str());
        match (at, &self.directory_listing) {
            (Some(i), Some(Ok(items))) => {
                let remote = join(self.host, self.current_path.as_str(), name.as_str());
                if items[i].info.is_dir() {
                    Download::Folder(name, remote)
                } else {
                    Download::File(name, remote)
                }
            },
            _ => {
                self.status_message = "Error: Could not find selected item info.".to_owned();
                Download::Missing
            },
        }
    }

    /// Asks to download a directory into the one that was picked for it, under its own name.
    pub fn start_folder_download(&mut self, name: &str, remote: String, dir: PathBuf) -> (request:
        AfcCommands)
        ensures
            final(self)@ == (AfcModel {
                status_message: "Starting download of folder "@ + name@ + "..."@,
                ..old(self)@
            }),
            request@ == AfcCommandModel::DownloadDirectory(
                remote@,
                PlaceModel::at(dir).child(name@),
            ),
    {
        self.status_message = joined(joined("Starting download of folder ", name).as_str(), "...");
        AfcCommands::DownloadDirectory(remote, LocalPlace::at(dir).child(name))
    }

    /// Asks to download a file to the place that was picked for it.
    pub fn start_file_download(&mut self, name: &str, remote: String, local: PathBuf) -> (request:
        AfcCommands)
        ensures
            final(self)@ == (AfcModel {
                status_message: "Starting download of file "@ + name@ + "..."@,
                ..old(self)@
            }),
            request@ == AfcCommandModel::DownloadFile(remote@, PlaceModel::at(local)),
    {
        self.status_message = joined(joined("Starting download of file ", name).as_str(), "...");
        AfcCommands::DownloadFile(remote, LocalPlace::at(local))
    }

    /// Asks to delete the selected item.
    pub fn delete_selected(&self) -> (request: Option<AfcCommands>)
        ensures
            commands::command_view(request) == match self@.selected_item {
                Some(name) => Some(AfcCommandModel::DeletePath(self@.path_of(name))),
                None => None,
            },
    {
        match &self.selected_item {
            Some(name) => Some(
                AfcCommands::DeletePath(join(self.host, self.current_path.as_str(), name.as_str())),
            ),
            None => None,
        }
    }

    /// Puts the listing in the order that its heads show.
    pub fn sort_listing(&mut self)
        ensures
            final(self)@ == (AfcModel {
                directory_listing: final(self)@.directory_listing,
                ..old(self)@
            }),
            match old(self)@.directory_listing {
                Some(Ok(items)) => {
                    &&& final(self)@.directory_listing matches Some(Ok(sorted))
                    &&& listing::is_sorted_from(
                        old(self)@.sort_column,
                        old(self)@.sort_direction,
                        items,
                        sorted,
                    )
                },
                other => final(self)@.directory_listing == other,
            },
    {
        let sorted = match &self.directory_listing {
            Some(Ok(items)) => sorted_items(items, self.sort_column, self.sort_direction),
            _ => {
                return ;
            },
        };
        self.directory_listing = Some(Ok(sorted));
    }

    /// What is shown in place of the listing.
    pub fn listing_panel(&self) -> (panel: ListingPanel)
        ensures
            match self@.directory_listing {
                Some(Ok(items)) => panel matches ListingPanel::Rows(n) && n == items.len(),
                Some(Err(e)) => panel matches ListingPanel::Failed(text) && text@ == e,
                None => panel is Loading,
            },
    {
        match &self.directory_listing {
            Some(Ok(items)) => ListingPanel::Rows(items.len()),
            Some(Err(e)) => ListingPanel::Failed(e.clone()),
            None => ListingPanel::Loading,
        }
    }

    /// What a row of the listing shows.
    pub fn row(&self, i: usize) -> (row: Option<Row>)
        ensures
            i >= self@.items().len() ==> row is None,
            i < self@.items().len() ==> {
                let item = self@.items()[i as int];
                &&& row matches Some(row)
                &&& row.shows(
                    item,
                    outside::time_text(item.info.modified, TIME_FORMAT@),
                    self@.selected_item == Some(item.name@),
                )
            },
    {
        let item = match &self.directory_listing {
            Some(Ok(items)) => {
                if i >= items.len() {
                    return None;
                }
                &items[i]
            },
            _ => {
                return None;
            },
        };
        let selected = match &self.selected_item {
            Some(name) => same_text(name.as_str(), item.name.as_str()),
            None => false,
        };
        Some(item_row(item, format_time(item.info.modified, TIME_FORMAT), selected))
    }

    /// Selects an item.
    pub fn click_item(&mut self, i: usize)
        ensures
            final(self)@ == if i < old(self)@.items().len() {
                AfcModel {
                    selected_item: Some(old(self)@.items()[i as int].name@),
                    ..old(self)@
                }
            } else {
                old(self)@
            },
    {
        let name = match &self.directory_listing {
            Some(Ok(items)) => {
                if i >= items.len() {
                    return ;
                }
                items[i].name.clone()
            },
            _ => {
                return ;
            },
        };
        self.selected_item = Some(name);
    }

    /// Goes into an item, if it is a directory.
    pub fn open_item(&mut self, i: usize) -> (request: Option<AfcCommands>)
        ensures
            if i < old(self)@.items().len() && old(self)@.items()[i as int].info.is_directory() {
                let path = old(self)@.path_of(old(self)@.items()[i as int].name@);
                &&& final(self)@ == old(self)@.going_to(path)
                &&& commands::command_view(request) == Some(AfcCommandModel::ListDirectory(path))
            } else {
                final(self)@ == old(self)@ && request is None
            },
    {
        let path = match &self.directory_listing {
            Some(Ok(items)) => {
                if i >= items.len() || !items[i].info.is_dir() {
                    return None;
                }
                join(self.host, self.current_path.as_str(), items[i].name.as_str())
            },
            _ => {
                return None;
            },
        };
        self.status_message = "Loading directory...".to_owned();
        self.current_path = path;
        Some(AfcCommands::ListDirectory(self.current_path.clone()))
    }
}

/// Once a name is found among the first items, further items do not matter.
proof fn lemma_first_named_stays(items: Seq<AfcItem>, name: Seq<char>, n: int)
    requires
        0 <= n <= items.len(),
        first_named(items.take(n), name) >= 0,
    ensures
        first_named(items, name) == first_named(items.take(n), name),
    decreases items.len(),
{
    if n < items.len() {
        assert(items.drop_last().take(n) =~= items.take(n));
        lemma_first_named_stays(items.drop_last(), name, n);
    } else {
        assert(items.take(n) =~= items);
    }
}

} // verus!
