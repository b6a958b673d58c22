//! What the screens and the background tasks say to each other.

use idevice::usbmuxd::UsbmuxdDevice;
use std::path::PathBuf;
use vstd::prelude::*;

use crate::name_map::NameMap;

verus! {

/// A request to the task that looks for devices.
#[derive(Debug)]
pub enum IdeviceCommands {
    GetDevices,
}

/// What part of a device's storage is opened.
#[derive(Debug, PartialEq)]
pub enum AfcMode {
    Root,
    Documents(String),
    Container(String),
    CrashReports,
}

/// The model of [`AfcMode`].
#[verifier::ext_equal]
pub enum ModeModel {
    Root,
    Documents(Seq<char>),
    Container(Seq<char>),
    CrashReports,
}

impl View for AfcMode {
    type V = ModeModel;

    open spec fn view(&self) -> ModeModel {
        match *self {
            AfcMode::Root => ModeModel::Root,
            AfcMode::Documents(id) => ModeModel::Documents(id@),
            AfcMode::Container(id) => ModeModel::Container(id@),
            AfcMode::CrashReports => ModeModel::CrashReports,
        }
    }
}

impl Clone for AfcMode {
    fn clone(&self) -> (mode: Self)
        ensures
            mode == *self,
    {
        match self {
            AfcMode::Root => AfcMode::Root,
            AfcMode::Documents(id) => AfcMode::Documents(id.clone()),
            AfcMode::Container(id) => AfcMode::Container(id.clone()),
            AfcMode::CrashReports => AfcMode::CrashReports,
        }
    }
}

impl Default for AfcMode {
    fn default() -> (mode: Self)
        ensures
            mode == AfcMode::Root,
    {
        AfcMode::Root
    }
}

/// A place on the host: a path, and the names that lead on from it.
#[derive(Debug)]
pub struct LocalPlace {
    pub base: PathBuf,
    pub below: Vec<String>,
}

/// The model of [`LocalPlace`].
#[verifier::ext_equal]
pub struct PlaceModel {
    pub base: PathBuf,
    pub below: Seq<Seq<char>>,
}

impl View for LocalPlace {
    type V = PlaceModel;

    open spec fn view(&self) -> PlaceModel {
        PlaceModel {
            base: self.base,
            below: Seq::new(self.below@.len(), |i: int| self.below@[i]@),
        }
    }
}

impl PlaceModel {
    /// The place that a path names.
    pub open spec fn at(base: PathBuf) -> PlaceModel {
        PlaceModel { base, below: seq![] }
    }

    /// The place of a name in the directory at this place.
    pub open spec fn child(self, name: Seq<char>) -> PlaceModel {
        PlaceModel { below: self.below.push(name), ..self }
    }
}

impl LocalPlace {
    /// The place that a path names.
    pub fn at(base: PathBuf) -> (place: LocalPlace)
        ensures
            place@ == PlaceModel::at(base),
    {
        let place = LocalPlace { base, below: Vec::new() };
        proof {
            assert(place@ =~= PlaceModel::at(base));
        }
        place
    }

    /// The place of a name in the directory at this place.
    pub fn child(&self, name: &str) -> (place: LocalPlace)
        ensures
            place@ == self@.child(name@),
    {
        let mut place = self.clone();
        place.below.push(name.to_owned());
        proof {
            assert(place@ =~= self@.child(name@));
        }
        place
    }
}

impl Clone for LocalPlace {
    fn clone(&self) -> (place: Self)
        ensures
            place@ == self@,
    {
        let mut below: Vec<String> = Vec::new();
        let mut i: usize = 0;
        while i < self.below.len()
            invariant
                i <= self.below@.len(),
                below@ == self.below@.take(i as int),
            decreases self.below@.len() - i,
        {
            below.push(self.below[i].clone());
            i += 1;
            proof {
                assert(below@ =~= self.below@.take(i as int));
            }
        }
        proof {
            assert(below@ =~= self.below@);
        }
        LocalPlace { base: self.base.clone(), below }
    }
}

/// A request to the task that works on the device's files.
#[derive(Debug)]
pub enum AfcCommands {
    Connect(UsbmuxdDevice, AfcMode),
    Disconnect,
    ListDirectory(String),
    DownloadFile(String, LocalPlace),
    UploadFile(PathBuf, String),
    CreateDirectory(String),
    DeletePath(String),
    DownloadDirectory(String, LocalPlace),
    UploadDirectory(PathBuf, String),
}

/// The model of [`AfcCommands`].
#[verifier::ext_equal]
pub enum AfcCommandModel {
    Connect(UsbmuxdDevice, ModeModel),
    Disconnect,
    ListDirectory(Seq<char>),
    DownloadFile(Seq<char>, PlaceModel),
    UploadFile(PathBuf, Seq<char>),
    CreateDirectory(Seq<char>),
    DeletePath(Seq<char>),
    DownloadDirectory(Seq<char>, PlaceModel),
    UploadDirectory(PathBuf, Seq<char>),
}

impl View for AfcCommands {
    type V = AfcCommandModel;

    open spec fn view(&self) -> AfcCommandModel {
        match *self {
            AfcCommands::Connect(device, mode) => AfcCommandModel::Connect(device, mode@),
            AfcCommands::Disconnect => AfcCommandModel::Disconnect,
            AfcCommands::ListDirectory(path) => AfcCommandModel::ListDirectory(path@),
            AfcCommands::DownloadFile(remote, local) => AfcCommandModel::DownloadFile(
                remote@,
                local@,
            ),
            AfcCommands::UploadFile(local, remote) => AfcCommandModel::UploadFile(local, remote@),
            AfcCommands::CreateDirectory(path) => AfcCommandModel::CreateDirectory(path@),
            AfcCommands::DeletePath(path) => AfcCommandModel::DeletePath(path@),
            AfcCommands::DownloadDirectory(remote, local) => AfcCommandModel::DownloadDirectory(
                remote@,
                local@,
            ),
            AfcCommands::UploadDirectory(local, remote) => AfcCommandModel::UploadDirectory(
                local,
                remote@,
            ),
        }
    }
}

/// The model of a list of commands.
pub open spec fn commands_view(commands: Seq<AfcCommands>) -> Seq<AfcCommandModel> {
    commands.map_values(|command: AfcCommands| command@)
}

/// The model of a command that may be missing.
pub open spec fn command_view(command: Option<AfcCommands>) -> Option<AfcCommandModel> {
    match command {
        Some(command) => Some(command@),
        None => None,
    }
}

/// A request to the task that lists the installed apps.
#[derive(Debug)]
pub enum AppCommands {
    GetInstalledApps(UsbmuxdDevice),
}

/// What is known of a file on the device.
#[derive(Debug)]
pub struct FileInfo {
    /// Size in bytes.
    pub size: usize,
    /// Time of the last change, in nanoseconds since the Unix epoch.
    pub modified: i64,
    /// The kind of file, such as `S_IFREG` or `S_IFDIR`.
    pub st_ifmt: String,
}

impl Clone for FileInfo {
    fn clone(&self) -> (info: Self)
        ensures
            info == *self,
    {
        FileInfo { size: self.size, modified: self.modified, st_ifmt: self.st_ifmt.clone() }
    }
}

impl FileInfo {
    /// Whether the file is a directory.
    pub open spec fn is_directory(self) -> bool {
        self.st_ifmt@ == "S_IFDIR"@
    }

    /// Decides whether the file is a directory.
    pub fn is_dir(&self) -> (dir: bool)
        ensures
            dir == self.is_directory(),
    {
        crate::text::same_text(self.st_ifmt.as_str(), "S_IFDIR")
    }
}

/// An item of a directory on the device.
#[derive(Debug)]
pub struct AfcItem {
    pub name: String,
    pub info: FileInfo,
}

impl Clone for AfcItem {
    fn clone(&self) -> (item: Self)
        ensures
            item == *self,
    {
        AfcItem { name: self.name.clone(), info: self.info.clone() }
    }
}

/// What the background tasks report to the screens. Errors come as text.
#[derive(Debug)]
pub enum GuiCommands {
    NoUsbmuxd(String),
    GetDevicesFailure(String),
    Devices(NameMap<UsbmuxdDevice>),
    Afc(GuiAfcCommands),
    InstalledApps(Result<NameMap<String>, String>),
}

/// What the task that works on files reports to the screens.
#[derive(Debug)]
pub enum GuiAfcCommands {
    ConnectionStatus(Result<(), String>),
    DirectoryListing(Result<Vec<AfcItem>, String>),
    OperationStatus(Result<String, String>),
    /// The file's path, the part that is done and the whole.
    UploadProgress(String, usize, usize),
    /// The file's path, the part that is done and the whole.
    DownloadProgress(String, usize, usize),
}

/// The model of a result whose error is text.
pub open spec fn text_result(result: Result<String, String>) -> Result<Seq<char>, Seq<char>> {
    match result {
        Ok(text) => Ok(text@),
        Err(e) => Err(e@),
    }
}

/// The model of a listing.
pub open spec fn listing_view(listing: Result<Vec<AfcItem>, String>) -> Result<
    Seq<AfcItem>,
    Seq<char>,
> {
    match listing {
        Ok(items) => Ok(items@),
        Err(e) => Err(e@),
    }
}

/// The model of the installed apps: display names and bundle identifiers.
pub open spec fn apps_view(apps: Result<NameMap<String>, String>) -> Result<
    Seq<(Seq<char>, String)>,
    Seq<char>,
> {
    match apps {
        Ok(apps) => Ok(apps@),
        Err(e) => Err(e@),
    }
}

/// The model of [`GuiAfcCommands`].
#[verifier::ext_equal]
pub enum GuiAfcModel {
    ConnectionStatus(Result<(), Seq<char>>),
    DirectoryListing(Result<Seq<AfcItem>, Seq<char>>),
    OperationStatus(Result<Seq<char>, Seq<char>>),
    UploadProgress(Seq<char>, usize, usize),
    DownloadProgress(Seq<char>, usize, usize),
}

impl View for GuiAfcCommands {
    type V = GuiAfcModel;

    open spec fn view(&self) -> GuiAfcModel {
        match *self {
            GuiAfcCommands::ConnectionStatus(Ok(done)) => GuiAfcModel::ConnectionStatus(Ok(done)),
            GuiAfcCommands::ConnectionStatus(Err(e)) => GuiAfcModel::ConnectionStatus(Err(e@)),
            GuiAfcCommands::DirectoryListing(listing) => GuiAfcModel::DirectoryListing(
                listing_view(listing),
            ),
            GuiAfcCommands::OperationStatus(result) => GuiAfcModel::OperationStatus(
                text_result(result),
            ),
            GuiAfcCommands::UploadProgress(path, done, total) => GuiAfcModel::UploadProgress(
                path@,
                done,
                total,
            ),
            GuiAfcCommands::DownloadProgress(path, done, total) => GuiAfcModel::DownloadProgress(
                path@,
                done,
                total,
            ),
        }
    }
}

/// The model of [`GuiCommands`].
#[verifier::ext_equal]
pub enum GuiModel {
    NoUsbmuxd(Seq<char>),
    GetDevicesFailure(Seq<char>),
    Devices(Seq<(Seq<char>, UsbmuxdDevice)>),
    Afc(GuiAfcModel),
    InstalledApps(Result<Seq<(Seq<char>, String)>, Seq<char>>),
}

impl View for GuiCommands {
    type V = GuiModel;

    open spec fn view(&self) -> GuiModel {
        match *self {
            GuiCommands::NoUsbmuxd(e) => GuiModel::NoUsbmuxd(e@),
            GuiCommands::GetDevicesFailure(e) => GuiModel::GetDevicesFailure(e@),
            GuiCommands::Devices(devices) => GuiModel::Devices(devices@),
            GuiCommands::Afc(message) => GuiModel::Afc(message@),
            GuiCommands::InstalledApps(apps) => GuiModel::InstalledApps(apps_view(apps)),
        }
    }
}

} // verus!
