//! The state of the whole program: the devices, the one that is chosen, and its files.

use idevice::usbmuxd::UsbmuxdDevice;
use vstd::prelude::*;

use crate::commands::{self, AfcCommandModel, AfcCommands, GuiCommands, GuiModel};
use crate::name_map::{self, NameMap};
use crate::remote_path::Host;
use crate::state::{AfcModel, AfcState};
use crate::text::joined;

verus! {

/// The state of the program.
#[derive(Debug)]
pub struct MyApp {
    pub devices: Option<NameMap<UsbmuxdDevice>>,
    /// What is shown in place of the devices.
    pub devices_placeholder: String,
    /// The name of the chosen device; empty if none is chosen.
    pub selected_device: String,
    pub afc_state: AfcState,
    pub show_logs: bool,
}

/// The model of [`MyApp`].
#[verifier::ext_equal]
pub struct AppModel {
    pub devices: Option<Seq<(Seq<char>, UsbmuxdDevice)>>,
    pub devices_placeholder: Seq<char>,
    pub selected_device: Seq<char>,
    pub afc_state: AfcModel,
    pub show_logs: bool,
}

impl View for MyApp {
    type V = AppModel;

    open spec fn view(&self) -> AppModel {
        AppModel {
            devices: match self.devices {
                Some(devices) => Some(devices@),
                None => None,
            },
            devices_placeholder: self.devices_placeholder@,
            selected_device: self.selected_device@,
            afc_state: self.afc_state@,
            show_logs: self.show_logs,
        }
    }
}

/// The screens between which the state decides.
#[derive(Clone, Copy, PartialEq, Eq, Structural, Debug)]
pub enum Screen {
    /// No device is chosen.
    Default,
    /// A device is chosen and not connected.
    Connection,
    /// The files of a device are shown.
    Explorer,
}

/// What the top of the window shows of the devices.
#[derive(Clone, Copy, PartialEq, Eq, Structural, Debug)]
pub enum DeviceBar {
    /// The placeholder text.
    Placeholder,
    /// The names of the devices, to choose from.
    Choice,
}

/// Which transfer the bottom of the window shows beside the status message.
#[derive(Clone, Copy, PartialEq, Eq, Structural, Debug)]
pub enum StatusBar {
    Upload,
    Download,
    Message,
}

impl AppModel {
    /// The state at the start.
    pub open spec fn initial(host: Host) -> AppModel {
        AppModel {
            devices: None,
            devices_placeholder: "Loading..."@,
            selected_device: seq![],
            afc_state: AfcModel::fresh(host),
            show_logs: false,
        }
    }

    /// The device that is chosen, if it is there.
    pub open spec fn chosen_device(self) -> Option<UsbmuxdDevice> {
        match self.devices {
            Some(devices) => name_map::lookup(devices, self.selected_device),
            None => None,
        }
    }

    /// Whether the chosen device is missing from the devices found.
    pub open spec fn loses_device(self, found: Seq<(Seq<char>, UsbmuxdDevice)>) -> bool {
        self.selected_device.len() > 0 && !name_map::has_name(found, self.selected_device)
    }

    /// Whether the one device found is chosen for want of another choice.
    pub open spec fn adopts_device(self, found: Seq<(Seq<char>, UsbmuxdDevice)>) -> bool {
        found.len() == 1 && (self.selected_device.len() == 0 || self.loses_device(found))
    }

    /// The state after the given devices were found.
    pub open spec fn found(self, found: Seq<(Seq<char>, UsbmuxdDevice)>) -> AppModel {
        AppModel {
            selected_device: if self.adopts_device(found) {
                found[0].0
            } else if self.loses_device(found) {
                seq![]
            } else {
                self.selected_device
            },
            afc_state: if self.adopts_device(found) {
                AfcModel::fresh(self.afc_state.host)
            } else if self.loses_device(found) {
                AfcModel {
                    status_message: "Device disconnected"@,
                    ..AfcModel::fresh(self.afc_state.host)
                }
            } else {
                self.afc_state
            },
            devices: if found.len() == 0 {
                None
            } else {
                Some(found)
            },
            devices_placeholder: if found.len() == 0 {
                "No devices detected"@
            } else {
                self.devices_placeholder
            },
            ..self
        }
    }

    /// The state after a report of a background task.
    pub open spec fn received(self, message: GuiModel) -> AppModel {
        match message {
            GuiModel::NoUsbmuxd(e) => AppModel {
                devices_placeholder: "Failed to connect to usbmuxd: "@ + e,
                ..self
            },
            GuiModel::GetDevicesFailure(e) => AppModel {
                devices_placeholder: "Failed to get device list: "@ + e,
                ..self
            },
            GuiModel::Devices(found) => self.found(found),
            GuiModel::InstalledApps(apps) => AppModel {
                afc_state: AfcModel {
                    installed_apps: Some(apps),
                    apps_loading: false,
                    ..self.afc_state
                },
                ..self
            },
            GuiModel::Afc(message) => AppModel {
                afc_state: self.afc_state.received(message),
                ..self
            },
        }
    }

    /// The requests that follow a report of a background task.
    pub open spec fn requests(self, message: GuiModel) -> Seq<AfcCommandModel> {
        match message {
            GuiModel::Devices(found) => {
                let leaving: Seq<AfcCommandModel> = if self.loses_device(found) {
                    seq![AfcCommandModel::Disconnect]
                } else {
                    seq![]
                };
                if self.adopts_device(found) {
                    leaving.push(AfcCommandModel::Disconnect)
                } else {
                    leaving
                }
            },
            GuiModel::Afc(message) => match self.afc_state.listed_after(message) {
                Some(path) => seq![AfcCommandModel::ListDirectory(path)],
                None => seq![],
            },
            _ => seq![],
        }
    }
}

impl MyApp {
    /// The state at the start.
    pub fn new(host: Host) -> (app: Self)
        ensures
            app@ == AppModel::initial(host),
    {
        MyApp {
            devices: None,
            devices_placeholder: "Loading...".to_owned(),
            selected_device: String::new(),
            afc_state: AfcState::new(host),
            show_logs: false,
        }
    }

    /// Takes in the devices that were found.
    fn take_devices(&mut self, found: NameMap<UsbmuxdDevice>) -> (requests: Vec<AfcCommands>)
        ensures
            final(self)@ == old(self)@.found(found@),
            commands::commands_view(requests@) == old(self)@.requests(GuiModel::Devices(found@)),
    {
        let mut requests: Vec<AfcCommands> = Vec::new();
        let ghost start = self@;
        proof {
            assert(commands::commands_view(requests@) =~= seq![]);
        }
        if !self.selected_device.as_str().is_empty() && !found.contains_name(
            self.selected_device.as_str(),
        ) {
            self.selected_device = String::new();
            self.afc_state = AfcState::new(self.afc_state.host);
            requests.push(AfcCommands::Disconnect);
            self.afc_state.status_message = "Device disconnected".to_owned();
            proof {
                assert(commands::commands_view(requests@) =~= seq![AfcCommandModel::Disconnect]);
            }
        }
        let ghost leaving = commands::commands_view(requests@);
        if self.selected_device.as_str().is_empty() && found.len() == 1 {
            self.selected_device = found.name(0).clone();
            self.afc_state = AfcState::new(self.afc_state.host);
            requests.push(AfcCommands::Disconnect);
            proof {
                assert(commands::commands_view(requests@) =~= leaving.push(
                    AfcCommandModel::Disconnect,
                ));
            }
        } else {
            proof {
                assert(self@.selected_device =~= start.found(found@).selected_device);
            }
        }
        if found.is_empty() {
            self.devices = None;
            self.devices_placeholder = "No devices detected".to_owned();
        } else {
            self.devices = Some(found);
        }
        requests
    }

    /// Takes in a report of a background task, and returns the requests that follow.
    pub fn receive(&mut self, message: GuiCommands) -> (requests: Vec<AfcCommands>)
        ensures
            final(self)@ == old(self)@.received(message@),
            commands::commands_view(requests@) == old(self)@.requests(message@),
    {
        let mut requests: Vec<AfcCommands> = Vec::new();
        proof {
            assert(commands::commands_view(requests@) =~= seq![]);
        }
        match message {
            GuiCommands::NoUsbmuxd(e) => {
                self.devices_placeholder = joined("Failed to connect to usbmuxd: ", e.as_str());
            },
            GuiCommands::GetDevicesFailure(e) => {
                self.devices_placeholder = joined("Failed to get device list: ", e.as_str());
            },
            GuiCommands::Devices(found) => {
                return self.take_devices(found);
            },
            GuiCommands::InstalledApps(apps) => {
                self.afc_state.installed_apps = Some(apps);
                self.afc_state.apps_loading = false;
            },
            GuiCommands::Afc(message) => {
                match self.afc_state.receive(message) {
                    Some(request) => {
                        requests.push(request);
                        proof {
                            assert(commands::commands_view(requests@) =~= seq![request@]);
                        }
                    },
                    None => {},
                }
            },
        }
        requests
    }

    /// Which screen is shown.
    pub fn screen(&self) -> (screen: Screen)
        ensures
            screen == if self@.afc_state.is_connected {
                Screen::Explorer
            } else if self@.selected_device.len() > 0 {
                Screen::Connection
            } else {
                Screen::Default
            },
    {
        if !self.selected_device.as_str().is_empty() && !self.afc_state.is_connected {
            Screen::Connection
        } else if self.afc_state.is_connected {
            Screen::Explorer
        } else {
            Screen::Default
        }
    }

    /// What the top of the window shows of the devices.
    pub fn device_bar(&self) -> (bar: DeviceBar)
        ensures
            bar == if self@.devices matches Some(devices) && devices.len() > 0 {
                DeviceBar::Choice
            } else {
                DeviceBar::Placeholder
            },
    {
        match &self.devices {
            Some(devices) => {
                if devices.is_empty() {
                    DeviceBar::Placeholder
                } else {
                    DeviceBar::Choice
                }
            },
            None => DeviceBar::Placeholder,
        }
    }

    /// Chooses a device by name. The device that was open before is left.
    pub fn choose_device(&mut self, name: String) -> (request: AfcCommands)
        ensures
            final(self)@ == (AppModel {
                selected_device: name@,
                afc_state: AfcModel::fresh(old(self)@.afc_state.host),
                ..old(self)@
            }),
            request@ == AfcCommandModel::Disconnect,
    {
        self.selected_device = name;
        self.afc_state = AfcState::new(self.afc_state.host);
        AfcCommands::Disconnect
    }

    /// Which transfer the bottom of the window shows: an upload before a download.
    pub fn status_bar(&self) -> (bar: StatusBar)
        ensures
            bar == if self@.afc_state.upload_progress is Some {
                StatusBar::Upload
            } else if self@.afc_state.download_progress is Some {
                StatusBar::Download
            } else {
                StatusBar::Message
            },
    {
        if self.afc_state.upload_progress.is_some() {
            StatusBar::Upload
        } else if self.afc_state.download_progress.is_some() {
            StatusBar::Download
        } else {
            StatusBar::Message
        }
    }
}

} // verus!
