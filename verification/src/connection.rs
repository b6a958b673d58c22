//! The screen on which the connection to a device is made.

use idevice::usbmuxd::UsbmuxdDevice;
use vstd::prelude::*;

use crate::app::{AppModel, MyApp};
use crate::commands::{self, AfcCommandModel, AfcCommands, AfcMode, AppCommands, ModeModel};
use crate::name_map::{self, NameMap};
use crate::state::{AfcModel, AfcState};
use crate::text::{self, contains, decimal_text, joined, to_lowercase};

verus! {

/// An app to choose: what is shown for it and its bundle identifier.
#[derive(Debug)]
pub struct AppChoice {
    pub label: String,
    pub id: String,
}

/// The model of [`AppChoice`].
#[verifier::ext_equal]
pub struct ChoiceModel {
    pub label: Seq<char>,
    pub id: Seq<char>,
}

impl View for AppChoice {
    type V = ChoiceModel;

    open spec fn view(&self) -> ChoiceModel {
        ChoiceModel { label: self.label@, id: self.id@ }
    }
}

/// The apps that answer to what was typed.
#[derive(Debug)]
pub struct FoundApps {
    /// Says how many there are.
    pub count: String,
    pub choices: Vec<AppChoice>,
    /// Whether something was typed and no app answers to it.
    pub none_match: bool,
}

/// What is shown of the installed apps.
#[derive(Debug)]
pub enum AppsPanel {
    Found(FoundApps),
    /// The list could not be had; says why.
    Failed(String),
    /// The list was asked for.
    Loading,
    /// The list was not asked for yet.
    Waiting,
}

/// An app with the texts by which it is found: its name and its identifier in lower case.
#[verifier::ext_equal]
pub struct SearchedApp {
    pub app: (Seq<char>, String),
    pub name: Seq<char>,
    pub id: Seq<char>,
}

/// The apps with the texts by which they are found.
pub open spec fn searched(apps: Seq<(Seq<char>, String)>) -> Seq<SearchedApp> {
    Seq::new(
        apps.len(),
        |i: int|
            SearchedApp {
                app: apps[i],
                name: text::lowercase(apps[i].0),
                id: text::lowercase(apps[i].1@),
            },
    )
}

/// The apps with the given texts.
pub open spec fn searched_with(
    apps: Seq<(Seq<char>, String)>,
    names: Seq<String>,
    ids: Seq<String>,
) -> Seq<SearchedApp> {
    Seq::new(apps.len(), |i: int| SearchedApp { app: apps[i], name: names[i]@, id: ids[i]@ })
}

/// Whether an app answers to what was typed: its name or its identifier holds it.
pub open spec fn answers_to(app: SearchedApp, typed: Seq<char>) -> bool {
    ||| typed.len() == 0
    ||| text::occurs_in(typed, app.name)
    ||| text::occurs_in(typed, app.id)
}

/// The apps that answer to what was typed.
pub open spec fn answering(apps: Seq<SearchedApp>, typed: Seq<char>) -> Seq<SearchedApp> {
    apps.filter(|app: SearchedApp| answers_to(app, typed))
}

/// What is shown for an app.
pub open spec fn choice_of(searched: SearchedApp) -> ChoiceModel {
    let (name, id) = searched.app;
    ChoiceModel { label: name + " ("@ + id@ + ")"@, id: id@ }
}

/// The model of a list of choices.
pub open spec fn choices_view(choices: Seq<AppChoice>) -> Seq<ChoiceModel> {
    choices.map_values(|choice: AppChoice| choice@)
}

impl FoundApps {
    /// Whether this is what is to be shown of the given apps when `typed` is looked for.
    pub open spec fn shows(self, apps: Seq<SearchedApp>, typed: Seq<char>) -> bool {
        let matching = answering(apps, typed);
        &&& choices_view(self.choices@) == matching.map_values(|app: SearchedApp| choice_of(app))
        &&& self.count@ == text::decimal(matching.len()) + " apps found:"@
        &&& self.none_match == (matching.len() == 0 && typed.len() > 0)
    }
}

impl AfcModel {
    /// Whether what is to be opened belongs to an app.
    pub open spec fn requires_bundle_id(self) -> bool {
        self.afc_mode is Documents || self.afc_mode is Container
    }

    /// Whether a connection can be asked for: not without an app where one is needed.
    pub open spec fn can_connect(self) -> bool {
        self.requires_bundle_id() ==> self.bundle_id_input.len() > 0
    }

    /// The state after an app was picked.
    pub open spec fn picking(self, id: Seq<char>) -> AfcModel {
        AfcModel { bundle_id_input: id, ..self }
    }

    /// What a connection opens: the kind that is chosen, of the app that was typed.
    pub open spec fn mode_to_open(self) -> ModeModel {
        match self.afc_mode {
            ModeModel::Documents(_) => ModeModel::Documents(self.bundle_id_input),
            ModeModel::Container(_) => ModeModel::Container(self.bundle_id_input),
            other => other,
        }
    }
}

impl AppModel {
    /// Whether the list of installed apps is to be asked for.
    pub open spec fn wants_apps(self) -> bool {
        &&& self.afc_state.requires_bundle_id()
        &&& self.afc_state.installed_apps is None
        &&& !self.afc_state.apps_loading
        &&& self.chosen_device() is Some
    }

    /// The state after the list of installed apps was asked for.
    pub open spec fn asking_for_apps(self) -> AppModel {
        AppModel {
            afc_state: AfcModel {
                apps_loading: true,
                status_message: "Loading installed apps..."@,
                ..self.afc_state
            },
            ..self
        }
    }
}

proof fn lemma_filter_one_more<A>(s: Seq<A>, pred: spec_fn(A) -> bool, n: int)
    requires
        0 <= n < s.len(),
    ensures
        s.take(n + 1).filter(pred) == if pred(s[n]) {
            s.take(n).filter(pred).push(s[n])
        } else {
            s.take(n).filter(pred)
        },
{
    reveal(Seq::filter);
    assert(s.take(n + 1).drop_last() =~= s.take(n));
}

/// Law: as long as nothing is typed every app is shown.
pub proof fn nothing_typed_shows_every_app(apps: Seq<SearchedApp>, typed: Seq<char>)
    requires
        typed.len() == 0,
    ensures
        answering(apps, typed) == apps,
    decreases apps.len(),
{
    reveal(Seq::filter);
    if apps.len() > 0 {
        nothing_typed_shows_every_app(apps.drop_last(), typed);
        assert(answering(apps, typed) =~= apps);
    }
}

/// Apps of different names stay of different names.
proof fn lemma_shown_once(apps: Seq<SearchedApp>, typed: Seq<char>)
    requires
        forall|i: int, j: int|
            0 <= i < j < apps.len() ==> (#[trigger] apps[i]).app.0 != (#[trigger] apps[j]).app.0,
    ensures
        ({
            let shown = answering(apps, typed);
            forall|i: int, j: int|
                0 <= i < j < shown.len() ==> (#[trigger] shown[i]).app.0 != (
                #[trigger] shown[j]).app.0
        }),
    decreases apps.len(),
{
    reveal(Seq::filter);
    if apps.len() > 0 {
        let init = apps.drop_last();
        lemma_shown_once(init, typed);
        let before = answering(init, typed);
        let shown = answering(apps, typed);
        assert forall|i: int, j: int| 0 <= i < j < shown.len() implies (#[trigger] shown[i]).app.0
            != (#[trigger] shown[j]).app.0 by {
            assert(shown[i] == before[i]);
            if j < before.len() {
                assert(shown[j] == before[j]);
            } else {
                init.lemma_filter_contains_rev(|app: SearchedApp| answers_to(app, typed), before[i]);
                let k = choose|k: int| 0 <= k < init.len() && init[k] == before[i];
                assert(apps[k] == before[i]);
                assert(shown[j] == apps.last());
            }
        }
    }
}

/// Law: no app is shown twice.
pub proof fn each_app_is_shown_once(apps: Seq<(Seq<char>, String)>, typed: Seq<char>)
    requires
        name_map::distinct_names(apps),
    ensures
        ({
            let shown = answering(searched(apps), typed);
            forall|i: int, j: int|
                0 <= i < j < shown.len() ==> (#[trigger] shown[i]).app.0 != (
                #[trigger] shown[j]).app.0
        }),
{
    let all = searched(apps);
    assert forall|i: int, j: int| 0 <= i < j < all.len() implies (#[trigger] all[i]).app.0 != (
    #[trigger] all[j]).app.0 by {
        assert(apps[i].0 != apps[j].0);
    }
    lemma_shown_once(all, typed);
}

/// Law: an app that is picked stays among those that are shown, and a connection to it can then be
/// asked for, unless its identifier is empty.
pub proof fn picked_app_stays(state: AfcModel, apps: Seq<(Seq<char>, String)>, i: int)
    requires
        0 <= i < apps.len(),
    ensures
        ({
            let id = apps[i].1@;
            let after = state.picking(id);
            &&& answering(searched(apps), text::lowercase(after.bundle_id_input)).contains(
                searched(apps)[i],
            )
            &&& id.len() > 0 ==> after.can_connect()
            &&& after.afc_mode is Documents ==> after.mode_to_open() == ModeModel::Documents(id)
            &&& after.afc_mode is Container ==> after.mode_to_open() == ModeModel::Container(id)
        }),
{
    broadcast use vstd::seq_lib::group_filter_ensures;

    let all = searched(apps);
    let typed = text::lowercase(apps[i].1@);
    let pred = |app: SearchedApp| answers_to(app, typed);
    assert(typed.subrange(0, 0int + typed.len()) =~= typed);
    assert(text::occurs_in(typed, all[i].id));
    assert(pred(all[i]));
}

/// The apps that answer to what was typed, as they are shown. Each app is found by the name and
/// the identifier that `names` and `ids` hold in its place.
pub fn find_among(
    apps: &NameMap<String>,
    names: &Vec<String>,
    ids: &Vec<String>,
    typed: &str,
) -> (found: FoundApps)
    requires
        names@.len() == apps@.len(),
        ids@.len() == apps@.len(),
    ensures
        found.shows(searched_with(apps@, names@, ids@), typed@),
        name_map::distinct_names(apps@),
{
    let mut choices: Vec<AppChoice> = Vec::new();
    let ghost all = searched_with(apps@, names@, ids@);
    let ghost pred = |app: SearchedApp| answers_to(app, typed@);
    let ghost show = |app: SearchedApp| choice_of(app);
    let mut i: usize = 0;
    proof {
        reveal(Seq::filter);
        assert(all.take(0).filter(pred) =~= seq![]);
        assert(choices_view(choices@) =~= seq![]);
    }
    while i < apps.len()
        invariant
            i <= apps@.len(),
            names@.len() == apps@.len(),
            ids@.len() == apps@.len(),
            all == searched_with(apps@, names@, ids@),
            pred == (|app: SearchedApp| answers_to(app, typed@)),
            show == (|app: SearchedApp| choice_of(app)),
            choices_view(choices@) =~= all.take(i as int).filter(pred).map_values(show),
        decreases apps@.len() - i,
    {
        let name = apps.name(i);
        let id = apps.value(i);
        proof {
            lemma_filter_one_more(all, pred, i as int);
        }
        if typed.is_empty() || contains(names[i].as_str(), typed) || contains(
            ids[i].as_str(),
            typed,
        ) {
            let ghost before = choices@;
            let label = joined(
                joined(joined(name.as_str(), " (").as_str(), id.as_str()).as_str(),
                ")",
            );
            choices.push(AppChoice { label, id: id.clone() });
            proof {
                let shown = all.take(i as int).filter(pred);
                assert(choices_view(choices@) =~= choices_view(before).push(choices@.last()@));
                assert(choices@.last()@ == show(all[i as int]));
                assert(shown.push(all[i as int]).map_values(show) =~= shown.map_values(show).push(
                    show(all[i as int]),
                ));
            }
        }
        i += 1;
    }
    proof {
        assert(all.take(i as int) =~= all);
        assert(choices_view(choices@).len() == answering(all, typed@).len());
    }
    let count = joined(decimal_text(choices.len() as u128).as_str(), " apps found:");
    let none_match = choices.len() == 0 && !typed.is_empty();
    FoundApps { count, choices, none_match }
}

/// The apps that answer to what was typed, in whatever case, as they are shown.
pub fn find_apps(apps: &NameMap<String>, input: &str) -> (found: FoundApps)
    ensures
        found.shows(searched(apps@), text::lowercase(input@)),
        name_map::distinct_names(apps@),
{
    let mut names: Vec<String> = Vec::new();
    let mut ids: Vec<String> = Vec::new();
    let mut i: usize = 0;
    while i < apps.len()
        invariant
            i <= apps@.len(),
            names@.len() == i,
            ids@.len() == i,
            forall|k: int|
                0 <= k < i ==> (#[trigger] names@[k])@ == text::lowercase(apps@[k].0),
            forall|k: int| 0 <= k < i ==> (#[trigger] ids@[k])@ == text::lowercase(apps@[k].1@),
        decreases apps@.len() - i,
    {
        names.push(to_lowercase(apps.name(i).as_str()));
        ids.push(to_lowercase(apps.value(i).as_str()));
        i += 1;
    }
    proof {
        assert(searched_with(apps@, names@, ids@) =~= searched(apps@));
    }
    find_among(apps, &names, &ids, to_lowercase(input).as_str())
}

impl AfcState {
    /// Whether what is to be opened belongs to an app.
    pub fn requires_bundle_id(&self) -> (required: bool)
        ensures
            required == self@.requires_bundle_id(),
    {
        match self.afc_mode {
            AfcMode::Documents(_) => true,
            AfcMode::Container(_) => true,
            _ => false,
        }
    }

    /// Whether a connection can be asked for.
    pub fn can_connect(&self) -> (possible: bool)
        ensures
            possible == self@.can_connect(),
    {
        !self.requires_bundle_id() || !self.bundle_id_input.as_str().is_empty()
    }

    /// Picks an app by its identifier.
    pub fn pick_app(&mut self, id: String)
        ensures
            final(self)@ == old(self)@.picking(id@),
    {
        self.bundle_id_input = id;
    }

    /// What is shown of the installed apps.
    pub fn apps_panel(&self) -> (panel: AppsPanel)
        ensures
            match self@.installed_apps {
                Some(Ok(apps)) => {
                    &&& panel matches AppsPanel::Found(found)
                    &&& found.shows(searched(apps), text::lowercase(self@.bundle_id_input))
                    &&& name_map::distinct_names(apps)
                },
                Some(Err(e)) => {
                    &&& panel matches AppsPanel::Failed(text)
                    &&& text@ == "Error loading apps: "@ + e
                },
                None => if self@.apps_loading {
                    panel is Loading
                } else {
                    panel is Waiting
                },
            },
    {
        match &self.installed_apps {
            Some(Ok(apps)) => AppsPanel::Found(find_apps(apps, self.bundle_id_input.as_str())),
            Some(Err(e)) => AppsPanel::Failed(joined("Error loading apps: ", e.as_str())),
            None => if self.apps_loading {
                AppsPanel::Loading
            } else {
                AppsPanel::Waiting
            },
        }
    }
}

impl MyApp {
    /// A handle of the chosen device, if it is there.
    fn device_handle(&self) -> (device: Option<UsbmuxdDevice>)
        ensures
            device == self@.chosen_device(),
    {
        match &self.devices {
            Some(devices) => match devices.get(self.selected_device.as_str()) {
                Some(device) => Some(device.clone()),
                None => None,
            },
            None => None,
        }
    }

    /// Asks for the list of installed apps where it is needed, was not asked for and is not there.
    pub fn request_apps(&mut self) -> (request: Option<AppCommands>)
        ensures
            if old(self)@.wants_apps() {
                &&& final(self)@ == old(self)@.asking_for_apps()
                &&& request == Some(
                    AppCommands::GetInstalledApps(old(self)@.chosen_device()->Some_0),
                )
            } else {
                final(self)@ == old(self)@ && request is None
            },
    {
        if !self.afc_state.requires_bundle_id() || self.afc_state.installed_apps.is_some()
            || self.afc_state.apps_loading {
            return None;
        }
        match self.device_handle() {
            Some(device) => {
                self.afc_state.apps_loading = true;
                self.afc_state.status_message = "Loading installed apps...".to_owned();
                Some(AppCommands::GetInstalledApps(device))
            },
            None => None,
        }
    }

    /// Asks for a connection to the chosen device.
    pub fn connect(&mut self) -> (request: Option<AfcCommands>)
        ensures
            match old(self)@.chosen_device() {
                Some(device) if old(self)@.afc_state.can_connect() => {
                    &&& final(self)@ == (AppModel {
                        afc_state: AfcModel {
                            status_message: "Connecting..."@,
                            ..old(self)@.afc_state
                        },
                        ..old(self)@
                    })
                    &&& commands::command_view(request) == Some(
                        AfcCommandModel::Connect(device, old(self)@.afc_state.mode_to_open()),
                    )
                },
                _ => final(self)@ == old(self)@ && request is None,
            },
    {
        if !self.afc_state.can_connect() {
            return None;
        }
        match self.device_handle() {
            Some(device) => {
                let mode = match &self.afc_state.afc_mode {
                    AfcMode::Root => AfcMode::Root,
                    AfcMode::Documents(_) => AfcMode::Documents(
                        self.afc_state.bundle_id_input.clone(),
                    ),
                    AfcMode::Container(_) => AfcMode::Container(
                        self.afc_state.bundle_id_input.clone(),
                    ),
                    AfcMode::CrashReports => AfcMode::CrashReports,
                };
                self.afc_state.status_message = "Connecting...".to_owned();
                Some(AfcCommands::Connect(device, mode))
            },
            None => None,
        }
    }
}

} // verus!
