//! What the pages of the window say.

use crate::app::PerihelionApp;
use crate::config::ListeningMode;
use crate::engine::ModelVariant;
use crate::model::AppModel;
use crate::status::{ModelStatus, StatusModel};
use crate::text::{decimal, decimal_text};
use vstd::prelude::*;
use vstd::string::*;

verus! {

/// Below this much memory the large model is warned of: 65.8 times two to the
/// thirtieth, rounded up to a whole byte.
pub const RAM_WARNING_BYTES: u64 = 70_652_212_020;

/// How far a download has come, for a progress bar.
#[derive(Debug)]
pub struct ProgressLine {
    pub text: String,
    pub current: u64,
    pub total: u64,
}

/// What the page of the models says of one of them.
#[derive(Debug)]
pub struct ModelCard {
    pub status_label: &'static str,
    /// The machine may have too little memory for the model.
    pub ram_warning: bool,
    pub progress: Option<ProgressLine>,
    pub error: Option<String>,
    /// There is a button to download the model, and whether it works.
    pub download: Option<bool>,
    /// There is a button to start the model, and whether it works.
    pub start: Option<bool>,
    /// There is a button to stop the model.
    pub stop: bool,
    /// There is a button to delete the model.
    pub delete: bool,
}

/// The text on the progress bar: nothing is known before the server has
/// announced a size.
pub open spec fn progress_text(file: Seq<char>, current: u64, total: u64) -> Seq<char> {
    if total > 0 {
        file + "  "@ + decimal_text((current / 1_000_000) as nat) + " / "@ + decimal_text(
            (total / 1_000_000) as nat,
        ) + " MB"@
    } else {
        "Starting..."@
    }
}

impl<E> AppModel<E> {
    /// What the page of the models says of the status.
    pub open spec fn status_label(self, variant: ModelVariant) -> Seq<char> {
        if self.is_active(variant) {
            "● Running"@
        } else {
            match self.status(variant) {
                StatusModel::Ready => "Downloaded"@,
                StatusModel::NotDownloaded => "Not downloaded"@,
                StatusModel::Downloading { .. } => "Downloading..."@,
                StatusModel::Initializing => "Starting..."@,
                StatusModel::Error(_) => "Error"@,
            }
        }
    }

    /// The machine may have too little memory for the model.
    pub open spec fn warns_of_ram(self, variant: ModelVariant) -> bool {
        variant == ModelVariant::Large && self.total_ram_bytes is Some && self.total_ram_bytes->0
            < RAM_WARNING_BYTES
    }

    /// What the main page says of the active model.
    pub open spec fn main_label(self) -> Option<Seq<char>> {
        match self.active_model {
            None => Some("none"@),
            Some(variant) => match self.status(variant) {
                StatusModel::Ready => Some("ready"@),
                StatusModel::Initializing => Some("initializing"@),
                StatusModel::Error(_) => Some("error"@),
                _ => None,
            },
        }
    }
}

impl ModelCard {
    /// The card says of the model what the state says of it.
    pub open spec fn shows<E>(&self, state: AppModel<E>, variant: ModelVariant) -> bool {
        let status = state.status(variant);
        let missing = status is NotDownloaded || status is Error;
        &&& self.status_label@ == state.status_label(variant)
        &&& self.ram_warning == state.warns_of_ram(variant)
        &&& self.progress is Some <==> status is Downloading
        &&& status matches StatusModel::Downloading { current_file, current_bytes, total_bytes }
            ==> self.progress->0.text@ == progress_text(current_file, current_bytes, total_bytes)
            && self.progress->0.current == current_bytes && self.progress->0.total == total_bytes
        &&& self.error is Some <==> status is Error
        &&& status matches StatusModel::Error(e) ==> self.error->0@ == e
        &&& self.download == if missing {
            Some(state.can_download(variant))
        } else {
            None
        }
        &&& self.start == if status is Ready && !state.is_active(variant) {
            Some(state.can_start(variant))
        } else {
            None
        }
        &&& self.stop == state.can_stop(variant)
        &&& self.delete == state.can_delete(variant)
    }
}

/// The text on the progress bar.
fn progress_line(file: &String, current: u64, total: u64) -> (line: ProgressLine)
    ensures
        line.text@ == progress_text(file@, current, total),
        line.current == current,
        line.total == total,
{
    if total > 0 {
        let mut text: String = file.clone();
        text.append("  ");
        text.append(decimal(current / 1_000_000).as_str());
        text.append(" / ");
        text.append(decimal(total / 1_000_000).as_str());
        text.append(" MB");
        ProgressLine { text, current, total }
    } else {
        ProgressLine { text: "Starting...".to_owned(), current, total }
    }
}

impl<E> PerihelionApp<E> {
    /// What the page of the models says of the status.
    fn status_label(&self, variant: ModelVariant) -> (label: &'static str)
        ensures
            label@ == self@.status_label(variant),
    {
        if self.is_active(variant) {
            return "● Running";
        }
        match self.model_status(variant) {
            ModelStatus::Ready => "Downloaded",
            ModelStatus::NotDownloaded => "Not downloaded",
            ModelStatus::Downloading { .. } => "Downloading...",
            ModelStatus::Initializing => "Starting...",
            ModelStatus::Error(_) => "Error",
        }
    }

    /// Whether the machine may have too little memory for the model.
    fn warns_of_ram(&self, variant: ModelVariant) -> (warns: bool)
        ensures
            warns == self@.warns_of_ram(variant),
    {
        match self.total_ram_bytes {
            Some(bytes) => variant == ModelVariant::Large && bytes < RAM_WARNING_BYTES,
            None => false,
        }
    }

    /// What the page of the models says of one of them.
    pub fn model_card(&self, variant: ModelVariant) -> (card: ModelCard)
        ensures
            card.shows(self@, variant),
    {
        let status_label: &'static str = self.status_label(variant);
        let ram_warning: bool = self.warns_of_ram(variant);
        let active: bool = self.is_active(variant);
        let mut card = ModelCard {
            status_label,
            ram_warning,
            progress: None,
            error: None,
            download: None,
            start: None,
            stop: false,
            delete: false,
        };
        match self.model_status(variant) {
            ModelStatus::NotDownloaded => {
                card.download = Some(self.can_download(variant));
            },
            ModelStatus::Downloading { current_file, current_bytes, total_bytes } => {
                card.progress = Some(progress_line(current_file, *current_bytes, *total_bytes));
            },
            ModelStatus::Initializing => {},
            ModelStatus::Ready => {
                card.start = if active {
                    None
                } else {
                    Some(self.can_start(variant))
                };
                card.stop = active;
                card.delete = true;
            },
            ModelStatus::Error(e) => {
                card.error = Some(e.clone());
                card.delete = true;
                card.download = Some(self.can_download(variant));
            },
        }
        card
    }

    /// What the main page says of the active model.
    pub fn main_label(&self) -> (label: Option<&'static str>)
        ensures
            match label {
                Some(text) => self@.main_label() == Some(text@),
                None => self@.main_label() is None,
            },
    {
        match self.active_model {
            None => Some("none"),
            Some(variant) => match self.model_status(variant) {
                ModelStatus::Ready => Some("ready"),
                ModelStatus::Initializing => Some("initializing"),
                ModelStatus::Error(_) => Some("error"),
                _ => None,
            },
        }
    }

    /// What the big button says.
    pub fn listen_label(&self) -> (label: &'static str)
        ensures
            label@ == if self@.is_listening {
                "On"@
            } else {
                "Off"@
            },
    {
        if self.is_listening {
            "On"
        } else {
            "Off"
        }
    }

    /// Whether the big button works.
    pub fn can_click_listen(&self) -> (can: bool)
        ensures
            can == (self@.settings.listening_mode == ListeningMode::ToggleButton),
    {
        self.settings.listening_mode == ListeningMode::ToggleButton
    }

    /// The name of the selected device.
    pub fn device_label(&self) -> (label: &str)
        ensures
            label@ == if self@.selected_device < self@.available_devices.len() {
                self@.available_devices[self@.selected_device as int]
            } else {
                "Unknown"@
            },
    {
        if self.selected_device < self.available_devices.len() {
            self.available_devices[self.selected_device].as_str()
        } else {
            "Unknown"
        }
    }
}

/// The two models are spoken of alike: what is said of one depends on its status
/// and on whether it runs, not on which it is.
pub proof fn models_are_spoken_of_alike<E>(
    left: AppModel<E>,
    right: AppModel<E>,
    a: ModelVariant,
    b: ModelVariant,
)
    requires
        left.status(a) == right.status(b),
        left.is_active(a) == right.is_active(b),
    ensures
        left.status_label(a) == right.status_label(b),
        left.active_model == Some(a) && right.active_model == Some(b) ==> left.main_label()
            == right.main_label(),
{
}

/// What is said of a model that runs, and of one that does not in each status.
pub proof fn every_status_has_its_label<E>(state: AppModel<E>, variant: ModelVariant)
    ensures
        state.active_model == Some(variant) && state.engine is Some ==> state.status_label(variant)
            == "● Running"@,
        !(state.active_model == Some(variant) && state.engine is Some) ==> {
            &&& state.status(variant) is Ready ==> state.status_label(variant) == "Downloaded"@
            &&& state.status(variant) is NotDownloaded ==> state.status_label(variant)
                == "Not downloaded"@
            &&& state.status(variant) is Downloading ==> state.status_label(variant)
                == "Downloading..."@
            &&& state.status(variant) is Initializing ==> state.status_label(variant)
                == "Starting..."@
            &&& state.status(variant) is Error ==> state.status_label(variant) == "Error"@
        },
        state.active_model is None ==> state.main_label() == Some("none"@),
        state.active_model == Some(variant) ==> {
            &&& state.status(variant) is Ready ==> state.main_label() == Some("ready"@)
            &&& state.status(variant) is Initializing ==> state.main_label() == Some(
                "initializing"@,
            )
            &&& state.status(variant) is Error ==> state.main_label() == Some("error"@)
            &&& state.status(variant) is NotDownloaded || state.status(variant) is Downloading
                ==> state.main_label() is None
        },
{
}

/// The large model is warned of exactly below 65.8 GB, of two to the thirtieth
/// bytes each; the small one never is, nor any where nothing is known.
pub proof fn little_memory_is_warned_of<E>(state: AppModel<E>, variant: ModelVariant)
    ensures
        state.warns_of_ram(variant) <==> variant == ModelVariant::Large && (
        state.total_ram_bytes matches Some(bytes) && bytes * 10 < 658 * 0x4000_0000),
{
}

/// The progress bar names the file first, and counts whole millions of bytes.
pub proof fn progress_counts_whole_millions(file: Seq<char>, current: u64, total: u64)
    ensures
        total == 0 ==> progress_text(file, current, total) == "Starting..."@,
        total > 0 ==> progress_text(file, current, total) == file + progress_text(
            Seq::empty(),
            current,
            total,
        ),
        total > 0 ==> progress_text(Seq::empty(), current, total) == "  "@ + decimal_text(
            (current as int / 1_000_000) as nat,
        ) + (" / "@ + decimal_text((total as int / 1_000_000) as nat) + " MB"@),
{
    let none = Seq::<char>::empty();
    let c = decimal_text((current / 1_000_000) as nat);
    let t = decimal_text((total / 1_000_000) as nat);
    if total > 0 {
        assert(progress_text(none, current, total) =~= "  "@ + c + (" / "@ + t + " MB"@));
        assert(progress_text(file, current, total) =~= file + ("  "@ + c + (" / "@ + t + " MB"@)));
    }
}

/// The buttons of a model do what they show: a card with a button that works is
/// the card of a model that can be downloaded, started, stopped or deleted.
pub proof fn buttons_show_what_can_be_done<E>(
    card: ModelCard,
    state: AppModel<E>,
    variant: ModelVariant,
)
    requires
        card.shows(state, variant),
    ensures
        card.download == Some(true) <==> state.can_download(variant),
        card.start == Some(true) <==> state.can_start(variant),
        card.stop <==> state.can_stop(variant),
        card.delete <==> state.can_delete(variant),
        card.download is Some <==> state.status(variant) is NotDownloaded || state.status(variant)
            is Error,
        card.start is Some || card.stop <==> state.status(variant) is Ready,
        !(card.start is Some && card.stop),
        card.error is Some <==> state.status(variant) is Error,
        state.status(variant) is Error ==> card.error->0@ == state.status(variant)->Error_0,
        card.progress is Some <==> state.status(variant) is Downloading,
        state.status(variant) is Downloading ==> card.progress->0.current == state.status(
            variant,
        )->current_bytes && card.progress->0.total == state.status(variant)->total_bytes
            && card.progress->0.text@ == progress_text(
            state.status(variant)->current_file,
            state.status(variant)->current_bytes,
            state.status(variant)->total_bytes,
        ),
        card.ram_warning <==> state.warns_of_ram(variant),
        card.status_label@ == state.status_label(variant),
{
}

}
