//! The state of the program as a value, and how each event changes it.

use crate::actions::ActionModel;
use crate::config::{factory_settings, AppConfigModel, ListeningMode, SettingsModel};
use crate::devices::device_entries;
use crate::engine::{ModelVariant, MODEL_FILES};
use crate::events::{DownloadEvent, InitEvent, TranscriptionEvent};
use crate::osc::{
    chatbox_args, message_bytes, typing_args, ArgModel, CHATBOX_INPUT_ADDRESS,
    CHATBOX_TYPING_ADDRESS,
};
use crate::status::StatusModel;
use vstd::prelude::*;

verus! {

/// The state of the program. `E` is the handle of the running engine.
pub struct AppModel<E> {
    pub view: crate::view::View,
    pub model_status_small: StatusModel,
    pub model_status_large: StatusModel,
    pub active_model: Option<ModelVariant>,
    pub download_active: bool,
    pub downloading_variant: Option<ModelVariant>,
    pub init_pending: bool,
    pub osc_listening: bool,
    pub transcription_open: bool,
    pub recognized_text: Seq<char>,
    pub is_listening: bool,
    pub status_message: Seq<char>,
    pub settings: SettingsModel,
    pub test_file_path: Seq<char>,
    pub engine: Option<E>,
    pub audio_running: bool,
    pub osc_running: bool,
    pub osc_connected: bool,
    pub available_devices: Seq<Seq<char>>,
    pub selected_device: usize,
    pub total_ram_bytes: Option<u64>,
}

/// A state and what is to be done on the way to it.
pub type Step<E> = (AppModel<E>, Seq<ActionModel>);

impl<E> AppModel<E> {
    /// What holds of every state of the program.
    pub open spec fn wf(self) -> bool {
        // A running engine belongs to the active model.
        &&& self.engine is Some ==> self.active_model is Some
        // While a model starts, it is the active one and no engine runs.
        &&& self.init_pending ==> self.active_model is Some && self.engine is None
        // A download in progress is the download of a model.
        &&& self.download_active <==> self.downloading_variant is Some
        // The OSC thread runs as long as its reports are read.
        &&& self.osc_listening == self.osc_running
        // Sound is captured as long as its transcription is read, and only
        // while the program listens.
        &&& self.audio_running == self.transcription_open
        &&& self.transcription_open ==> self.is_listening
        // A device of the list is selected.
        &&& self.selected_device < self.available_devices.len()
    }

    /// The status of a model.
    pub open spec fn status(self, variant: ModelVariant) -> StatusModel {
        match variant {
            ModelVariant::Small => self.model_status_small,
            ModelVariant::Large => self.model_status_large,
        }
    }

    /// The state with another status of a model.
    pub open spec fn with_status(self, variant: ModelVariant, status: StatusModel) -> Self {
        match variant {
            ModelVariant::Small => AppModel { model_status_small: status, ..self },
            ModelVariant::Large => AppModel { model_status_large: status, ..self },
        }
    }

    /// The state with another message to the user.
    pub open spec fn with_message(self, text: Seq<char>) -> Self {
        AppModel { status_message: text, ..self }
    }

    /// The model runs.
    pub open spec fn is_active(self, variant: ModelVariant) -> bool {
        self.active_model == Some(variant) && self.engine is Some
    }

    /// What is kept from one run of the program to the next.
    pub open spec fn config(self) -> AppConfigModel {
        AppConfigModel { settings: self.settings, selected_device: self.selected_device }
    }

    /// A message to VRChat, where there is a socket to send it from.
    pub open spec fn osc_actions(self, addr: Seq<char>, args: Seq<ArgModel>) -> Seq<ActionModel> {
        if self.osc_connected {
            seq![ActionModel::SendOsc(message_bytes(addr, args))]
        } else {
            Seq::empty()
        }
    }

    /// The typing indicator, switched.
    pub open spec fn typing_actions(self, typing: bool) -> Seq<ActionModel> {
        self.osc_actions(CHATBOX_TYPING_ADDRESS@, typing_args(typing))
    }

    /// Listening was switched on and sound is to be captured.
    pub open spec fn capture_started(self) -> Step<E> {
        if self.engine is None {
            (self.with_message("Engine not ready"@), Seq::empty())
        } else {
            (
                AppModel { transcription_open: true, audio_running: true, ..self },
                seq![ActionModel::StartCapture { device_index: self.selected_device }],
            )
        }
    }

    /// Sound is no longer to be captured.
    pub open spec fn capture_stopped(self) -> Step<E> {
        (
            AppModel { transcription_open: false, audio_running: false, ..self },
            seq![ActionModel::StopCapture],
        )
    }

    /// Listening is switched on or off. VRChat is told only of a change.
    pub open spec fn listening_set(self, on: bool) -> Step<E> {
        if self.is_listening == on {
            (self, Seq::empty())
        } else {
            let switched = AppModel { is_listening: on, ..self };
            let (state, actions) = if on {
                switched.capture_started()
            } else {
                switched.capture_stopped()
            };
            (state, actions + state.typing_actions(on))
        }
    }

    /// The text that the user sees after `text` was heard.
    pub open spec fn text_after(self, text: Seq<char>) -> Seq<char> {
        if !self.settings.append_mode {
            text
        } else if self.recognized_text.len() > 0 {
            self.recognized_text + "\n"@ + text
        } else {
            text
        }
    }

    /// `text` was heard: it is shown, sent to the chatbox unless it is empty,
    /// and copied where the user wants that.
    pub open spec fn text_appended(self, text: Seq<char>) -> Step<E> {
        let shown = AppModel { recognized_text: self.text_after(text), ..self };
        let chat = if text.len() > 0 {
            shown.osc_actions(CHATBOX_INPUT_ADDRESS@, chatbox_args(text))
        } else {
            Seq::empty()
        };
        if self.settings.auto_copy {
            let (state, copy) = shown.text_copied();
            (state, chat + copy)
        } else {
            (shown, chat)
        }
    }

    /// The text is copied.
    pub open spec fn text_copied(self) -> Step<E> {
        (
            self.with_message("Copied"@),
            seq![ActionModel::CopyToClipboard(self.recognized_text)],
        )
    }

    /// The text is cleared.
    pub open spec fn text_cleared(self) -> Self {
        AppModel { recognized_text: Seq::empty(), ..self.with_message("Cleared"@) }
    }

    /// The download of a model begins.
    pub open spec fn download_started(self, variant: ModelVariant) -> Step<E> {
        let status = StatusModel::Downloading {
            current_file: MODEL_FILES@[0]@,
            current_bytes: 0,
            total_bytes: 0,
        };
        (
            AppModel {
                downloading_variant: Some(variant),
                download_active: true,
                ..self.with_status(variant, status)
            },
            seq![ActionModel::SpawnDownload(variant)],
        )
    }

    /// The model becomes the active one and is about to start. A model that was
    /// active before is ready again, or gone, as `old_files_found` says.
    pub open spec fn init_begun(self, variant: ModelVariant, old_files_found: bool) -> Self {
        let parted = if self.active_model is Some && self.active_model->0 != variant {
            self.with_status(
                self.active_model->0,
                if old_files_found {
                    StatusModel::Ready
                } else {
                    StatusModel::NotDownloaded
                },
            )
        } else {
            self
        };
        AppModel {
            engine: None,
            active_model: Some(variant),
            init_pending: true,
            ..parted.with_status(variant, StatusModel::Initializing).with_message(
                "Initializing..."@,
            )
        }
    }

    /// A model is being started. Where `quiet_first` is set, listening ends
    /// before.
    pub open spec fn init_started(
        self,
        variant: ModelVariant,
        quiet_first: bool,
        old_files_found: bool,
    ) -> Step<E> {
        let (quiet, actions) = if quiet_first {
            self.listening_set(false)
        } else {
            (self, Seq::empty())
        };
        (
            quiet.init_begun(variant, old_files_found),
            actions + seq![ActionModel::SpawnInit { variant, settings: quiet.settings }],
        )
    }

    /// The model that the reports of a start are about.
    pub open spec fn starting_variant(self) -> ModelVariant {
        match self.active_model {
            Some(variant) => variant,
            None => ModelVariant::Small,
        }
    }

    /// A start is reported on, if any is awaited.
    pub open spec fn init_handled(self, event: Option<InitEvent<E>>) -> Self {
        if !self.init_pending {
            self
        } else {
            let variant = self.starting_variant();
            match event {
                None => self,
                Some(InitEvent::Success(engine)) => AppModel {
                    engine: Some(engine),
                    init_pending: false,
                    ..self.with_status(variant, StatusModel::Ready).with_message("Ready"@)
                },
                Some(InitEvent::Error(e)) => AppModel {
                    init_pending: false,
                    ..self.with_status(variant, StatusModel::Error(e@)).with_message(
                        "Initialization failed"@,
                    )
                },
            }
        }
    }

    /// The model that the reports of a download are about.
    pub open spec fn download_variant(self) -> ModelVariant {
        match self.downloading_variant {
            Some(variant) => variant,
            None => ModelVariant::Small,
        }
    }

    /// A download is reported on.
    pub open spec fn download_handled(self, variant: ModelVariant, event: DownloadEvent) -> Self {
        match event {
            DownloadEvent::Progress { file, bytes, total } => self.with_status(
                variant,
                StatusModel::Downloading {
                    current_file: file@,
                    current_bytes: bytes,
                    total_bytes: total,
                },
            ),
            DownloadEvent::FileDone(file) => self.with_message("Downloaded: "@ + file@),
            DownloadEvent::Error(e) => AppModel {
                downloading_variant: None,
                download_active: false,
                ..self.with_status(variant, StatusModel::Error(e@))
            },
            DownloadEvent::AllDone => AppModel {
                downloading_variant: None,
                download_active: false,
                ..self.with_status(variant, StatusModel::Ready).with_message(
                    "Download complete"@,
                )
            },
        }
    }

    /// The report is the last one of a download: it is complete, or it failed.
    pub open spec fn ends_download(event: DownloadEvent) -> bool {
        event is AllDone || event is Error
    }

    /// The reports of a download, in order; nothing is read behind the last one.
    pub open spec fn downloads_folded(
        self,
        variant: ModelVariant,
        events: Seq<DownloadEvent>,
    ) -> Self
        decreases events.len(),
    {
        if events.len() == 0 {
            self
        } else if Self::ends_download(events[0]) {
            self.download_handled(variant, events[0])
        } else {
            self.download_handled(variant, events[0]).downloads_folded(variant, events.skip(1))
        }
    }

    /// The reports of the download, if one is in progress.
    pub open spec fn downloads_handled(self, events: Seq<DownloadEvent>) -> Self {
        if self.download_active {
            self.downloads_folded(self.download_variant(), events)
        } else {
            self
        }
    }

    /// One report of a capture.
    pub open spec fn transcript_handled(self, event: TranscriptionEvent) -> Step<E> {
        match event {
            TranscriptionEvent::FinalResult(text) => self.text_appended(text@),
            TranscriptionEvent::Error(e) => (
                self.with_message("Transcription error: "@ + e@),
                Seq::empty(),
            ),
        }
    }

    /// The reports of a capture, in order.
    pub open spec fn transcripts_folded(self, events: Seq<TranscriptionEvent>) -> Step<E>
        decreases events.len(),
    {
        if events.len() == 0 {
            (self, Seq::empty())
        } else {
            let (before, actions) = self.transcripts_folded(events.drop_last());
            let (state, more) = before.transcript_handled(events.last());
            (state, actions + more)
        }
    }

    /// The reports of the capture, if one is in progress.
    pub open spec fn transcripts_handled(self, events: Seq<TranscriptionEvent>) -> Step<E> {
        if self.transcription_open {
            self.transcripts_folded(events)
        } else {
            (self, Seq::empty())
        }
    }

    /// The OSC thread is started when the mode asks for it, and stopped when
    /// the mode no longer does.
    pub open spec fn osc_ensured(self) -> Step<E> {
        if self.settings.listening_mode == ListeningMode::ToggleOsc {
            if self.osc_listening {
                (self, Seq::empty())
            } else {
                (
                    AppModel { osc_listening: true, osc_running: true, ..self },
                    seq![ActionModel::SpawnOscListener],
                )
            }
        } else {
            (
                AppModel { osc_listening: false, osc_running: false, ..self },
                if self.osc_running {
                    seq![ActionModel::StopOscListener]
                } else {
                    Seq::empty()
                },
            )
        }
    }

    /// One request of the avatar.
    pub open spec fn osc_request_handled(self, on: bool) -> Step<E> {
        let (state, actions) = self.listening_set(on);
        (
            state.with_message(
                if on {
                    "OSC: On"@
                } else {
                    "OSC: Off"@
                },
            ),
            actions,
        )
    }

    /// The requests of the avatar, in order.
    pub open spec fn osc_folded(self, requests: Seq<bool>) -> Step<E>
        decreases requests.len(),
    {
        if requests.len() == 0 {
            (self, Seq::empty())
        } else {
            let (before, actions) = self.osc_folded(requests.drop_last());
            let (state, more) = before.osc_request_handled(requests.last());
            (state, actions + more)
        }
    }

    /// The requests of the avatar, if the OSC thread runs.
    pub open spec fn osc_handled(self, requests: Seq<bool>) -> Step<E> {
        if self.osc_listening {
            self.osc_folded(requests)
        } else {
            (self, Seq::empty())
        }
    }

    /// Listening is switched on where the mode wants it always on.
    pub open spec fn listening_synced(self) -> Step<E> {
        if self.settings.listening_mode == ListeningMode::AlwaysOn && !self.is_listening
            && self.engine is Some {
            let (state, actions) = self.listening_set(true);
            (state.with_message("Always On"@), actions)
        } else {
            (self, Seq::empty())
        }
    }

    /// What a frame does before anything is drawn: the reports of the download,
    /// of the start and of the capture, then the OSC thread and its requests,
    /// then the mode that always listens.
    pub open spec fn updated(
        self,
        downloads: Seq<DownloadEvent>,
        init: Option<InitEvent<E>>,
        transcripts: Seq<TranscriptionEvent>,
        requests: Seq<bool>,
    ) -> Step<E> {
        let started = self.downloads_handled(downloads).init_handled(init);
        let (heard, a) = started.transcripts_handled(transcripts);
        let (ready, b) = heard.osc_ensured();
        let (asked, c) = ready.osc_handled(requests);
        let (state, d) = asked.listening_synced();
        (state, a + b + c + d)
    }

    /// The big button was pressed. It works only in its own mode.
    pub open spec fn listen_clicked(self) -> Step<E> {
        if self.settings.listening_mode != ListeningMode::ToggleButton {
            (self, Seq::empty())
        } else if self.is_listening {
            let (state, actions) = self.listening_set(false);
            (state.with_message("Ready"@), actions)
        } else {
            let (state, actions) = self.listening_set(true);
            (state.with_message("Listening..."@), actions)
        }
    }

    /// A model can be downloaded: it is missing or failed, and no download is
    /// in progress.
    pub open spec fn can_download(self, variant: ModelVariant) -> bool {
        (self.status(variant) is NotDownloaded || self.status(variant) is Error)
            && !self.download_active
    }

    /// A model can be started: it is there, does not run, and none is starting.
    pub open spec fn can_start(self, variant: ModelVariant) -> bool {
        self.status(variant) is Ready && !self.is_active(variant) && !self.init_pending
    }

    /// A model can be stopped: it is there and runs.
    pub open spec fn can_stop(self, variant: ModelVariant) -> bool {
        self.status(variant) is Ready && self.is_active(variant)
    }

    /// The running engine is let go.
    pub open spec fn engine_dropped(self) -> Step<E> {
        let (quiet, actions) = self.listening_set(false);
        (AppModel { engine: None, active_model: None, ..quiet }, actions)
    }

    /// A download was asked for.
    pub open spec fn download_clicked(self, variant: ModelVariant) -> Step<E> {
        if self.can_download(variant) {
            self.download_started(variant)
        } else {
            (self, Seq::empty())
        }
    }

    /// A start was asked for.
    pub open spec fn start_clicked(self, variant: ModelVariant, old_files_found: bool) -> Step<E> {
        if self.can_start(variant) {
            self.init_started(variant, true, old_files_found)
        } else {
            (self, Seq::empty())
        }
    }

    /// A stop was asked for.
    pub open spec fn stop_clicked(self, variant: ModelVariant) -> Step<E> {
        if self.can_stop(variant) {
            let (state, actions) = self.engine_dropped();
            (state.with_message("Model stopped"@), actions)
        } else {
            (self, Seq::empty())
        }
    }

    /// The files of a model can be deleted: they are all there, or something
    /// went wrong with them.
    pub open spec fn can_delete(self, variant: ModelVariant) -> bool {
        self.status(variant) is Ready || self.status(variant) is Error
    }

    /// The files of a model are to be deleted. A running one is stopped before.
    pub open spec fn delete_clicked(self, variant: ModelVariant) -> Step<E> {
        if self.can_delete(variant) {
            let (stopped, actions) = if self.is_active(variant) {
                self.engine_dropped()
            } else {
                (self, Seq::empty())
            };
            (
                stopped.with_status(variant, StatusModel::NotDownloaded).with_message(
                    "Model deleted"@,
                ),
                actions + seq![ActionModel::RemoveModelDir(variant)],
            )
        } else {
            (self, Seq::empty())
        }
    }

    /// A device of the list was chosen.
    pub open spec fn device_selected(self, index: usize) -> Self {
        if index < self.available_devices.len() {
            AppModel { selected_device: index, ..self }
        } else {
            self
        }
    }

    /// The devices were looked up again.
    pub open spec fn devices_refreshed(
        self,
        default_device: Option<Seq<char>>,
        names: Seq<Seq<char>>,
    ) -> Self {
        AppModel {
            available_devices: device_entries(default_device, names),
            selected_device: 0,
            ..self.with_message("Devices refreshed"@)
        }
    }

    /// The settings are saved, and the active model is started anew with them.
    pub open spec fn settings_applied(self) -> Step<E> {
        let saved = seq![ActionModel::WriteConfig(self.config())];
        match self.active_model {
            Some(variant) => {
                let (state, actions) = self.init_started(variant, true, false);
                (state, saved + actions)
            },
            None => (self, saved),
        }
    }

    /// The settings are those that the program came with, and are saved.
    pub open spec fn config_reset(self) -> Step<E> {
        let reset = AppModel {
            settings: factory_settings(),
            selected_device: 0,
            ..self.with_message("Config reset"@)
        };
        (reset, seq![ActionModel::WriteConfig(reset.config())])
    }

    /// The sound file is to be transcribed.
    pub open spec fn test_started(self) -> Step<E> {
        if self.engine is Some {
            (self, seq![ActionModel::TranscribeFile(self.test_file_path)])
        } else {
            (self.with_message("Model not ready"@), Seq::empty())
        }
    }

    /// The sound file was transcribed, or not.
    pub open spec fn test_finished(self, text: Result<String, String>) -> Step<E> {
        match text {
            Ok(text) => self.text_appended(text@),
            Err(e) => (self.with_message("Error: "@ + e@), Seq::empty()),
        }
    }

    /// The state before anything is begun: nothing runs, the models are those
    /// that were found, and the settings are those of the last run. A device
    /// that is no longer there is replaced by the last of the list.
    pub open spec fn initial(
        small_found: bool,
        large_found: bool,
        osc_connected: bool,
        devices: Seq<Seq<char>>,
        config: Option<AppConfigModel>,
        total_ram_bytes: Option<u64>,
    ) -> Self {
        let last: usize = if devices.len() > 0 {
            (devices.len() - 1) as usize
        } else {
            0
        };
        AppModel {
            view: crate::view::View::Main,
            model_status_small: if small_found {
                StatusModel::Ready
            } else {
                StatusModel::NotDownloaded
            },
            model_status_large: if large_found {
                StatusModel::Ready
            } else {
                StatusModel::NotDownloaded
            },
            active_model: None,
            download_active: false,
            downloading_variant: None,
            init_pending: false,
            osc_listening: false,
            transcription_open: false,
            recognized_text: Seq::empty(),
            is_listening: false,
            status_message: "No model loaded"@,
            settings: match config {
                Some(c) => c.settings,
                None => factory_settings(),
            },
            test_file_path: Seq::empty(),
            engine: None,
            audio_running: false,
            osc_running: false,
            osc_connected,
            available_devices: devices,
            selected_device: match config {
                Some(c) => if c.selected_device + 1 < devices.len() {
                    c.selected_device
                } else {
                    last
                },
                None => 0,
            },
            total_ram_bytes,
        }
    }

    /// The launch of the program. Where no model is there, as on the first run,
    /// the small one is downloaded; otherwise one that is there is started at
    /// once, the small one where both are.
    pub open spec fn launched(
        small_found: bool,
        large_found: bool,
        osc_connected: bool,
        devices: Seq<Seq<char>>,
        config: Option<AppConfigModel>,
        total_ram_bytes: Option<u64>,
    ) -> Step<E> {
        let start = Self::initial(
            small_found,
            large_found,
            osc_connected,
            devices,
            config,
            total_ram_bytes,
        );
        if small_found {
            start.init_started(ModelVariant::Small, true, false)
        } else if large_found {
            start.init_started(ModelVariant::Large, true, false)
        } else {
            start.download_started(ModelVariant::Small)
        }
    }

    /// Something is going on that the window has to follow.
    pub open spec fn needs_repaint(self) -> bool {
        ||| self.model_status_small is Downloading
        ||| self.model_status_small is Initializing
        ||| self.model_status_large is Downloading
        ||| self.model_status_large is Initializing
        ||| self.is_listening
    }

    /// The active model is starting, and the window shows nothing else.
    pub open spec fn active_initializing(self) -> bool {
        self.active_model is Some && self.status(self.active_model->0) is Initializing
    }
}

}
