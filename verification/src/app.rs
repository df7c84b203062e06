//! The program: its state, and what it does on each event.

use crate::actions::{action_models, both, no_actions, one_action, Action, ActionModel};
use crate::config::{AppConfig, AppConfigModel, ListeningMode, Settings};
use crate::devices::{device_entries, get_available_devices, text_of, texts};
use crate::engine::{ModelVariant, MODEL_FILES};
use crate::events::{DownloadEvent, InitEvent, TranscriptionEvent};
use crate::model::AppModel;
use crate::osc::{
    chatbox_args, chatbox_message, typing_message, CHATBOX_INPUT_ADDRESS, CHATBOX_TYPING_ADDRESS,
};
use crate::status::{ModelStatus, StatusModel};
use crate::text::joined;
use vstd::prelude::*;
use vstd::string::*;

verus! {

/// The state of the program. `E` is the handle of the running engine.
#[derive(Debug)]
pub struct PerihelionApp<E> {
    /// The page that is shown.
    pub view: crate::view::View,
    pub model_status_small: ModelStatus,
    pub model_status_large: ModelStatus,
    /// The model that was started last and not stopped.
    pub active_model: Option<ModelVariant>,
    /// The reports of a download are read.
    pub download_active: bool,
    pub downloading_variant: Option<ModelVariant>,
    /// The report of a start is awaited.
    pub init_pending: bool,
    /// The requests of the avatar are read.
    pub osc_listening: bool,
    /// The reports of a capture are read.
    pub transcription_open: bool,
    pub recognized_text: String,
    pub is_listening: bool,
    pub status_message: String,
    pub settings: Settings,
    pub test_file_path: String,
    pub engine: Option<E>,
    /// The thread that captures sound is not told to end.
    pub audio_running: bool,
    /// The thread that listens to OSC is not told to end.
    pub osc_running: bool,
    /// There is a socket to VRChat.
    pub osc_connected: bool,
    pub available_devices: Vec<String>,
    pub selected_device: usize,
    /// How much memory the machine has, where that is known.
    pub total_ram_bytes: Option<u64>,
}

impl<E> View for PerihelionApp<E> {
    type V = AppModel<E>;

    open spec fn view(&self) -> AppModel<E> {
        AppModel {
            view: self.view,
            model_status_small: self.model_status_small@,
            model_status_large: self.model_status_large@,
            active_model: self.active_model,
            download_active: self.download_active,
            downloading_variant: self.downloading_variant,
            init_pending: self.init_pending,
            osc_listening: self.osc_listening,
            transcription_open: self.transcription_open,
            recognized_text: self.recognized_text@,
            is_listening: self.is_listening,
            status_message: self.status_message@,
            settings: self.settings@,
            test_file_path: self.test_file_path@,
            engine: self.engine,
            audio_running: self.audio_running,
            osc_running: self.osc_running,
            osc_connected: self.osc_connected,
            available_devices: texts(self.available_devices@),
            selected_device: self.selected_device,
            total_ram_bytes: self.total_ram_bytes,
        }
    }
}

impl<E> PerihelionApp<E> {
    /// The status of a model.
    pub fn model_status(&self, variant: ModelVariant) -> (status: &ModelStatus)
        ensures
            status@ == self@.status(variant),
            *status == match variant {
                ModelVariant::Small => self.model_status_small,
                ModelVariant::Large => self.model_status_large,
            },
    {
        match variant {
            ModelVariant::Small => &self.model_status_small,
            ModelVariant::Large => &self.model_status_large,
        }
    }

    /// Sets the status of a model.
    pub fn set_model_status(&mut self, variant: ModelVariant, status: ModelStatus)
        ensures
            *final(self) == match variant {
                ModelVariant::Small => PerihelionApp { model_status_small: status, ..*old(self) },
                ModelVariant::Large => PerihelionApp { model_status_large: status, ..*old(self) },
            },
    {
        match variant {
            ModelVariant::Small => self.model_status_small = status,
            ModelVariant::Large => self.model_status_large = status,
        }
    }

    /// Tells VRChat whether somebody is speaking.
    fn send_osc_typing(&self, typing: bool) -> (actions: Vec<Action>)
        ensures
            action_models(actions@) == self@.typing_actions(typing),
    {
        if self.osc_connected {
            one_action(Action::SendOsc(typing_message(typing)))
        } else {
            no_actions()
        }
    }

    /// Puts `text` into the chatbox.
    fn send_osc_chatbox(&self, text: &str) -> (actions: Vec<Action>)
        ensures
            action_models(actions@) == self@.osc_actions(
                CHATBOX_INPUT_ADDRESS@,
                chatbox_args(text@),
            ),
    {
        if self.osc_connected {
            one_action(Action::SendOsc(chatbox_message(text)))
        } else {
            no_actions()
        }
    }

    /// Starts to capture sound, if an engine runs that can hear it.
    fn start_audio_capture(&mut self) -> (actions: Vec<Action>)
        ensures
            (final(self)@, action_models(actions@)) == old(self)@.capture_started(),
    {
        if self.engine.is_none() {
            self.status_message = "Engine not ready".to_owned();
            return no_actions();
        }
        self.transcription_open = true;
        self.audio_running = true;
        one_action(Action::StartCapture { device_index: self.selected_device })
    }

    /// Stops capturing sound.
    fn stop_audio_capture(&mut self) -> (actions: Vec<Action>)
        ensures
            (final(self)@, action_models(actions@)) == old(self)@.capture_stopped(),
    {
        self.audio_running = false;
        self.transcription_open = false;
        one_action(Action::StopCapture)
    }

    /// Switches listening on or off.
    pub fn set_listening(&mut self, listening: bool) -> (actions: Vec<Action>)
        ensures
            (final(self)@, action_models(actions@)) == old(self)@.listening_set(listening),
            old(self)@.wf() ==> final(self)@.wf(),
    {
        if self.is_listening == listening {
            return no_actions();
        }
        self.is_listening = listening;
        let capture: Vec<Action> = if listening {
            self.start_audio_capture()
        } else {
            self.stop_audio_capture()
        };
        let typing: Vec<Action> = self.send_osc_typing(listening);
        both(capture, typing)
    }

    /// Copies the text to the clipboard.
    pub fn copy_text(&mut self) -> (actions: Vec<Action>)
        ensures
            (final(self)@, action_models(actions@)) == old(self)@.text_copied(),
            final(self)@.wf() == old(self)@.wf(),
    {
        self.status_message = "Copied".to_owned();
        one_action(Action::CopyToClipboard(self.recognized_text.clone()))
    }

    /// Shows what was heard.
    fn show_text(&mut self, text: &str)
        ensures
            final(self)@ == (AppModel {
                recognized_text: old(self)@.text_after(text@),
                ..old(self)@
            }),
    {
        if self.settings.append_mode {
            if !self.recognized_text.as_str().is_empty() {
                self.recognized_text.append("\n");
            } else {
                assert(self.recognized_text@ + text@ =~= text@);
            }
            self.recognized_text.append(text);
        } else {
            self.recognized_text = text.to_owned();
        }
    }

    /// Takes in what was heard.
    pub fn append_text(&mut self, text: &str) -> (actions: Vec<Action>)
        ensures
            (final(self)@, action_models(actions@)) == old(self)@.text_appended(text@),
            final(self)@.wf() == old(self)@.wf(),
    {
        self.show_text(text);
        let chat: Vec<Action> = if !text.is_empty() {
            self.send_osc_chatbox(text)
        } else {
            no_actions()
        };
        if self.settings.auto_copy {
            let copy: Vec<Action> = self.copy_text();
            both(chat, copy)
        } else {
            chat
        }
    }

    /// Clears the text.
    pub fn clear_text(&mut self)
        ensures
            final(self)@ == old(self)@.text_cleared(),
            final(self)@.wf() == old(self)@.wf(),
    {
        self.recognized_text = String::new();
        self.status_message = "Cleared".to_owned();
    }

    /// Begins the download of a model.
    pub fn start_download(&mut self, variant: ModelVariant) -> (actions: Vec<Action>)
        ensures
            (final(self)@, action_models(actions@)) == old(self)@.download_started(variant),
            old(self)@.wf() ==> final(self)@.wf(),
    {
        let first: &'static str = MODEL_FILES[0];
        self.set_model_status(
            variant,
            ModelStatus::Downloading {
                current_file: first.to_owned(),
                current_bytes: 0,
                total_bytes: 0,
            },
        );
        self.downloading_variant = Some(variant);
        self.download_active = true;
        one_action(Action::SpawnDownload(variant))
    }

    /// Makes the model the active one, about to start.
    fn begin_init(&mut self, variant: ModelVariant, old_files_found: bool)
        ensures
            final(self)@ == old(self)@.init_begun(variant, old_files_found),
            old(self)@.wf() ==> final(self)@.wf(),
            final(self).settings == old(self).settings,
    {
        self.engine = None;
        if let Some(old_variant) = self.active_model {
            if old_variant != variant {
                self.set_model_status(
                    old_variant,
                    if old_files_found {
                        ModelStatus::Ready
                    } else {
                        ModelStatus::NotDownloaded
                    },
                );
            }
        }
        self.set_model_status(variant, ModelStatus::Initializing);
        self.active_model = Some(variant);
        self.status_message = "Initializing...".to_owned();
        self.init_pending = true;
    }

    /// Begins to start a model. `quiet_first` ends listening before;
    /// `old_files_found` says whether the files of the model that was active
    /// before are there.
    pub fn start_init_engine(
        &mut self,
        variant: ModelVariant,
        quiet_first: bool,
        old_files_found: bool,
    ) -> (actions: Vec<Action>)
        ensures
            (final(self)@, action_models(actions@)) == old(self)@.init_started(
                variant,
                quiet_first,
                old_files_found,
            ),
            old(self)@.wf() ==> final(self)@.wf(),
    {
        let quiet: Vec<Action> = if quiet_first {
            self.set_listening(false)
        } else {
            no_actions()
        };
        self.begin_init(variant, old_files_found);
        both(quiet, one_action(Action::SpawnInit { variant, settings: self.settings.clone() }))
    }

    /// Takes in the report of a start.
    pub fn handle_init_events(&mut self, event: Option<InitEvent<E>>)
        ensures
            final(self)@ == old(self)@.init_handled(event),
            old(self)@.wf() ==> final(self)@.wf(),
    {
        if !self.init_pending {
            return ;
        }
        let variant: ModelVariant = match self.active_model {
            Some(variant) => variant,
            None => ModelVariant::Small,
        };
        match event {
            None => {},
            Some(InitEvent::Success(engine)) => {
                self.engine = Some(engine);
                self.set_model_status(variant, ModelStatus::Ready);
                self.status_message = "Ready".to_owned();
                self.init_pending = false;
            },
            Some(InitEvent::Error(e)) => {
                self.set_model_status(variant, ModelStatus::Error(e));
                self.status_message = "Initialization failed".to_owned();
                self.init_pending = false;
            },
        }
    }

    /// Takes in one report of a download.
    fn handle_download_event(&mut self, variant: ModelVariant, event: &DownloadEvent)
        ensures
            final(self)@ == old(self)@.download_handled(variant, *event),
            old(self)@.wf() ==> final(self)@.wf(),
    {
        match event {
            DownloadEvent::Progress { file, bytes, total } => {
                self.set_model_status(
                    variant,
                    ModelStatus::Downloading {
                        current_file: file.clone(),
                        current_bytes: *bytes,
                        total_bytes: *total,
                    },
                );
            },
            DownloadEvent::FileDone(file) => {
                self.status_message = joined("Downloaded: ", file.as_str());
            },
            DownloadEvent::Error(e) => {
                self.set_model_status(variant, ModelStatus::Error(e.clone()));
                self.downloading_variant = None;
                self.download_active = false;
            },
            DownloadEvent::AllDone => {
                self.set_model_status(variant, ModelStatus::Ready);
                self.downloading_variant = None;
                self.download_active = false;
                self.status_message = "Download complete".to_owned();
            },
        }
    }

    /// Takes in the reports of a download.
    pub fn handle_download_events(&mut self, events: &Vec<DownloadEvent>)
        ensures
            final(self)@ == old(self)@.downloads_handled(events@),
            old(self)@.wf() ==> final(self)@.wf(),
    {
        if !self.download_active {
            return ;
        }
        let variant: ModelVariant = match self.downloading_variant {
            Some(variant) => variant,
            None => ModelVariant::Small,
        };
        let ghost start = self@;
        let mut i: usize = 0;
        assert(events@.skip(0) =~= events@);
        while i < events.len()
            invariant
                i <= events.len(),
                start.downloads_folded(variant, events@) == self@.downloads_folded(
                    variant,
                    events@.skip(i as int),
                ),
                start.wf() ==> self@.wf(),
                start.downloads_handled(events@) == start.downloads_folded(variant, events@),
                start == old(self)@,
            decreases events.len() - i,
        {
            let event: &DownloadEvent = &events[i];
            assert(events@.skip(i as int)[0] == *event);
            assert(events@.skip(i as int).skip(1) =~= events@.skip(i + 1));
            self.handle_download_event(variant, event);
            match event {
                DownloadEvent::AllDone | DownloadEvent::Error(_) => {
                    return ;
                },
                _ => {},
            }
            i += 1;
        }
    }

    /// Takes in one report of a capture.
    fn handle_transcription_event(&mut self, event: &TranscriptionEvent) -> (actions: Vec<Action>)
        ensures
            (final(self)@, action_models(actions@)) == old(self)@.transcript_handled(*event),
            old(self)@.wf() ==> final(self)@.wf(),
    {
        match event {
            TranscriptionEvent::FinalResult(text) => self.append_text(text.as_str()),
            TranscriptionEvent::Error(e) => {
                self.status_message = joined("Transcription error: ", e.as_str());
                no_actions()
            },
        }
    }

    /// Takes in the reports of a capture.
    pub fn handle_transcription_events(
        &mut self,
        events: &Vec<TranscriptionEvent>,
    ) -> (actions: Vec<Action>)
        ensures
            (final(self)@, action_models(actions@)) == old(self)@.transcripts_handled(events@),
            old(self)@.wf() ==> final(self)@.wf(),
    {
        let mut actions: Vec<Action> = no_actions();
        if !self.transcription_open {
            return actions;
        }
        let ghost start = self@;
        let mut i: usize = 0;
        assert(events@.take(0) =~= Seq::<TranscriptionEvent>::empty());
        while i < events.len()
            invariant
                i <= events.len(),
                (self@, action_models(actions@)) == start.transcripts_folded(
                    events@.take(i as int),
                ),
                start.wf() ==> self@.wf(),
                start == old(self)@,
            decreases events.len() - i,
        {
            assert(events@.take(i + 1).drop_last() =~= events@.take(i as int));
            assert(events@.take(i + 1).last() == events@[i as int]);
            let more: Vec<Action> = self.handle_transcription_event(&events[i]);
            actions = both(actions, more);
            i += 1;
        }
        assert(events@.take(events@.len() as int) =~= events@);
        actions
    }

    /// Starts the OSC thread, or stops it, as the mode asks.
    pub fn ensure_osc_listener(&mut self) -> (actions: Vec<Action>)
        ensures
            (final(self)@, action_models(actions@)) == old(self)@.osc_ensured(),
            old(self)@.wf() ==> final(self)@.wf(),
    {
        if self.settings.listening_mode == ListeningMode::ToggleOsc {
            if self.osc_listening {
                return no_actions();
            }
            self.osc_listening = true;
            self.osc_running = true;
            return one_action(Action::SpawnOscListener);
        }
        self.osc_listening = false;
        if self.osc_running {
            self.osc_running = false;
            one_action(Action::StopOscListener)
        } else {
            no_actions()
        }
    }

    /// Takes in one request of the avatar.
    fn handle_osc_event(&mut self, on: bool) -> (actions: Vec<Action>)
        ensures
            (final(self)@, action_models(actions@)) == old(self)@.osc_request_handled(on),
            old(self)@.wf() ==> final(self)@.wf(),
    {
        let actions: Vec<Action> = self.set_listening(on);
        self.status_message = if on {
            "OSC: On".to_owned()
        } else {
            "OSC: Off".to_owned()
        };
        actions
    }

    /// Takes in the requests of the avatar.
    pub fn handle_osc_events(&mut self, requests: &Vec<bool>) -> (actions: Vec<Action>)
        ensures
            (final(self)@, action_models(actions@)) == old(self)@.osc_handled(requests@),
            old(self)@.wf() ==> final(self)@.wf(),
    {
        let mut actions: Vec<Action> = no_actions();
        if !self.osc_listening {
            return actions;
        }
        let ghost start = self@;
        let mut i: usize = 0;
        assert(requests@.take(0) =~= Seq::<bool>::empty());
        while i < requests.len()
            invariant
                i <= requests.len(),
                (self@, action_models(actions@)) == start.osc_folded(requests@.take(i as int)),
                start.wf() ==> self@.wf(),
                start == old(self)@,
            decreases requests.len() - i,
        {
            assert(requests@.take(i + 1).drop_last() =~= requests@.take(i as int));
            assert(requests@.take(i + 1).last() == requests@[i as int]);
            let more: Vec<Action> = self.handle_osc_event(requests[i]);
            actions = both(actions, more);
            i += 1;
        }
        assert(requests@.take(requests@.len() as int) =~= requests@);
        actions
    }

    /// Switches listening on where the mode wants it always on.
    pub fn sync_listening_state(&mut self) -> (actions: Vec<Action>)
        ensures
            (final(self)@, action_models(actions@)) == old(self)@.listening_synced(),
            old(self)@.wf() ==> final(self)@.wf(),
    {
        if self.settings.listening_mode == ListeningMode::AlwaysOn && !self.is_listening
            && self.engine.is_some() {
            let actions: Vec<Action> = self.set_listening(true);
            self.status_message = "Always On".to_owned();
            actions
        } else {
            no_actions()
        }
    }

    /// What a frame does before anything is drawn. The arguments are the reports
    /// that came since the last frame.
    pub fn update(
        &mut self,
        downloads: &Vec<DownloadEvent>,
        init: Option<InitEvent<E>>,
        transcripts: &Vec<TranscriptionEvent>,
        requests: &Vec<bool>,
    ) -> (actions: Vec<Action>)
        ensures
            (final(self)@, action_models(actions@)) == old(self)@.updated(
                downloads@,
                init,
                transcripts@,
                requests@,
            ),
            old(self)@.wf() ==> final(self)@.wf(),
    {
        self.handle_download_events(downloads);
        self.handle_init_events(init);
        let heard: Vec<Action> = self.handle_transcription_events(transcripts);
        let listener: Vec<Action> = self.ensure_osc_listener();
        let asked: Vec<Action> = self.handle_osc_events(requests);
        let synced: Vec<Action> = self.sync_listening_state();
        both(both(both(heard, listener), asked), synced)
    }

    /// Launches the program: it downloads a model where none is there, and
    /// starts one otherwise.
    pub fn launch(startup: Startup) -> (launched: (Self, Vec<Action>))
        ensures
            (launched.0@, action_models(launched.1@)) == AppModel::<E>::launched(
                startup.small_found,
                startup.large_found,
                startup.osc_connected,
                texts(startup.available_devices@),
                startup.config_model(),
                startup.total_ram_bytes,
            ),
            startup.available_devices@.len() > 0 ==> launched.0@.wf(),
    {
        let small_found: bool = startup.small_found;
        let large_found: bool = startup.large_found;
        let mut app: Self = Self::new(startup);
        let actions: Vec<Action> = if small_found {
            app.start_init_engine(ModelVariant::Small, true, false)
        } else if large_found {
            app.start_init_engine(ModelVariant::Large, true, false)
        } else {
            app.start_download(ModelVariant::Small)
        };
        (app, actions)
    }

    /// The program before anything is begun.
    fn new(startup: Startup) -> (app: Self)
        ensures
            app@ == AppModel::<E>::initial(
                startup.small_found,
                startup.large_found,
                startup.osc_connected,
                texts(startup.available_devices@),
                startup.config_model(),
                startup.total_ram_bytes,
            ),
            startup.available_devices@.len() > 0 ==> app@.wf(),
    {
        let (settings, device): (Settings, usize) = match startup.config {
            Some(config) => (config.settings, config.selected_device),
            None => (Settings::default(), 0),
        };
        let count: usize = startup.available_devices.len();
        let last: usize = if count > 0 {
            count - 1
        } else {
            0
        };
        PerihelionApp {
            view: crate::view::View::default(),
            model_status_small: found_status(startup.small_found),
            model_status_large: found_status(startup.large_found),
            active_model: None,
            download_active: false,
            downloading_variant: None,
            init_pending: false,
            osc_listening: false,
            transcription_open: false,
            recognized_text: String::new(),
            is_listening: false,
            status_message: "No model loaded".to_owned(),
            settings,
            test_file_path: String::new(),
            engine: None,
            audio_running: false,
            osc_running: false,
            osc_connected: startup.osc_connected,
            available_devices: startup.available_devices,
            selected_device: if device < last {
                device
            } else {
                last
            },
            total_ram_bytes: startup.total_ram_bytes,
        }
    }

    /// What is kept from one run of the program to the next.
    pub fn save_config(&self) -> (config: AppConfig)
        ensures
            config@ == self@.config(),
    {
        AppConfig { settings: self.settings.clone(), selected_device: self.selected_device }
    }

    /// Shows another page.
    pub fn select_view(&mut self, view: crate::view::View)
        ensures
            final(self)@ == (AppModel { view, ..old(self)@ }),
            final(self)@.wf() == old(self)@.wf(),
    {
        self.view = view;
    }

    /// The big button was pressed.
    pub fn click_listen(&mut self) -> (actions: Vec<Action>)
        ensures
            (final(self)@, action_models(actions@)) == old(self)@.listen_clicked(),
            old(self)@.wf() ==> final(self)@.wf(),
    {
        if self.settings.listening_mode != ListeningMode::ToggleButton {
            return no_actions();
        }
        let on: bool = !self.is_listening;
        let actions: Vec<Action> = self.set_listening(on);
        self.status_message = if on {
            "Listening...".to_owned()
        } else {
            "Ready".to_owned()
        };
        actions
    }

    /// Whether the model runs.
    pub fn is_active(&self, variant: ModelVariant) -> (active: bool)
        ensures
            active == self@.is_active(variant),
    {
        match self.active_model {
            Some(active) => active == variant && self.engine.is_some(),
            None => false,
        }
    }

    /// Whether the model can be downloaded.
    pub fn can_download(&self, variant: ModelVariant) -> (can: bool)
        ensures
            can == self@.can_download(variant),
    {
        match self.model_status(variant) {
            ModelStatus::NotDownloaded | ModelStatus::Error(_) => !self.download_active,
            _ => false,
        }
    }

    /// Whether the model is there.
    fn is_ready(&self, variant: ModelVariant) -> (ready: bool)
        ensures
            ready == (self@.status(variant) is Ready),
    {
        match self.model_status(variant) {
            ModelStatus::Ready => true,
            _ => false,
        }
    }

    /// Whether the files of the model can be deleted.
    pub fn can_delete(&self, variant: ModelVariant) -> (can: bool)
        ensures
            can == self@.can_delete(variant),
    {
        match self.model_status(variant) {
            ModelStatus::Ready | ModelStatus::Error(_) => true,
            _ => false,
        }
    }

    /// Whether the model can be started.
    pub fn can_start(&self, variant: ModelVariant) -> (can: bool)
        ensures
            can == self@.can_start(variant),
    {
        self.is_ready(variant) && !self.is_active(variant) && !self.init_pending
    }

    /// Whether the model can be stopped.
    pub fn can_stop(&self, variant: ModelVariant) -> (can: bool)
        ensures
            can == self@.can_stop(variant),
    {
        self.is_ready(variant) && self.is_active(variant)
    }

    /// The download of a model was asked for.
    pub fn click_download(&mut self, variant: ModelVariant) -> (actions: Vec<Action>)
        ensures
            (final(self)@, action_models(actions@)) == old(self)@.download_clicked(variant),
            old(self)@.wf() ==> final(self)@.wf(),
    {
        if self.can_download(variant) {
            self.start_download(variant)
        } else {
            no_actions()
        }
    }

    /// The start of a model was asked for. `old_files_found` says whether the
    /// files of the model that is active now are there.
    pub fn click_start(
        &mut self,
        variant: ModelVariant,
        old_files_found: bool,
    ) -> (actions: Vec<Action>)
        ensures
            (final(self)@, action_models(actions@)) == old(self)@.start_clicked(
                variant,
                old_files_found,
            ),
            old(self)@.wf() ==> final(self)@.wf(),
    {
        if self.can_start(variant) {
            self.start_init_engine(variant, true, old_files_found)
        } else {
            no_actions()
        }
    }

    /// Lets the running engine go.
    fn drop_engine(&mut self) -> (actions: Vec<Action>)
        ensures
            (final(self)@, action_models(actions@)) == old(self)@.engine_dropped(),
            old(self)@.wf() && old(self)@.engine is Some ==> final(self)@.wf(),
    {
        let actions: Vec<Action> = self.set_listening(false);
        self.engine = None;
        self.active_model = None;
        actions
    }

    /// The stop of a model was asked for.
    pub fn click_stop(&mut self, variant: ModelVariant) -> (actions: Vec<Action>)
        ensures
            (final(self)@, action_models(actions@)) == old(self)@.stop_clicked(variant),
            old(self)@.wf() ==> final(self)@.wf(),
    {
        if self.can_stop(variant) {
            let actions: Vec<Action> = self.drop_engine();
            self.status_message = "Model stopped".to_owned();
            actions
        } else {
            no_actions()
        }
    }

    /// The files of a model are to be deleted.
    pub fn click_delete(&mut self, variant: ModelVariant) -> (actions: Vec<Action>)
        ensures
            (final(self)@, action_models(actions@)) == old(self)@.delete_clicked(variant),
            old(self)@.wf() ==> final(self)@.wf(),
    {
        if !self.can_delete(variant) {
            return no_actions();
        }
        let stopped: Vec<Action> = if self.is_active(variant) {
            self.drop_engine()
        } else {
            no_actions()
        };
        self.set_model_status(variant, ModelStatus::NotDownloaded);
        self.status_message = "Model deleted".to_owned();
        both(stopped, one_action(Action::RemoveModelDir(variant)))
    }

    /// A device of the list was chosen.
    pub fn select_device(&mut self, index: usize)
        ensures
            final(self)@ == old(self)@.device_selected(index),
            old(self)@.wf() ==> final(self)@.wf(),
    {
        if index < self.available_devices.len() {
            self.selected_device = index;
        }
    }

    /// Takes in the devices that were found when they were looked up again.
    pub fn refresh_devices(&mut self, default_device: Option<String>, names: &Vec<String>)
        ensures
            final(self)@ == old(self)@.devices_refreshed(text_of(default_device), texts(names@)),
            old(self)@.wf() ==> final(self)@.wf(),
    {
        self.available_devices = get_available_devices(default_device, names);
        self.selected_device = 0;
        self.status_message = "Devices refreshed".to_owned();
    }

    /// Saves the settings and starts the active model anew with them.
    pub fn apply_settings(&mut self) -> (actions: Vec<Action>)
        ensures
            (final(self)@, action_models(actions@)) == old(self)@.settings_applied(),
            old(self)@.wf() ==> final(self)@.wf(),
    {
        let saved: Vec<Action> = one_action(Action::WriteConfig(self.save_config()));
        match self.active_model {
            Some(variant) => {
                let started: Vec<Action> = self.start_init_engine(variant, true, false);
                both(saved, started)
            },
            None => saved,
        }
    }

    /// Takes the settings back to those that the program came with.
    pub fn reset_config(&mut self) -> (actions: Vec<Action>)
        ensures
            (final(self)@, action_models(actions@)) == old(self)@.config_reset(),
            old(self)@.wf() ==> final(self)@.wf(),
    {
        self.settings = Settings::default();
        self.selected_device = 0;
        self.status_message = "Config reset".to_owned();
        one_action(Action::WriteConfig(self.save_config()))
    }

    /// The sound file is to be transcribed.
    pub fn run_test_file(&mut self) -> (actions: Vec<Action>)
        ensures
            (final(self)@, action_models(actions@)) == old(self)@.test_started(),
            final(self)@.wf() == old(self)@.wf(),
    {
        if self.engine.is_some() {
            one_action(Action::TranscribeFile(self.test_file_path.clone()))
        } else {
            self.status_message = "Model not ready".to_owned();
            no_actions()
        }
    }

    /// Takes in the text of the sound file, or why there is none.
    pub fn finish_test_file(&mut self, text: Result<String, String>) -> (actions: Vec<Action>)
        ensures
            (final(self)@, action_models(actions@)) == old(self)@.test_finished(text),
            final(self)@.wf() == old(self)@.wf(),
    {
        match text {
            Ok(text) => self.append_text(text.as_str()),
            Err(e) => {
                self.status_message = joined("Error: ", e.as_str());
                no_actions()
            },
        }
    }

    /// Whether the window is to be drawn again soon though nothing moved.
    pub fn needs_repaint(&self) -> (yes: bool)
        ensures
            yes == self@.needs_repaint(),
    {
        self.model_status_small.is_busy() || self.model_status_large.is_busy() || self.is_listening
    }

    /// Whether the window shows nothing but that the active model is starting.
    pub fn active_initializing(&self) -> (yes: bool)
        ensures
            yes == self@.active_initializing(),
    {
        match self.active_model {
            Some(variant) => *self.model_status(variant) == ModelStatus::Initializing,
            None => false,
        }
    }
}

/// What is known when the program starts.
#[derive(Debug)]
pub struct Startup {
    pub small_found: bool,
    pub large_found: bool,
    pub osc_connected: bool,
    pub available_devices: Vec<String>,
    pub config: Option<AppConfig>,
    pub total_ram_bytes: Option<u64>,
}

impl Startup {
    /// The configuration of the last run, where one was read.
    pub open spec fn config_model(&self) -> Option<AppConfigModel> {
        match self.config {
            Some(config) => Some(config@),
            None => None,
        }
    }
}

/// The status of a model whose files were found, or not.
fn found_status(found: bool) -> (status: ModelStatus)
    ensures
        status@ == if found {
            StatusModel::Ready
        } else {
            StatusModel::NotDownloaded
        },
{
    if found {
        ModelStatus::Ready
    } else {
        ModelStatus::NotDownloaded
    }
}

/// The configuration of the last run is taken over whole, where one was read,
/// and so is every device.
pub proof fn startup_hides_nothing(startup: Startup, i: int)
    ensures
        startup.config is None ==> startup.config_model() is None,
        startup.config matches Some(config) ==> {
            &&& startup.config_model() is Some
            &&& startup.config_model()->0.settings == config.settings@
            &&& startup.config_model()->0.selected_device == config.selected_device
        },
        texts(startup.available_devices@).len() == startup.available_devices@.len(),
        0 <= i < startup.available_devices@.len() ==> texts(startup.available_devices@)[i]
            == startup.available_devices@[i]@,
{
}

/// The state as a value says of the program what its fields hold.
pub proof fn state_hides_nothing<E>(app: PerihelionApp<E>)
    ensures
        app@.model_status_small == app.model_status_small@,
        app@.model_status_large == app.model_status_large@,
        app@.active_model == app.active_model,
        app@.engine == app.engine,
        app@.recognized_text == app.recognized_text@,
        app@.is_listening == app.is_listening,
        app@.status_message == app.status_message@,
        app@.selected_device == app.selected_device,
        app@.settings == app.settings@,
        app@.settings.hotwords == app.settings.hotwords@,
        app@.settings.processor == app.settings.processor,
        app@.settings.listening_mode == app.settings.listening_mode,
        app@.settings.auto_copy == app.settings.auto_copy,
        app@.settings.append_mode == app.settings.append_mode,
{
}

}
