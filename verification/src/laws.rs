//! What holds of the program across events.

use crate::actions::ActionModel;
use crate::config::{factory_settings, AppConfigModel, ListeningMode};
use crate::engine::ModelVariant;
use crate::events::{DownloadEvent, InitEvent, TranscriptionEvent};
use crate::model::AppModel;
use crate::osc::{
    chatbox_args, message_bytes, typing_args, ArgModel, CHATBOX_LIMIT, CHATBOX_TYPING_ADDRESS,
};
use crate::status::StatusModel;
use crate::text::truncated;
use vstd::prelude::*;

verus! {

/// A frame leads from a well-formed state to another one, whatever is reported.
pub proof fn every_frame_keeps_the_state_well_formed<E>(
    state: AppModel<E>,
    downloads: Seq<DownloadEvent>,
    init: Option<InitEvent<E>>,
    transcripts: Seq<TranscriptionEvent>,
    requests: Seq<bool>,
)
    requires
        state.wf(),
    ensures
        state.updated(downloads, init, transcripts, requests).0.wf(),
{
    let started = state.downloads_handled(downloads).init_handled(init);
    lemma_downloads_keep_wf(state, state.download_variant(), downloads);
    let (heard, _) = started.transcripts_handled(transcripts);
    lemma_transcripts_keep(started, transcripts);
    let (ready, _) = heard.osc_ensured();
    lemma_osc_keeps(ready, requests);
}

proof fn lemma_downloads_keep_wf<E>(
    state: AppModel<E>,
    variant: ModelVariant,
    events: Seq<DownloadEvent>,
)
    requires
        state.wf(),
    ensures
        state.downloads_folded(variant, events).wf(),
    decreases events.len(),
{
    if events.len() > 0 && !AppModel::<E>::ends_download(events[0]) {
        lemma_downloads_keep_wf(
            state.download_handled(variant, events[0]),
            variant,
            events.skip(1),
        );
    }
}

proof fn lemma_transcripts_keep<E>(state: AppModel<E>, events: Seq<TranscriptionEvent>)
    ensures
        state.transcripts_folded(events).0 == (AppModel {
            recognized_text: state.transcripts_folded(events).0.recognized_text,
            status_message: state.transcripts_folded(events).0.status_message,
            ..state
        }),
    decreases events.len(),
{
    if events.len() > 0 {
        lemma_transcripts_keep(state, events.drop_last());
    }
}

proof fn lemma_osc_keeps<E>(state: AppModel<E>, requests: Seq<bool>)
    requires
        state.wf(),
    ensures
        state.osc_folded(requests).0.wf(),
        state.osc_folded(requests).0.settings == state.settings,
        state.osc_folded(requests).0.engine == state.engine,
        state.osc_folded(requests).0.osc_running == state.osc_running,
    decreases requests.len(),
{
    if requests.len() > 0 {
        lemma_osc_keeps(state, requests.drop_last());
    }
}

/// Switching listening to what it is already changes nothing and does nothing.
pub proof fn switching_twice_is_switching_once<E>(state: AppModel<E>, on: bool)
    ensures
        state.listening_set(on).0.is_listening == on,
        state.is_listening == on ==> state.listening_set(on) == (
            state,
            Seq::<ActionModel>::empty(),
        ),
        state.listening_set(on).0.listening_set(on) == (
            state.listening_set(on).0,
            Seq::<ActionModel>::empty(),
        ),
{
}

/// Every change of listening is told to VRChat, last of all that is done.
pub proof fn every_change_is_told<E>(state: AppModel<E>, on: bool)
    requires
        state.osc_connected,
        state.is_listening != on,
    ensures
        state.listening_set(on).1.last() == ActionModel::SendOsc(
            message_bytes(CHATBOX_TYPING_ADDRESS@, typing_args(on)),
        ),
{
}

/// Listening that was switched off captures nothing, whatever went before.
pub proof fn switched_off_captures_nothing<E>(state: AppModel<E>)
    requires
        state.wf(),
    ensures
        !state.listening_set(false).0.audio_running,
        !state.listening_set(false).0.transcription_open,
{
}

/// Sound is captured only by a running engine: where none runs, switching
/// listening on starts no capture, and the user is told.
pub proof fn no_capture_without_engine<E>(state: AppModel<E>)
    requires
        state.wf(),
        state.engine is None,
        !state.is_listening,
    ensures
        !state.listening_set(true).0.audio_running,
        state.listening_set(true).0.status_message == "Engine not ready"@,
        state.listening_set(true).1 == state.typing_actions(true),
{
    assert(Seq::<ActionModel>::empty() + state.typing_actions(true) =~= state.typing_actions(
        true,
    ));
}

/// In the mode that is always on, a frame ends with the program listening as
/// long as an engine runs.
pub proof fn always_on_listens<E>(
    state: AppModel<E>,
    downloads: Seq<DownloadEvent>,
    init: Option<InitEvent<E>>,
    transcripts: Seq<TranscriptionEvent>,
    requests: Seq<bool>,
)
    requires
        state.wf(),
        state.settings.listening_mode == ListeningMode::AlwaysOn,
    ensures
        ({
            let after = state.updated(downloads, init, transcripts, requests).0;
            after.engine is Some ==> after.is_listening
        }),
{
    lemma_frame_keeps_settings(state, downloads, init, transcripts, requests);
}

/// After a frame the OSC thread runs exactly in the mode that asks for it.
pub proof fn osc_thread_follows_the_mode<E>(
    state: AppModel<E>,
    downloads: Seq<DownloadEvent>,
    init: Option<InitEvent<E>>,
    transcripts: Seq<TranscriptionEvent>,
    requests: Seq<bool>,
)
    requires
        state.wf(),
    ensures
        state.updated(downloads, init, transcripts, requests).0.osc_running <==> (
        state.settings.listening_mode == ListeningMode::ToggleOsc),
{
    lemma_frame_keeps_settings(state, downloads, init, transcripts, requests);
}

proof fn lemma_downloads_keep_settings<E>(
    state: AppModel<E>,
    variant: ModelVariant,
    events: Seq<DownloadEvent>,
)
    ensures
        state.downloads_folded(variant, events).settings == state.settings,
    decreases events.len(),
{
    if events.len() > 0 && !AppModel::<E>::ends_download(events[0]) {
        lemma_downloads_keep_settings(
            state.download_handled(variant, events[0]),
            variant,
            events.skip(1),
        );
    }
}

proof fn lemma_frame_keeps_settings<E>(
    state: AppModel<E>,
    downloads: Seq<DownloadEvent>,
    init: Option<InitEvent<E>>,
    transcripts: Seq<TranscriptionEvent>,
    requests: Seq<bool>,
)
    requires
        state.wf(),
    ensures
        ({
            let started = state.downloads_handled(downloads).init_handled(init);
            let heard = started.transcripts_handled(transcripts).0;
            let ready = heard.osc_ensured().0;
            let asked = ready.osc_handled(requests).0;
            &&& heard.wf()
            &&& heard.settings == state.settings
            &&& asked.settings == state.settings
            &&& asked.osc_running == ready.osc_running
        }),
{
    let started = state.downloads_handled(downloads).init_handled(init);
    lemma_downloads_keep_wf(state, state.download_variant(), downloads);
    lemma_downloads_keep_settings(state, state.download_variant(), downloads);
    lemma_transcripts_keep(started, transcripts);
    let heard = started.transcripts_handled(transcripts).0;
    lemma_osc_keeps(heard.osc_ensured().0, requests);
}

/// The avatar has the last word: after its requests, the program listens
/// exactly if the last one asked for it.
pub proof fn last_request_wins<E>(state: AppModel<E>, requests: Seq<bool>)
    requires
        state.osc_listening,
        requests.len() > 0,
    ensures
        state.osc_handled(requests).0.is_listening == requests.last(),
{
}

/// The big button does nothing in the modes that it does not belong to.
pub proof fn button_works_in_its_own_mode_only<E>(state: AppModel<E>)
    ensures
        state.settings.listening_mode != ListeningMode::ToggleButton ==> state.listen_clicked()
            == (state, Seq::<ActionModel>::empty()),
        state.settings.listening_mode == ListeningMode::ToggleButton
            ==> state.listen_clicked().0.is_listening == !state.is_listening,
{
}

/// A model that was deleted, whether it was ready or something went wrong with
/// it, can be downloaded again at once, unless another download is in progress.
pub proof fn deleted_model_can_be_downloaded_at_once<E>(state: AppModel<E>, variant: ModelVariant)
    requires
        state.wf(),
        state.can_delete(variant),
        !state.download_active,
    ensures
        state.delete_clicked(variant).0.status(variant) is NotDownloaded,
        !state.delete_clicked(variant).0.is_active(variant),
        state.delete_clicked(variant).0.can_download(variant),
        state.delete_clicked(variant).1.last() == ActionModel::RemoveModelDir(variant),
{
}

/// A download that failed can be repaired at once: as soon as the failure is
/// reported, the model can be downloaded again, and its files can be deleted
/// and then downloaded again. `k` is where the failure stands in the reports.
pub proof fn failed_download_can_be_repaired_at_once<E>(
    state: AppModel<E>,
    events: Seq<DownloadEvent>,
    k: int,
)
    requires
        state.wf(),
        state.download_active,
        0 <= k < events.len(),
        events[k] is Error,
        forall|i: int| 0 <= i < k ==> !AppModel::<E>::ends_download(#[trigger] events[i]),
    ensures
        ({
            let variant = state.download_variant();
            let after = state.downloads_handled(events);
            let deleted = after.delete_clicked(variant).0;
            &&& after.status(variant) == StatusModel::Error(events[k]->Error_0@)
            &&& after.can_download(variant)
            &&& after.can_delete(variant)
            &&& deleted.status(variant) is NotDownloaded
            &&& deleted.can_download(variant)
        }),
{
    let variant = state.download_variant();
    lemma_failure_ends(state, variant, events, k);
    lemma_downloads_keep_wf(state, variant, events);
    deleted_model_can_be_downloaded_at_once(state.downloads_handled(events), variant);
}

proof fn lemma_failure_ends<E>(
    state: AppModel<E>,
    variant: ModelVariant,
    events: Seq<DownloadEvent>,
    k: int,
)
    requires
        0 <= k < events.len(),
        events[k] is Error,
        forall|i: int| 0 <= i < k ==> !AppModel::<E>::ends_download(#[trigger] events[i]),
    ensures
        state.downloads_folded(variant, events).status(variant) == StatusModel::Error(
            events[k]->Error_0@,
        ),
        !state.downloads_folded(variant, events).download_active,
    decreases k,
{
    if k > 0 {
        let rest = events.skip(1);
        assert(!AppModel::<E>::ends_download(events[0]));
        assert forall|i: int| 0 <= i < k - 1 implies !AppModel::<E>::ends_download(
            #[trigger] rest[i],
        ) by {
            assert(rest[i] == events[i + 1]);
        }
        lemma_failure_ends(state.download_handled(variant, events[0]), variant, rest, k - 1);
    }
}

/// A model becomes ready by a download only when every file is there: reports
/// among which the last one is missing make no model ready.
pub proof fn ready_only_when_all_is_done<E>(
    state: AppModel<E>,
    events: Seq<DownloadEvent>,
    variant: ModelVariant,
)
    requires
        forall|i: int| 0 <= i < events.len() ==> !(#[trigger] events[i] is AllDone),
    ensures
        state.downloads_handled(events).status(variant) is Ready ==> state.status(variant) is Ready,
{
    lemma_not_ready(state, state.download_variant(), events, variant);
}

proof fn lemma_not_ready<E>(
    state: AppModel<E>,
    about: ModelVariant,
    events: Seq<DownloadEvent>,
    variant: ModelVariant,
)
    requires
        forall|i: int| 0 <= i < events.len() ==> !(#[trigger] events[i] is AllDone),
    ensures
        state.downloads_folded(about, events).status(variant) is Ready ==> state.status(
            variant,
        ) is Ready,
    decreases events.len(),
{
    if events.len() > 0 {
        assert(!(events[0] is AllDone));
        assert forall|i: int| 0 <= i < events.skip(1).len() implies !(#[trigger] events.skip(
            1,
        )[i] is AllDone) by {
            assert(events.skip(1)[i] == events[i + 1]);
        }
        lemma_not_ready(
            state.download_handled(about, events[0]),
            about,
            events.skip(1),
            variant,
        );
    }
}

/// What was saved is read back: a program that is launched with the saved
/// configuration and the same devices has the same settings and device.
pub proof fn saved_configuration_is_read_back<E>(
    state: AppModel<E>,
    small_found: bool,
    large_found: bool,
    osc_connected: bool,
)
    requires
        state.wf(),
    ensures
        AppModel::<E>::launched(
            small_found,
            large_found,
            osc_connected,
            state.available_devices,
            Some(state.config()),
            state.total_ram_bytes,
        ).0.config() == state.config(),
{
}

/// The program is well formed from its launch on, whatever was saved: the
/// selected device exists.
pub proof fn program_starts_well_formed<E>(
    small_found: bool,
    large_found: bool,
    osc_connected: bool,
    devices: Seq<Seq<char>>,
    config: Option<AppConfigModel>,
    total_ram_bytes: Option<u64>,
)
    requires
        devices.len() > 0,
    ensures
        AppModel::<E>::launched(
            small_found,
            large_found,
            osc_connected,
            devices,
            config,
            total_ram_bytes,
        ).0.wf(),
{
}

/// The first launch downloads the small model, without being asked.
pub proof fn first_launch_downloads_a_model<E>(
    osc_connected: bool,
    devices: Seq<Seq<char>>,
    config: Option<AppConfigModel>,
    total_ram_bytes: Option<u64>,
)
    ensures
        ({
            let (state, actions) = AppModel::<E>::launched(
                false,
                false,
                osc_connected,
                devices,
                config,
                total_ram_bytes,
            );
            &&& state.download_active
            &&& state.downloading_variant == Some(ModelVariant::Small)
            &&& state.status(ModelVariant::Small) is Downloading
            &&& actions == seq![ActionModel::SpawnDownload(ModelVariant::Small)]
        }),
{
}

/// Every later launch loads a model that is there at once, without being asked.
pub proof fn later_launch_loads_a_model<E>(
    small_found: bool,
    large_found: bool,
    osc_connected: bool,
    devices: Seq<Seq<char>>,
    config: Option<AppConfigModel>,
    total_ram_bytes: Option<u64>,
)
    requires
        small_found || large_found,
    ensures
        ({
            let (state, actions) = AppModel::<E>::launched(
                small_found,
                large_found,
                osc_connected,
                devices,
                config,
                total_ram_bytes,
            );
            let variant = if small_found {
                ModelVariant::Small
            } else {
                ModelVariant::Large
            };
            &&& state.active_model == Some(variant)
            &&& state.active_initializing()
            &&& state.init_pending
            &&& actions == seq![ActionModel::SpawnInit { variant, settings: state.settings }]
        }),
{
    let variant = if small_found {
        ModelVariant::Small
    } else {
        ModelVariant::Large
    };
    let (state, actions) = AppModel::<E>::launched(
        small_found,
        large_found,
        osc_connected,
        devices,
        config,
        total_ram_bytes,
    );
    assert(actions =~= seq![ActionModel::SpawnInit { variant, settings: state.settings }]);
}

/// A reset brings every setting back to what the program came with, and saves
/// exactly that.
pub proof fn reset_restores_the_factory_settings<E>(state: AppModel<E>)
    ensures
        state.config_reset().0.settings == factory_settings(),
        state.config_reset().1 == seq![
            ActionModel::WriteConfig(
                AppConfigModel { settings: factory_settings(), selected_device: 0 },
            ),
        ],
{
}

/// Never more than the chatbox takes is sent to it, and a text that fits is
/// sent as it is.
pub proof fn chatbox_text_fits(text: Seq<char>)
    ensures
        chatbox_args(text)[0] == ArgModel::Text(truncated(text, CHATBOX_LIMIT as int)),
        truncated(text, CHATBOX_LIMIT as int).len() <= CHATBOX_LIMIT,
        text.len() <= CHATBOX_LIMIT ==> truncated(text, CHATBOX_LIMIT as int) == text,
{
}

/// Appending never loses what was heard before: the text that was shown stays
/// at the front, and the new text ends it.
pub proof fn appending_keeps_what_was_heard<E>(state: AppModel<E>, text: Seq<char>)
    requires
        state.settings.append_mode,
    ensures
        state.recognized_text.is_prefix_of(state.text_appended(text).0.recognized_text),
        text.is_suffix_of(state.text_appended(text).0.recognized_text),
{
    let after = state.text_after(text);
    if state.recognized_text.len() > 0 {
        assert(after.subrange(0, state.recognized_text.len() as int) =~= state.recognized_text);
        assert(after.subrange(after.len() - text.len(), after.len() as int) =~= text);
    } else {
        assert(after.subrange(0, 0) =~= state.recognized_text);
        assert(after.subrange(0, after.len() as int) =~= text);
    }
}

/// Starting a model lets go of the one that ran: no engine runs until the new
/// one reports, and no sound is captured any more.
pub proof fn starting_a_model_stops_the_other<E>(
    state: AppModel<E>,
    variant: ModelVariant,
    old_files_found: bool,
)
    requires
        state.wf(),
        state.can_start(variant),
    ensures
        ({
            let after = state.start_clicked(variant, old_files_found).0;
            &&& after.active_model == Some(variant)
            &&& after.active_initializing()
            &&& after.engine is None
            &&& !after.audio_running
            &&& !after.is_listening
        }),
{
}

}
