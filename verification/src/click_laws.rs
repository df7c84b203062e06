//! What each thing that the user does leads to, and what it leaves alone.

use crate::actions::ActionModel;
use crate::config::{factory_settings, AppConfigModel, ListeningMode};
use crate::devices::device_entries;
use crate::engine::{ModelVariant, MODEL_FILES};
use crate::event_laws::{
    other, same_but_for_models, switching_does_no_more_than_it_says, typing_sent,
};
use crate::model::AppModel;
use crate::status::StatusModel;
use vstd::prelude::*;

verus! {

/// What ends listening: nothing where nobody listens, and otherwise the end of
/// the capture and word of it to VRChat.
pub open spec fn quieted<E>(state: AppModel<E>) -> Seq<ActionModel> {
    if !state.is_listening {
        Seq::empty()
    } else if state.osc_connected {
        seq![ActionModel::StopCapture, typing_sent(false)]
    } else {
        seq![ActionModel::StopCapture]
    }
}

/// Nothing changed but what is about models and listening.
pub open spec fn same_but_for_models_and_listening<E>(
    after: AppModel<E>,
    before: AppModel<E>,
) -> bool {
    same_but_for_models(
        after,
        AppModel {
            is_listening: after.is_listening,
            audio_running: after.audio_running,
            transcription_open: after.transcription_open,
            ..before
        },
    )
}

proof fn lemma_quieted<E>(state: AppModel<E>)
    ensures
        state.listening_set(false).1 == quieted(state),
        !state.listening_set(false).0.is_listening,
        state.listening_set(false).0 == (AppModel {
            is_listening: false,
            audio_running: state.listening_set(false).0.audio_running,
            transcription_open: state.listening_set(false).0.transcription_open,
            ..state
        }),
        state.is_listening ==> !state.listening_set(false).0.audio_running,
{
    if state.is_listening {
        switching_does_no_more_than_it_says(state, false);
        assert(state.listening_set(false).1 =~= quieted(state));
    }
}

/// Asking for a download begins it where the model is missing or failed and no
/// download is in progress: the first file is named, nothing of it is there, and
/// the other model stays as it was. Otherwise nothing happens.
pub proof fn download_begins_where_it_can<E>(state: AppModel<E>, variant: ModelVariant)
    ensures
        ({
            let (after, actions) = state.download_clicked(variant);
            let can = !state.download_active && (state.status(variant) is NotDownloaded
                || state.status(variant) is Error);
            &&& !can ==> after == state && actions.len() == 0
            &&& can ==> {
                &&& actions == seq![ActionModel::SpawnDownload(variant)]
                &&& after.status(variant) == (StatusModel::Downloading {
                    current_file: MODEL_FILES@[0]@,
                    current_bytes: 0,
                    total_bytes: 0,
                })
                &&& after.status(other(variant)) == state.status(other(variant))
                &&& after.download_active
                &&& after.downloading_variant == Some(variant)
                &&& after == (AppModel {
                    model_status_small: after.model_status_small,
                    model_status_large: after.model_status_large,
                    download_active: true,
                    downloading_variant: Some(variant),
                    ..state
                })
            }
        }),
{
}

/// Asking for a start begins it where the model is there and does not run and
/// none is starting: listening ends, the model that ran is let go, and the new
/// one is started with the settings that hold. The other model is ready or gone,
/// as its files say, if it was the active one, and otherwise stays as it was.
/// Where a start is not possible, nothing happens.
pub proof fn start_begins_where_it_can<E>(
    state: AppModel<E>,
    variant: ModelVariant,
    old_files_found: bool,
)
    ensures
        ({
            let (after, actions) = state.start_clicked(variant, old_files_found);
            let can = state.status(variant) is Ready && !state.init_pending && !(state.active_model
                == Some(variant) && state.engine is Some);
            &&& !can ==> after == state && actions.len() == 0
            &&& can ==> {
                &&& actions == quieted(state) + seq![
                    ActionModel::SpawnInit { variant, settings: state.settings },
                ]
                &&& after.status(variant) == StatusModel::Initializing
                &&& after.status(other(variant)) == if state.active_model == Some(other(variant)) {
                    if old_files_found {
                        StatusModel::Ready
                    } else {
                        StatusModel::NotDownloaded
                    }
                } else {
                    state.status(other(variant))
                }
                &&& after.active_model == Some(variant)
                &&& after.engine is None
                &&& after.init_pending
                &&& !after.is_listening
                &&& after.status_message == "Initializing..."@
                &&& after.download_active == state.download_active
                &&& after.downloading_variant == state.downloading_variant
                &&& same_but_for_models_and_listening(after, state)
            }
        }),
{
    lemma_quieted(state);
}

/// Asking for a stop lets the engine go where the model runs: listening ends, no
/// model is active any more, and both are still there. Otherwise nothing happens.
pub proof fn stop_lets_the_engine_go<E>(state: AppModel<E>, variant: ModelVariant)
    ensures
        ({
            let (after, actions) = state.stop_clicked(variant);
            let can = state.status(variant) is Ready && state.active_model == Some(variant)
                && state.engine is Some;
            &&& !can ==> after == state && actions.len() == 0
            &&& can ==> {
                &&& actions == quieted(state)
                &&& after.engine is None
                &&& after.active_model is None
                &&& !after.is_listening
                &&& after.status(variant) == state.status(variant)
                &&& after.status(other(variant)) == state.status(other(variant))
                &&& after.status_message == "Model stopped"@
                &&& after.init_pending == state.init_pending
                &&& after.download_active == state.download_active
                &&& after.downloading_variant == state.downloading_variant
                &&& same_but_for_models_and_listening(after, state)
            }
        }),
{
    lemma_quieted(state);
}

/// Asking for deletion removes the files where they are all there or something
/// went wrong with them. A model that runs is let go before; another one that
/// runs is left alone, and so is its status. Otherwise nothing happens.
pub proof fn deletion_removes_the_files<E>(state: AppModel<E>, variant: ModelVariant)
    ensures
        ({
            let (after, actions) = state.delete_clicked(variant);
            let can = state.status(variant) is Ready || state.status(variant) is Error;
            let runs = state.active_model == Some(variant) && state.engine is Some;
            &&& !can ==> after == state && actions.len() == 0
            &&& can ==> {
                &&& after.status(variant) == StatusModel::NotDownloaded
                &&& after.status(other(variant)) == state.status(other(variant))
                &&& after.status_message == "Model deleted"@
                &&& after.init_pending == state.init_pending
                &&& after.download_active == state.download_active
                &&& after.downloading_variant == state.downloading_variant
                &&& same_but_for_models_and_listening(after, state)
                &&& runs ==> {
                    &&& actions == quieted(state) + seq![ActionModel::RemoveModelDir(variant)]
                    &&& after.engine is None
                    &&& after.active_model is None
                    &&& !after.is_listening
                }
                &&& !runs ==> {
                    &&& actions == seq![ActionModel::RemoveModelDir(variant)]
                    &&& after.engine == state.engine
                    &&& after.active_model == state.active_model
                    &&& after.is_listening == state.is_listening
                    &&& after.audio_running == state.audio_running
                    &&& after.transcription_open == state.transcription_open
                }
            }
        }),
{
    lemma_quieted(state);
    let removal = seq![ActionModel::RemoveModelDir(variant)];
    assert(Seq::<ActionModel>::empty() + removal =~= removal);
}

/// Applying the settings saves them as they are, with the selected device, and
/// then starts the active model anew with them; without one, nothing else
/// happens.
pub proof fn settings_are_saved_and_used<E>(state: AppModel<E>)
    ensures
        ({
            let (after, actions) = state.settings_applied();
            let saved = ActionModel::WriteConfig(
                AppConfigModel {
                    settings: state.settings,
                    selected_device: state.selected_device,
                },
            );
            &&& state.active_model is None ==> after == state && actions == seq![saved]
            &&& state.active_model matches Some(variant) ==> {
                &&& actions == seq![saved] + quieted(state) + seq![
                    ActionModel::SpawnInit { variant, settings: state.settings },
                ]
                &&& after.status(variant) == StatusModel::Initializing
                &&& after.status(other(variant)) == state.status(other(variant))
                &&& after.active_model == Some(variant)
                &&& after.engine is None
                &&& after.init_pending
                &&& !after.is_listening
                &&& after.status_message == "Initializing..."@
                &&& after.download_active == state.download_active
                &&& after.downloading_variant == state.downloading_variant
                &&& same_but_for_models_and_listening(after, state)
            }
        }),
{
    lemma_quieted(state);
    if let Some(variant) = state.active_model {
        let saved = seq![ActionModel::WriteConfig(state.config())];
        let spawn = seq![ActionModel::SpawnInit { variant, settings: state.settings }];
        assert(saved + (quieted(state) + spawn) =~= saved + quieted(state) + spawn);
    }
}

/// A reset changes the settings, the selected device and the message, and
/// nothing else.
pub proof fn reset_leaves_the_rest_alone<E>(state: AppModel<E>)
    ensures
        state.config_reset().0 == (AppModel {
            settings: factory_settings(),
            selected_device: 0,
            status_message: "Config reset"@,
            ..state
        }),
{
}

/// The big button switches listening in its own mode, does what switching does,
/// and says so.
pub proof fn button_switches_listening<E>(state: AppModel<E>)
    requires
        state.settings.listening_mode == ListeningMode::ToggleButton,
    ensures
        ({
            let (after, actions) = state.listen_clicked();
            let on = !state.is_listening;
            &&& after == (AppModel {
                status_message: if on {
                    "Listening..."@
                } else {
                    "Ready"@
                },
                ..state.listening_set(on).0
            })
            &&& actions == state.listening_set(on).1
        }),
{
}

/// A device of the list can be chosen, and nothing else can.
pub proof fn listed_device_can_be_chosen<E>(state: AppModel<E>, index: usize)
    ensures
        index < state.available_devices.len() ==> state.device_selected(index) == (AppModel {
            selected_device: index,
            ..state
        }),
        index >= state.available_devices.len() ==> state.device_selected(index) == state,
{
}

/// Looking the devices up again replaces the list and chooses its first entry.
pub proof fn refreshing_replaces_the_list<E>(
    state: AppModel<E>,
    default_device: Option<Seq<char>>,
    names: Seq<Seq<char>>,
)
    ensures
        state.devices_refreshed(default_device, names) == (AppModel {
            available_devices: device_entries(default_device, names),
            selected_device: 0,
            status_message: "Devices refreshed"@,
            ..state
        }),
{
}

/// A sound file is handed to the engine that runs; without one the user is told.
pub proof fn sound_file_needs_an_engine<E>(state: AppModel<E>)
    ensures
        state.engine is Some ==> state.test_started() == (
            state,
            seq![ActionModel::TranscribeFile(state.test_file_path)],
        ),
        state.engine is None ==> state.test_started() == (
            AppModel { status_message: "Model not ready"@, ..state },
            Seq::<ActionModel>::empty(),
        ),
{
}

/// What is heard in a sound file is treated like what is said; a file that gives
/// nothing is told.
pub proof fn sound_file_is_like_speech<E>(state: AppModel<E>, text: Result<String, String>)
    ensures
        match text {
            Ok(heard) => state.test_finished(text) == state.text_appended(heard@),
            Err(e) => state.test_finished(text) == (
                AppModel { status_message: "Error: "@ + e@, ..state },
                Seq::<ActionModel>::empty(),
            ),
        },
{
}

/// What is kept from one run to the next is the settings and the selected device.
pub proof fn configuration_holds_the_choices<E>(state: AppModel<E>)
    ensures
        state.config().settings == state.settings,
        state.config().selected_device == state.selected_device,
{
}

/// At its launch the program has the settings that were saved, or those that it
/// came with; the device that was saved, or the last one where that is gone; and
/// every model but the one that is begun with is there or missing as its files
/// are. Nobody listens, and nothing has been heard.
pub proof fn launch_starts_from_what_is_there<E>(
    small_found: bool,
    large_found: bool,
    osc_connected: bool,
    devices: Seq<Seq<char>>,
    config: Option<AppConfigModel>,
    total_ram_bytes: Option<u64>,
)
    requires
        devices.len() <= usize::MAX,
    ensures
        ({
            let state = AppModel::<E>::launched(
                small_found,
                large_found,
                osc_connected,
                devices,
                config,
                total_ram_bytes,
            ).0;
            &&& state.settings == match config {
                Some(saved) => saved.settings,
                None => factory_settings(),
            }
            &&& config is None ==> state.selected_device == 0
            &&& config matches Some(saved) ==> {
                &&& saved.selected_device < devices.len() ==> state.selected_device
                    == saved.selected_device
                &&& saved.selected_device >= devices.len() && devices.len() > 0
                    ==> state.selected_device == devices.len() - 1
                &&& devices.len() == 0 ==> state.selected_device == 0
            }
            &&& state.available_devices == devices
            &&& state.osc_connected == osc_connected
            &&& state.total_ram_bytes == total_ram_bytes
            &&& state.status(ModelVariant::Large) == if large_found && small_found {
                StatusModel::Ready
            } else if large_found {
                StatusModel::Initializing
            } else {
                StatusModel::NotDownloaded
            }
            &&& large_found && !small_found ==> state.status(ModelVariant::Small)
                == StatusModel::NotDownloaded
            &&& state.engine is None
            &&& !state.is_listening
            &&& !state.audio_running
            &&& !state.transcription_open
            &&& !state.osc_listening
            &&& !state.osc_running
            &&& state.recognized_text.len() == 0
            &&& state.test_file_path.len() == 0
            &&& state.view == crate::view::View::Main
            &&& state.download_active == (!small_found && !large_found)
            &&& state.init_pending == (small_found || large_found)
        }),
{
}

/// The window is drawn again as long as either model is being downloaded or
/// started, or the program listens.
pub proof fn window_follows_what_goes_on<E>(state: AppModel<E>)
    ensures
        state.needs_repaint() <==> state.is_listening || exists|variant: ModelVariant|
            #[trigger] state.status(variant) is Downloading || state.status(variant)
                is Initializing,
{
    let small = state.status(ModelVariant::Small);
    let large = state.status(ModelVariant::Large);
}

/// The window shows nothing but the start exactly while the active model starts.
pub proof fn start_is_shown_alone<E>(state: AppModel<E>)
    ensures
        state.active_initializing() <==> exists|variant: ModelVariant|
            state.active_model == Some(variant) && #[trigger] state.status(variant)
                is Initializing,
{
    if state.active_initializing() {
        let variant = state.active_model->0;
        assert(state.status(variant) is Initializing);
    }
}

/// Setting the status of one model leaves the other alone.
pub proof fn status_is_set_for_one_model<E>(
    state: AppModel<E>,
    variant: ModelVariant,
    status: StatusModel,
)
    ensures
        state.with_status(variant, status).status(variant) == status,
        state.with_status(variant, status).status(other(variant)) == state.status(other(variant)),
        state.status(ModelVariant::Small) == state.model_status_small,
        state.status(ModelVariant::Large) == state.model_status_large,
{
}

/// A start that is not to end listening leaves it alone, and does nothing but
/// start the model.
pub proof fn start_may_leave_listening_alone<E>(
    state: AppModel<E>,
    variant: ModelVariant,
    old_files_found: bool,
)
    ensures
        ({
            let (after, actions) = state.init_started(variant, false, old_files_found);
            &&& actions == seq![ActionModel::SpawnInit { variant, settings: state.settings }]
            &&& after.status(variant) == StatusModel::Initializing
            &&& after.status(other(variant)) == if state.active_model != Some(other(variant)) {
                state.status(other(variant))
            } else if old_files_found {
                StatusModel::Ready
            } else {
                StatusModel::NotDownloaded
            }
            &&& after.status_message == "Initializing..."@
            &&& after.active_model == Some(variant)
            &&& after.engine is None
            &&& after.init_pending
            &&& after.download_active == state.download_active
            &&& after.downloading_variant == state.downloading_variant
            &&& same_but_for_models(after, state)
        }),
{
    let spawn = seq![ActionModel::SpawnInit { variant, settings: state.settings }];
    assert(Seq::<ActionModel>::empty() + spawn =~= spawn);
}

/// The start of a download names the first file and nothing of it, at the model
/// that is downloaded; the other model stays as it was.
pub proof fn download_starts_with_the_first_file<E>(state: AppModel<E>, variant: ModelVariant)
    ensures
        ({
            let (after, actions) = state.download_started(variant);
            &&& actions == seq![ActionModel::SpawnDownload(variant)]
            &&& after.status(variant) == (StatusModel::Downloading {
                current_file: "conv_frontend.onnx"@,
                current_bytes: 0,
                total_bytes: 0,
            })
            &&& after.status(other(variant)) == state.status(other(variant))
            &&& after == (AppModel {
                model_status_small: after.model_status_small,
                model_status_large: after.model_status_large,
                download_active: true,
                downloading_variant: Some(variant),
                ..state
            })
        }),
{
}

/// A start that is to end listening first differs from one that is not in
/// nothing but that.
pub proof fn start_may_end_listening_first<E>(
    state: AppModel<E>,
    variant: ModelVariant,
    old_files_found: bool,
)
    ensures
        ({
            let quiet = state.listening_set(false).0;
            let (after, actions) = state.init_started(variant, true, old_files_found);
            &&& after == quiet.init_started(variant, false, old_files_found).0
            &&& actions == quieted(state) + seq![
                ActionModel::SpawnInit { variant, settings: state.settings },
            ]
            &&& after.status_message == "Initializing..."@
            &&& !after.is_listening
            &&& state.active_model == Some(other(variant)) ==> after.status(other(variant))
                == if old_files_found {
                StatusModel::Ready
            } else {
                StatusModel::NotDownloaded
            }
        }),
{
    lemma_quieted(state);
}

/// What the program says at its launch.
pub proof fn launch_says_what_it_does<E>(
    small_found: bool,
    large_found: bool,
    osc_connected: bool,
    devices: Seq<Seq<char>>,
    config: Option<AppConfigModel>,
    total_ram_bytes: Option<u64>,
)
    ensures
        AppModel::<E>::launched(
            small_found,
            large_found,
            osc_connected,
            devices,
            config,
            total_ram_bytes,
        ).0.status_message == if small_found || large_found {
            "Initializing..."@
        } else {
            "No model loaded"@
        },
{
}

}
