//! What the program does in the world on behalf of its state.

use crate::config::{AppConfig, AppConfigModel, Settings, SettingsModel};
use crate::engine::ModelVariant;
use vstd::prelude::*;

verus! {

/// Something to be done outside the state.
#[derive(Debug)]
pub enum Action {
    /// Download the model in a thread of its own.
    SpawnDownload(ModelVariant),
    /// Start the model in a thread of its own.
    SpawnInit { variant: ModelVariant, settings: Settings },
    /// Start the thread that listens to OSC.
    SpawnOscListener,
    /// Tell the thread that listens to OSC to end.
    StopOscListener,
    /// Start the thread that captures sound.
    StartCapture { device_index: usize },
    /// Tell the thread that captures sound to end.
    StopCapture,
    /// Send these bytes to VRChat.
    SendOsc(Vec<u8>),
    /// Put this text onto the clipboard.
    CopyToClipboard(String),
    /// Write the configuration to its file.
    WriteConfig(AppConfig),
    /// Delete the directory of the model.
    RemoveModelDir(ModelVariant),
    /// Transcribe the sound file at this path.
    TranscribeFile(String),
}

/// What an [`Action`] holds.
pub enum ActionModel {
    SpawnDownload(ModelVariant),
    SpawnInit { variant: ModelVariant, settings: SettingsModel },
    SpawnOscListener,
    StopOscListener,
    StartCapture { device_index: usize },
    StopCapture,
    SendOsc(Seq<u8>),
    CopyToClipboard(Seq<char>),
    WriteConfig(AppConfigModel),
    RemoveModelDir(ModelVariant),
    TranscribeFile(Seq<char>),
}

impl View for Action {
    type V = ActionModel;

    open spec fn view(&self) -> ActionModel {
        match *self {
            Action::SpawnDownload(variant) => ActionModel::SpawnDownload(variant),
            Action::SpawnInit { variant, settings } => ActionModel::SpawnInit {
                variant,
                settings: settings@,
            },
            Action::SpawnOscListener => ActionModel::SpawnOscListener,
            Action::StopOscListener => ActionModel::StopOscListener,
            Action::StartCapture { device_index } => ActionModel::StartCapture { device_index },
            Action::StopCapture => ActionModel::StopCapture,
            Action::SendOsc(bytes) => ActionModel::SendOsc(bytes@),
            Action::CopyToClipboard(text) => ActionModel::CopyToClipboard(text@),
            Action::WriteConfig(config) => ActionModel::WriteConfig(config@),
            Action::RemoveModelDir(variant) => ActionModel::RemoveModelDir(variant),
            Action::TranscribeFile(path) => ActionModel::TranscribeFile(path@),
        }
    }
}

/// What the actions hold, in order.
pub open spec fn action_models(actions: Seq<Action>) -> Seq<ActionModel> {
    Seq::new(actions.len(), |i: int| actions[i]@)
}

/// No action at all.
pub(crate) fn no_actions() -> (actions: Vec<Action>)
    ensures
        action_models(actions@) == Seq::<ActionModel>::empty(),
{
    let actions: Vec<Action> = Vec::new();
    assert(action_models(actions@) =~= Seq::<ActionModel>::empty());
    actions
}

/// The single action.
pub(crate) fn one_action(action: Action) -> (actions: Vec<Action>)
    ensures
        action_models(actions@) == seq![action@],
{
    let mut actions: Vec<Action> = Vec::new();
    actions.push(action);
    assert(action_models(actions@) =~= seq![action@]);
    actions
}

/// The first actions, then the second.
pub(crate) fn both(first: Vec<Action>, second: Vec<Action>) -> (actions: Vec<Action>)
    ensures
        action_models(actions@) == action_models(first@) + action_models(second@),
{
    let mut actions: Vec<Action> = first;
    let mut second: Vec<Action> = second;
    let ghost tail = second@;
    actions.append(&mut second);
    assert(action_models(actions@) =~= action_models(first@) + action_models(tail));
    actions
}

/// No action is lost, added or moved when the actions are spoken of by what they
/// hold, and none stands for another.
pub proof fn actions_are_spoken_of_one_by_one(
    first: Seq<Action>,
    second: Seq<Action>,
    bytes: Vec<u8>,
    text: String,
    config: AppConfig,
)
    ensures
        action_models(first).len() == first.len(),
        forall|i: int| 0 <= i < first.len() ==> #[trigger] action_models(first)[i] == first[i]@,
        action_models(first + second) == action_models(first) + action_models(second),
        Action::SendOsc(bytes)@ == ActionModel::SendOsc(bytes@),
        Action::CopyToClipboard(text)@ == ActionModel::CopyToClipboard(text@),
        Action::TranscribeFile(text)@ == ActionModel::TranscribeFile(text@),
        Action::WriteConfig(config)@ == ActionModel::WriteConfig(config@),
        config@.settings == config.settings@,
        config@.selected_device == config.selected_device,
{
    assert(action_models(first + second) =~= action_models(first) + action_models(second));
}

}
