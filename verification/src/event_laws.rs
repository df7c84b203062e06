//! What each event does to the state, what it leaves alone, and what is done
//! outside on its account.

use crate::actions::ActionModel;
use crate::config::ListeningMode;
use crate::engine::ModelVariant;
use crate::events::{DownloadEvent, InitEvent, TranscriptionEvent};
use crate::model::AppModel;
use crate::osc::{message_bytes, ArgModel};
use crate::status::StatusModel;
use vstd::prelude::*;

verus! {

/// The model that is not `variant`.
pub open spec fn other(variant: ModelVariant) -> ModelVariant {
    match variant {
        ModelVariant::Small => ModelVariant::Large,
        ModelVariant::Large => ModelVariant::Small,
    }
}

/// The message to VRChat that shows or hides the typing indicator.
pub open spec fn typing_sent(on: bool) -> ActionModel {
    ActionModel::SendOsc(message_bytes("/chatbox/typing"@, seq![ArgModel::Bool(on)]))
}

/// The message to VRChat that puts a text of at most 140 characters into the
/// chatbox at once.
pub open spec fn chat_sent(text: Seq<char>) -> ActionModel {
    ActionModel::SendOsc(
        message_bytes(
            "/chatbox/input"@,
            seq![
                ArgModel::Text(
                    if text.len() <= 140 {
                        text
                    } else {
                        text.take(140)
                    },
                ),
                ArgModel::Bool(true),
            ],
        ),
    )
}

/// Nothing but what is shown of the models' progress changed.
pub open spec fn same_but_for_models<E>(after: AppModel<E>, before: AppModel<E>) -> bool {
    after == (AppModel {
        model_status_small: after.model_status_small,
        model_status_large: after.model_status_large,
        active_model: after.active_model,
        download_active: after.download_active,
        downloading_variant: after.downloading_variant,
        init_pending: after.init_pending,
        engine: after.engine,
        status_message: after.status_message,
        ..before
    })
}

/// Nothing but listening, and what is said of it, changed.
pub open spec fn same_but_for_listening<E>(after: AppModel<E>, before: AppModel<E>) -> bool {
    after == (AppModel {
        is_listening: after.is_listening,
        audio_running: after.audio_running,
        transcription_open: after.transcription_open,
        status_message: after.status_message,
        ..before
    })
}

/// The report of a start is about the model that was starting: on success it is
/// ready and its engine runs, on failure it shows the error. The other model,
/// and all that is not about models, stays as it was.
pub proof fn start_report_is_about_the_starting_model<E>(
    state: AppModel<E>,
    variant: ModelVariant,
    event: InitEvent<E>,
)
    requires
        state.init_pending,
        state.active_model == Some(variant),
    ensures
        ({
            let after = state.init_handled(Some(event));
            &&& !after.init_pending
            &&& !after.active_initializing()
            &&& after.active_model == Some(variant)
            &&& after.status(other(variant)) == state.status(other(variant))
            &&& after.download_active == state.download_active
            &&& after.downloading_variant == state.downloading_variant
            &&& same_but_for_models(after, state)
            &&& match event {
                InitEvent::Success(engine) => {
                    &&& after.status(variant) == StatusModel::Ready
                    &&& after.engine == Some(engine)
                    &&& after.is_active(variant)
                    &&& after.status_message == "Ready"@
                },
                InitEvent::Error(text) => {
                    &&& after.status(variant) == StatusModel::Error(text@)
                    &&& after.engine == state.engine
                    &&& after.status_message == "Initialization failed"@
                },
            }
        }),
{
}

/// A report of a start that nobody awaits changes nothing, and neither does the
/// lack of one.
pub proof fn start_report_is_awaited<E>(state: AppModel<E>, event: Option<InitEvent<E>>)
    requires
        !state.init_pending || event is None,
    ensures
        state.init_handled(event) == state,
{
}

/// None of the reports ends the download.
pub open spec fn goes_on(events: Seq<DownloadEvent>) -> bool {
    forall|i: int|
        0 <= i < events.len() ==> !(#[trigger] events[i] is AllDone) && !(events[i] is Error)
}

/// Reports of a download can be taken in part by part, as long as none ends it.
proof fn lemma_downloads_in_parts<E>(
    state: AppModel<E>,
    variant: ModelVariant,
    events: Seq<DownloadEvent>,
    k: int,
)
    requires
        0 <= k <= events.len(),
        goes_on(events.take(k)),
    ensures
        state.downloads_folded(variant, events) == state.downloads_folded(
            variant,
            events.take(k),
        ).downloads_folded(variant, events.skip(k)),
    decreases k,
{
    if k == 0 {
        assert(events.skip(0) =~= events);
        assert(events.take(0) =~= Seq::<DownloadEvent>::empty());
    } else {
        let rest = events.skip(1);
        assert(events.take(k)[0] == events[0]);
        assert(events.take(k).skip(1) =~= rest.take(k - 1));
        assert(rest.skip(k - 1) =~= events.skip(k));
        assert forall|i: int| 0 <= i < rest.take(k - 1).len() implies !(#[trigger] rest.take(
            k - 1,
        )[i] is AllDone) && !(rest.take(k - 1)[i] is Error) by {
            assert(rest.take(k - 1)[i] == events.take(k)[i + 1]);
        }
        lemma_downloads_in_parts(state.download_handled(variant, events[0]), variant, rest, k - 1);
    }
}

/// A single report.
proof fn lemma_one_report<E>(state: AppModel<E>, variant: ModelVariant, event: DownloadEvent)
    ensures
        state.downloads_folded(variant, seq![event]) == state.download_handled(variant, event),
{
    let rest = seq![event].skip(1);
    assert(rest =~= Seq::<DownloadEvent>::empty());
    assert(state.download_handled(variant, event).downloads_folded(variant, rest)
        == state.download_handled(variant, event));
}

/// What reports of a download never touch.
proof fn lemma_downloads_touch<E>(
    state: AppModel<E>,
    variant: ModelVariant,
    events: Seq<DownloadEvent>,
)
    ensures
        ({
            let after = state.downloads_folded(variant, events);
            &&& after.status(other(variant)) == state.status(other(variant))
            &&& after == (AppModel {
                model_status_small: after.model_status_small,
                model_status_large: after.model_status_large,
                download_active: after.download_active,
                downloading_variant: after.downloading_variant,
                status_message: after.status_message,
                ..state
            })
            &&& goes_on(events) ==> after.download_active == state.download_active
                && after.downloading_variant == state.downloading_variant
        }),
    decreases events.len(),
{
    if events.len() > 0 && !AppModel::<E>::ends_download(events[0]) {
        let rest = events.skip(1);
        lemma_downloads_touch(state.download_handled(variant, events[0]), variant, rest);
        if goes_on(events) {
            assert forall|i: int| 0 <= i < rest.len() implies !(#[trigger] rest[i] is AllDone)
                && !(rest[i] is Error) by {
                assert(rest[i] == events[i + 1]);
            }
        }
    } else if events.len() > 0 {
        assert(goes_on(events) ==> !(events[0] is AllDone) && !(events[0] is Error));
    }
}

/// No report of a download changes the status of a model that is not being
/// downloaded, nor anything that is not about the download.
pub proof fn downloads_concern_the_downloaded_model<E>(
    state: AppModel<E>,
    variant: ModelVariant,
    events: Seq<DownloadEvent>,
)
    requires
        state.downloading_variant == Some(variant),
    ensures
        ({
            let after = state.downloads_handled(events);
            &&& after.status(other(variant)) == state.status(other(variant))
            &&& after.active_model == state.active_model
            &&& after.engine == state.engine
            &&& after.init_pending == state.init_pending
            &&& same_but_for_models(after, state)
        }),
{
    lemma_downloads_touch(state, variant, events);
}

/// Reports of a download that is not in progress change nothing.
pub proof fn downloads_are_awaited<E>(state: AppModel<E>, events: Seq<DownloadEvent>)
    requires
        !state.download_active,
    ensures
        state.downloads_handled(events) == state,
{
}

/// A download that is complete makes the model that was downloaded ready, and no
/// other; the next download can begin. `k` is where the end stands in the reports.
pub proof fn complete_download_makes_the_model_ready<E>(
    state: AppModel<E>,
    variant: ModelVariant,
    events: Seq<DownloadEvent>,
    k: int,
)
    requires
        state.download_active,
        state.downloading_variant == Some(variant),
        0 <= k < events.len(),
        goes_on(events.take(k)),
        events[k] is AllDone,
    ensures
        ({
            let after = state.downloads_handled(events);
            &&& after.status(variant) == StatusModel::Ready
            &&& after.status(other(variant)) == state.status(other(variant))
            &&& !after.download_active
            &&& after.downloading_variant is None
            &&& after.status_message == "Download complete"@
        }),
{
    lemma_downloads_in_parts(state, variant, events, k);
    lemma_downloads_touch(state, variant, events);
    assert(events.skip(k)[0] == events[k]);
}

/// A download that failed shows the error at the model that was downloaded, and
/// at no other; the next download can begin. `k` is where the failure stands in
/// the reports.
pub proof fn failed_download_shows_the_error<E>(
    state: AppModel<E>,
    variant: ModelVariant,
    events: Seq<DownloadEvent>,
    k: int,
)
    requires
        state.download_active,
        state.downloading_variant == Some(variant),
        0 <= k < events.len(),
        goes_on(events.take(k)),
        events[k] is Error,
    ensures
        ({
            let after = state.downloads_handled(events);
            &&& after.status(variant) == StatusModel::Error(events[k]->Error_0@)
            &&& after.status(other(variant)) == state.status(other(variant))
            &&& !after.download_active
            &&& after.downloading_variant is None
        }),
{
    lemma_downloads_in_parts(state, variant, events, k);
    lemma_downloads_touch(state, variant, events);
    assert(events.skip(k)[0] == events[k]);
}

/// While a download goes on, the latest count of bytes is shown at the model
/// that is downloaded. `k` is where that report stands.
pub proof fn latest_progress_is_shown<E>(
    state: AppModel<E>,
    variant: ModelVariant,
    events: Seq<DownloadEvent>,
    k: int,
)
    requires
        state.download_active,
        state.downloading_variant == Some(variant),
        0 <= k < events.len(),
        goes_on(events),
        events[k] is Progress,
        forall|i: int| k < i < events.len() ==> #[trigger] events[i] is FileDone,
    ensures
        ({
            let after = state.downloads_handled(events);
            &&& after.status(variant) == (StatusModel::Downloading {
                current_file: events[k]->file@,
                current_bytes: events[k]->bytes,
                total_bytes: events[k]->total,
            })
            &&& after.download_active
            &&& after.downloading_variant == Some(variant)
        }),
{
    lemma_downloads_touch(state, variant, events);
    let until = events.take(k + 1);
    let rest = events.skip(k + 1);
    assert forall|i: int| 0 <= i < until.len() implies !(#[trigger] until[i] is AllDone) && !(
    until[i] is Error) by {
        assert(until[i] == events[i]);
    }
    assert forall|i: int| 0 <= i < until.take(k).len() implies !(#[trigger] until.take(
        k,
    )[i] is AllDone) && !(until.take(k)[i] is Error) by {
        assert(until.take(k)[i] == events[i]);
    }
    lemma_downloads_in_parts(state, variant, events, k + 1);
    lemma_downloads_in_parts(state, variant, until, k);
    assert(until.skip(k) =~= seq![events[k]]);
    assert(until.take(k) =~= events.take(k));
    lemma_one_report(state.downloads_folded(variant, until.take(k)), variant, events[k]);
    assert forall|i: int| 0 <= i < rest.len() implies #[trigger] rest[i] is FileDone by {
        assert(rest[i] == events[k + 1 + i]);
    }
    lemma_files_done(state.downloads_folded(variant, until), variant, rest);
}

proof fn lemma_files_done<E>(
    state: AppModel<E>,
    variant: ModelVariant,
    events: Seq<DownloadEvent>,
)
    requires
        forall|i: int| 0 <= i < events.len() ==> #[trigger] events[i] is FileDone,
    ensures
        state.downloads_folded(variant, events).status(variant) == state.status(variant),
    decreases events.len(),
{
    if events.len() > 0 {
        let rest = events.skip(1);
        assert(events[0] is FileDone);
        assert forall|i: int| 0 <= i < rest.len() implies #[trigger] rest[i] is FileDone by {
            assert(rest[i] == events[i + 1]);
        }
        lemma_files_done(state.download_handled(variant, events[0]), variant, rest);
    }
}

/// A file that is done is told by its name.
pub proof fn finished_file_is_told<E>(state: AppModel<E>, events: Seq<DownloadEvent>)
    requires
        state.download_active,
        events.len() > 0,
        goes_on(events),
        events.last() is FileDone,
    ensures
        state.downloads_handled(events).status_message == "Downloaded: "@
            + events.last()->FileDone_0@,
{
    let variant = state.download_variant();
    let k = events.len() - 1;
    assert forall|i: int| 0 <= i < events.take(k).len() implies !(#[trigger] events.take(
        k,
    )[i] is AllDone) && !(events.take(k)[i] is Error) by {
        assert(events.take(k)[i] == events[i]);
    }
    lemma_downloads_in_parts(state, variant, events, k);
    assert(events.skip(k) =~= seq![events.last()]);
    lemma_one_report(state.downloads_folded(variant, events.take(k)), variant, events.last());
}

/// Switching listening on hands the selected device to the capture where an
/// engine runs, and tells VRChat; switching it off ends the capture, and tells
/// VRChat. Nothing else is done, and nothing else changes.
pub proof fn switching_does_no_more_than_it_says<E>(state: AppModel<E>, on: bool)
    requires
        state.is_listening != on,
    ensures
        ({
            let (after, actions) = state.listening_set(on);
            let told = if state.osc_connected {
                seq![typing_sent(on)]
            } else {
                Seq::empty()
            };
            &&& after.is_listening == on
            &&& same_but_for_listening(after, state)
            &&& on && state.engine is Some ==> {
                &&& actions == seq![
                    ActionModel::StartCapture { device_index: state.selected_device },
                ] + told
                &&& after.audio_running
                &&& after.transcription_open
                &&& after.status_message == state.status_message
            }
            &&& on && state.engine is None ==> {
                &&& actions == told
                &&& after.audio_running == state.audio_running
                &&& after.transcription_open == state.transcription_open
                &&& after.status_message == "Engine not ready"@
            }
            &&& !on ==> {
                &&& actions == seq![ActionModel::StopCapture] + told
                &&& !after.audio_running
                &&& !after.transcription_open
                &&& after.status_message == state.status_message
            }
        }),
{
    let actions = state.listening_set(on).1;
    if on && state.engine is None {
        assert(Seq::<ActionModel>::empty() + state.typing_actions(on) =~= state.typing_actions(on));
    }
}

/// What was heard is put on a line of its own behind what was heard before, or
/// in its place where the user does not want it appended.
pub proof fn heard_text_is_shown<E>(state: AppModel<E>, text: Seq<char>)
    ensures
        ({
            let shown = state.text_appended(text).0.recognized_text;
            let old_len = state.recognized_text.len() as int;
            &&& !state.settings.append_mode ==> shown == text
            &&& state.recognized_text.len() == 0 ==> shown == text
            &&& state.settings.append_mode && old_len > 0 ==> {
                &&& shown.len() == old_len + 1 + text.len()
                &&& shown.take(old_len) == state.recognized_text
                &&& shown[old_len] == '\n'
                &&& shown.skip(old_len + 1) == text
            }
        }),
{
    let shown = state.text_appended(text).0.recognized_text;
    let old_len = state.recognized_text.len() as int;
    reveal_strlit("\n");
    if state.settings.append_mode && old_len > 0 {
        assert(shown =~= state.recognized_text + "\n"@ + text);
        assert(shown.take(old_len) =~= state.recognized_text);
        assert(shown.skip(old_len + 1) =~= text);
    }
}

/// What was heard is sent to the chatbox, unless it is empty or there is no
/// socket, and then all that is shown is copied, where the user wants that.
/// Nothing else is done, and nothing but what is shown changes.
pub proof fn heard_text_is_sent_and_copied<E>(state: AppModel<E>, text: Seq<char>)
    ensures
        ({
            let (after, actions) = state.text_appended(text);
            let sent = if text.len() > 0 && state.osc_connected {
                seq![chat_sent(text)]
            } else {
                Seq::empty()
            };
            let copied = if state.settings.auto_copy {
                seq![ActionModel::CopyToClipboard(after.recognized_text)]
            } else {
                Seq::empty()
            };
            &&& actions == sent + copied
            &&& after.status_message == if state.settings.auto_copy {
                "Copied"@
            } else {
                state.status_message
            }
            &&& after == (AppModel {
                recognized_text: after.recognized_text,
                status_message: after.status_message,
                ..state
            })
        }),
{
    let (after, actions) = state.text_appended(text);
    let sent = if text.len() > 0 && state.osc_connected {
        seq![chat_sent(text)]
    } else {
        Seq::empty()
    };
    if !state.settings.auto_copy {
        assert(sent + Seq::<ActionModel>::empty() =~= sent);
    }
}

/// Copying copies what is shown; clearing shows nothing any more.
pub proof fn shown_text_is_copied_and_cleared<E>(state: AppModel<E>)
    ensures
        state.text_copied() == (
            AppModel { status_message: "Copied"@, ..state },
            seq![ActionModel::CopyToClipboard(state.recognized_text)],
        ),
        state.text_cleared() == (AppModel {
            recognized_text: Seq::empty(),
            status_message: "Cleared"@,
            ..state
        }),
{
}

/// Reports of a capture change what is shown and nothing else; those of a
/// capture that is over change nothing.
proof fn lemma_transcripts_touch<E>(state: AppModel<E>, events: Seq<TranscriptionEvent>)
    ensures
        ({
            let after = state.transcripts_folded(events).0;
            after == (AppModel {
                recognized_text: after.recognized_text,
                status_message: after.status_message,
                ..state
            })
        }),
    decreases events.len(),
{
    if events.len() > 0 {
        lemma_transcripts_touch(state, events.drop_last());
    }
}

/// What is done on account of the first reports comes first.
proof fn lemma_transcripts_grow<E>(state: AppModel<E>, events: Seq<TranscriptionEvent>, k: int)
    requires
        0 <= k <= events.len(),
    ensures
        ({
            let all = state.transcripts_folded(events).1;
            let first = state.transcripts_folded(events.take(k)).1;
            &&& first.len() <= all.len()
            &&& all.take(first.len() as int) == first
        }),
    decreases events.len() - k,
{
    let all = state.transcripts_folded(events).1;
    let first = state.transcripts_folded(events.take(k)).1;
    if k == events.len() {
        assert(events.take(k) =~= events);
        assert(all.take(all.len() as int) =~= all);
    } else {
        let next = state.transcripts_folded(events.take(k + 1)).1;
        assert(events.take(k + 1).drop_last() =~= events.take(k));
        lemma_transcripts_grow(state, events, k + 1);
        assert(next.take(first.len() as int) =~= first);
        assert(all.take(first.len() as int) =~= next.take(first.len() as int));
    }
}

/// What is done for report `k`, and at which place.
proof fn lemma_transcript_at<E>(state: AppModel<E>, events: Seq<TranscriptionEvent>, k: int)
    requires
        0 <= k < events.len(),
    ensures
        ({
            let all = state.transcripts_folded(events).1;
            let (before, first) = state.transcripts_folded(events.take(k));
            let (after, next) = state.transcripts_folded(events.take(k + 1));
            let (then, more) = before.transcript_handled(events[k]);
            &&& next == first + more
            &&& after == then
            &&& next.len() <= all.len()
            &&& forall|i: int|
                0 <= i < more.len() ==> all[first.len() + i] == #[trigger] more[i]
        }),
{
    let all = state.transcripts_folded(events).1;
    let first = state.transcripts_folded(events.take(k)).1;
    let next = state.transcripts_folded(events.take(k + 1)).1;
    assert(events.take(k + 1).drop_last() =~= events.take(k));
    assert(events.take(k + 1).last() == events[k]);
    lemma_transcripts_grow(state, events, k + 1);
    let more = state.transcripts_folded(events.take(k)).0.transcript_handled(events[k]).1;
    assert forall|i: int| 0 <= i < more.len() implies all[first.len() + i] == #[trigger] more[i] by {
        assert(all.take(next.len() as int)[first.len() + i] == next[first.len() + i]);
    }
}

/// What a frame does begins with what it does about what was heard.
proof fn lemma_heard_comes_first<E>(
    state: AppModel<E>,
    downloads: Seq<DownloadEvent>,
    init: Option<InitEvent<E>>,
    transcripts: Seq<TranscriptionEvent>,
    requests: Seq<bool>,
)
    ensures
        ({
            let started = state.downloads_handled(downloads).init_handled(init);
            let heard = started.transcripts_handled(transcripts).1;
            let actions = state.updated(downloads, init, transcripts, requests).1;
            &&& started.transcription_open == state.transcription_open
            &&& started.osc_connected == state.osc_connected
            &&& started.settings == state.settings
            &&& started.recognized_text == state.recognized_text
            &&& heard.len() <= actions.len()
            &&& forall|i: int| 0 <= i < heard.len() ==> #[trigger] actions[i] == heard[i]
        }),
{
    lemma_downloads_touch(state, state.download_variant(), downloads);
}

/// The text that is shown after the first `count` reports of a frame.
pub open spec fn shown_after<E>(
    state: AppModel<E>,
    transcripts: Seq<TranscriptionEvent>,
    count: int,
) -> Seq<char>
    decreases count,
{
    if count <= 0 {
        state.recognized_text
    } else {
        let before = shown_after(state, transcripts, count - 1);
        match transcripts[count - 1] {
            TranscriptionEvent::FinalResult(text) => if state.settings.append_mode && before.len()
                > 0 {
                before.push('\n') + text@
            } else {
                text@
            },
            TranscriptionEvent::Error(_) => before,
        }
    }
}

proof fn lemma_shown_after<E>(
    state: AppModel<E>,
    started: AppModel<E>,
    transcripts: Seq<TranscriptionEvent>,
    count: int,
)
    requires
        0 <= count <= transcripts.len(),
        started.settings == state.settings,
        started.recognized_text == state.recognized_text,
    ensures
        started.transcripts_folded(transcripts.take(count)).0.recognized_text == shown_after(
            state,
            transcripts,
            count,
        ),
    decreases count,
{
    if count > 0 {
        lemma_shown_after(state, started, transcripts, count - 1);
        lemma_transcripts_touch(started, transcripts.take(count - 1));
        assert(transcripts.take(count).drop_last() =~= transcripts.take(count - 1));
        assert(transcripts.take(count).last() == transcripts[count - 1]);
        reveal_strlit("\n");
        let before = shown_after(state, transcripts, count - 1);
        assert(before.push('\n') =~= before + "\n"@);
    }
}

/// Every text that is heard in a frame is sent to the chatbox, and what is shown
/// then is copied behind it, where the user wants that.
pub proof fn frame_sends_and_copies_what_is_heard<E>(
    state: AppModel<E>,
    downloads: Seq<DownloadEvent>,
    init: Option<InitEvent<E>>,
    transcripts: Seq<TranscriptionEvent>,
    requests: Seq<bool>,
    k: int,
)
    requires
        state.transcription_open,
        0 <= k < transcripts.len(),
        transcripts[k] is FinalResult,
    ensures
        ({
            let text = transcripts[k]->FinalResult_0@;
            let actions = state.updated(downloads, init, transcripts, requests).1;
            let copied = ActionModel::CopyToClipboard(shown_after(state, transcripts, k + 1));
            &&& state.osc_connected && text.len() > 0 ==> actions.contains(chat_sent(text))
            &&& state.settings.auto_copy ==> actions.contains(copied)
            &&& state.osc_connected && text.len() > 0 && state.settings.auto_copy ==> exists|i: int|
                0 <= i < actions.len() - 1 && #[trigger] actions[i] == chat_sent(text) && actions[i
                    + 1] == copied
        }),
{
    let text = transcripts[k]->FinalResult_0@;
    let started = state.downloads_handled(downloads).init_handled(init);
    let actions = state.updated(downloads, init, transcripts, requests).1;
    lemma_heard_comes_first(state, downloads, init, transcripts, requests);
    lemma_transcript_at(started, transcripts, k);
    lemma_shown_after(state, started, transcripts, k + 1);
    lemma_transcripts_touch(started, transcripts.take(k));
    let (before, first) = started.transcripts_folded(transcripts.take(k));
    let more = before.text_appended(text).1;
    heard_text_is_sent_and_copied(before, text);
    let at = first.len() as int;
    if more.len() > 0 {
        assert(actions[at] == more[0]);
    }
    if more.len() > 1 {
        assert(actions[at + 1] == more[1]);
    }
}

/// What is heard in a frame is sent in the order in which it was heard.
pub proof fn frame_sends_in_order<E>(
    state: AppModel<E>,
    downloads: Seq<DownloadEvent>,
    init: Option<InitEvent<E>>,
    transcripts: Seq<TranscriptionEvent>,
    requests: Seq<bool>,
    j: int,
    k: int,
)
    requires
        state.transcription_open,
        state.osc_connected,
        0 <= j < k < transcripts.len(),
        transcripts[j] is FinalResult && transcripts[j]->FinalResult_0@.len() > 0,
        transcripts[k] is FinalResult && transcripts[k]->FinalResult_0@.len() > 0,
    ensures
        ({
            let actions = state.updated(downloads, init, transcripts, requests).1;
            exists|a: int, b: int|
                0 <= a < b < actions.len() && #[trigger] actions[a] == chat_sent(
                    transcripts[j]->FinalResult_0@,
                ) && #[trigger] actions[b] == chat_sent(transcripts[k]->FinalResult_0@)
        }),
{
    let started = state.downloads_handled(downloads).init_handled(init);
    let actions = state.updated(downloads, init, transcripts, requests).1;
    lemma_heard_comes_first(state, downloads, init, transcripts, requests);
    lemma_transcript_at(started, transcripts, j);
    lemma_transcript_at(started, transcripts, k);
    lemma_transcripts_touch(started, transcripts.take(j));
    lemma_transcripts_touch(started, transcripts.take(k));
    let (before_j, first_j) = started.transcripts_folded(transcripts.take(j));
    let (before_k, first_k) = started.transcripts_folded(transcripts.take(k));
    heard_text_is_sent_and_copied(before_j, transcripts[j]->FinalResult_0@);
    heard_text_is_sent_and_copied(before_k, transcripts[k]->FinalResult_0@);
    let more_j = before_j.transcript_handled(transcripts[j]).1;
    let more_k = before_k.transcript_handled(transcripts[k]).1;
    lemma_transcripts_grow(started, transcripts.take(k), j + 1);
    assert(transcripts.take(k).take(j + 1) =~= transcripts.take(j + 1));
    let a = first_j.len() as int;
    let b = first_k.len() as int;
    assert(more_j.len() > 0 && more_k.len() > 0);
    assert(actions[a] == more_j[0]);
    assert(actions[b] == more_k[0]);
}

/// A capture that fails is told, and nothing is shown or sent for it.
pub proof fn failed_capture_is_told<E>(state: AppModel<E>, event: TranscriptionEvent)
    requires
        event is Error,
    ensures
        state.transcript_handled(event) == (
            AppModel { status_message: "Transcription error: "@ + event->Error_0@, ..state },
            Seq::<ActionModel>::empty(),
        ),
{
}

/// Reports of a capture that is over change nothing and do nothing.
pub proof fn transcripts_are_awaited<E>(state: AppModel<E>, events: Seq<TranscriptionEvent>)
    requires
        !state.transcription_open,
    ensures
        state.transcripts_handled(events) == (state, Seq::<ActionModel>::empty()),
{
}

/// Reports of a capture that come together do what they would have done one
/// after the other.
pub proof fn transcripts_come_one_after_the_other<E>(
    state: AppModel<E>,
    events: Seq<TranscriptionEvent>,
    more: Seq<TranscriptionEvent>,
)
    ensures
        ({
            let (between, first) = state.transcripts_handled(events);
            let (after, then) = between.transcripts_handled(more);
            state.transcripts_handled(events + more) == (after, first + then)
        }),
    decreases more.len(),
{
    lemma_transcripts_touch(state, events);
    let (between, first) = state.transcripts_handled(events);
    if more.len() == 0 {
        assert(events + more =~= events);
        assert(first + Seq::<ActionModel>::empty() =~= first);
    } else {
        let fewer = more.drop_last();
        transcripts_come_one_after_the_other(state, events, fewer);
        assert((events + more).drop_last() =~= events + fewer);
        assert((events + more).last() == more.last());
        if state.transcription_open {
            let (until, done) = between.transcripts_folded(fewer);
            let last = until.transcript_handled(more.last()).1;
            assert(first + (done + last) =~= first + done + last);
        } else {
            assert(first + Seq::<ActionModel>::empty() =~= first);
        }
    }
}

/// What requests of the avatar never touch.
proof fn lemma_requests_touch<E>(state: AppModel<E>, requests: Seq<bool>)
    ensures
        same_but_for_listening(state.osc_folded(requests).0, state),
        requests.len() > 0 ==> state.osc_folded(requests).0.is_listening == requests.last(),
        requests.len() == 0 ==> state.osc_folded(requests) == (state, Seq::<ActionModel>::empty()),
    decreases requests.len(),
{
    if requests.len() > 0 {
        lemma_requests_touch(state, requests.drop_last());
    }
}

/// A request of the avatar switches listening as it says, and is told.
pub proof fn request_is_followed<E>(state: AppModel<E>, on: bool)
    requires
        state.osc_listening,
    ensures
        ({
            let (after, actions) = state.osc_handled(seq![on]);
            &&& after.is_listening == on
            &&& after == (AppModel {
                status_message: if on {
                    "OSC: On"@
                } else {
                    "OSC: Off"@
                },
                ..state.listening_set(on).0
            })
            &&& actions == state.listening_set(on).1
        }),
{
    let none = seq![on].drop_last();
    assert(none =~= Seq::<bool>::empty());
    assert(state.osc_folded(none) == (state, Seq::<ActionModel>::empty()));
    let actions = state.listening_set(on).1;
    assert(Seq::<ActionModel>::empty() + actions =~= actions);
}

/// Requests of the avatar that come together do what they would have done one
/// after the other; without the OSC thread they do nothing.
pub proof fn requests_come_one_after_the_other<E>(
    state: AppModel<E>,
    requests: Seq<bool>,
    more: Seq<bool>,
)
    ensures
        ({
            let (between, first) = state.osc_handled(requests);
            let (after, then) = between.osc_handled(more);
            state.osc_handled(requests + more) == (after, first + then)
        }),
        !state.osc_listening ==> state.osc_handled(requests) == (
            state,
            Seq::<ActionModel>::empty(),
        ),
    decreases more.len(),
{
    lemma_requests_touch(state, requests);
    let (between, first) = state.osc_handled(requests);
    if more.len() == 0 {
        assert(requests + more =~= requests);
        assert(first + Seq::<ActionModel>::empty() =~= first);
    } else {
        let fewer = more.drop_last();
        requests_come_one_after_the_other(state, requests, fewer);
        assert((requests + more).drop_last() =~= requests + fewer);
        assert((requests + more).last() == more.last());
        if state.osc_listening {
            let (until, done) = between.osc_folded(fewer);
            let last = until.osc_request_handled(more.last()).1;
            assert(first + (done + last) =~= first + done + last);
        } else {
            assert(first + Seq::<ActionModel>::empty() =~= first);
        }
    }
}

/// The OSC thread is started once when its mode is chosen, and ended once when
/// another is.
pub proof fn osc_thread_is_started_and_ended_once<E>(state: AppModel<E>)
    ensures
        ({
            let wanted = state.settings.listening_mode == ListeningMode::ToggleOsc;
            let (after, actions) = state.osc_ensured();
            &&& after.osc_listening == wanted
            &&& wanted && !state.osc_listening ==> actions == seq![ActionModel::SpawnOscListener]
                && after.osc_running
            &&& wanted && state.osc_listening ==> actions.len() == 0 && after == state
            &&& !wanted && state.osc_running ==> actions == seq![ActionModel::StopOscListener]
            &&& !wanted && !state.osc_running ==> actions.len() == 0
            &&& !wanted ==> !after.osc_running
            &&& after == (AppModel {
                osc_listening: after.osc_listening,
                osc_running: after.osc_running,
                ..state
            })
            &&& after.osc_ensured() == (after, Seq::<ActionModel>::empty())
        }),
{
}

/// The mode that is always on switches listening on as soon as an engine runs,
/// and no other mode does.
pub proof fn only_the_mode_that_is_always_on_listens_by_itself<E>(state: AppModel<E>)
    ensures
        ({
            let switches = state.settings.listening_mode == ListeningMode::AlwaysOn
                && !state.is_listening && state.engine is Some;
            &&& switches ==> state.listening_synced() == (
                AppModel { status_message: "Always On"@, ..state.listening_set(true).0 },
                state.listening_set(true).1,
            )
            &&& !switches ==> state.listening_synced() == (state, Seq::<ActionModel>::empty())
        }),
{
}

/// The second half of a frame: the OSC thread, its requests, and the mode that
/// is always on.
pub open spec fn second_half<E>(heard: AppModel<E>, requests: Seq<bool>) -> (
    AppModel<E>,
    Seq<ActionModel>,
) {
    let (ready, b) = heard.osc_ensured();
    let (asked, c) = ready.osc_handled(requests);
    let (state, d) = asked.listening_synced();
    (state, b + c + d)
}

/// What the second half of a frame never touches.
proof fn lemma_second_half_touches<E>(heard: AppModel<E>, requests: Seq<bool>)
    ensures
        ({
            let after = second_half(heard, requests).0;
            after == (AppModel {
                is_listening: after.is_listening,
                audio_running: after.audio_running,
                transcription_open: after.transcription_open,
                status_message: after.status_message,
                osc_listening: after.osc_listening,
                osc_running: after.osc_running,
                ..heard
            })
        }),
{
    lemma_requests_touch(heard.osc_ensured().0, requests);
}

/// A frame takes in the reports of the download, of the start and of the capture,
/// in this order, and then does its second half; what is done for what was heard
/// comes first.
pub proof fn frame_is_its_two_halves<E>(
    state: AppModel<E>,
    downloads: Seq<DownloadEvent>,
    init: Option<InitEvent<E>>,
    transcripts: Seq<TranscriptionEvent>,
    requests: Seq<bool>,
)
    ensures
        ({
            let started = state.downloads_handled(downloads).init_handled(init);
            let (heard, a) = started.transcripts_handled(transcripts);
            let (after, then) = second_half(heard, requests);
            state.updated(downloads, init, transcripts, requests) == (after, a + then)
        }),
{
    let started = state.downloads_handled(downloads).init_handled(init);
    let (heard, a) = started.transcripts_handled(transcripts);
    let (ready, b) = heard.osc_ensured();
    let (asked, c) = ready.osc_handled(requests);
    let d = asked.listening_synced().1;
    assert(a + b + c + d =~= a + (b + c + d));
}

/// Where the mode is followed already, the second half of a frame is what the
/// requests do.
proof fn lemma_second_half_again<E>(heard: AppModel<E>, requests: Seq<bool>)
    ensures
        ({
            let (between, first) = second_half(heard, Seq::empty());
            let (after, then) = second_half(between, requests);
            second_half(heard, requests) == (after, first + then)
        }),
{
    let none = Seq::<ActionModel>::empty();
    let (ready, b) = heard.osc_ensured();
    lemma_requests_touch(ready, requests);
    lemma_requests_touch(ready, Seq::empty());
    let (between, first) = second_half(heard, Seq::empty());
    let (asked, c) = ready.osc_handled(requests);
    let d = asked.listening_synced().1;
    if heard.settings.listening_mode == ListeningMode::AlwaysOn {
        assert(c == none);
        assert(asked == ready);
        assert(first =~= b + d);
        assert(between.osc_ensured() == (between, none));
        assert(second_half(between, requests) == (between, none + none + none));
        assert(b + c + d =~= first + (none + none + none));
    } else {
        assert(between == ready);
        assert(first =~= b);
        assert(ready.osc_ensured() == (ready, none));
        assert(d == none);
        assert(second_half(between, requests) == (asked, none + c + none));
        assert(b + c + d =~= first + (none + c + none));
    }
}

/// After a frame the models are as their reports say, what is shown is what was
/// heard, and all that no report is about is as it was.
pub proof fn frame_takes_in_every_report<E>(
    state: AppModel<E>,
    downloads: Seq<DownloadEvent>,
    init: Option<InitEvent<E>>,
    transcripts: Seq<TranscriptionEvent>,
    requests: Seq<bool>,
)
    ensures
        ({
            let after = state.updated(downloads, init, transcripts, requests).0;
            let models = state.downloads_handled(downloads).init_handled(init);
            &&& after.model_status_small == models.model_status_small
            &&& after.model_status_large == models.model_status_large
            &&& after.active_model == models.active_model
            &&& after.download_active == models.download_active
            &&& after.downloading_variant == models.downloading_variant
            &&& after.init_pending == models.init_pending
            &&& after.engine == models.engine
            &&& after.recognized_text == if state.transcription_open {
                shown_after(state, transcripts, transcripts.len() as int)
            } else {
                state.recognized_text
            }
            &&& after.view == state.view
            &&& after.settings == state.settings
            &&& after.test_file_path == state.test_file_path
            &&& after.osc_connected == state.osc_connected
            &&& after.available_devices == state.available_devices
            &&& after.selected_device == state.selected_device
            &&& after.total_ram_bytes == state.total_ram_bytes
        }),
{
    lemma_downloads_touch(state, state.download_variant(), downloads);
    let started = state.downloads_handled(downloads).init_handled(init);
    lemma_transcripts_touch(started, transcripts);
    lemma_shown_after(state, started, transcripts, transcripts.len() as int);
    assert(transcripts.take(transcripts.len() as int) =~= transcripts);
    frame_is_its_two_halves(state, downloads, init, transcripts, requests);
    lemma_second_half_touches(started.transcripts_handled(transcripts).0, requests);
}

/// After a frame the program listens as its mode says: in the mode of the avatar
/// as it last asked, in the mode that is always on whenever an engine runs, and
/// in the mode of the button as before.
pub proof fn frame_listens_as_the_mode_says<E>(
    state: AppModel<E>,
    downloads: Seq<DownloadEvent>,
    init: Option<InitEvent<E>>,
    transcripts: Seq<TranscriptionEvent>,
    requests: Seq<bool>,
)
    ensures
        ({
            let after = state.updated(downloads, init, transcripts, requests).0;
            match state.settings.listening_mode {
                ListeningMode::ToggleOsc => {
                    &&& requests.len() > 0 ==> after.is_listening == requests.last()
                    &&& requests.len() == 0 ==> after.is_listening == state.is_listening
                },
                ListeningMode::AlwaysOn => after.is_listening == (state.is_listening
                    || after.engine is Some),
                ListeningMode::ToggleButton => after.is_listening == state.is_listening,
            }
        }),
{
    frame_takes_in_every_report(state, downloads, init, transcripts, requests);
    lemma_heard_comes_first(state, downloads, init, transcripts, requests);
    lemma_downloads_touch(state, state.download_variant(), downloads);
    let started = state.downloads_handled(downloads).init_handled(init);
    lemma_transcripts_touch(started, transcripts);
    let ready = started.transcripts_handled(transcripts).0.osc_ensured().0;
    lemma_requests_touch(ready, requests);
}

/// What is done outside where listening is `on` now and was not before.
pub open spec fn switch_is_done<E>(
    state: AppModel<E>,
    on: bool,
    actions: Seq<ActionModel>,
) -> bool {
    &&& state.osc_connected ==> actions.contains(typing_sent(on))
    &&& on && state.engine is Some ==> actions.contains(
        ActionModel::StartCapture { device_index: state.selected_device },
    )
    &&& !on ==> actions.contains(ActionModel::StopCapture)
}

proof fn lemma_switch_is_done<E>(state: AppModel<E>, on: bool)
    requires
        state.is_listening != on,
    ensures
        switch_is_done(state, on, state.listening_set(on).1),
{
    switching_does_no_more_than_it_says(state, on);
    let actions = state.listening_set(on).1;
    if actions.len() > 0 {
        assert(actions.contains(actions[0]));
    }
    if actions.len() > 1 {
        assert(actions.contains(actions[1]));
    }
}

/// What is done stays done when more is done before or after it.
proof fn lemma_more_is_done(
    before: Seq<ActionModel>,
    actions: Seq<ActionModel>,
    after: Seq<ActionModel>,
    a: ActionModel,
)
    requires
        actions.contains(a),
    ensures
        (before + actions + after).contains(a),
{
    let i = choose|i: int| 0 <= i < actions.len() && actions[i] == a;
    assert((before + actions + after)[before.len() + i] == a);
}

proof fn lemma_switch_within<E>(
    state: AppModel<E>,
    on: bool,
    before: Seq<ActionModel>,
    actions: Seq<ActionModel>,
    after: Seq<ActionModel>,
)
    requires
        switch_is_done(state, on, actions),
    ensures
        switch_is_done(state, on, before + actions + after),
{
    if state.osc_connected {
        lemma_more_is_done(before, actions, after, typing_sent(on));
    }
    if on && state.engine is Some {
        lemma_more_is_done(
            before,
            actions,
            after,
            ActionModel::StartCapture { device_index: state.selected_device },
        );
    }
    if !on {
        lemma_more_is_done(before, actions, after, ActionModel::StopCapture);
    }
}

proof fn lemma_requests_act<E>(state: AppModel<E>, requests: Seq<bool>)
    requires
        state.osc_folded(requests).0.is_listening != state.is_listening,
    ensures
        switch_is_done(
            state,
            state.osc_folded(requests).0.is_listening,
            state.osc_folded(requests).1,
        ),
    decreases requests.len(),
{
    if requests.len() > 0 {
        let (before, done) = state.osc_folded(requests.drop_last());
        let on = requests.last();
        let more = before.osc_request_handled(on).1;
        lemma_requests_touch(state, requests.drop_last());
        lemma_requests_touch(state, requests);
        if before.is_listening != on {
            lemma_switch_is_done(before, on);
            lemma_switch_within(before, on, done, more, Seq::empty());
            assert(done + more + Seq::<ActionModel>::empty() =~= done + more);
        } else {
            lemma_requests_act(state, requests.drop_last());
            lemma_switch_within(state, on, Seq::empty(), done, more);
            assert(Seq::<ActionModel>::empty() + done + more =~= done + more);
        }
    }
}

/// A frame after which the program listens though it did not before, or no
/// longer though it did, starts or ends the capture and tells VRChat.
pub proof fn frame_acts_on_a_change_of_listening<E>(
    state: AppModel<E>,
    downloads: Seq<DownloadEvent>,
    init: Option<InitEvent<E>>,
    transcripts: Seq<TranscriptionEvent>,
    requests: Seq<bool>,
)
    ensures
        ({
            let (after, actions) = state.updated(downloads, init, transcripts, requests);
            &&& after.is_listening != state.is_listening && state.osc_connected
                ==> actions.contains(typing_sent(after.is_listening))
            &&& after.is_listening && !state.is_listening && after.engine is Some
                ==> actions.contains(
                ActionModel::StartCapture { device_index: state.selected_device },
            )
            &&& !after.is_listening && state.is_listening ==> actions.contains(
                ActionModel::StopCapture,
            )
        }),
{
    frame_takes_in_every_report(state, downloads, init, transcripts, requests);
    lemma_downloads_touch(state, state.download_variant(), downloads);
    let started = state.downloads_handled(downloads).init_handled(init);
    lemma_transcripts_touch(started, transcripts);
    let (heard, a) = started.transcripts_handled(transcripts);
    let (ready, b) = heard.osc_ensured();
    lemma_requests_touch(ready, requests);
    let (asked, c) = ready.osc_handled(requests);
    let (after, d) = asked.listening_synced();
    let actions = state.updated(downloads, init, transcripts, requests).1;
    if after.is_listening != state.is_listening {
        if asked.is_listening != ready.is_listening {
            lemma_requests_act(ready, requests);
            lemma_switch_within(ready, after.is_listening, a + b, c, d);
            assert(actions =~= (a + b) + c + d);
        } else {
            lemma_switch_is_done(asked, true);
            lemma_switch_within(asked, true, a + b + c, d, Seq::empty());
            assert(actions =~= (a + b + c) + d + Seq::<ActionModel>::empty());
        }
    }
}

/// A frame starts the OSC thread when its mode was chosen, and ends it when
/// another was.
pub proof fn frame_starts_and_ends_the_osc_thread<E>(
    state: AppModel<E>,
    downloads: Seq<DownloadEvent>,
    init: Option<InitEvent<E>>,
    transcripts: Seq<TranscriptionEvent>,
    requests: Seq<bool>,
)
    ensures
        ({
            let wanted = state.settings.listening_mode == ListeningMode::ToggleOsc;
            let (after, actions) = state.updated(downloads, init, transcripts, requests);
            &&& after.osc_listening == wanted
            &&& wanted && !state.osc_listening ==> actions.contains(ActionModel::SpawnOscListener)
                && after.osc_running
            &&& !wanted && state.osc_running ==> actions.contains(ActionModel::StopOscListener)
            &&& !wanted ==> !after.osc_running
        }),
{
    lemma_downloads_touch(state, state.download_variant(), downloads);
    let started = state.downloads_handled(downloads).init_handled(init);
    lemma_transcripts_touch(started, transcripts);
    let (heard, a) = started.transcripts_handled(transcripts);
    let (ready, b) = heard.osc_ensured();
    lemma_requests_touch(ready, requests);
    let (asked, c) = ready.osc_handled(requests);
    let (after, d) = asked.listening_synced();
    let actions = state.updated(downloads, init, transcripts, requests).1;
    assert(actions =~= a + b + (c + d));
    if b.len() > 0 {
        assert(b.contains(b[0]));
        lemma_more_is_done(a, b, c + d, b[0]);
    }
}

/// A frame without any report changes nothing and does nothing, once the OSC
/// thread is as the mode wants it and nobody has to be listened to.
pub proof fn quiet_frame_does_nothing<E>(state: AppModel<E>)
    requires
        state.osc_listening == (state.settings.listening_mode == ListeningMode::ToggleOsc),
        state.osc_running == state.osc_listening,
        state.settings.listening_mode == ListeningMode::AlwaysOn && state.engine is Some
            ==> state.is_listening,
    ensures
        state.updated(Seq::empty(), None, Seq::empty(), Seq::empty()) == (
            state,
            Seq::<ActionModel>::empty(),
        ),
{
    let none = Seq::<ActionModel>::empty();
    assert(none + none + none + none =~= none);
}

/// Requests of the avatar may as well come a frame later than the reports.
pub proof fn requests_may_come_a_frame_later<E>(
    state: AppModel<E>,
    downloads: Seq<DownloadEvent>,
    init: Option<InitEvent<E>>,
    transcripts: Seq<TranscriptionEvent>,
    requests: Seq<bool>,
)
    ensures
        ({
            let (between, first) = state.updated(downloads, init, transcripts, Seq::empty());
            let (after, then) = between.updated(Seq::empty(), None, Seq::empty(), requests);
            state.updated(downloads, init, transcripts, requests) == (after, first + then)
        }),
{
    let none = Seq::<ActionModel>::empty();
    let started = state.downloads_handled(downloads).init_handled(init);
    let (heard, a) = started.transcripts_handled(transcripts);
    frame_is_its_two_halves(state, downloads, init, transcripts, requests);
    frame_is_its_two_halves(state, downloads, init, transcripts, Seq::empty());
    lemma_second_half_again(heard, requests);
    let (between, first) = second_half(heard, Seq::empty());
    let (after, then) = second_half(between, requests);
    frame_is_its_two_halves(between, Seq::empty(), None, Seq::empty(), requests);
    assert(between.downloads_handled(Seq::empty()) == between);
    assert(between.transcripts_handled(Seq::empty()) == (between, none));
    assert(none + then =~= then);
    assert((a + first) + then =~= a + (first + then));
}

/// Reports of a download that come together do what they would have done one
/// after the other, and none is read behind the last one.
pub proof fn download_reports_come_one_after_the_other<E>(
    state: AppModel<E>,
    events: Seq<DownloadEvent>,
    more: Seq<DownloadEvent>,
)
    requires
        state.downloading_variant is Some <==> state.download_active,
    ensures
        goes_on(events) ==> state.downloads_handled(events + more) == state.downloads_handled(
            events,
        ).downloads_handled(more),
        events.len() > 0 && goes_on(events.drop_last()) && !goes_on(events)
            ==> state.downloads_handled(events + more) == state.downloads_handled(events),
{
    let variant = state.download_variant();
    let all = events + more;
    if goes_on(events) {
        assert(all.take(events.len() as int) =~= events);
        assert(all.skip(events.len() as int) =~= more);
        lemma_downloads_in_parts(state, variant, all, events.len() as int);
        lemma_downloads_touch(state, variant, events);
    } else if events.len() > 0 && goes_on(events.drop_last()) {
        let k = events.len() - 1;
        assert(events.take(k) =~= events.drop_last());
        assert(all.take(k) =~= events.drop_last());
        assert(all.skip(k)[0] == events[k]);
        assert(events.skip(k)[0] == events[k]);
        lemma_downloads_in_parts(state, variant, all, k);
        lemma_downloads_in_parts(state, variant, events, k);
        assert(AppModel::<E>::ends_download(events[k])) by {
            let i = choose|i: int|
                0 <= i < events.len() && (#[trigger] events[i] is AllDone || events[i] is Error);
            if i < k {
                assert(events.drop_last()[i] == events[i]);
            }
        }
    }
}

/// A single report of a download changes what it is about, and nothing else.
pub proof fn download_report_changes_no_more_than_it_says<E>(
    state: AppModel<E>,
    variant: ModelVariant,
    event: DownloadEvent,
)
    requires
        state.download_active,
        state.downloading_variant == Some(variant),
    ensures
        ({
            let after = state.downloads_handled(seq![event]);
            &&& after.status(other(variant)) == state.status(other(variant))
            &&& after.active_model == state.active_model
            &&& after.engine == state.engine
            &&& after.init_pending == state.init_pending
            &&& same_but_for_models(after, state)
            &&& match event {
                DownloadEvent::Progress { file, bytes, total } => {
                    &&& after.status(variant) == (StatusModel::Downloading {
                        current_file: file@,
                        current_bytes: bytes,
                        total_bytes: total,
                    })
                    &&& after.status_message == state.status_message
                    &&& after.download_active
                    &&& after.downloading_variant == Some(variant)
                },
                DownloadEvent::FileDone(file) => {
                    &&& after.status(variant) == state.status(variant)
                    &&& after.status_message == "Downloaded: "@ + file@
                    &&& after.download_active
                    &&& after.downloading_variant == Some(variant)
                },
                DownloadEvent::Error(e) => {
                    &&& after.status(variant) == StatusModel::Error(e@)
                    &&& after.status_message == state.status_message
                    &&& !after.download_active
                    &&& after.downloading_variant is None
                },
                DownloadEvent::AllDone => {
                    &&& after.status(variant) == StatusModel::Ready
                    &&& after.status_message == "Download complete"@
                    &&& !after.download_active
                    &&& after.downloading_variant is None
                },
            }
        }),
{
    lemma_one_report(state, variant, event);
}

/// A single report of a capture does what it says, and no report does nothing.
pub proof fn transcript_does_what_it_says<E>(state: AppModel<E>, event: TranscriptionEvent)
    requires
        state.transcription_open,
    ensures
        state.transcripts_handled(Seq::empty()) == (state, Seq::<ActionModel>::empty()),
        event matches TranscriptionEvent::FinalResult(text) ==> state.transcripts_handled(
            seq![event],
        ) == state.text_appended(text@),
        event matches TranscriptionEvent::Error(e) ==> state.transcripts_handled(seq![event]) == (
            AppModel { status_message: "Transcription error: "@ + e@, ..state },
            Seq::<ActionModel>::empty(),
        ),
{
    let none = Seq::<ActionModel>::empty();
    assert(seq![event].drop_last() =~= Seq::<TranscriptionEvent>::empty());
    assert(state.transcripts_folded(seq![event].drop_last()) == (state, none));
    let more = state.transcript_handled(event).1;
    assert(none + more =~= more);
}

}
