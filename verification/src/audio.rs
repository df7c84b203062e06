//! Captured sound: which samples are kept, when somebody is speaking, and when
//! what was said is handed to the recogniser.

use crate::engine::{
    clean_transcription, cleaned, cleaned_text_is_trimmed, is_tag_free, tag_free_text_is_only_trimmed,
};
use crate::events::TranscriptionEvent;
use crate::text::{is_white_space, joined};
use crate::text_laws::{is_blank, only_the_white_space_around_is_taken_off};
use vstd::prelude::*;

verus! {

/// How samples at one rate become samples at another.
#[derive(Debug, Clone, Copy, PartialEq, Eq, Structural)]
pub enum Resampling {
    /// The rates are the same.
    Unchanged,
    /// Each source sample is the mean of `factor` samples; `filtered_len` of
    /// these means fit into the input.
    Averaged { factor: usize, filtered_len: usize },
    /// The `len` samples of the input are used as they are.
    Direct { len: usize },
}

/// Samples `from` up to, and without, `to`.
#[derive(Debug, Clone, Copy, PartialEq, Eq, Structural)]
pub struct Window {
    pub from: usize,
    pub to: usize,
}

/// The source samples that one resampled value is made of.
#[derive(Debug, Clone, Copy, PartialEq, Eq, Structural)]
pub enum Taps {
    /// A value between two neighbours.
    Pair { first: Window, second: Window },
    /// The last source sample.
    Single { only: Window },
    /// Behind the last source sample.
    Nothing,
}

/// How `len` samples at `in_rate` become samples at `out_rate`. Where the input
/// is at least twice as fast, it is averaged before it is thinned out.
pub open spec fn resampling(len: int, in_rate: u32, out_rate: u32) -> Resampling {
    if in_rate == out_rate {
        Resampling::Unchanged
    } else if in_rate > out_rate && in_rate / out_rate > 1 && len >= in_rate / out_rate {
        Resampling::Averaged {
            factor: (in_rate / out_rate) as usize,
            filtered_len: (len - in_rate / out_rate + 1) as usize,
        }
    } else {
        Resampling::Direct { len: len as usize }
    }
}

/// How `len` samples at `in_rate` become samples at `out_rate`.
pub fn plan_resampling(len: usize, in_rate: u32, out_rate: u32) -> (plan: Resampling)
    requires
        in_rate == out_rate || out_rate > 0,
    ensures
        plan == resampling(len as int, in_rate, out_rate),
        plan.fits(len as int),
{
    if in_rate == out_rate {
        return Resampling::Unchanged;
    }
    if in_rate > out_rate {
        let factor: usize = (in_rate / out_rate) as usize;
        if factor > 1 && len >= factor {
            return Resampling::Averaged { factor, filtered_len: len - factor + 1 };
        }
    }
    Resampling::Direct { len }
}

impl Resampling {
    /// How many neighbouring samples make one source sample.
    pub open spec fn width(&self) -> int {
        match *self {
            Resampling::Averaged { factor, .. } => factor as int,
            _ => 1,
        }
    }

    /// How many source samples there are.
    pub open spec fn source_len(&self) -> int {
        match *self {
            Resampling::Unchanged => 0,
            Resampling::Averaged { filtered_len, .. } => filtered_len as int,
            Resampling::Direct { len } => len as int,
        }
    }

    /// The source samples are those of an input of `len` samples.
    pub open spec fn fits(&self, len: int) -> bool {
        match *self {
            Resampling::Unchanged => true,
            Resampling::Averaged { factor, filtered_len } => 1 < factor <= len && filtered_len
                == len - factor + 1,
            Resampling::Direct { len: all } => all == len,
        }
    }

    /// The samples that make source sample `idx`.
    pub open spec fn window(&self, idx: int) -> Window {
        Window { from: idx as usize, to: (idx + self.width()) as usize }
    }

    /// What the value at source position `idx`, or between it and the next, is
    /// made of.
    pub open spec fn tapped(&self, idx: int) -> Taps {
        if idx + 1 < self.source_len() {
            Taps::Pair { first: self.window(idx), second: self.window(idx + 1) }
        } else if idx < self.source_len() {
            Taps::Single { only: self.window(idx) }
        } else {
            Taps::Nothing
        }
    }

    /// What the value at source position `idx`, or between it and the next, is
    /// made of. Every window lies inside an input of `len` samples.
    pub fn taps(&self, idx: usize, len: usize) -> (taps: Taps)
        requires
            self.fits(len as int),
        ensures
            taps == self.tapped(idx as int),
            match taps {
                Taps::Pair { first, second } => first.to <= len && second.to <= len,
                Taps::Single { only } => only.to <= len,
                Taps::Nothing => true,
            },
    {
        let (width, source_len): (usize, usize) = match *self {
            Resampling::Unchanged => (1, 0),
            Resampling::Averaged { factor, filtered_len } => (factor, filtered_len),
            Resampling::Direct { len: all } => (1, all),
        };
        if idx >= source_len {
            return Taps::Nothing;
        }
        let first = Window { from: idx, to: idx + width };
        if source_len - idx > 1 {
            Taps::Pair { first, second: Window { from: idx + 1, to: idx + 1 + width } }
        } else {
            Taps::Single { only: first }
        }
    }
}

/// Every sample of the input is used. Where the input is at least twice as fast,
/// and long enough, `factor` neighbours make one source sample; otherwise each
/// sample stands for itself. From every position at which that many samples are
/// left, a value is made of them, mixed with those one further on where these
/// lie in the input too.
pub proof fn every_sample_is_used(len: usize, in_rate: u32, out_rate: u32, idx: usize)
    requires
        out_rate > 0,
        in_rate != out_rate,
    ensures
        ({
            let taps = resampling(len as int, in_rate, out_rate).tapped(idx as int);
            let ratio = in_rate as int / out_rate as int;
            let factor = if in_rate >= 2 * out_rate && len >= ratio {
                ratio
            } else {
                1
            };
            &&& idx + factor > len ==> taps == Taps::Nothing
            &&& idx + factor == len ==> taps == (Taps::Single {
                only: Window { from: idx, to: len },
            })
            &&& idx + factor < len ==> taps == (Taps::Pair {
                first: Window { from: idx, to: (idx + factor) as usize },
                second: Window { from: (idx + 1) as usize, to: (idx + 1 + factor) as usize },
            })
        }),
{
    assert(in_rate as int / out_rate as int > 1 <==> in_rate >= 2 * out_rate) by (nonlinear_arith)
        requires
            out_rate > 0,
    ;
}

/// Samples are left as they are exactly where the rates are the same.
pub proof fn equal_rates_leave_the_samples_alone(len: usize, in_rate: u32, out_rate: u32)
    ensures
        resampling(len as int, in_rate, out_rate) == Resampling::Unchanged <==> in_rate
            == out_rate,
{
}

/// The first sample of every frame of `channels` samples. A frame that is cut
/// off at the end counts.
pub open spec fn frame_starts<S>(data: Seq<S>, channels: int) -> Seq<S>
    decreases data.len(),
{
    if data.len() == 0 || channels <= 0 {
        Seq::empty()
    } else if data.len() <= channels {
        seq![data[0]]
    } else {
        seq![data[0]] + frame_starts(data.skip(channels), channels)
    }
}

/// Of every frame the first sample is kept, none is left out and none comes
/// twice: sample `i` of the channel is sample `i * channels` of the data, for
/// every `i` for which there is one.
pub proof fn every_frame_gives_its_first_sample<S>(data: Seq<S>, channels: int, i: int)
    requires
        channels > 0,
        i >= 0,
    ensures
        i < frame_starts(data, channels).len() <==> i * channels < data.len(),
        i * channels < data.len() ==> frame_starts(data, channels)[i] == data[i * channels],
    decreases data.len(),
{
    assert(i * channels >= 0) by (nonlinear_arith)
        requires
            i >= 0,
            channels > 0,
    ;
    if i > 0 {
        assert(i * channels == (i - 1) * channels + channels) by (nonlinear_arith);
        assert((i - 1) * channels >= 0) by (nonlinear_arith)
            requires
                i > 0,
                channels > 0,
        ;
        if data.len() > channels {
            every_frame_gives_its_first_sample(data.skip(channels), channels, i - 1);
        }
    } else {
        assert(i * channels == 0) by (nonlinear_arith)
            requires
                i == 0,
        ;
    }
}

/// The first channel of interleaved samples.
pub fn first_channel<S: Copy>(data: &[S], channels: usize) -> (samples: Vec<S>)
    requires
        channels > 0,
    ensures
        samples@ == frame_starts(data@, channels as int),
{
    let mut samples: Vec<S> = Vec::new();
    let mut at: usize = 0;
    assert(data@.skip(0) =~= data@);
    while at < data.len()
        invariant
            channels > 0,
            at <= data@.len(),
            samples@ + frame_starts(data@.skip(at as int), channels as int) == frame_starts(
                data@,
                channels as int,
            ),
        decreases data@.len() - at,
    {
        let ghost rest = data@.skip(at as int);
        samples.push(data[at]);
        if channels >= data.len() - at {
            return samples;
        }
        assert(rest.skip(channels as int) =~= data@.skip(at + channels));
        assert(samples@ + frame_starts(rest.skip(channels as int), channels as int)
            =~= samples@.drop_last() + (seq![rest[0]] + frame_starts(
            rest.skip(channels as int),
            channels as int,
        )));
        at += channels;
    }
    assert(samples@ + Seq::<S>::empty() =~= samples@);
    samples
}

/// The highest sample rate of a device.
pub const SAMPLE_RATE_MAX: u32 = 0x7fff_ffff;

/// The fewest samples that are looked at.
pub const CHUNK_MIN: usize = 1024;

/// How many quiet chunks end what is being said: six tenths of a second.
pub const QUIET_CHUNKS: u32 = 6;

/// How many samples must be there before they are looked at: a tenth of a
/// second, and no fewer than [`CHUNK_MIN`].
pub open spec fn chunk(sample_rate: int) -> int {
    if sample_rate / 10 >= CHUNK_MIN {
        sample_rate / 10
    } else {
        CHUNK_MIN as int
    }
}

/// A chunk is a tenth of a second at every rate at which that is more than 1024
/// samples, and never smaller than those.
pub proof fn chunk_is_a_tenth_of_a_second(sample_rate: int)
    requires
        sample_rate >= 0,
    ensures
        chunk(sample_rate) >= 1024,
        chunk(sample_rate) > 1024 ==> chunk(sample_rate) * 10 <= sample_rate < chunk(sample_rate)
            * 10 + 10,
        sample_rate >= 10240 ==> sample_rate - 10 < chunk(sample_rate) * 10 <= sample_rate,
{
}

/// How many samples must be there before they are looked at: a tenth of a
/// second, and no fewer than [`CHUNK_MIN`].
pub fn chunk_size(sample_rate: u32) -> (size: usize)
    requires
        sample_rate <= SAMPLE_RATE_MAX,
    ensures
        size == chunk(sample_rate as int),
        size == if sample_rate / 10 >= CHUNK_MIN {
            sample_rate / 10
        } else {
            CHUNK_MIN as u32
        },
{
    let tenth: usize = sample_rate as usize / 10;
    if tenth >= CHUNK_MIN {
        tenth
    } else {
        CHUNK_MIN
    }
}

/// A single-precision float with these bits is less than 0.005. It is so for
/// everything below zero and for no NaN.
pub open spec fn is_quiet(rms_bits: u32) -> bool {
    rms_bits < 0x3ba3_d70a || 0x8000_0000 <= rms_bits <= 0xff80_0000
}

/// There is one threshold: 0.005, whose bits are `0x3ba3_d70a`, is the lowest
/// loudness that is not quiet. The bits of numbers that are not negative are in
/// the order of the numbers; everything negative is quiet, and no NaN is.
pub proof fn loudness_has_one_threshold(lower: u32, higher: u32)
    ensures
        !is_quiet(0x3ba3_d70a),
        is_quiet(0x3ba3_d709),
        lower <= higher < 0x8000_0000 && is_quiet(higher) ==> is_quiet(lower),
        0x8000_0000 <= lower <= 0xff80_0000 ==> is_quiet(lower),
        0x7f80_0000 < lower < 0x8000_0000 || 0xff80_0000 < lower ==> !is_quiet(lower),
{
}

/// What is done with the captured samples.
#[derive(Debug, Clone, Copy, PartialEq, Eq, Structural)]
pub enum CaptureStep {
    /// They stay in the buffer.
    Wait,
    /// They are taken out and thrown away.
    Discard,
    /// They are taken out and handed to the recogniser.
    Transcribe,
}

/// Follows the loudness of a capture, to tell where somebody speaks.
#[derive(Debug, Clone, Copy, PartialEq, Eq, Structural)]
pub struct VoiceDetector {
    pub sample_rate: u32,
    /// How many samples the buffer held when it was last looked at.
    pub last_len: usize,
    /// How many quiet chunks came one after the other.
    pub silence_chunks: u32,
    pub is_speaking: bool,
}

impl VoiceDetector {
    /// What the detector is after a chunk, and what is done with the samples.
    /// `total_len` is the number of samples in the buffer.
    pub open spec fn observed(self, quiet: bool, total_len: usize) -> (VoiceDetector, CaptureStep) {
        let silence_chunks = if !quiet {
            0u32
        } else if self.silence_chunks < u32::MAX {
            (self.silence_chunks + 1) as u32
        } else {
            u32::MAX
        };
        let is_speaking = self.is_speaking || !quiet;
        let heard = VoiceDetector { last_len: total_len, silence_chunks, is_speaking, ..self };
        if !is_speaking {
            if total_len > self.sample_rate * 3 {
                (VoiceDetector { last_len: 0, ..heard }, CaptureStep::Discard)
            } else {
                (heard, CaptureStep::Wait)
            }
        } else if silence_chunks >= QUIET_CHUNKS {
            (self.at_rest(), CaptureStep::Transcribe)
        } else {
            (heard, CaptureStep::Wait)
        }
    }

    /// The detector before anything was heard.
    pub open spec fn at_rest(self) -> VoiceDetector {
        VoiceDetector { last_len: 0, silence_chunks: 0, is_speaking: false, ..self }
    }

    /// A detector that has heard nothing yet.
    pub fn new(sample_rate: u32) -> (detector: Self)
        ensures
            detector.sample_rate == sample_rate,
            detector == detector.at_rest(),
    {
        VoiceDetector { sample_rate, last_len: 0, silence_chunks: 0, is_speaking: false }
    }

    /// Takes in the loudness of a chunk, as the bits of its root mean square.
    /// Silence before anybody speaks is thrown away every three seconds; what
    /// was said is handed on after [`QUIET_CHUNKS`] quiet chunks.
    pub fn observe(&mut self, rms_bits: u32, total_len: usize) -> (step: CaptureStep)
        ensures
            (*final(self), step) == old(self).observed(is_quiet(rms_bits), total_len),
    {
        self.last_len = total_len;
        if rms_bits < 0x3ba3_d70a || (0x8000_0000 <= rms_bits && rms_bits <= 0xff80_0000) {
            if self.silence_chunks < u32::MAX {
                self.silence_chunks += 1;
            }
        } else {
            self.silence_chunks = 0;
            self.is_speaking = true;
        }
        if !self.is_speaking {
            if total_len as u64 > self.sample_rate as u64 * 3 {
                self.last_len = 0;
                return CaptureStep::Discard;
            }
            return CaptureStep::Wait;
        }
        if self.silence_chunks >= QUIET_CHUNKS {
            self.last_len = 0;
            self.silence_chunks = 0;
            self.is_speaking = false;
            return CaptureStep::Transcribe;
        }
        CaptureStep::Wait
    }

    /// Whether the samples that are left when the capture ends are handed to
    /// the recogniser: somebody was still speaking.
    pub fn flushes(&self, samples: usize) -> (yes: bool)
        ensures
            yes == (samples > 0 && self.is_speaking),
    {
        samples > 0 && self.is_speaking
    }

    /// The detector after all these chunks, of which each was quiet or not.
    pub open spec fn after(self, chunks: Seq<(bool, usize)>) -> VoiceDetector
        decreases chunks.len(),
    {
        if chunks.len() == 0 {
            self
        } else {
            let before = self.after(chunks.drop_last());
            before.observed(chunks.last().0, chunks.last().1).0
        }
    }

    /// What is done with the samples at chunk `i` of these.
    pub open spec fn step_at(self, chunks: Seq<(bool, usize)>, i: int) -> CaptureStep {
        self.after(chunks.take(i)).observed(chunks[i].0, chunks[i].1).1
    }
}

/// Silence is never handed to the recogniser: as long as every chunk is quiet,
/// nobody is taken to speak and nothing is transcribed.
pub proof fn silence_is_never_transcribed(
    detector: VoiceDetector,
    chunks: Seq<(bool, usize)>,
    i: int,
)
    requires
        !detector.is_speaking,
        forall|k: int| 0 <= k < chunks.len() ==> (#[trigger] chunks[k]).0,
        0 <= i < chunks.len(),
    ensures
        detector.step_at(chunks, i) != CaptureStep::Transcribe,
        !detector.after(chunks).is_speaking,
{
    lemma_stays_silent(detector, chunks);
    let before = chunks.take(i);
    assert forall|k: int| 0 <= k < before.len() implies (#[trigger] before[k]).0 by {
        assert(before[k] == chunks[k]);
    }
    lemma_stays_silent(detector, before);
}

proof fn lemma_stays_silent(detector: VoiceDetector, chunks: Seq<(bool, usize)>)
    requires
        !detector.is_speaking,
        forall|k: int| 0 <= k < chunks.len() ==> (#[trigger] chunks[k]).0,
    ensures
        !detector.after(chunks).is_speaking,
    decreases chunks.len(),
{
    if chunks.len() > 0 {
        let before = chunks.drop_last();
        assert forall|k: int| 0 <= k < before.len() implies (#[trigger] before[k]).0 by {
            assert(before[k] == chunks[k]);
        }
        lemma_stays_silent(detector, before);
        assert(chunks[chunks.len() - 1].0);
    }
}

/// Before anybody speaks, silence of more than three seconds is thrown away, and
/// shorter silence is kept.
pub proof fn long_silence_is_thrown_away(detector: VoiceDetector, total_len: usize)
    requires
        !detector.is_speaking,
    ensures
        ({
            let (after, step) = detector.observed(true, total_len);
            &&& step == if total_len > 3 * detector.sample_rate {
                CaptureStep::Discard
            } else {
                CaptureStep::Wait
            }
            &&& after.last_len == if total_len > 3 * detector.sample_rate {
                0
            } else {
                total_len
            }
            &&& !after.is_speaking
            &&& after.sample_rate == detector.sample_rate
        }),
{
}

/// A loud chunk means that somebody speaks, and that no quiet chunk counts any
/// more; the samples wait.
pub proof fn loud_chunk_is_speech(detector: VoiceDetector, total_len: usize)
    ensures
        detector.observed(false, total_len) == (
            VoiceDetector {
                sample_rate: detector.sample_rate,
                last_len: total_len,
                silence_chunks: 0,
                is_speaking: true,
            },
            CaptureStep::Wait,
        ),
{
}

/// While somebody speaks, a quiet chunk is counted, and the sixth in a row hands
/// the samples on.
pub proof fn quiet_chunks_are_counted(detector: VoiceDetector, total_len: usize)
    requires
        detector.is_speaking,
        detector.silence_chunks < u32::MAX,
    ensures
        ({
            let (after, step) = detector.observed(true, total_len);
            let count = detector.silence_chunks + 1;
            &&& after.sample_rate == detector.sample_rate
            &&& count < 6 ==> step == CaptureStep::Wait && after.silence_chunks == count
                && after.last_len == total_len && after.is_speaking
            &&& count >= 6 ==> step == CaptureStep::Transcribe && after.silence_chunks == 0
                && after.last_len == 0 && !after.is_speaking
        }),
{
}

/// Speech is never thrown away: once a chunk was loud, the samples stay in the
/// buffer or go to the recogniser.
pub proof fn speech_is_never_thrown_away(detector: VoiceDetector, quiet: bool, total_len: usize)
    requires
        detector.is_speaking || !quiet,
    ensures
        detector.observed(quiet, total_len).1 != CaptureStep::Discard,
        !(detector.observed(quiet, total_len).1 is Transcribe) ==> detector.observed(
            quiet,
            total_len,
        ).0.is_speaking,
{
}

/// What was said is handed on once: after a loud chunk, the first five quiet
/// ones keep the samples where they are, and the sixth hands them to the
/// recogniser and leaves the detector as it was before anything was heard.
pub proof fn utterance_ends_with_the_sixth_quiet_chunk(
    detector: VoiceDetector,
    chunks: Seq<(bool, usize)>,
    i: int,
)
    requires
        chunks.len() == QUIET_CHUNKS + 1,
        !chunks[0].0,
        forall|k: int| 0 < k < chunks.len() ==> (#[trigger] chunks[k]).0,
        0 <= i < chunks.len(),
    ensures
        detector.step_at(chunks, i) == if i < QUIET_CHUNKS {
            CaptureStep::Wait
        } else {
            CaptureStep::Transcribe
        },
        detector.after(chunks) == detector.at_rest(),
{
    lemma_quiet_run(detector, chunks, i);
    lemma_quiet_run(detector, chunks, QUIET_CHUNKS as int);
    assert(chunks.drop_last() =~= chunks.take(QUIET_CHUNKS as int));
}

/// While fewer than six quiet chunks followed the loud one, each is counted.
proof fn lemma_quiet_run(detector: VoiceDetector, chunks: Seq<(bool, usize)>, i: int)
    requires
        0 <= i < chunks.len(),
        i <= QUIET_CHUNKS,
        !chunks[0].0,
        forall|k: int| 0 < k < chunks.len() ==> (#[trigger] chunks[k]).0,
    ensures
        detector.after(chunks.take(i)).sample_rate == detector.sample_rate,
        i > 0 ==> detector.after(chunks.take(i)).is_speaking,
        i > 0 ==> detector.after(chunks.take(i)).silence_chunks == i - 1,
    decreases i,
{
    if i > 0 {
        lemma_quiet_run(detector, chunks, i - 1);
        assert(chunks.take(i).drop_last() =~= chunks.take(i - 1));
        assert(chunks.take(i).last() == chunks[i - 1]);
    }
}

/// What is passed on of a text that was heard: what is left of it when it is
/// cleaned, if anything is.
pub open spec fn passed_on(text: Seq<char>) -> Option<Seq<char>> {
    if cleaned(text).len() > 0 {
        Some(cleaned(text))
    } else {
        None
    }
}

/// A text without tags is passed on without the white space around it, and a
/// blank one is not passed on at all.
pub proof fn what_was_said_is_passed_on(before: Seq<char>, core: Seq<char>, after: Seq<char>)
    requires
        is_tag_free(before + core + after),
        is_blank(before),
        is_blank(after),
        core.len() == 0 || !is_white_space(core[0]) && !is_white_space(core.last()),
    ensures
        passed_on(before + core + after) == if core.len() > 0 {
            Some(core)
        } else {
            None
        },
{
    tag_free_text_is_only_trimmed(before + core + after);
    only_the_white_space_around_is_taken_off(before, core, after);
}

/// Whatever is passed on is not empty, and has no white space around it.
pub proof fn nothing_blank_is_passed_on(text: Seq<char>)
    ensures
        passed_on(text) matches Some(said) ==> {
            &&& said.len() > 0
            &&& !is_white_space(said[0])
            &&& !is_white_space(said.last())
        },
{
    cleaned_text_is_trimmed(text);
}

/// Whether the samples of a finished utterance, or those left when the capture
/// ends, become an event: the text without tags and white space, if any is left.
pub fn utterance_event(text: &str) -> (event: Option<TranscriptionEvent>)
    ensures
        event is Some <==> passed_on(text@) is Some,
        event is Some ==> event->0 is FinalResult && Some(event->0->FinalResult_0@) == passed_on(
            text@,
        ),
        event is Some <==> cleaned(text@).len() > 0,
        event is Some ==> event->0 is FinalResult && event->0->FinalResult_0@ == cleaned(text@),
{
    let clean: String = clean_transcription(text);
    if clean.as_str().is_empty() {
        None
    } else {
        Some(TranscriptionEvent::FinalResult(clean))
    }
}

/// Why sound cannot be captured, with what the device said where it said
/// anything.
#[derive(Debug)]
pub enum CaptureFailure {
    Devices(String),
    NoSuchDevice,
    Config(String),
    Format,
    Build(String),
    Play(String),
}

impl CaptureFailure {
    /// What the user is told.
    pub open spec fn text(&self) -> Seq<char> {
        match *self {
            CaptureFailure::Devices(e) => "Failed to get devices: "@ + e@,
            CaptureFailure::NoSuchDevice => "Selected device not found"@,
            CaptureFailure::Config(e) => "Failed to get config: "@ + e@,
            CaptureFailure::Format => "Unsupported audio sample format"@,
            CaptureFailure::Build(e) => "Failed to build stream: "@ + e@,
            CaptureFailure::Play(e) => "Failed to play stream: "@ + e@,
        }
    }

    /// The report of the failure.
    pub fn event(&self) -> (event: TranscriptionEvent)
        ensures
            event is Error,
            event->Error_0@ == self.text(),
    {
        TranscriptionEvent::Error(
            match self {
                CaptureFailure::Devices(e) => joined("Failed to get devices: ", e.as_str()),
                CaptureFailure::NoSuchDevice => "Selected device not found".to_owned(),
                CaptureFailure::Config(e) => joined("Failed to get config: ", e.as_str()),
                CaptureFailure::Format => "Unsupported audio sample format".to_owned(),
                CaptureFailure::Build(e) => joined("Failed to build stream: ", e.as_str()),
                CaptureFailure::Play(e) => joined("Failed to play stream: ", e.as_str()),
            },
        )
    }
}

/// What the device said of a failure is told whole, behind what failed.
pub proof fn words_of_the_device_are_told(words: String)
    ensures
        CaptureFailure::Devices(words).text() == "Failed to get devices: "@ + words@,
        CaptureFailure::Config(words).text() == "Failed to get config: "@ + words@,
        CaptureFailure::Build(words).text() == "Failed to build stream: "@ + words@,
        CaptureFailure::Play(words).text() == "Failed to play stream: "@ + words@,
        CaptureFailure::NoSuchDevice.text() == "Selected device not found"@,
        CaptureFailure::Format.text() == "Unsupported audio sample format"@,
{
}

}
