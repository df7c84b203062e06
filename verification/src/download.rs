//! Downloading a model: which files come from where, what is reported on the
//! way, and when the download is complete.

use crate::engine::{ModelVariant, MODEL_FILES};
use crate::events::DownloadEvent;
use crate::text::{decimal_text, is_digit, joined, parse_u64, spelled_u64};
use crate::text_laws::{other_characters_make_no_number, written_number_is_read_back};
use vstd::prelude::*;

verus! {

/// How many bytes are read at a time, and how many at least lie between two
/// reports.
pub const REPORT_STEP: u64 = 262_144;

/// The size that the server announced; zero where it announced none, or
/// nothing that spells a number.
pub open spec fn announced(content_length: Option<Seq<char>>) -> u64 {
    match content_length {
        Some(text) => match spelled_u64(text) {
            Some(n) => n,
            None => 0,
        },
        None => 0,
    }
}

/// A size that is announced in digits is taken as it is; one that does not fit
/// into 64 bits, or is spelled with anything else, is as good as none.
pub proof fn announced_size_is_taken(n: nat, text: Seq<char>, i: int)
    ensures
        announced(Some(decimal_text(n))) == if n <= u64::MAX {
            n as u64
        } else {
            0
        },
        0 <= i < text.len() && !is_digit(text[i]) && !(i == 0 && text[0] == '+') ==> announced(
            Some(text),
        ) == 0,
        announced(None) == 0,
{
    written_number_is_read_back(n);
    other_characters_make_no_number(text, i);
}

/// The size that the server announced; zero where it announced none, or
/// nothing that spells a number.
pub fn announced_size(content_length: Option<&str>) -> (size: u64)
    ensures
        size == announced(
            match content_length {
                Some(text) => Some(text@),
                None => None,
            },
        ),
        size == match content_length {
            Some(text) => match spelled_u64(text@) {
                Some(n) => n,
                None => 0,
            },
            None => 0,
        },
{
    match content_length {
        Some(text) => match parse_u64(text) {
            Some(n) => n,
            None => 0,
        },
        None => 0,
    }
}

/// What is done after a read from the server.
#[derive(Debug, Clone, Copy, PartialEq, Eq, Structural)]
pub enum ReadStep {
    /// Write the bytes that came, and report where a report is due.
    Write { report: bool },
    /// The body is at its end: give the file its own name.
    Finish,
    /// The body broke off: the file keeps the name of an unfinished one, and
    /// its download failed.
    Abort,
}

/// How far the download of one file has come.
#[derive(Debug, Clone, Copy, PartialEq, Eq, Structural)]
pub struct DownloadProgress {
    pub downloaded: u64,
    pub last_reported: u64,
    pub total: u64,
}

impl DownloadProgress {
    /// Fewer bytes than [`REPORT_STEP`] came since the last report.
    pub open spec fn wf(&self) -> bool {
        self.last_reported <= self.downloaded < self.last_reported + REPORT_STEP
    }

    /// A download of `total` bytes that has not begun.
    pub fn new(total: u64) -> (progress: Self)
        ensures
            progress.wf(),
            progress == (DownloadProgress { downloaded: 0, last_reported: 0, total }),
    {
        DownloadProgress { downloaded: 0, last_reported: 0, total }
    }

    /// Counts `n` more bytes. A report is due after [`REPORT_STEP`] bytes, and
    /// when the announced size is reached.
    fn advance(&mut self, n: usize) -> (report: bool)
        requires
            old(self).wf(),
            old(self).downloaded + n <= u64::MAX,
        ensures
            final(self).wf(),
            final(self).total == old(self).total,
            final(self).downloaded == old(self).downloaded + n,
            report == (final(self).downloaded - old(self).last_reported >= REPORT_STEP || final(self).downloaded == final(self).total),
            final(self).last_reported == if report {
                final(self).downloaded
            } else {
                old(self).last_reported
            },
    {
        self.downloaded = self.downloaded + n as u64;
        if self.downloaded - self.last_reported >= REPORT_STEP || self.downloaded == self.total {
            self.last_reported = self.downloaded;
            true
        } else {
            false
        }
    }

    /// The progress after a read that brought this many bytes, or failed, and what
    /// is done then.
    pub open spec fn read_taken(self, read: Option<usize>) -> (DownloadProgress, ReadStep) {
        match read {
            None => (self, ReadStep::Abort),
            Some(n) => if n == 0 {
                (self, ReadStep::Finish)
            } else {
                let downloaded = (self.downloaded + n) as u64;
                let report = downloaded - self.last_reported >= REPORT_STEP || downloaded
                    == self.total;
                (
                    DownloadProgress {
                        downloaded,
                        last_reported: if report {
                            downloaded
                        } else {
                            self.last_reported
                        },
                        total: self.total,
                    },
                    ReadStep::Write { report },
                )
            },
        }
    }

    /// The progress after these reads.
    pub open spec fn after_reads(self, reads: Seq<usize>) -> DownloadProgress
        decreases reads.len(),
    {
        if reads.len() == 0 {
            self
        } else {
            self.after_reads(reads.drop_last()).read_taken(Some(reads.last())).0
        }
    }

    /// Takes in what came of a read: how many bytes came, or nothing where the
    /// read failed. Only a body that was read to its end makes a file of the
    /// model; one that breaks off does not.
    pub fn take_read(&mut self, read: Option<usize>) -> (step: ReadStep)
        requires
            old(self).wf(),
            read is Some ==> old(self).downloaded + read->0 <= u64::MAX,
        ensures
            final(self).wf(),
            (*final(self), step) == old(self).read_taken(read),
            final(self).total == old(self).total,
            final(self).downloaded == old(self).downloaded + (match read {
                Some(n) => n as int,
                None => 0,
            }),
            step == match read {
                None => ReadStep::Abort,
                Some(0) => ReadStep::Finish,
                Some(_) => ReadStep::Write {
                    report: final(self).downloaded - old(self).last_reported >= REPORT_STEP
                        || final(self).downloaded == final(self).total,
                },
            },
            final(self).last_reported == if step == (ReadStep::Write { report: true }) {
                final(self).downloaded
            } else {
                old(self).last_reported
            },
    {
        match read {
            None => ReadStep::Abort,
            Some(n) => if n == 0 {
                ReadStep::Finish
            } else {
                ReadStep::Write { report: self.advance(n) }
            },
        }
    }

    /// The report on `file`.
    pub fn event(&self, file: &str) -> (event: DownloadEvent)
        ensures
            event matches DownloadEvent::Progress { file: f, bytes, total } && f@ == file@
                && bytes == self.downloaded && total == self.total,
    {
        DownloadEvent::Progress {
            file: file.to_owned(),
            bytes: self.downloaded,
            total: self.total,
        }
    }
}

/// Where a file of a model is downloaded from.
pub open spec fn file_url(variant: ModelVariant, file: Seq<char>) -> Seq<char> {
    "https://huggingface.co/"@ + variant.repo_name() + "/resolve/main/"@ + file
}

/// What the thread that downloads a model does next.
#[derive(Debug)]
pub enum DownloadStep {
    /// See to this file: it is there already, or is downloaded from `url`.
    File { file: &'static str, url: String },
    /// Every file is there.
    Complete,
    /// A file could not be downloaded.
    Failed,
}

/// What became of one file.
#[derive(Debug)]
pub enum FileOutcome {
    /// It was there already.
    Present,
    /// It was downloaded.
    Downloaded,
    /// It could not be downloaded.
    Failed(String),
}

/// The download of a model, file by file.
#[derive(Debug, Clone, Copy, PartialEq, Eq, Structural)]
pub struct DownloadJob {
    pub variant: ModelVariant,
    /// How many files are done.
    pub done: usize,
    pub failed: bool,
}

impl DownloadJob {
    pub open spec fn wf(&self) -> bool {
        self.done <= MODEL_FILES@.len()
    }

    /// A file is waiting to be seen to.
    pub open spec fn is_open(&self) -> bool {
        !self.failed && self.done < MODEL_FILES@.len()
    }

    /// Every file is done and none failed.
    pub open spec fn is_complete(&self) -> bool {
        !self.failed && self.done == MODEL_FILES@.len()
    }

    /// A download that has not begun.
    pub fn new(variant: ModelVariant) -> (job: Self)
        ensures
            job.wf(),
            job == (DownloadJob { variant, done: 0, failed: false }),
    {
        DownloadJob { variant, done: 0, failed: false }
    }

    /// What comes next: the files in their order, then the end.
    pub fn step(&self) -> (step: DownloadStep)
        requires
            self.wf(),
        ensures
            match step {
                DownloadStep::File { file, url } => {
                    &&& self.is_open()
                    &&& file@ == MODEL_FILES@[self.done as int]@
                    &&& url@ == file_url(self.variant, file@)
                },
                DownloadStep::Complete => self.is_complete(),
                DownloadStep::Failed => self.failed,
            },
    {
        if self.failed {
            return DownloadStep::Failed;
        }
        if self.done >= MODEL_FILES.len() {
            return DownloadStep::Complete;
        }
        let file: &'static str = MODEL_FILES[self.done];
        let mut url: String = joined("https://huggingface.co/", self.variant.repo());
        url.append("/resolve/main/");
        url.append(file);
        DownloadStep::File { file, url }
    }

    /// Takes in what became of the file, and reports it.
    pub fn finish_file(&mut self, outcome: FileOutcome) -> (event: DownloadEvent)
        requires
            old(self).wf(),
            old(self).is_open(),
        ensures
            final(self).wf(),
            *final(self) == old(self).after_file(outcome is Failed),
            match outcome {
                FileOutcome::Failed(e) => event is Error && event->Error_0@
                    == MODEL_FILES@[old(self).done as int]@ + ": "@ + e@,
                _ => event is FileDone && event->FileDone_0@ == MODEL_FILES@[old(self).done as int]@,
            },
    {
        let file: &'static str = MODEL_FILES[self.done];
        match outcome {
            FileOutcome::Failed(e) => {
                self.failed = true;
                let mut text: String = joined(file, ": ");
                text.append(e.as_str());
                DownloadEvent::Error(text)
            },
            _ => {
                self.done = self.done + 1;
                DownloadEvent::FileDone(file.to_owned())
            },
        }
    }

    /// The job after one file, which failed or not.
    pub open spec fn after_file(self, failed: bool) -> DownloadJob {
        if failed {
            DownloadJob { failed: true, ..self }
        } else {
            DownloadJob { done: (self.done + 1) as usize, ..self }
        }
    }

    /// The job after these files, of which each failed or not. Behind a file
    /// that failed, no more are seen to.
    pub open spec fn after_files(self, failed: Seq<bool>) -> DownloadJob
        decreases failed.len(),
    {
        if failed.len() == 0 {
            self
        } else {
            let before = self.after_files(failed.drop_last());
            if before.is_open() {
                before.after_file(failed.last())
            } else {
                before
            }
        }
    }
}

/// A download is complete exactly when every one of the model's files was seen
/// to and none of them failed.
pub proof fn complete_means_every_file(variant: ModelVariant, failed: Seq<bool>)
    ensures
        (DownloadJob { variant, done: 0, failed: false }).after_files(failed).is_complete() <==> (
        failed.len() >= MODEL_FILES@.len() && forall|i: int|
            0 <= i < MODEL_FILES@.len() ==> !failed[i]),
{
    lemma_after_files(variant, failed);
}

proof fn lemma_after_files(variant: ModelVariant, failed: Seq<bool>)
    ensures
        ({
            let job = (DownloadJob { variant, done: 0, failed: false }).after_files(failed);
            &&& job.wf()
            &&& job.failed ==> exists|i: int|
                0 <= i < failed.len() && i < MODEL_FILES@.len() && failed[i]
            &&& !job.failed ==> job.done <= failed.len() && forall|i: int|
                0 <= i < job.done ==> !failed[i]
            &&& !job.failed && job.done < MODEL_FILES@.len() ==> job.done == failed.len()
        }),
    decreases failed.len(),
{
    if failed.len() > 0 {
        let before = failed.drop_last();
        lemma_after_files(variant, before);
        let job = (DownloadJob { variant, done: 0, failed: false }).after_files(before);
        if job.failed {
            let i = choose|i: int| 0 <= i < before.len() && i < MODEL_FILES@.len() && before[i];
            assert(failed[i]);
        } else {
            assert forall|i: int| 0 <= i < job.done implies !failed[i] by {
                assert(!before[i]);
            }
            if job.is_open() && failed.last() {
                assert(failed[failed.len() - 1]);
            }
        }
    }
}

/// What is said of a request that the server did not answer.
pub fn request_failure(error: &str) -> (text: String)
    ensures
        text@ == "HTTP request failed: "@ + error@,
{
    joined("HTTP request failed: ", error)
}

/// How many bytes the reads brought.
pub open spec fn bytes_read(reads: Seq<usize>) -> int
    decreases reads.len(),
{
    if reads.len() == 0 {
        0
    } else {
        bytes_read(reads.drop_last()) + reads.last()
    }
}

/// Every byte counts, whatever it came with, and no report is ever more than
/// 262144 bytes behind.
pub proof fn every_byte_counts(total: u64, reads: Seq<usize>)
    requires
        bytes_read(reads) <= u64::MAX,
    ensures
        ({
            let start = DownloadProgress { downloaded: 0, last_reported: 0, total };
            let after = start.after_reads(reads);
            &&& after.downloaded == bytes_read(reads)
            &&& after.total == total
            &&& after.last_reported <= after.downloaded
            &&& after.downloaded - after.last_reported < 262_144
        }),
    decreases reads.len(),
{
    if reads.len() > 0 {
        assert(reads.last() >= 0);
        every_byte_counts(total, reads.drop_last());
    }
}

/// Bytes that came are written, and reported when at least 262144 came since the
/// last report or the announced size is reached; a body at its end makes a file;
/// a read that fails does not, and changes nothing.
pub proof fn reads_mean_what_they_say(progress: DownloadProgress, read: Option<usize>)
    requires
        progress.wf(),
        read is Some ==> progress.downloaded + read->0 <= u64::MAX,
    ensures
        ({
            let (after, step) = progress.read_taken(read);
            &&& step == ReadStep::Abort <==> read is None
            &&& step == ReadStep::Finish <==> read == Some(0usize)
            &&& !(step is Write) ==> after == progress
            &&& step is Write ==> after.downloaded == progress.downloaded + read->0
            &&& step is Write ==> (step->report <==> progress.downloaded + read->0
                >= progress.last_reported + 262_144 || progress.downloaded + read->0
                == progress.total)
            &&& step is Write ==> after.last_reported == if step->report {
                after.downloaded
            } else {
                progress.last_reported
            }
            &&& after.total == progress.total
        }),
{
}

/// The files of a model come from the main branch of its own repository.
pub proof fn files_come_from_the_repository(variant: ModelVariant, file: Seq<char>)
    ensures
        file_url(variant, file) == match variant {
            ModelVariant::Small => {
                "https://huggingface.co/ilmina/qwen3-asr-0.6b-sherpa-onnx/resolve/main/"@
            },
            ModelVariant::Large => {
                "https://huggingface.co/ilmina/qwen3-asr-1.7b-sherpa-onnx/resolve/main/"@
            },
        } + file,
{
    reveal_strlit("https://huggingface.co/");
    reveal_strlit("/resolve/main/");
    reveal_strlit("ilmina/qwen3-asr-0.6b-sherpa-onnx");
    reveal_strlit("ilmina/qwen3-asr-1.7b-sherpa-onnx");
    reveal_strlit("https://huggingface.co/ilmina/qwen3-asr-0.6b-sherpa-onnx/resolve/main/");
    reveal_strlit("https://huggingface.co/ilmina/qwen3-asr-1.7b-sherpa-onnx/resolve/main/");
    let base = match variant {
        ModelVariant::Small => {
            "https://huggingface.co/ilmina/qwen3-asr-0.6b-sherpa-onnx/resolve/main/"@
        },
        ModelVariant::Large => {
            "https://huggingface.co/ilmina/qwen3-asr-1.7b-sherpa-onnx/resolve/main/"@
        },
    };
    assert("https://huggingface.co/"@ + variant.repo_name() + "/resolve/main/"@ =~= base);
}

/// A file that is seen to moves the download on by one; one that fails stops it
/// where it is.
pub proof fn download_goes_file_by_file(job: DownloadJob, failed: bool)
    requires
        job.is_open(),
    ensures
        !failed ==> job.after_file(failed).done == job.done + 1 && !job.after_file(failed).failed,
        failed ==> job.after_file(failed).done == job.done && job.after_file(failed).failed,
        job.after_file(failed).variant == job.variant,
{
}

}
