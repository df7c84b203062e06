//! The speech models: their files, how the recogniser is set up, and what
//! becomes of the text that it hears.

use crate::config::Settings;
use crate::events::InitEvent;
use crate::storage::{StoragePath, APP_DIR};
use crate::text::{
    contains_part, contains_text, is_white_space, joined, occurs_at, remove_all, removed, trim,
    trimmed, trimmed_end, trimmed_start,
};
use crate::text_laws::{is_blank, nothing_to_remove, only_the_white_space_around_is_taken_off};
use vstd::prelude::*;

verus! {

/// The speech models that can be downloaded and run.
#[derive(Debug, Clone, Copy, PartialEq, Eq, Structural)]
pub enum ModelVariant {
    /// 0.6 billion parameters.
    Small,
    /// 1.7 billion parameters.
    Large,
}

impl ModelVariant {
    /// The repository that the model is downloaded from.
    pub open spec fn repo_name(&self) -> Seq<char> {
        match self {
            ModelVariant::Small => "ilmina/qwen3-asr-0.6b-sherpa-onnx"@,
            ModelVariant::Large => "ilmina/qwen3-asr-1.7b-sherpa-onnx"@,
        }
    }

    /// The name of the directory that the model is kept in.
    pub open spec fn directory(&self) -> Seq<char> {
        match self {
            ModelVariant::Small => "qwen3-asr-0.6b"@,
            ModelVariant::Large => "qwen3-asr-1.7b"@,
        }
    }

    /// The repository that the model is downloaded from.
    pub fn repo(&self) -> (repo: &'static str)
        ensures
            repo@ == self.repo_name(),
    {
        match self {
            ModelVariant::Small => "ilmina/qwen3-asr-0.6b-sherpa-onnx",
            ModelVariant::Large => "ilmina/qwen3-asr-1.7b-sherpa-onnx",
        }
    }

    /// The name of the model that the user sees.
    pub fn label(&self) -> (label: &'static str)
        ensures
            label@ == match self {
                ModelVariant::Small => "Qwen3-ASR 0.6B"@,
                ModelVariant::Large => "Qwen3-ASR 1.7B"@,
            },
    {
        match self {
            ModelVariant::Small => "Qwen3-ASR 0.6B",
            ModelVariant::Large => "Qwen3-ASR 1.7B",
        }
    }

    /// The name of the directory that the model is kept in.
    pub fn dir_name(&self) -> (name: &'static str)
        ensures
            name@ == self.directory(),
    {
        match self {
            ModelVariant::Small => "qwen3-asr-0.6b",
            ModelVariant::Large => "qwen3-asr-1.7b",
        }
    }

    /// Where the model is kept, below the user's cache directory.
    pub fn model_dir(&self) -> (path: StoragePath)
        ensures
            path.names() == seq![APP_DIR@, "models"@, self.directory()],
    {
        self.model_dir_in(dirs::cache_dir())
    }

    /// Where the model is kept, below `base`.
    pub fn model_dir_in(&self, base: Option<std::path::PathBuf>) -> (path: StoragePath)
        ensures
            path.base == base,
            path.names() == seq![APP_DIR@, "models"@, self.directory()],
    {
        let mut parts: Vec<&'static str> = Vec::new();
        parts.push(APP_DIR);
        parts.push("models");
        parts.push(self.dir_name());
        let path = StoragePath { base, parts };
        assert(path.names() =~= seq![APP_DIR@, "models"@, self.directory()]);
        path
    }
}

/// The two models are kept apart: no file of one lies in the directory of the
/// other, and they come from different repositories.
pub proof fn models_are_kept_apart()
    ensures
        ModelVariant::Small.directory() != ModelVariant::Large.directory(),
        ModelVariant::Small.repo_name() != ModelVariant::Large.repo_name(),
{
    reveal_strlit("qwen3-asr-0.6b");
    reveal_strlit("qwen3-asr-1.7b");
    reveal_strlit("ilmina/qwen3-asr-0.6b-sherpa-onnx");
    reveal_strlit("ilmina/qwen3-asr-1.7b-sherpa-onnx");
    assert(ModelVariant::Small.directory()[10] != ModelVariant::Large.directory()[10]);
    assert(ModelVariant::Small.repo_name()[17] != ModelVariant::Large.repo_name()[17]);
}

/// The files of a model, relative to its directory.
pub const MODEL_FILES: [&'static str; 6] = [
    "conv_frontend.onnx",
    "encoder.int8.onnx",
    "decoder.int8.onnx",
    "tokenizer/merges.txt",
    "tokenizer/tokenizer_config.json",
    "tokenizer/vocab.json",
];

/// The extension of a file that is still being downloaded.
pub const PART_EXTENSION: &'static str = "part";

/// The tags that the recogniser may leave in its text, in the order in which
/// they are taken out.
pub const STRIP_TAGS: [&'static str; 11] = [
    "<|en|>",
    "<|zh|>",
    "<|ja|>",
    "<|ko|>",
    "<|fr|>",
    "<|de|>",
    "<|it|>",
    "<|es|>",
    "<|ru|>",
    "<|asr|>",
    "<|text|>",
];

/// A tag is a name between angle brackets and bars: that of a language or of a
/// task.
pub proof fn tags_are_bracketed_names(i: int)
    requires
        0 <= i < STRIP_TAGS@.len(),
    ensures
        STRIP_TAGS@[i]@ == "<|"@ + seq![
            "en"@,
            "zh"@,
            "ja"@,
            "ko"@,
            "fr"@,
            "de"@,
            "it"@,
            "es"@,
            "ru"@,
            "asr"@,
            "text"@,
        ][i] + "|>"@,
{
    reveal_strlit("<|");
    reveal_strlit("|>");
    reveal_strlit("en");
    reveal_strlit("zh");
    reveal_strlit("ja");
    reveal_strlit("ko");
    reveal_strlit("fr");
    reveal_strlit("de");
    reveal_strlit("it");
    reveal_strlit("es");
    reveal_strlit("ru");
    reveal_strlit("asr");
    reveal_strlit("text");
    reveal_strlit("<|en|>");
    reveal_strlit("<|zh|>");
    reveal_strlit("<|ja|>");
    reveal_strlit("<|ko|>");
    reveal_strlit("<|fr|>");
    reveal_strlit("<|de|>");
    reveal_strlit("<|it|>");
    reveal_strlit("<|es|>");
    reveal_strlit("<|ru|>");
    reveal_strlit("<|asr|>");
    reveal_strlit("<|text|>");
    let names = seq![
        "en"@,
        "zh"@,
        "ja"@,
        "ko"@,
        "fr"@,
        "de"@,
        "it"@,
        "es"@,
        "ru"@,
        "asr"@,
        "text"@,
    ];
    assert(STRIP_TAGS@[i]@ =~= "<|"@ + names[i] + "|>"@);
}

/// A model is there: every one of [`MODEL_FILES`] was found, as `found` says file
/// by file.
pub open spec fn is_whole(found: Seq<bool>) -> bool {
    found.len() == MODEL_FILES@.len() && forall|i: int| 0 <= i < found.len() ==> found[i]
}

/// A model that is there is no longer there without any one of its files.
pub proof fn every_file_is_needed(found: Seq<bool>, i: int)
    requires
        is_whole(found),
        0 <= i < 6,
    ensures
        !is_whole(found.update(i, false)),
        is_whole(seq![true, true, true, true, true, true]),
{
    assert(!found.update(i, false)[i]);
}

/// Whether a model is there: every one of [`MODEL_FILES`] was found, as `found`
/// says file by file.
pub fn check_model_exists(found: &Vec<bool>) -> (all: bool)
    ensures
        all == is_whole(found@),
        all == (found@.len() == MODEL_FILES@.len() && forall|i: int|
            0 <= i < found@.len() ==> found@[i]),
{
    if found.len() != MODEL_FILES.len() {
        return false;
    }
    let mut i: usize = 0;
    while i < found.len()
        invariant
            i <= found.len(),
            forall|j: int| 0 <= j < i ==> found@[j],
        decreases found.len() - i,
    {
        if !found[i] {
            return false;
        }
        i += 1;
    }
    true
}

/// `text` after the first `count` tags were taken out, one after the other.
pub open spec fn stripped(text: Seq<char>, count: nat) -> Seq<char>
    decreases count,
{
    if count == 0 {
        text
    } else {
        removed(stripped(text, (count - 1) as nat), STRIP_TAGS@[count - 1]@)
    }
}

/// `text` without tags and without the white space around the rest.
pub open spec fn cleaned(text: Seq<char>) -> Seq<char> {
    trimmed(stripped(text, STRIP_TAGS@.len()))
}

/// No tag stands in `text`.
pub open spec fn is_tag_free(text: Seq<char>) -> bool {
    forall|i: int| 0 <= i < STRIP_TAGS@.len() ==> !contains_part(text, (#[trigger] STRIP_TAGS@[i])@)
}

/// A text without tags is left as it is.
proof fn lemma_tag_free_is_kept(text: Seq<char>, count: nat)
    requires
        is_tag_free(text),
        count <= STRIP_TAGS@.len(),
    ensures
        stripped(text, count) == text,
    decreases count,
{
    if count > 0 {
        lemma_tag_free_is_kept(text, (count - 1) as nat);
        assert(!contains_part(text, STRIP_TAGS@[count - 1]@));
        nothing_to_remove(text, STRIP_TAGS@[count - 1]@);
    }
}

/// The text that was heard, without the recogniser's tags and without white
/// space around it.
pub fn clean_transcription(text: &str) -> (clean: String)
    ensures
        clean@ == cleaned(text@),
{
    let mut needs_cleaning = false;
    let mut i: usize = 0;
    while i < STRIP_TAGS.len()
        invariant
            i <= STRIP_TAGS@.len(),
            !needs_cleaning ==> forall|j: int|
                0 <= j < i ==> !contains_part(text@, (#[trigger] STRIP_TAGS@[j])@),
        decreases STRIP_TAGS@.len() - i,
    {
        if contains_text(text, STRIP_TAGS[i]) {
            needs_cleaning = true;
        }
        i += 1;
    }
    if !needs_cleaning {
        proof {
            lemma_tag_free_is_kept(text@, STRIP_TAGS@.len());
        }
        return trim(text);
    }
    let mut result: String = text.to_owned();
    let mut count: usize = 0;
    while count < STRIP_TAGS.len()
        invariant
            count <= STRIP_TAGS@.len(),
            result@ == stripped(text@, count as nat),
        decreases STRIP_TAGS@.len() - count,
    {
        result = remove_all(result.as_str(), STRIP_TAGS[count]);
        count += 1;
    }
    trim(result.as_str())
}

/// What is left at the start of a trimmed text is not white space.
proof fn lemma_trimmed_start(text: Seq<char>)
    ensures
        trimmed_start(text).len() > 0 ==> !is_white_space(trimmed_start(text)[0]),
        trimmed_start(text).len() <= text.len(),
    decreases text.len(),
{
    if text.len() > 0 && is_white_space(text[0]) {
        lemma_trimmed_start(text.skip(1));
    }
}

/// Trimming the end leaves a prefix, and its last character is not white space.
proof fn lemma_trimmed_end(text: Seq<char>)
    ensures
        trimmed_end(text).len() > 0 ==> !is_white_space(trimmed_end(text).last()),
        trimmed_end(text).len() <= text.len(),
        trimmed_end(text) == text.take(trimmed_end(text).len() as int),
    decreases text.len(),
{
    if text.len() > 0 && is_white_space(text.last()) {
        lemma_trimmed_end(text.drop_last());
        let count = trimmed_end(text).len() as int;
        assert(text.drop_last().take(count) =~= text.take(count));
    } else {
        assert(text.take(text.len() as int) =~= text);
    }
}

/// No white space stands around a cleaned text.
pub proof fn cleaned_text_is_trimmed(text: Seq<char>)
    ensures
        cleaned(text).len() > 0 ==> !is_white_space(cleaned(text)[0]) && !is_white_space(
            cleaned(text).last(),
        ),
{
    let start = trimmed_start(stripped(text, STRIP_TAGS@.len()));
    lemma_trimmed_start(stripped(text, STRIP_TAGS@.len()));
    lemma_trimmed_end(start);
}

/// A text without tags is only trimmed.
pub proof fn tag_free_text_is_only_trimmed(text: Seq<char>)
    requires
        is_tag_free(text),
    ensures
        cleaned(text) == trimmed(text),
{
    lemma_tag_free_is_kept(text, STRIP_TAGS@.len());
}

/// Cleaning a cleaned text again changes nothing, where no tag came about as
/// what stood around another one closed up.
pub proof fn cleaning_twice_changes_nothing(text: Seq<char>)
    requires
        is_tag_free(cleaned(text)),
    ensures
        cleaned(cleaned(text)) == cleaned(text),
{
    let clean = cleaned(text);
    cleaned_text_is_trimmed(text);
    tag_free_text_is_only_trimmed(clean);
    assert(trimmed_start(clean) == clean);
    assert(trimmed_end(clean) == clean);
}

/// The third and the fourth character tell the tags apart, and every tag starts
/// with an angle bracket.
proof fn lemma_tags_differ(i: int, j: int)
    requires
        0 <= i < STRIP_TAGS@.len(),
        0 <= j < STRIP_TAGS@.len(),
    ensures
        STRIP_TAGS@[i]@.len() > 3,
        STRIP_TAGS@[i]@[0] == '<',
        forall|k: int| 0 < k < STRIP_TAGS@[i]@.len() ==> STRIP_TAGS@[i]@[k] != '<',
        i != j ==> STRIP_TAGS@[i]@[2] != STRIP_TAGS@[j]@[2] || STRIP_TAGS@[i]@[3]
            != STRIP_TAGS@[j]@[3],
{
    reveal_strlit("<|en|>");
    reveal_strlit("<|zh|>");
    reveal_strlit("<|ja|>");
    reveal_strlit("<|ko|>");
    reveal_strlit("<|fr|>");
    reveal_strlit("<|de|>");
    reveal_strlit("<|it|>");
    reveal_strlit("<|es|>");
    reveal_strlit("<|ru|>");
    reveal_strlit("<|asr|>");
    reveal_strlit("<|text|>");
}

/// A tag can stand only where an angle bracket opens.
proof fn lemma_no_bracket_no_tag(text: Seq<char>)
    requires
        !text.contains('<'),
    ensures
        is_tag_free(text),
{
    assert forall|i: int| 0 <= i < STRIP_TAGS@.len() implies !contains_part(
        text,
        (#[trigger] STRIP_TAGS@[i])@,
    ) by {
        let tag = STRIP_TAGS@[i]@;
        lemma_tags_differ(i, i);
        assert forall|at: int| !occurs_at(text, tag, at) by {
            if occurs_at(text, tag, at) {
                assert(text.subrange(at, at + tag.len())[0] == text[at]);
                assert(text.contains(text[at]));
            }
        }
    }
}

/// Removing the only occurrence closes the text up.
proof fn lemma_remove_only(before: Seq<char>, tag: Seq<char>, after: Seq<char>)
    requires
        tag.len() > 0,
        tag[0] == '<',
        !before.contains('<'),
        !after.contains('<'),
    ensures
        removed(before + tag + after, tag) == before + after,
    decreases before.len(),
{
    let text = before + tag + after;
    if before.len() == 0 {
        assert(text.subrange(0, tag.len() as int) =~= tag);
        assert(text.skip(tag.len() as int) =~= after);
        assert forall|at: int| !occurs_at(after, tag, at) by {
            if occurs_at(after, tag, at) {
                assert(after.subrange(at, at + tag.len())[0] == after[at]);
                assert(after.contains(after[at]));
            }
        }
        nothing_to_remove(after, tag);
        assert(before + after =~= after);
    } else {
        assert(before.contains(before[0]));
        assert(text.subrange(0, tag.len() as int)[0] == before[0]);
        assert(!occurs_at(text, tag, 0));
        let rest = before.skip(1);
        assert(text.skip(1) =~= rest + tag + after);
        assert forall|c: char| rest.contains(c) implies before.contains(c) by {
            let k = choose|k: int| 0 <= k < rest.len() && rest[k] == c;
            assert(before[k + 1] == c);
        }
        lemma_remove_only(rest, tag, after);
        assert(seq![text[0]] + (rest + after) =~= before + after);
    }
}

/// Of one tag among text without angle brackets, no other tag is found.
proof fn lemma_other_tag(before: Seq<char>, i: int, after: Seq<char>, j: int)
    requires
        0 <= i < STRIP_TAGS@.len(),
        0 <= j < STRIP_TAGS@.len(),
        i != j,
        !before.contains('<'),
        !after.contains('<'),
    ensures
        !contains_part(before + STRIP_TAGS@[i]@ + after, STRIP_TAGS@[j]@),
{
    let tag = STRIP_TAGS@[i]@;
    let other = STRIP_TAGS@[j]@;
    let text = before + tag + after;
    lemma_tags_differ(i, j);
    lemma_tags_differ(j, i);
    assert forall|at: int| !occurs_at(text, other, at) by {
        if occurs_at(text, other, at) {
            let found = text.subrange(at, at + other.len());
            assert(found[0] == text[at]);
            if at < before.len() {
                assert(before.contains(before[at]));
            } else if at >= before.len() + tag.len() {
                assert(after.contains(after[at - before.len() - tag.len()]));
            } else {
                assert(text[at] == tag[at - before.len()]);
                assert(at == before.len());
                assert(found[2] == text[at + 2] && text[at + 2] == tag[2]);
                assert(found[3] == text[at + 3] && text[at + 3] == tag[3]);
            }
        }
    }
}

/// A tag is taken out wherever it stands in a text that has no other angle
/// bracket; what stood around it is kept and trimmed.
pub proof fn tag_is_taken_out(before: Seq<char>, i: int, after: Seq<char>)
    requires
        0 <= i < STRIP_TAGS@.len(),
        !before.contains('<'),
        !after.contains('<'),
    ensures
        cleaned(before + STRIP_TAGS@[i]@ + after) == trimmed(before + after),
{
    let text = before + STRIP_TAGS@[i]@ + after;
    lemma_tags_differ(i, i);
    lemma_before_tag(before, i, after, i as nat);
    lemma_remove_only(before, STRIP_TAGS@[i]@, after);
    assert(stripped(text, (i + 1) as nat) == before + after);
    assert(!(before + after).contains('<')) by {
        if (before + after).contains('<') {
            let k = choose|k: int| 0 <= k < (before + after).len() && (before + after)[k] == '<';
            if k < before.len() {
                assert(before[k] == '<');
            } else {
                assert(after[k - before.len()] == '<');
            }
        }
    }
    lemma_after_tag(text, before + after, (i + 1) as nat, STRIP_TAGS@.len());
}

proof fn lemma_before_tag(before: Seq<char>, i: int, after: Seq<char>, count: nat)
    requires
        0 <= count <= i < STRIP_TAGS@.len(),
        !before.contains('<'),
        !after.contains('<'),
    ensures
        stripped(before + STRIP_TAGS@[i]@ + after, count) == before + STRIP_TAGS@[i]@ + after,
    decreases count,
{
    if count > 0 {
        lemma_before_tag(before, i, after, (count - 1) as nat);
        lemma_other_tag(before, i, after, count - 1);
        nothing_to_remove(before + STRIP_TAGS@[i]@ + after, STRIP_TAGS@[count - 1]@);
    }
}

proof fn lemma_after_tag(text: Seq<char>, rest: Seq<char>, from: nat, count: nat)
    requires
        from <= count <= STRIP_TAGS@.len(),
        stripped(text, from) == rest,
        !rest.contains('<'),
    ensures
        stripped(text, count) == rest,
    decreases count,
{
    if from < count {
        lemma_after_tag(text, rest, from, (count - 1) as nat);
        lemma_no_bracket_no_tag(rest);
        assert(!contains_part(rest, STRIP_TAGS@[count - 1]@));
        nothing_to_remove(rest, STRIP_TAGS@[count - 1]@);
    }
}

/// The pieces, one after the other.
pub open spec fn strung(pieces: Seq<Seq<char>>) -> Seq<char>
    decreases pieces.len(),
{
    if pieces.len() == 0 {
        Seq::empty()
    } else {
        pieces[0] + strung(pieces.skip(1))
    }
}

/// The pieces, one after the other, with a tag between each and the next: tag
/// `tags[i]` behind piece `i`. The first `gone` tags of [`STRIP_TAGS`] are left
/// out.
pub open spec fn tagged(pieces: Seq<Seq<char>>, tags: Seq<int>, gone: int) -> Seq<char>
    decreases tags.len(),
{
    if tags.len() == 0 {
        pieces[0]
    } else if tags[0] < gone {
        pieces[0] + tagged(pieces.skip(1), tags.skip(1), gone)
    } else {
        pieces[0] + STRIP_TAGS@[tags[0]]@ + tagged(pieces.skip(1), tags.skip(1), gone)
    }
}

/// There is one piece more than tags, the tags are those of [`STRIP_TAGS`], and
/// no piece holds an angle bracket that opens.
pub open spec fn can_be_tagged(pieces: Seq<Seq<char>>, tags: Seq<int>) -> bool {
    &&& pieces.len() == tags.len() + 1
    &&& forall|i: int| 0 <= i < tags.len() ==> 0 <= #[trigger] tags[i] < STRIP_TAGS@.len()
    &&& forall|i: int| 0 <= i < pieces.len() ==> !(#[trigger] pieces[i]).contains('<')
}

/// What no occurrence begins in is kept.
proof fn lemma_head_is_kept(head: Seq<char>, rest: Seq<char>, part: Seq<char>)
    requires
        part.len() > 0,
        forall|at: int| 0 <= at < head.len() ==> !occurs_at(head + rest, part, at),
    ensures
        removed(head + rest, part) == head + removed(rest, part),
    decreases head.len(),
{
    let text = head + rest;
    if head.len() == 0 {
        assert(text =~= rest);
        assert(head + removed(rest, part) =~= removed(rest, part));
    } else if text.len() >= part.len() {
        let tail = head.skip(1);
        assert(text.skip(1) =~= tail + rest);
        assert forall|at: int| 0 <= at < tail.len() implies !occurs_at(tail + rest, part, at) by {
            if occurs_at(tail + rest, part, at) {
                assert((tail + rest).subrange(at, at + part.len()) =~= text.subrange(
                    at + 1,
                    at + 1 + part.len(),
                ));
                assert(occurs_at(text, part, at + 1));
            }
        }
        lemma_head_is_kept(tail, rest, part);
        assert(!occurs_at(text, part, 0));
        assert(seq![text[0]] + (tail + removed(rest, part)) =~= head + removed(rest, part));
    }
}

/// No tag begins where no angle bracket opens.
proof fn lemma_no_tag_at(text: Seq<char>, j: int, at: int)
    requires
        0 <= j < STRIP_TAGS@.len(),
        0 <= at < text.len(),
        text[at] != '<',
    ensures
        !occurs_at(text, STRIP_TAGS@[j]@, at),
{
    let tag = STRIP_TAGS@[j]@;
    lemma_tags_differ(j, j);
    if occurs_at(text, tag, at) {
        assert(text.subrange(at, at + tag.len())[0] == text[at]);
    }
}

/// One tag is taken out from everywhere.
proof fn lemma_one_tag_gone(pieces: Seq<Seq<char>>, tags: Seq<int>, j: int)
    requires
        can_be_tagged(pieces, tags),
        0 <= j < STRIP_TAGS@.len(),
    ensures
        removed(tagged(pieces, tags, j), STRIP_TAGS@[j]@) == tagged(pieces, tags, j + 1),
    decreases tags.len(),
{
    let tag = STRIP_TAGS@[j]@;
    let piece = pieces[0];
    lemma_tags_differ(j, j);
    assert(!piece.contains('<'));
    if tags.len() == 0 {
        lemma_no_bracket_no_tag(piece);
        assert(!contains_part(piece, tag));
        nothing_to_remove(piece, tag);
    } else {
        let i = tags[0];
        let rest = tagged(pieces.skip(1), tags.skip(1), j);
        assert forall|k: int| 0 <= k < pieces.skip(1).len() implies !(#[trigger] pieces.skip(
            1,
        )[k]).contains('<') by {
            assert(pieces.skip(1)[k] == pieces[k + 1]);
        }
        assert forall|k: int| 0 <= k < tags.skip(1).len() implies 0 <= #[trigger] tags.skip(1)[k]
            < STRIP_TAGS@.len() by {
            assert(tags.skip(1)[k] == tags[k + 1]);
        }
        lemma_one_tag_gone(pieces.skip(1), tags.skip(1), j);
        assert forall|at: int, text: Seq<char>|
            0 <= at < piece.len() && piece.is_prefix_of(text) implies !(#[trigger] occurs_at(
            text,
            tag,
            at,
        )) by {
            assert(text[at] == text.subrange(0, piece.len() as int)[at]);
            assert(piece.contains(piece[at]));
            lemma_no_tag_at(text, j, at);
        }
        if i < j {
            assert((piece + rest).subrange(0, piece.len() as int) =~= piece);
            assert(piece.is_prefix_of(piece + rest));
            lemma_head_is_kept(piece, rest, tag);
        } else if i == j {
            let text = piece + tag + rest;
            assert(text.subrange(0, piece.len() as int) =~= piece);
            assert(piece.is_prefix_of(text));
            assert(text =~= piece + (tag + rest));
            lemma_head_is_kept(piece, tag + rest, tag);
            assert((tag + rest).subrange(0, tag.len() as int) =~= tag);
            assert(occurs_at(tag + rest, tag, 0));
            assert((tag + rest).skip(tag.len() as int) =~= rest);
            assert(removed(tag + rest, tag) == removed(rest, tag));
        } else {
            let other = STRIP_TAGS@[i]@;
            let head = piece + other;
            let text = head + rest;
            lemma_tags_differ(i, j);
            assert(text.subrange(0, piece.len() as int) =~= piece);
            assert(piece.is_prefix_of(text));
            assert forall|at: int| 0 <= at < head.len() implies !occurs_at(text, tag, at) by {
                if at > piece.len() {
                    assert(text[at] == other[at - piece.len()]);
                    lemma_no_tag_at(text, j, at);
                } else if at == piece.len() {
                    assert(text[at + 2] == other[2]);
                    assert(text[at + 3] == other[3]);
                    if occurs_at(text, tag, at) {
                        assert(text.subrange(at, at + tag.len())[2] == text[at + 2]);
                        assert(text.subrange(at, at + tag.len())[3] == text[at + 3]);
                    }
                }
            }
            lemma_head_is_kept(head, rest, tag);
        }
    }
}

proof fn lemma_stripped_tags(pieces: Seq<Seq<char>>, tags: Seq<int>, count: nat)
    requires
        can_be_tagged(pieces, tags),
        count <= STRIP_TAGS@.len(),
    ensures
        stripped(tagged(pieces, tags, 0), count) == tagged(pieces, tags, count as int),
    decreases count,
{
    if count > 0 {
        lemma_stripped_tags(pieces, tags, (count - 1) as nat);
        lemma_one_tag_gone(pieces, tags, count - 1);
    }
}

/// Without any tag, the pieces are left.
proof fn lemma_all_tags_gone(pieces: Seq<Seq<char>>, tags: Seq<int>)
    requires
        can_be_tagged(pieces, tags),
    ensures
        tagged(pieces, tags, STRIP_TAGS@.len() as int) == strung(pieces),
        !strung(pieces).contains('<'),
    decreases tags.len(),
{
    let rest = pieces.skip(1);
    assert(!pieces[0].contains('<'));
    if tags.len() == 0 {
        assert(strung(rest) =~= Seq::<char>::empty());
        assert(pieces[0] + strung(rest) =~= pieces[0]);
    } else {
        assert forall|k: int| 0 <= k < rest.len() implies !(#[trigger] rest[k]).contains('<') by {
            assert(rest[k] == pieces[k + 1]);
        }
        assert forall|k: int| 0 <= k < tags.skip(1).len() implies 0 <= #[trigger] tags.skip(1)[k]
            < STRIP_TAGS@.len() by {
            assert(tags.skip(1)[k] == tags[k + 1]);
        }
        lemma_all_tags_gone(rest, tags.skip(1));
        assert(0 <= tags[0] < STRIP_TAGS@.len());
        let whole = strung(pieces);
        if whole.contains('<') {
            let k = choose|k: int| 0 <= k < whole.len() && whole[k] == '<';
            if k < pieces[0].len() {
                assert(pieces[0][k] == '<');
            } else {
                assert(strung(rest)[k - pieces[0].len()] == '<');
            }
        }
    }
}

/// Trimming adds no character.
proof fn lemma_trimmed_adds_nothing(text: Seq<char>, c: char)
    requires
        !text.contains(c),
    ensures
        !trimmed(text).contains(c),
{
    lemma_start_adds_nothing(text, c);
    let start = trimmed_start(text);
    lemma_trimmed_end(start);
    if trimmed(text).contains(c) {
        let k = choose|k: int| 0 <= k < trimmed(text).len() && trimmed(text)[k] == c;
        assert(start[k] == c);
    }
}

proof fn lemma_start_adds_nothing(text: Seq<char>, c: char)
    requires
        !text.contains(c),
    ensures
        !trimmed_start(text).contains(c),
    decreases text.len(),
{
    if text.len() > 0 && is_white_space(text[0]) {
        let rest = text.skip(1);
        if rest.contains(c) {
            let k = choose|k: int| 0 <= k < rest.len() && rest[k] == c;
            assert(text[k + 1] == c);
        }
        lemma_start_adds_nothing(rest, c);
    }
}

/// However many tags stand in a text, and however often each: all of them are
/// taken out, and what stood between and around them is kept, in its order. No
/// tag is left. The text holds no other angle bracket that opens.
pub proof fn every_tag_is_taken_out(pieces: Seq<Seq<char>>, tags: Seq<int>)
    requires
        can_be_tagged(pieces, tags),
    ensures
        cleaned(tagged(pieces, tags, 0)) == trimmed(strung(pieces)),
        is_tag_free(cleaned(tagged(pieces, tags, 0))),
{
    lemma_stripped_tags(pieces, tags, STRIP_TAGS@.len());
    lemma_all_tags_gone(pieces, tags);
    lemma_trimmed_adds_nothing(strung(pieces), '<');
    lemma_no_bracket_no_tag(trimmed(strung(pieces)));
}

/// The file name ends with the extension of an unfinished download.
pub open spec fn is_unfinished(file: Seq<char>) -> bool {
    let ending = "."@ + PART_EXTENSION@;
    ending.len() <= file.len() && file.skip(file.len() - ending.len()) == ending
}

/// A file that is still being downloaded is never taken for a file of a model.
pub proof fn unfinished_files_are_no_model_files(i: int)
    requires
        0 <= i < MODEL_FILES@.len(),
    ensures
        !is_unfinished(MODEL_FILES@[i]@),
{
    reveal_strlit(".");
    reveal_strlit("part");
    reveal_strlit("conv_frontend.onnx");
    reveal_strlit("encoder.int8.onnx");
    reveal_strlit("decoder.int8.onnx");
    reveal_strlit("tokenizer/merges.txt");
    reveal_strlit("tokenizer/tokenizer_config.json");
    reveal_strlit("tokenizer/vocab.json");
    let file = MODEL_FILES@[i]@;
    let ending = "."@ + PART_EXTENSION@;
    assert(ending.len() == 5);
    assert(ending[2] == 'a');
    if is_unfinished(file) {
        assert(file.skip(file.len() - 5)[2] == file[file.len() - 3]);
    }
}

/// The file that the hotwords are written to, in the directory of the model.
pub const HOTWORDS_FILE: &'static str = "hotwords.txt";

/// How the recogniser is set up. File names are relative to the directory of
/// the model; the score is a single-precision float, held as its IEEE 754 bits.
#[derive(Debug)]
pub struct RecognizerPlan {
    /// What is written to [`HOTWORDS_FILE`], or nothing where no such file is
    /// given to the recogniser.
    pub hotwords: Option<String>,
    pub decoding_method: &'static str,
    pub max_active_paths: i32,
    pub hotwords_score_bits: u32,
    pub conv_frontend: &'static str,
    pub encoder: &'static str,
    pub decoder: &'static str,
    pub tokenizer: &'static str,
    pub num_threads: i32,
    pub provider: &'static str,
    pub debug: bool,
}

/// The recogniser is given these hotwords.
pub open spec fn hotwords_count(hotwords: Seq<char>) -> bool {
    trimmed(hotwords).len() > 0
}

/// Hotwords count as soon as they hold anything but white space.
pub proof fn blank_hotwords_do_not_count(hotwords: Seq<char>)
    ensures
        hotwords_count(hotwords) <==> exists|i: int|
            0 <= i < hotwords.len() && !is_white_space(#[trigger] hotwords[i]),
{
    if is_blank(hotwords) {
        let none = Seq::<char>::empty();
        assert(hotwords + none + none =~= hotwords);
        only_the_white_space_around_is_taken_off(hotwords, none, none);
    } else {
        let i = choose|i: int| 0 <= i < hotwords.len() && !is_white_space(#[trigger] hotwords[i]);
        lemma_start_stops(hotwords, i);
        let start = trimmed_start(hotwords);
        let k = choose|k: int| 0 <= k < start.len() && !is_white_space(#[trigger] start[k]);
        lemma_end_stops(start, k);
    }
}

proof fn lemma_start_stops(text: Seq<char>, i: int)
    requires
        0 <= i < text.len(),
        !is_white_space(text[i]),
    ensures
        exists|k: int|
            0 <= k < trimmed_start(text).len() && !is_white_space(#[trigger] trimmed_start(text)[k]),
    decreases text.len(),
{
    if is_white_space(text[0]) {
        assert(text.skip(1)[i - 1] == text[i]);
        lemma_start_stops(text.skip(1), i - 1);
        let rest = trimmed_start(text.skip(1));
        let k = choose|k: int| 0 <= k < rest.len() && !is_white_space(#[trigger] rest[k]);
        assert(!is_white_space(trimmed_start(text)[k]));
    } else {
        assert(!is_white_space(trimmed_start(text)[0]));
    }
}

proof fn lemma_end_stops(text: Seq<char>, i: int)
    requires
        0 <= i < text.len(),
        !is_white_space(text[i]),
    ensures
        trimmed_end(text).len() > 0,
    decreases text.len(),
{
    if is_white_space(text.last()) {
        assert(text.drop_last()[i] == text[i]);
        lemma_end_stops(text.drop_last(), i);
    }
}

/// How the recogniser is set up for these settings. Hotwords that are nothing
/// but white space are none.
pub fn plan_recognizer(settings: &Settings) -> (plan: RecognizerPlan)
    ensures
        plan.hotwords is Some <==> hotwords_count(settings@.hotwords),
        plan.hotwords is Some <==> trimmed(settings@.hotwords).len() > 0,
        plan.hotwords is Some ==> plan.hotwords->0@ == settings@.hotwords,
        plan.decoding_method@ == if settings@.high_accuracy {
            "modified_beam_search"@
        } else {
            "greedy_search"@
        },
        plan.max_active_paths == settings@.search_depth,
        plan.hotwords_score_bits == settings@.hotwords_boost_bits,
        plan.conv_frontend@ == "conv_frontend.onnx"@,
        plan.encoder@ == "encoder.int8.onnx"@,
        plan.decoder@ == "decoder.int8.onnx"@,
        plan.tokenizer@ == "tokenizer"@,
        plan.num_threads == settings@.num_threads,
        plan.provider@ == settings@.processor.provider_name(),
        !plan.debug,
{
    let solid: String = trim(settings.hotwords.as_str());
    let hotwords: Option<String> = if solid.as_str().is_empty() {
        None
    } else {
        Some(settings.hotwords.clone())
    };
    RecognizerPlan {
        hotwords,
        decoding_method: if settings.high_accuracy {
            "modified_beam_search"
        } else {
            "greedy_search"
        },
        max_active_paths: settings.search_depth,
        hotwords_score_bits: settings.hotwords_boost_bits,
        conv_frontend: "conv_frontend.onnx",
        encoder: "encoder.int8.onnx",
        decoder: "decoder.int8.onnx",
        tokenizer: "tokenizer",
        num_threads: settings.num_threads,
        provider: settings.processor.provider(),
        debug: false,
    }
}

/// The recogniser, or the error where it could not be made.
pub fn recognizer_or_error<R>(created: Option<R>) -> (result: Result<R, String>)
    ensures
        match created {
            Some(recognizer) => result == Ok::<R, String>(recognizer),
            None => result is Err && result->Err_0@ == "Failed to create OfflineRecognizer"@,
        },
{
    match created {
        Some(recognizer) => Ok(recognizer),
        None => Err("Failed to create OfflineRecognizer".to_owned()),
    }
}

/// The report of a start: `created` is nothing where files of the model are
/// missing.
pub fn init_report<E>(created: Option<Result<E, String>>) -> (event: InitEvent<E>)
    ensures
        match created {
            Some(Ok(engine)) => event == InitEvent::<E>::Success(engine),
            Some(Err(e)) => event is Error && event->Error_0@ == "Engine error: "@ + e@,
            None => event is Error && event->Error_0@ == "Model files not found"@,
        },
{
    match created {
        Some(Ok(engine)) => InitEvent::Success(engine),
        Some(Err(e)) => InitEvent::Error(joined("Engine error: ", e.as_str())),
        None => InitEvent::Error("Model files not found".to_owned()),
    }
}

/// The text of captured samples; nothing heard is an empty text.
pub fn samples_text(heard: Option<String>) -> (text: String)
    ensures
        text@ == match heard {
            Some(t) => t@,
            None => Seq::<char>::empty(),
        },
{
    match heard {
        Some(text) => text,
        None => String::new(),
    }
}

/// The text of a sound file: `heard` is nothing where the file could not be
/// read, and holds nothing where the recogniser gave no result.
pub fn file_text(heard: Option<Option<String>>) -> (text: Result<String, String>)
    ensures
        match heard {
            None => text is Err && text->Err_0@ == "Failed to read WAV file"@,
            Some(None) => text is Err && text->Err_0@ == "Failed to get recognition result"@,
            Some(Some(t)) => text == Ok::<String, String>(t),
        },
{
    match heard {
        None => Err("Failed to read WAV file".to_owned()),
        Some(None) => Err("Failed to get recognition result".to_owned()),
        Some(Some(text)) => Ok(text),
    }
}

/// The rate that the recogniser is given its samples at.
pub const RECOGNIZER_RATE: u32 = 16000;

/// Room for half a minute of samples.
pub const BUFFER_ROOM: usize = 480_000;

/// The samples from position `since` on and how many there are in all, once
/// there are at least `min_total` and some of them are new.
pub open spec fn new_audio<S>(samples: Seq<S>, since: int, min_total: int) -> Option<
    (Seq<S>, int),
> {
    if samples.len() >= min_total && samples.len() > since {
        Some((samples.skip(since), samples.len() as int))
    } else {
        None
    }
}

/// What was added since the last look is new, all of it and nothing else, once
/// there is enough in all; without anything added there is nothing new.
pub proof fn what_was_added_is_new<S>(old_samples: Seq<S>, added: Seq<S>, min_total: int)
    ensures
        new_audio(old_samples + added, old_samples.len() as int, min_total) == if added.len() > 0
            && old_samples.len() + added.len() >= min_total {
            Some((added, (old_samples.len() + added.len()) as int))
        } else {
            None
        },
{
    assert((old_samples + added).skip(old_samples.len() as int) =~= added);
}

/// The samples that were captured and not taken yet.
#[derive(Debug)]
pub struct AudioBuffer<S> {
    samples: Vec<S>,
}

impl<S> View for AudioBuffer<S> {
    type V = Seq<S>;

    closed spec fn view(&self) -> Seq<S> {
        self.samples@
    }
}

impl<S> AudioBuffer<S> {
    /// A buffer without samples.
    pub fn new() -> (buffer: Self)
        ensures
            buffer@ == Seq::<S>::empty(),
    {
        AudioBuffer { samples: Vec::with_capacity(BUFFER_ROOM) }
    }

    /// Adds samples behind those that are there.
    pub fn extend_samples(&mut self, samples: Vec<S>)
        ensures
            final(self)@ == old(self)@ + samples@,
    {
        let mut samples: Vec<S> = samples;
        self.samples.append(&mut samples);
    }

    /// The samples from position `since` on and how many there are in all, once
    /// there are at least `min_total` and some of them are new.
    pub fn check_new_audio(&self, since: usize, min_total: usize) -> (new: Option<(&[S], usize)>)
        ensures
            match new {
                Some((samples, total)) => new_audio(
                    self@,
                    since as int,
                    min_total as int,
                ) == Some((samples@, total as int)),
                None => new_audio(self@, since as int, min_total as int) is None,
            },
            match new {
                Some((samples, total)) => {
                    &&& self@.len() >= min_total
                    &&& self@.len() > since
                    &&& samples@ == self@.skip(since as int)
                    &&& total == self@.len()
                },
                None => self@.len() < min_total || self@.len() <= since,
            },
    {
        let total: usize = self.samples.len();
        if total < min_total || total <= since {
            return None;
        }
        let samples: &[S] = vstd::slice::slice_subrange(self.samples.as_slice(), since, total);
        assert(samples@ =~= self@.skip(since as int));
        Some((samples, total))
    }

    /// Takes all samples out of the buffer.
    pub fn clear_buffer(&mut self) -> (taken: Vec<S>)
        ensures
            taken@ == old(self)@,
            final(self)@ == Seq::<S>::empty(),
    {
        let mut taken: Vec<S> = Vec::with_capacity(BUFFER_ROOM);
        std::mem::swap(&mut taken, &mut self.samples);
        taken
    }
}

/// Whatever a text holds, the tags are taken out one after the other, each from
/// everywhere in what the ones before it left, and the rest is trimmed.
pub proof fn tags_are_taken_out_in_turn(text: Seq<char>)
    ensures
        cleaned(text) == trimmed({
            let a = removed(text, "<|en|>"@);
            let b = removed(a, "<|zh|>"@);
            let c = removed(b, "<|ja|>"@);
            let d = removed(c, "<|ko|>"@);
            let e = removed(d, "<|fr|>"@);
            let f = removed(e, "<|de|>"@);
            let g = removed(f, "<|it|>"@);
            let h = removed(g, "<|es|>"@);
            let i = removed(h, "<|ru|>"@);
            let j = removed(i, "<|asr|>"@);
            removed(j, "<|text|>"@)
        }),
{
    reveal_with_fuel(stripped, 12);
}

/// The recogniser is given the files that are downloaded: three networks, and
/// three files in the directory of the tokenizer.
pub proof fn recogniser_is_given_the_files_of_the_model(i: int)
    ensures
        MODEL_FILES@.len() == 6,
        MODEL_FILES@[0]@ == "conv_frontend.onnx"@,
        MODEL_FILES@[1]@ == "encoder.int8.onnx"@,
        MODEL_FILES@[2]@ == "decoder.int8.onnx"@,
        3 <= i < 6 ==> MODEL_FILES@[i]@ == "tokenizer/"@ + seq![
            "merges.txt"@,
            "tokenizer_config.json"@,
            "vocab.json"@,
        ][i - 3],
{
    reveal_strlit("tokenizer/");
    reveal_strlit("merges.txt");
    reveal_strlit("tokenizer_config.json");
    reveal_strlit("vocab.json");
    reveal_strlit("tokenizer/merges.txt");
    reveal_strlit("tokenizer/tokenizer_config.json");
    reveal_strlit("tokenizer/vocab.json");
    let names = seq!["merges.txt"@, "tokenizer_config.json"@, "vocab.json"@];
    if 3 <= i < 6 {
        assert(MODEL_FILES@[i]@ =~= "tokenizer/"@ + names[i - 3]);
    }
}

}
