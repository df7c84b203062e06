//! What the user can choose, and the words of the interface.

use crate::text::same_text;
use vstd::prelude::*;

verus! {

/// The words of the interface, each with its Japanese translation.
pub const JAPANESE: [(&'static str, &'static str); 72] = [
    ("Main", "メイン"),
    ("Manage", "管理"),
    ("Settings", "設定"),
    ("Debug", "デバッグ"),
    ("Mode:", "モード:"),
    ("Model:", "モデル:"),
    ("ready", "準備完了"),
    ("initializing", "初期化中"),
    ("error", "エラー"),
    ("none", "なし"),
    ("On", "オン"),
    ("Off", "オフ"),
    ("Output", "出力"),
    ("Copy", "コピー"),
    ("Clear", "クリア"),
    ("Copied", "コピーしました"),
    ("Cleared", "クリアしました"),
    ("Listening...", "リスニング中..."),
    ("Ready", "準備完了"),
    ("No model loaded", "モデルが読み込まれていません"),
    ("Engine not ready", "エンジンが準備されていません"),
    ("Always On", "常にオン"),
    ("Manage Models", "モデルの管理"),
    ("Download", "ダウンロード"),
    ("Start", "開始"),
    ("Stop", "停止"),
    ("Delete", "削除"),
    ("Downloading...", "ダウンロード中..."),
    ("Starting...", "起動中..."),
    ("Not downloaded", "未ダウンロード"),
    ("Downloaded", "ダウンロード済み"),
    ("Error", "エラー"),
    ("Model deleted", "モデルを削除しました"),
    ("Model stopped", "モデルを停止しました"),
    ("Download complete", "ダウンロード完了"),
    ("Initialization failed", "初期化に失敗しました"),
    ("OSC: On", "OSC: オン"),
    ("OSC: Off", "OSC: オフ"),
    ("Hang on, the model's starting!", "少々お待ちください。モデルを起動中です！"),
    ("● Running", "● 実行中"),
    ("Language:", "言語:"),
    ("English", "英語"),
    ("Japanese", "日本語"),
    ("Auto-copy to clipboard", "クリップボードに自動コピー"),
    ("Append transcriptions", "文字起こしを追記する"),
    ("Activation Mode", "起動モード"),
    ("Toggle-Button (Manual)", "トグルボタン（手動）"),
    ("OSC (VRChat)", "OSC (VRChat)"),
    ("Microphone", "マイク"),
    ("Unknown", "不明"),
    ("Refresh", "更新"),
    ("Devices refreshed", "デバイスを更新しました"),
    ("AI Preferences", "AI設定"),
    ("High Accuracy Mode (Modified Beam Search)", "高精度モード (Modified Beam Search)"),
    ("Search Depth:", "検索の深さ:"),
    ("Higher = More accurate but requires more CPU power", "高くすると精度が上がりますが、CPU負荷が高くなります"),
    ("CPU Threads:", "CPUスレッド数:"),
    ("Custom Dictionary", "カスタム辞書"),
    ("Add terms to help the AI recognize them", "AIが認識しやすいように単語を追加します"),
    ("Hotword Focus:", "ホットワードの強調:"),
    ("Boost multiplier", "強調倍率"),
    ("Apply Settings & Reload", "設定を適用して再読み込み"),
    ("Danger Zone", "危険な操作"),
    ("Reset all settings to their factory defaults.", "すべての設定を初期状態にリセットします。"),
    ("Reset Config", "設定をリセット"),
    ("Config reset", "設定をリセットしました"),
    ("Use the Manage tab to delete model files.", "モデルファイルの削除は「管理」タブから行ってください。"),
    ("Path to .wav file", ".wavファイルのパス"),
    ("Run", "実行"),
    ("Model not ready", "モデルの準備ができていません"),
    ("Your system has ", "システムのRAMは"),
    (" GB RAM. The model may crash or run very slowly.", "GBです。モデルがクラッシュするか、非常に遅くなる可能性があります。"),
];

/// The language of the interface.
#[derive(Debug, Clone, Copy, PartialEq, Eq, Structural)]
pub enum Language {
    English,
    Japanese,
}

impl Default for Language {
    fn default() -> (language: Self)
        ensures
            language == Language::English,
    {
        Language::English
    }
}

/// The Japanese for `key`, from entry `from` of the table on; `key` itself
/// where no such entry has it.
pub open spec fn japanese_from(key: Seq<char>, from: int) -> Seq<char>
    decreases JAPANESE@.len() - from,
{
    if from < 0 || from >= JAPANESE@.len() {
        key
    } else if JAPANESE@[from].0@ == key {
        JAPANESE@[from].1@
    } else {
        japanese_from(key, from + 1)
    }
}

impl Language {
    /// What `key` reads in this language.
    pub open spec fn translated(&self, key: Seq<char>) -> Seq<char> {
        match self {
            Language::English => key,
            Language::Japanese => japanese_from(key, 0),
        }
    }

    /// What `key` reads in this language. A key without a translation is kept.
    pub fn tr<'a>(&self, key: &'a str) -> (word: &'a str)
        ensures
            word@ == self.translated(key@),
    {
        if *self == Language::English {
            return key;
        }
        let mut i: usize = 0;
        while i < JAPANESE.len()
            invariant
                *self == Language::Japanese,
                i <= JAPANESE@.len(),
                japanese_from(key@, 0) == japanese_from(key@, i as int),
            decreases JAPANESE@.len() - i,
        {
            if same_text(JAPANESE[i].0, key) {
                return JAPANESE[i].1;
            }
            i += 1;
        }
        key
    }
}

/// A word that the table does not have reads the same in every language.
pub proof fn untranslated_words_are_kept(language: Language, key: Seq<char>)
    requires
        forall|i: int| 0 <= i < JAPANESE@.len() ==> (#[trigger] JAPANESE@[i]).0@ != key,
    ensures
        language.translated(key) == key,
{
    lemma_untranslated_from(key, 0);
}

proof fn lemma_untranslated_from(key: Seq<char>, from: int)
    requires
        0 <= from <= JAPANESE@.len(),
        forall|i: int| 0 <= i < JAPANESE@.len() ==> (#[trigger] JAPANESE@[i]).0@ != key,
    ensures
        japanese_from(key, from) == key,
    decreases JAPANESE@.len() - from,
{
    if from < JAPANESE@.len() {
        assert(JAPANESE@[from].0@ != key);
        lemma_untranslated_from(key, from + 1);
    }
}

/// What starts and stops listening.
#[derive(Debug, Clone, Copy, PartialEq, Eq, Structural)]
pub enum ListeningMode {
    AlwaysOn,
    ToggleOsc,
    ToggleButton,
}

impl Default for ListeningMode {
    fn default() -> (mode: Self)
        ensures
            mode == ListeningMode::ToggleButton,
    {
        ListeningMode::ToggleButton
    }
}

impl ListeningMode {
    /// The name of the mode.
    pub fn as_str(&self) -> (name: &'static str)
        ensures
            name@ == match self {
                ListeningMode::AlwaysOn => "Always On"@,
                ListeningMode::ToggleOsc => "Toggle-OSC"@,
                ListeningMode::ToggleButton => "Toggle-Button"@,
            },
    {
        match self {
            ListeningMode::AlwaysOn => "Always On",
            ListeningMode::ToggleOsc => "Toggle-OSC",
            ListeningMode::ToggleButton => "Toggle-Button",
        }
    }
}

/// What the recogniser computes on.
#[derive(Debug, Clone, Copy, PartialEq, Eq, Structural)]
pub enum Processor {
    Cpu,
    /// A graphics card, by DirectML.
    Gpu,
    /// A graphics card of NVIDIA, by CUDA.
    GpuCuda,
}

impl Default for Processor {
    fn default() -> (processor: Self)
        ensures
            processor == Processor::Cpu,
    {
        Processor::Cpu
    }
}

impl Processor {
    /// The name of the processor that the user sees.
    pub fn as_str(&self) -> (name: &'static str)
        ensures
            name@ == match self {
                Processor::Cpu => "CPU"@,
                Processor::Gpu => "GPU"@,
                Processor::GpuCuda => "GPU-CUDA"@,
            },
    {
        match self {
            Processor::Cpu => "CPU",
            Processor::Gpu => "GPU",
            Processor::GpuCuda => "GPU-CUDA",
        }
    }

    /// The recogniser's name for the processor.
    pub open spec fn provider_name(&self) -> Seq<char> {
        match self {
            Processor::Cpu => "cpu"@,
            Processor::Gpu => "directml"@,
            Processor::GpuCuda => "cuda"@,
        }
    }

    /// The recogniser's name for the processor.
    pub fn provider(&self) -> (name: &'static str)
        ensures
            name@ == self.provider_name(),
    {
        match self {
            Processor::Cpu => "cpu",
            Processor::Gpu => "directml",
            Processor::GpuCuda => "cuda",
        }
    }
}

/// The range of the search depth.
pub const SEARCH_DEPTH_MIN: i32 = 1;

pub const SEARCH_DEPTH_MAX: i32 = 10;

/// The range of the number of CPU threads.
pub const NUM_THREADS_MIN: i32 = 1;

pub const NUM_THREADS_MAX: i32 = 16;

/// What the user has chosen. The boost of the hotwords is a single-precision
/// float, held as its IEEE 754 bits.
#[derive(Debug)]
pub struct Settings {
    pub language: Language,
    pub listening_mode: ListeningMode,
    pub auto_copy: bool,
    pub append_mode: bool,
    pub processor: Processor,
    pub num_threads: i32,
    pub high_accuracy: bool,
    pub search_depth: i32,
    pub hotwords: String,
    pub hotwords_boost_bits: u32,
}

/// What [`Settings`] hold.
pub struct SettingsModel {
    pub language: Language,
    pub listening_mode: ListeningMode,
    pub auto_copy: bool,
    pub append_mode: bool,
    pub processor: Processor,
    pub num_threads: i32,
    pub high_accuracy: bool,
    pub search_depth: i32,
    pub hotwords: Seq<char>,
    pub hotwords_boost_bits: u32,
}

impl View for Settings {
    type V = SettingsModel;

    open spec fn view(&self) -> SettingsModel {
        SettingsModel {
            language: self.language,
            listening_mode: self.listening_mode,
            auto_copy: self.auto_copy,
            append_mode: self.append_mode,
            processor: self.processor,
            num_threads: self.num_threads,
            high_accuracy: self.high_accuracy,
            search_depth: self.search_depth,
            hotwords: self.hotwords@,
            hotwords_boost_bits: self.hotwords_boost_bits,
        }
    }
}

/// The settings that the program comes with. The boost is one and a half.
pub open spec fn factory_settings() -> SettingsModel {
    SettingsModel {
        language: Language::English,
        listening_mode: ListeningMode::ToggleButton,
        auto_copy: true,
        append_mode: true,
        processor: Processor::Cpu,
        num_threads: 4,
        high_accuracy: false,
        search_depth: 4,
        hotwords: Seq::empty(),
        hotwords_boost_bits: 0x3fc0_0000,
    }
}

/// `value`, or the nearer end of the range where it lies outside.
pub open spec fn clamped(value: int, min: int, max: int) -> int {
    if value < min {
        min
    } else if value > max {
        max
    } else {
        value
    }
}

/// The factory settings lie in the ranges that the user can choose from.
pub proof fn factory_settings_in_range()
    ensures
        SEARCH_DEPTH_MIN <= factory_settings().search_depth <= SEARCH_DEPTH_MAX,
        NUM_THREADS_MIN <= factory_settings().num_threads <= NUM_THREADS_MAX,
{
}

fn clamp(value: i32, min: i32, max: i32) -> (result: i32)
    requires
        min <= max,
    ensures
        result == clamped(value as int, min as int, max as int),
{
    if value < min {
        min
    } else if value > max {
        max
    } else {
        value
    }
}

impl Default for Settings {
    fn default() -> (settings: Self)
        ensures
            settings@ == factory_settings(),
    {
        Settings {
            language: Language::default(),
            listening_mode: ListeningMode::default(),
            auto_copy: true,
            append_mode: true,
            processor: Processor::default(),
            num_threads: 4,
            high_accuracy: false,
            search_depth: 4,
            hotwords: String::new(),
            hotwords_boost_bits: 0x3fc0_0000,
        }
    }
}

impl Clone for Settings {
    fn clone(&self) -> (copy: Self)
        ensures
            copy == *self,
    {
        Settings {
            language: self.language,
            listening_mode: self.listening_mode,
            auto_copy: self.auto_copy,
            append_mode: self.append_mode,
            processor: self.processor,
            num_threads: self.num_threads,
            high_accuracy: self.high_accuracy,
            search_depth: self.search_depth,
            hotwords: self.hotwords.clone(),
            hotwords_boost_bits: self.hotwords_boost_bits,
        }
    }
}

impl Settings {
    /// Sets the search depth, held to its range.
    pub fn set_search_depth(&mut self, depth: i32)
        ensures
            final(self)@ == (SettingsModel {
                search_depth: clamped(
                    depth as int,
                    SEARCH_DEPTH_MIN as int,
                    SEARCH_DEPTH_MAX as int,
                ) as i32,
                ..old(self)@
            }),
    {
        self.search_depth = clamp(depth, SEARCH_DEPTH_MIN, SEARCH_DEPTH_MAX);
    }

    /// Sets the number of CPU threads, held to its range.
    pub fn set_num_threads(&mut self, threads: i32)
        ensures
            final(self)@ == (SettingsModel {
                num_threads: clamped(
                    threads as int,
                    NUM_THREADS_MIN as int,
                    NUM_THREADS_MAX as int,
                ) as i32,
                ..old(self)@
            }),
    {
        self.num_threads = clamp(threads, NUM_THREADS_MIN, NUM_THREADS_MAX);
    }
}

/// What is kept from one run of the program to the next.
#[derive(Debug)]
pub struct AppConfig {
    pub settings: Settings,
    pub selected_device: usize,
}

/// What an [`AppConfig`] holds.
pub struct AppConfigModel {
    pub settings: SettingsModel,
    pub selected_device: usize,
}

impl View for AppConfig {
    type V = AppConfigModel;

    open spec fn view(&self) -> AppConfigModel {
        AppConfigModel { settings: self.settings@, selected_device: self.selected_device }
    }
}

impl Clone for AppConfig {
    fn clone(&self) -> (copy: Self)
        ensures
            copy == *self,
    {
        AppConfig { settings: self.settings.clone(), selected_device: self.selected_device }
    }
}

/// Every word of the table reads as the table says, and in English as it is. A
/// word that the table has twice reads as it has it first.
pub proof fn words_of_the_table_are_translated(i: int)
    requires
        0 <= i < JAPANESE@.len(),
    ensures
        Language::English.translated(JAPANESE@[i].0@) == JAPANESE@[i].0@,
        exists|j: int|
            0 <= j <= i && (#[trigger] JAPANESE@[j]).0@ == JAPANESE@[i].0@
                && Language::Japanese.translated(JAPANESE@[i].0@) == JAPANESE@[j].1@,
{
    lemma_translated_from(i, 0);
}

proof fn lemma_translated_from(i: int, from: int)
    requires
        0 <= from <= i < JAPANESE@.len(),
    ensures
        exists|j: int|
            from <= j <= i && (#[trigger] JAPANESE@[j]).0@ == JAPANESE@[i].0@ && japanese_from(
                JAPANESE@[i].0@,
                from,
            ) == JAPANESE@[j].1@,
    decreases i - from,
{
    if JAPANESE@[from].0@ != JAPANESE@[i].0@ {
        lemma_translated_from(i, from + 1);
    }
}

/// A value is held to a range: it stays as it is inside, and is the nearer end
/// of the range outside.
pub proof fn values_are_held_to_a_range(value: int, min: int, max: int)
    requires
        min <= max,
    ensures
        min <= clamped(value, min, max) <= max,
        min <= value <= max ==> clamped(value, min, max) == value,
        value < min ==> clamped(value, min, max) == min,
        value > max ==> clamped(value, min, max) == max,
{
}

/// The depth goes from one to ten, and the threads from one to sixteen.
pub proof fn ranges_are_fixed()
    ensures
        SEARCH_DEPTH_MIN == 1,
        SEARCH_DEPTH_MAX == 10,
        NUM_THREADS_MIN == 1,
        NUM_THREADS_MAX == 16,
{
}

/// In English every word reads as it is.
pub proof fn english_words_are_kept(key: Seq<char>)
    ensures
        Language::English.translated(key) == key,
{
}

}
