//! The queue of texts that wait to be read aloud.

use std::collections::VecDeque;
use vstd::prelude::*;
use vstd::string::*;

verus! {

/// A message to the speech worker.
pub enum TtsTask {
    SpeakText { text: String },
    Stop,
    SetVoice { voice: String },
    Shutdown,
}

/// Slowest speaking rate handed to the synthesizer, in words per minute.
pub const MIN_RATE: i32 = 100;

/// Fastest speaking rate handed to the synthesizer, in words per minute.
pub const MAX_RATE: i32 = 500;

/// The state of the speech worker, as contracts see it.
pub struct TtsModel {
    pub queue: Seq<String>,
    pub voice: Seq<char>,
    /// Speaking rate in thousandths of the fastest rate the worker offers.
    pub rate: u32,
    /// Volume in thousandths.
    pub volume: u32,
}

/// The speaking rate in words per minute: four hundred times the rate,
/// held between `MIN_RATE` and `MAX_RATE`.
pub open spec fn spec_rate_value(rate: u32) -> int {
    let words = (rate as int * 400) / 1000;
    if words < MIN_RATE as int {
        MIN_RATE as int
    } else if words > MAX_RATE as int {
        MAX_RATE as int
    } else {
        words
    }
}

/// What the speech worker keeps between tasks.
pub struct TtsState {
    speech_queue: VecDeque<String>,
    current_voice: String,
    rate: u32,
    volume: u32,
}

impl View for TtsState {
    type V = TtsModel;

    closed spec fn view(&self) -> TtsModel {
        TtsModel {
            queue: self.speech_queue@,
            voice: self.current_voice@,
            rate: self.rate,
            volume: self.volume,
        }
    }
}

impl TtsState {
    /// A worker with nothing to say, the voice `Mei-Jia`, the rate 0.6 and
    /// the volume 0.8.
    pub fn new() -> (state: TtsState)
        ensures
            state@ == (TtsModel { queue: Seq::empty(), voice: "Mei-Jia"@, rate: 600, volume: 800 }),
    {
        TtsState {
            speech_queue: VecDeque::new(),
            current_voice: String::from_str("Mei-Jia"),
            rate: 600,
            volume: 800,
        }
    }

    /// Handles one task and says whether the worker is to stop, which only
    /// `Shutdown` asks for. A text goes to the end of the queue, `Stop`
    /// empties the queue, and a new voice replaces the current one.
    pub fn handle_task(&mut self, task: TtsTask) -> (exit: bool)
        ensures
            exit == (task is Shutdown),
            final(self)@ == match task {
                TtsTask::SpeakText { text } => TtsModel {
                    queue: old(self)@.queue.push(text),
                    ..old(self)@
                },
                TtsTask::Stop => TtsModel { queue: Seq::empty(), ..old(self)@ },
                TtsTask::SetVoice { voice } => TtsModel { voice: voice@, ..old(self)@ },
                TtsTask::Shutdown => old(self)@,
            },
    {
        match task {
            TtsTask::SpeakText { text } => {
                self.speech_queue.push_back(text);
                false
            },
            TtsTask::Stop => {
                self.speech_queue.clear();
                false
            },
            TtsTask::SetVoice { voice } => {
                self.current_voice = voice;
                false
            },
            TtsTask::Shutdown => true,
        }
    }

    /// Takes the text that waited longest out of the queue.
    pub fn next_speech(&mut self) -> (text: Option<String>)
        ensures
            old(self)@.queue.len() == 0 ==> text is None && final(self)@ == old(self)@,
            old(self)@.queue.len() > 0 ==> text == Some(old(self)@.queue[0]) && final(self)@ == (
            TtsModel {
                queue: old(self)@.queue.subrange(1, old(self)@.queue.len() as int),
                ..old(self)@
            }),
    {
        self.speech_queue.pop_front()
    }

    pub fn current_voice(&self) -> (voice: &str)
        ensures
            voice@ == self@.voice,
    {
        self.current_voice.as_str()
    }

    /// The speaking rate in words per minute.
    pub fn rate_value(&self) -> (words: i32)
        ensures
            words as int == spec_rate_value(self@.rate),
    {
        let words: u64 = (self.rate as u64) * 400 / 1000;
        if words < MIN_RATE as u64 {
            MIN_RATE
        } else if words > MAX_RATE as u64 {
            MAX_RATE
        } else {
            words as i32
        }
    }
}

} // verus!
