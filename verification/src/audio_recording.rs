//! Recordings of a microphone.
use crate::copying::optional;
use crate::text::{decimal, decimal_text, joined, joined3};
use crate::time::{greatest, Duration};
use vstd::prelude::*;

verus! {

/// What was recorded.
#[derive(Debug)]
pub struct AudioRecordingResult {
    pub path: String,
    pub duration: Duration,
    pub device_name: Option<String>,
}

/// How sound is measured: at least one channel, and at least once in a second.
#[derive(Debug, Clone, Copy, PartialEq, Eq, Structural)]
pub struct RecordingFormat {
    pub channels: u16,
    pub sample_rate: u32,
}

/// The shortest recording, a thousandth of a second.
pub const SHORTEST_RECORDING: u128 = 1_000_000;

impl RecordingFormat {
    /// Whether there is a channel and a rate.
    pub open spec fn is_valid(self) -> bool {
        self.channels >= 1 && self.sample_rate >= 1
    }

    /// The format that a device offers; nothing counts as one.
    pub fn new(channels: u16, sample_rate: u32) -> (f: RecordingFormat)
        ensures
            f.is_valid(),
            f.channels == greatest(channels as int, 1),
            f.sample_rate == greatest(sample_rate as int, 1),
    {
        RecordingFormat {
            channels: if channels < 1 {
                1
            } else {
                channels
            },
            sample_rate: if sample_rate < 1 {
                1
            } else {
                sample_rate
            },
        }
    }

    /// How long so many samples are, to the nearest nanosecond.
    pub open spec fn length_of(self, samples: int) -> int {
        let frames = samples / self.channels as int;
        (2 * frames * 1_000_000_000 + self.sample_rate) / (2 * self.sample_rate as int)
    }

    /// How long a recording is: by what was measured, or by the time that passed where nothing
    /// was; never nothing.
    pub fn recording_length(self, samples: u64, elapsed: Duration) -> (d: Duration)
        requires
            self.is_valid(),
        ensures
            d@ == greatest(
                if samples as int / self.channels as int > 0 {
                    self.length_of(samples as int)
                } else {
                    elapsed@
                },
                SHORTEST_RECORDING as int,
            ),
    {
        let frames: u64 = samples / (self.channels as u64);
        let length = if frames > 0 {
            assert(2 * (frames as int) * 1_000_000_000 + self.sample_rate <= u128::MAX)
                by (nonlinear_arith)
                requires
                    frames <= u64::MAX,
                    self.sample_rate <= u32::MAX,
            ;
            let n: u128 = 2 * (frames as u128) * 1_000_000_000 + (self.sample_rate as u128);
            Duration { nanos: n / (2 * (self.sample_rate as u128)) }
        } else {
            elapsed
        };
        length.max(Duration { nanos: SHORTEST_RECORDING })
    }
}

/// The name of the file for a recording that is started at a time in milliseconds.
pub fn recording_file_name(millis: u64) -> (name: String)
    ensures
        name@ == "voice_recording_"@ + decimal(millis as int) + ".wav"@,
{
    joined3("voice_recording_", decimal_text(millis).as_str(), ".wav")
}

/// What is told of a format of samples that cannot be recorded.
pub fn unsupported_format(format: &str) -> (text: String)
    ensures
        text@ == "Unsupported microphone sample format: "@ + format@,
{
    joined("Unsupported microphone sample format: ", format)
}

/// What was recorded, when it is done.
pub fn finish_recording(
    path: String,
    device_name: Option<String>,
    format: RecordingFormat,
    samples: u64,
    elapsed: Duration,
) -> (r: AudioRecordingResult)
    requires
        format.is_valid(),
    ensures
        r.path@ == path@,
        optional(r.device_name) == optional(device_name),
        r.duration@ == greatest(
            if samples as int / format.channels as int > 0 {
                format.length_of(samples as int)
            } else {
                elapsed@
            },
            SHORTEST_RECORDING as int,
        ),
{
    AudioRecordingResult {
        path,
        duration: format.recording_length(samples, elapsed),
        device_name,
    }
}

/// A recording with more samples is no shorter.
pub proof fn longer_recording_has_more_samples(f: RecordingFormat, a: int, b: int)
    requires
        f.is_valid(),
        0 <= a <= b,
    ensures
        f.length_of(a) <= f.length_of(b),
{
    let c = f.channels as int;
    let r = f.sample_rate as int;
    assert(a / c <= b / c) by (nonlinear_arith)
        requires
            0 <= a <= b,
            c >= 1,
    ;
    let x = 2 * (a / c) * 1_000_000_000 + r;
    let y = 2 * (b / c) * 1_000_000_000 + r;
    assert(x <= y);
    assert(x / (2 * r) <= y / (2 * r)) by (nonlinear_arith)
        requires
            x <= y,
            r >= 1,
    ;
}

} // verus!
