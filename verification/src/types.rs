//! The small value types of the codec's interface, each with the number that stands for it
//! on the wire of the C interface.

use vstd::prelude::*;

verus! {

/// Request value that leaves a choice to the codec.
pub const OPUS_AUTO: i32 = -1000;

/// Request value for the highest bitrate the codec supports.
pub const OPUS_BITRATE_MAX: i32 = -1;

/// Encoder application mode.
#[derive(Debug, Clone, Copy, PartialEq, Eq, Structural)]
pub enum Application {
    /// Optimize for conversational speech.
    Voip,
    /// Optimize for general audio/music.
    Audio,
    /// Low-delay mode, reduced algorithmic delay.
    RestrictedLowDelay,
}

impl Application {
    /// The number the codec uses for this mode.
    pub open spec fn code(self) -> int {
        match self {
            Application::Voip => 2048,
            Application::Audio => 2049,
            Application::RestrictedLowDelay => 2051,
        }
    }

    /// As `i32`.
    pub fn as_i32(self) -> (v: i32)
        ensures
            v == self.code(),
    {
        match self {
            Application::Voip => 2048,
            Application::Audio => 2049,
            Application::RestrictedLowDelay => 2051,
        }
    }
}

impl Default for Application {
    fn default() -> (a: Self)
        ensures
            a == Application::Voip,
    {
        Application::Voip
    }
}

/// Audio channel layout.
#[derive(Debug, Clone, Copy, PartialEq, Eq, Structural)]
pub enum Channels {
    /// Single-channel audio.
    Mono,
    /// Two-channel interleaved audio.
    Stereo,
}

impl Channels {
    /// The number of channels.
    pub open spec fn count(self) -> int {
        match self {
            Channels::Mono => 1,
            Channels::Stereo => 2,
        }
    }

    /// As `usize`.
    pub fn as_usize(self) -> (n: usize)
        ensures
            n == self.count(),
    {
        match self {
            Channels::Mono => 1,
            Channels::Stereo => 2,
        }
    }

    /// As `i32`.
    pub fn as_i32(self) -> (n: i32)
        ensures
            n == self.count(),
    {
        match self {
            Channels::Mono => 1,
            Channels::Stereo => 2,
        }
    }
}

/// Supported input/output sample rates.
#[derive(Debug, Clone, Copy, PartialEq, Eq, Structural)]
pub enum SampleRate {
    /// 8 kHz.
    Hz8000,
    /// 12 kHz.
    Hz12000,
    /// 16 kHz.
    Hz16000,
    /// 24 kHz.
    Hz24000,
    /// 48 kHz.
    Hz48000,
}

impl SampleRate {
    /// The rate in samples per second.
    pub open spec fn hertz(self) -> int {
        match self {
            SampleRate::Hz8000 => 8000,
            SampleRate::Hz12000 => 12000,
            SampleRate::Hz16000 => 16000,
            SampleRate::Hz24000 => 24000,
            SampleRate::Hz48000 => 48000,
        }
    }

    /// As `i32`.
    pub fn as_i32(self) -> (hz: i32)
        ensures
            hz == self.hertz(),
    {
        match self {
            SampleRate::Hz8000 => 8000,
            SampleRate::Hz12000 => 12000,
            SampleRate::Hz16000 => 16000,
            SampleRate::Hz24000 => 24000,
            SampleRate::Hz48000 => 48000,
        }
    }

    /// Return true if the sample rate is one the codec accepts; every value of this type is.
    pub fn is_valid(self) -> (ok: bool)
        ensures
            ok,
    {
        match self {
            SampleRate::Hz8000
            | SampleRate::Hz12000
            | SampleRate::Hz16000
            | SampleRate::Hz24000
            | SampleRate::Hz48000 => true,
        }
    }
}

impl Default for SampleRate {
    fn default() -> (r: Self)
        ensures
            r == SampleRate::Hz48000,
    {
        SampleRate::Hz48000
    }
}

/// Coded bandwidth classifications in packets.
#[derive(Debug, Clone, Copy, PartialEq, Eq, Structural)]
pub enum Bandwidth {
    /// 4 kHz bandpass.
    Narrowband,
    /// 6 kHz bandpass.
    Mediumband,
    /// 8 kHz bandpass.
    Wideband,
    /// 12 kHz bandpass.
    SuperWideband,
    /// 20 kHz bandpass.
    Fullband,
}

impl Bandwidth {
    /// The number the codec uses for this bandwidth.
    pub open spec fn code(self) -> int {
        match self {
            Bandwidth::Narrowband => 1101,
            Bandwidth::Mediumband => 1102,
            Bandwidth::Wideband => 1103,
            Bandwidth::SuperWideband => 1104,
            Bandwidth::Fullband => 1105,
        }
    }

    /// The bandwidth that a number of the codec stands for, if any.
    pub open spec fn of_code(v: int) -> Option<Bandwidth> {
        if v == 1101 {
            Some(Bandwidth::Narrowband)
        } else if v == 1102 {
            Some(Bandwidth::Mediumband)
        } else if v == 1103 {
            Some(Bandwidth::Wideband)
        } else if v == 1104 {
            Some(Bandwidth::SuperWideband)
        } else if v == 1105 {
            Some(Bandwidth::Fullband)
        } else {
            None
        }
    }

    /// As `i32`.
    pub fn as_i32(self) -> (v: i32)
        ensures
            v == self.code(),
            Self::of_code(v as int) == Some(self),
    {
        match self {
            Bandwidth::Narrowband => 1101,
            Bandwidth::Mediumband => 1102,
            Bandwidth::Wideband => 1103,
            Bandwidth::SuperWideband => 1104,
            Bandwidth::Fullband => 1105,
        }
    }

    /// The bandwidth that `v` stands for, or `None` where it stands for none.
    pub fn from_i32(v: i32) -> (bw: Option<Self>)
        ensures
            bw == Self::of_code(v as int),
    {
        if v == 1101 {
            Some(Bandwidth::Narrowband)
        } else if v == 1102 {
            Some(Bandwidth::Mediumband)
        } else if v == 1103 {
            Some(Bandwidth::Wideband)
        } else if v == 1104 {
            Some(Bandwidth::SuperWideband)
        } else if v == 1105 {
            Some(Bandwidth::Fullband)
        } else {
            None
        }
    }
}

/// Convenience frame sizes in milliseconds.
#[derive(Debug, Clone, Copy, PartialEq, Eq, Structural)]
pub enum FrameSize {
    /// 2.5 ms.
    Ms2_5,
    /// 5 ms.
    Ms5,
    /// 10 ms.
    Ms10,
    /// 20 ms.
    Ms20,
    /// 40 ms.
    Ms40,
    /// 60 ms.
    Ms60,
}

impl FrameSize {
    /// The duration in tenths of a millisecond.
    pub open spec fn tenths_of_ms(self) -> int {
        match self {
            FrameSize::Ms2_5 => 25,
            FrameSize::Ms5 => 50,
            FrameSize::Ms10 => 100,
            FrameSize::Ms20 => 200,
            FrameSize::Ms40 => 400,
            FrameSize::Ms60 => 600,
        }
    }

    /// Number of samples for this duration at `sample_rate`.
    pub fn samples(self, sample_rate: SampleRate) -> (n: usize)
        ensures
            n * 10000 == self.tenths_of_ms() * sample_rate.hertz(),
    {
        let tenths: usize = match self {
            FrameSize::Ms2_5 => 25,
            FrameSize::Ms5 => 50,
            FrameSize::Ms10 => 100,
            FrameSize::Ms20 => 200,
            FrameSize::Ms40 => 400,
            FrameSize::Ms60 => 600,
        };
        let hz: usize = sample_rate.as_i32() as usize;
        (tenths * hz) / 10_000
    }
}

/// Hint the encoder about the type of content.
#[derive(Debug, Clone, Copy, PartialEq, Eq, Structural)]
pub enum Signal {
    /// Voice-optimized mode.
    Voice,
    /// Music/general audio optimized mode.
    Music,
}

impl Signal {
    /// The number the codec uses for this hint.
    pub open spec fn code(self) -> int {
        match self {
            Signal::Voice => 3001,
            Signal::Music => 3002,
        }
    }

    /// As `i32`.
    pub fn as_i32(self) -> (v: i32)
        ensures
            v == self.code(),
    {
        match self {
            Signal::Voice => 3001,
            Signal::Music => 3002,
        }
    }
}

/// Expert frame duration settings for the encoder.
#[derive(Debug, Clone, Copy, PartialEq, Eq, Structural)]
pub enum ExpertFrameDuration {
    /// 2.5 ms.
    Ms2_5,
    /// 5 ms.
    Ms5,
    /// 10 ms.
    Ms10,
    /// 20 ms.
    Ms20,
    /// 40 ms.
    Ms40,
    /// 60 ms.
    Ms60,
    /// 80 ms.
    Ms80,
    /// 100 ms.
    Ms100,
    /// 120 ms.
    Ms120,
}

impl ExpertFrameDuration {
    /// The number the codec uses for this duration.
    pub open spec fn code(self) -> int {
        match self {
            ExpertFrameDuration::Ms2_5 => 5001,
            ExpertFrameDuration::Ms5 => 5002,
            ExpertFrameDuration::Ms10 => 5003,
            ExpertFrameDuration::Ms20 => 5004,
            ExpertFrameDuration::Ms40 => 5005,
            ExpertFrameDuration::Ms60 => 5006,
            ExpertFrameDuration::Ms80 => 5007,
            ExpertFrameDuration::Ms100 => 5008,
            ExpertFrameDuration::Ms120 => 5009,
        }
    }

    /// As `i32`.
    pub fn as_i32(self) -> (v: i32)
        ensures
            v == self.code(),
    {
        match self {
            ExpertFrameDuration::Ms2_5 => 5001,
            ExpertFrameDuration::Ms5 => 5002,
            ExpertFrameDuration::Ms10 => 5003,
            ExpertFrameDuration::Ms20 => 5004,
            ExpertFrameDuration::Ms40 => 5005,
            ExpertFrameDuration::Ms60 => 5006,
            ExpertFrameDuration::Ms80 => 5007,
            ExpertFrameDuration::Ms100 => 5008,
            ExpertFrameDuration::Ms120 => 5009,
        }
    }
}

/// Encoder complexity wrapper in the range 0..=10.
#[derive(Debug, Clone, Copy, PartialEq, Eq, Structural)]
pub struct Complexity(u32);

impl Complexity {
    /// The wrapped level.
    pub closed spec fn level(self) -> int {
        self.0 as int
    }

    /// Every complexity holds a level in 0..=10.
    #[verifier::type_invariant]
    closed spec fn in_range(self) -> bool {
        self.0 <= 10
    }

    /// Create a new complexity value in range 0..=10.
    pub fn new(complexity: u32) -> (c: Self)
        requires
            complexity <= 10,
        ensures
            c.level() == complexity,
    {
        Complexity(complexity)
    }

    /// Raw complexity value.
    pub fn value(self) -> (v: u32)
        ensures
            v == self.level(),
            v <= 10,
    {
        proof {
            use_type_invariant(&self);
        }
        self.0
    }
}

impl Default for Complexity {
    fn default() -> (c: Self)
        ensures
            c.level() == 10,
    {
        Complexity(10)
    }
}

/// Bitrate control options.
#[derive(Debug, Clone, Copy, PartialEq, Eq, Structural)]
pub enum Bitrate {
    /// Let the encoder choose.
    Auto,
    /// Maximum allowed.
    Max,
    /// Explicit bits-per-second.
    Custom(i32),
}

impl Bitrate {
    /// The number that states this choice to the codec.
    pub open spec fn code(self) -> int {
        match self {
            Bitrate::Auto => -1000,
            Bitrate::Max => -1,
            Bitrate::Custom(bps) => bps as int,
        }
    }

    /// The choice that a number reported by the codec stands for.
    pub open spec fn of_code(v: int) -> Bitrate {
        if v == -1000 {
            Bitrate::Auto
        } else if v == -1 {
            Bitrate::Max
        } else {
            Bitrate::Custom(v as i32)
        }
    }

    /// Convert to the codec's `i32` value.
    pub fn value(self) -> (v: i32)
        ensures
            v == self.code(),
    {
        match self {
            Bitrate::Auto => OPUS_AUTO,
            Bitrate::Max => OPUS_BITRATE_MAX,
            Bitrate::Custom(bps) => bps,
        }
    }

    /// The choice that `v` stands for.
    pub fn from_i32(v: i32) -> (b: Self)
        ensures
            b == Self::of_code(v as int),
    {
        if v == OPUS_AUTO {
            Bitrate::Auto
        } else if v == OPUS_BITRATE_MAX {
            Bitrate::Max
        } else {
            Bitrate::Custom(v)
        }
    }
}

} // verus!
