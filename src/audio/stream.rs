//! States and sample formats of audio streams.
use vstd::prelude::*;

verus! {

/// The state of an audio stream.
#[derive(Debug, Clone, Copy, PartialEq, Eq, Structural)]
pub enum StreamStatus {
    Created,
    Starting,
    Running,
    Paused,
    Stopping,
    Stopped,
    Error,
}

/// A sample format.
#[derive(Debug, Clone, Copy, PartialEq, Eq, Structural)]
pub enum AudioFormat {
    I16,
    I24,
    I32,
    F32,
}

/// The label of each stream state.
pub open spec fn status_label(s: StreamStatus) -> &'static str {
    match s {
        StreamStatus::Created => "已创建",
        StreamStatus::Starting => "启动中",
        StreamStatus::Running => "运行中",
        StreamStatus::Paused => "暂停",
        StreamStatus::Stopping => "停止中",
        StreamStatus::Stopped => "已停止",
        StreamStatus::Error => "错误",
    }
}

/// The label of each sample format.
pub open spec fn format_label(f: AudioFormat) -> &'static str {
    match f {
        AudioFormat::I16 => "16位整数",
        AudioFormat::I24 => "24位整数",
        AudioFormat::I32 => "32位整数",
        AudioFormat::F32 => "32位浮点",
    }
}

/// The bytes one sample takes in each format.
pub open spec fn sample_bytes(f: AudioFormat) -> usize {
    match f {
        AudioFormat::I16 => 2,
        AudioFormat::I24 => 3,
        AudioFormat::I32 => 4,
        AudioFormat::F32 => 4,
    }
}

impl StreamStatus {
    /// The label of this state.
    pub fn display_name(&self) -> (r: &'static str)
        ensures
            r == status_label(*self),
    {
        match self {
            StreamStatus::Created => "已创建",
            StreamStatus::Starting => "启动中",
            StreamStatus::Running => "运行中",
            StreamStatus::Paused => "暂停",
            StreamStatus::Stopping => "停止中",
            StreamStatus::Stopped => "已停止",
            StreamStatus::Error => "错误",
        }
    }

    /// Whether the stream is starting or running.
    pub fn is_active(&self) -> (r: bool)
        ensures
            r == (*self == StreamStatus::Starting || *self == StreamStatus::Running),
    {
        match self {
            StreamStatus::Starting | StreamStatus::Running => true,
            _ => false,
        }
    }

    /// Whether the stream has failed.
    pub fn is_error(&self) -> (r: bool)
        ensures
            r == (*self == StreamStatus::Error),
    {
        match self {
            StreamStatus::Error => true,
            _ => false,
        }
    }
}

impl AudioFormat {
    /// The bytes one sample takes.
    pub fn byte_size(&self) -> (r: usize)
        ensures
            r == sample_bytes(*self),
    {
        match self {
            AudioFormat::I16 => 2,
            AudioFormat::I24 => 3,
            AudioFormat::I32 => 4,
            AudioFormat::F32 => 4,
        }
    }

    /// The label of this format.
    pub fn display_name(&self) -> (r: &'static str)
        ensures
            r == format_label(*self),
    {
        match self {
            AudioFormat::I16 => "16位整数",
            AudioFormat::I24 => "24位整数",
            AudioFormat::I32 => "32位整数",
            AudioFormat::F32 => "32位浮点",
        }
    }

    /// Whether samples are floating-point values.
    pub fn is_float(&self) -> (r: bool)
        ensures
            r == (*self == AudioFormat::F32),
    {
        match self {
            AudioFormat::F32 => true,
            _ => false,
        }
    }
}

} // verus!
