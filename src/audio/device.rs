//! Audio devices as the rest of the application sees them.
use vstd::prelude::*;

verus! {

/// An audio device.
#[derive(Debug, Clone)]
pub struct AudioDevice {
    pub id: String,
    pub name: String,
    pub device_type: DeviceType,
    pub channels: u16,
    pub sample_rate: u32,
    pub is_default: bool,
    pub is_available: bool,
}

/// Which way a device carries audio.
#[derive(Debug, Clone, Copy, PartialEq, Eq, Structural)]
pub enum DeviceType {
    Input,
    Output,
    Duplex,
}

/// The label of each device type.
pub open spec fn type_label(t: DeviceType) -> &'static str {
    match t {
        DeviceType::Input => "输入",
        DeviceType::Output => "输出",
        DeviceType::Duplex => "双工",
    }
}

/// The sample rates that a device is taken to support.
pub open spec fn standard_rate(sample_rate: u32) -> bool {
    sample_rate == 8000 || sample_rate == 16000 || sample_rate == 22050 || sample_rate == 44100
        || sample_rate == 48000 || sample_rate == 96000
}

/// The decimal digit of `d`.
pub open spec fn digit_char(d: nat) -> char {
    ((48 + d) as u8) as char
}

/// The decimal digits of `n`, most significant first, without leading zeros.
pub open spec fn decimal(n: nat) -> Seq<char>
    decreases n,
{
    if n < 10 {
        seq![digit_char(n)]
    } else {
        decimal(n / 10).push(digit_char(n % 10))
    }
}

/// The one-line description of a device: its name, then its kind, channel
/// count and sample rate in parentheses.
pub open spec fn device_description(
    name: Seq<char>,
    kind: Seq<char>,
    channels: u16,
    sample_rate: u32,
) -> Seq<char> {
    name + " ("@ + kind + ", "@ + decimal(channels as nat) + " 通道, "@ + decimal(
        sample_rate as nat,
    ) + " Hz)"@
}

/// Appends the decimal digits of `n` to `out`.
fn push_decimal(out: &mut String, n: u32)
    ensures
        final(out)@ == old(out)@ + decimal(n as nat),
    decreases n,
{
    if n >= 10 {
        push_decimal(out, n / 10);
    }
    let d = (n % 10) as u8;
    out.push((48 + d) as char);
    assert(final(out)@ =~= old(out)@ + decimal(n as nat));
}

impl AudioDevice {
    /// An available, non-default device.
    pub fn new(
        id: String,
        name: String,
        device_type: DeviceType,
        channels: u16,
        sample_rate: u32,
    ) -> (r: Self)
        ensures
            r.id == id,
            r.name == name,
            r.device_type == device_type,
            r.channels == channels,
            r.sample_rate == sample_rate,
            !r.is_default,
            r.is_available,
    {
        AudioDevice {
            id,
            name,
            device_type,
            channels,
            sample_rate,
            is_default: false,
            is_available: true,
        }
    }

    /// Whether the device records: an input or duplex device.
    pub fn is_input(&self) -> (r: bool)
        ensures
            r == (self.device_type == DeviceType::Input || self.device_type == DeviceType::Duplex),
    {
        match self.device_type {
            DeviceType::Input | DeviceType::Duplex => true,
            DeviceType::Output => false,
        }
    }

    /// Whether the device plays: an output or duplex device.
    pub fn is_output(&self) -> (r: bool)
        ensures
            r == (self.device_type == DeviceType::Output || self.device_type == DeviceType::Duplex),
    {
        match self.device_type {
            DeviceType::Output | DeviceType::Duplex => true,
            DeviceType::Input => false,
        }
    }

    /// The label of the device's type.
    pub fn device_type_name(&self) -> (r: &'static str)
        ensures
            r == type_label(self.device_type),
    {
        match self.device_type {
            DeviceType::Input => "输入",
            DeviceType::Output => "输出",
            DeviceType::Duplex => "双工",
        }
    }

    /// A one-line description: name, type, channels and sample rate.
    pub fn description(&self) -> (r: String)
        ensures
            r@ == device_description(
                self.name@,
                type_label(self.device_type)@,
                self.channels,
                self.sample_rate,
            ),
    {
        let mut r = self.name.clone();
        r.append(" (");
        r.append(self.device_type_name());
        r.append(", ");
        push_decimal(&mut r, self.channels as u32);
        r.append(" 通道, ");
        push_decimal(&mut r, self.sample_rate);
        r.append(" Hz)");
        r
    }

    /// Whether the device is taken to support `sample_rate`: one of the
    /// standard rates.
    pub fn supports_sample_rate(&self, sample_rate: u32) -> (r: bool)
        ensures
            r == standard_rate(sample_rate),
    {
        sample_rate == 8000 || sample_rate == 16000 || sample_rate == 22050 || sample_rate
            == 44100 || sample_rate == 48000 || sample_rate == 96000
    }

    /// Whether the device has at least `channels` channels.
    pub fn supports_channels(&self, channels: u16) -> (r: bool)
        ensures
            r == (channels <= self.channels),
    {
        channels <= self.channels
    }
}

} // verus!
