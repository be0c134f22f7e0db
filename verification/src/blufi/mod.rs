//! BluFi: Wi-Fi provisioning over a Bluetooth link.

pub mod codec;
pub mod fc;
pub mod frame;
pub mod ftype;
pub mod name;
pub mod wifi;
pub mod worker;

use crate::text;
use vstd::prelude::*;

verus! {

/// How the data of frames is protected. Only `Plain` is in use.
#[derive(Debug, Clone, Copy, PartialEq, Eq, Structural)]
pub enum SecurityMode {
    Plain,
    Crc16,
    Aes,
    DhAes,
}

impl Default for SecurityMode {
    fn default() -> (m: Self)
        ensures
            m == SecurityMode::Plain,
    {
        SecurityMode::Plain
    }
}

impl SecurityMode {
    /// The name of the mode.
    pub open spec fn name(self) -> Seq<char> {
        match self {
            SecurityMode::Plain => "plain"@,
            SecurityMode::Crc16 => "crc16"@,
            SecurityMode::Aes => "aes"@,
            SecurityMode::DhAes => "dhaes"@,
        }
    }

    /// The mode with this name, in any case; other names stand for `Plain`.
    pub open spec fn named(s: Seq<char>) -> SecurityMode {
        if text::same_letters(s, "crc16"@) {
            SecurityMode::Crc16
        } else if text::same_letters(s, "aes"@) {
            SecurityMode::Aes
        } else if text::same_letters(s, "dhaes"@) {
            SecurityMode::DhAes
        } else {
            SecurityMode::Plain
        }
    }

    /// The name of the mode.
    pub fn as_str(&self) -> (s: &'static str)
        ensures
            s@ == self.name(),
    {
        match self {
            SecurityMode::Plain => "plain",
            SecurityMode::Crc16 => "crc16",
            SecurityMode::Aes => "aes",
            SecurityMode::DhAes => "dhaes",
        }
    }

    /// The mode with this name, in any case; other names stand for `Plain`.
    pub fn from_str(s: &str) -> (m: SecurityMode)
        ensures
            m == SecurityMode::named(s@),
    {
        if text::same_ignoring_case(s, "crc16") {
            SecurityMode::Crc16
        } else if text::same_ignoring_case(s, "aes") {
            SecurityMode::Aes
        } else if text::same_ignoring_case(s, "dhaes") {
            SecurityMode::DhAes
        } else {
            SecurityMode::Plain
        }
    }
}

/// A mode is found again by its name.
pub proof fn law_security_mode_names(m: SecurityMode)
    ensures
        SecurityMode::named(m.name()) == m,
{
    reveal_strlit("plain");
    reveal_strlit("crc16");
    reveal_strlit("aes");
    reveal_strlit("dhaes");
    assert("plain"@.len() == 5 && "plain"@[0] == 'p');
    assert("crc16"@.len() == 5 && "crc16"@[0] == 'c');
    assert("aes"@.len() == 3);
    assert("dhaes"@.len() == 5 && "dhaes"@[0] == 'd');
    assert(text::same_letters(m.name(), m.name()));
}

/// How the device is provisioned.
#[derive(Debug, Clone)]
pub struct BluFiConfig {
    pub enabled: bool,
    /// The application advertises itself; where the system does that already, it need not.
    pub advertise: bool,
    /// What stands in front of the device id in the name of the device; the model, where this is
    /// empty.
    pub name_prefix: String,
    pub adapter: String,
    pub dbus_timeout_ms: u64,
    pub scan_timeout_ms: u64,
    pub connect_timeout_ms: u64,
    pub wpa_iface: String,
    pub wpa_ctrl: String,
    pub wpa_conf: String,
    /// How often a receipt or a failure is told.
    pub ack_repeat: u8,
    /// How many bytes of a list of networks go out; 0 for all, in as many frames as that takes.
    pub scan_single_frame_bytes: usize,
    /// How long it is between two repetitions.
    pub ack_interval_ms: u64,
    /// The name of a [`SecurityMode`].
    pub security: String,
    pub version_major: u8,
    pub version_minor: u8,
    /// The serial line of the Bluetooth chip; the system attaches it.
    pub uart: String,
    pub baud: u32,
    /// Leave the network for a scan: some chips find nothing while they are in one.
    pub scan_disconnect_fallback: bool,
}

impl Default for BluFiConfig {
    fn default() -> (c: Self)
        ensures
            c.enabled && c.advertise,
            c.name_prefix@ == ""@,
            c.adapter@ == "hci0"@,
            c.dbus_timeout_ms == 5000,
            c.scan_timeout_ms == 5000,
            c.connect_timeout_ms == 30000,
            c.wpa_iface@ == "wlan0"@,
            c.wpa_ctrl@ == "/var/run/wpa_supplicant/wlan0"@,
            c.wpa_conf@ == "/data/wpa_supplicant.conf"@,
            c.ack_repeat == 3,
            c.scan_single_frame_bytes == 0,
            c.ack_interval_ms == 500,
            c.security@ == "plain"@,
            c.version_major == 1 && c.version_minor == 0,
            c.uart@ == "/dev/ttyS1"@,
            c.baud == 115200,
            c.scan_disconnect_fallback,
    {
        BluFiConfig {
            enabled: true,
            advertise: true,
            name_prefix: "".to_owned(),
            adapter: "hci0".to_owned(),
            dbus_timeout_ms: 5000,
            scan_timeout_ms: 5000,
            connect_timeout_ms: 30000,
            wpa_iface: "wlan0".to_owned(),
            wpa_ctrl: "/var/run/wpa_supplicant/wlan0".to_owned(),
            wpa_conf: "/data/wpa_supplicant.conf".to_owned(),
            ack_repeat: 3,
            scan_single_frame_bytes: 0,
            ack_interval_ms: 500,
            security: "plain".to_owned(),
            version_major: 1,
            version_minor: 0,
            uart: "/dev/ttyS1".to_owned(),
            baud: 115200,
            scan_disconnect_fallback: true,
        }
    }
}

impl BluFiConfig {
    /// How the data of frames is protected.
    pub fn security_mode(&self) -> (m: SecurityMode)
        ensures
            m == SecurityMode::named(self.security@),
    {
        SecurityMode::from_str(self.security.as_str())
    }

    /// The name under which the device is found: the prefix, or the model where there is none, a
    /// hyphen and the device id.
    pub fn bluetooth_name(&self, model: &str, device_id: &str) -> (name: String)
        ensures
            name@ == (if self.name_prefix@.len() == 0 {
                model@
            } else {
                self.name_prefix@
            }) + "-"@ + device_id@,
    {
        let prefix: &str = if self.name_prefix.as_str().is_empty() {
            model
        } else {
            self.name_prefix.as_str()
        };
        let mut name: String = text::join(prefix, "-");
        name.append(device_id);
        name
    }

    /// The short name of the device, for where nothing better is known: the prefix, a hyphen and
    /// the device id, or the device id alone where there is no prefix.
    pub fn local_name(&self, device_id: &str) -> (name: String)
        ensures
            name@ == if self.name_prefix@.len() == 0 {
                device_id@
            } else {
                self.name_prefix@ + "-"@ + device_id@
            },
    {
        if self.name_prefix.as_str().is_empty() {
            device_id.to_owned()
        } else {
            let mut name: String = text::join(self.name_prefix.as_str(), "-");
            name.append(device_id);
            name
        }
    }
}

/// Where provisioning stands.
#[derive(Debug, Clone, Copy, PartialEq, Eq, Structural)]
pub enum BluFiState {
    Init,
    RegisterGatt,
    WaitApp,
    Scanning,
    Acking,
    Connecting,
    Finish,
    Failed,
}

/// An order to the provisioning worker.
#[derive(Debug, Clone)]
pub enum BlufiCmd {
    StartConfig,
    StopConfig,
}

/// What the provisioning worker reports.
#[derive(Debug, Clone)]
pub enum BlufiEvent {
    EnterConfigMode,
    AppConnected,
    WifiConnected { ssid: String },
    WifiFailed { reason: String },
    ExitConfigMode,
}

/// Why the link to the app fails.
#[derive(Debug)]
pub enum BleLinkError {
    Send(String),
    Recv(String),
    Closed,
}

impl BleLinkError {
    /// The message to show.
    pub fn message(&self) -> (s: String)
        ensures
            s@ == match *self {
                BleLinkError::Send(m) => "send: "@ + m@,
                BleLinkError::Recv(m) => "recv: "@ + m@,
                BleLinkError::Closed => "closed"@,
            },
    {
        match self {
            BleLinkError::Send(m) => text::join("send: ", m.as_str()),
            BleLinkError::Recv(m) => text::join("recv: ", m.as_str()),
            BleLinkError::Closed => "closed".to_owned(),
        }
    }
}

/// The link between the device and the app.
pub trait BleLink {
    /// Sends the bytes of one frame to the app.
    fn send(&mut self, bytes: &[u8]) -> Result<(), BleLinkError>;

    /// The bytes that the app has written, if it has written any.
    fn try_recv(&mut self) -> Result<Option<Vec<u8>>, BleLinkError>;

    /// Whether the app has connected anew since this was last asked. A link that cannot tell
    /// says no.
    fn take_new_session(&mut self) -> (b: bool)
        default_ensures
            !b,
    {
        false
    }
}

/// A link without an app: what is pushed is what comes in, and what is sent goes nowhere.
pub struct StubBleLink {
    pub incoming: Vec<Vec<u8>>,
}

impl StubBleLink {
    /// A link on which nothing has come in.
    pub fn new() -> (l: Self)
        ensures
            l.incoming@.len() == 0,
    {
        StubBleLink { incoming: Vec::new() }
    }

    /// Puts the bytes of a frame where the app's bytes come in.
    pub fn push_incoming(&mut self, bytes: Vec<u8>)
        ensures
            final(self).incoming@ == old(self).incoming@.push(bytes),
    {
        self.incoming.push(bytes);
    }
}

impl BleLink for StubBleLink {
    fn send(&mut self, _bytes: &[u8]) -> (r: Result<(), BleLinkError>)
        ensures
            r is Ok,
            *final(self) == *old(self),
    {
        Ok(())
    }

    fn try_recv(&mut self) -> (r: Result<Option<Vec<u8>>, BleLinkError>)
        ensures
            r is Ok,
            match r->Ok_0 {
                Some(b) => {
                    &&& old(self).incoming@.len() > 0
                    &&& b == old(self).incoming@.last()
                    &&& final(self).incoming@ == old(self).incoming@.drop_last()
                },
                None => {
                    &&& old(self).incoming@.len() == 0
                    &&& final(self).incoming@ == old(self).incoming@
                },
            },
    {
        Ok(self.incoming.pop())
    }
}

impl Default for StubBleLink {
    fn default() -> (l: Self)
        ensures
            l.incoming@.len() == 0,
    {
        Self::new()
    }
}

} // verus!
