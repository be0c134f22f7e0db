//! The configuration of the client: defaults, validation, and the names made of it.

use crate::blufi::BluFiConfig;
use crate::text;
use vstd::prelude::*;
use vstd::utf8;

verus! {

/// The device id of a board whose serial number cannot be read.
pub const PLACEHOLDER_DEVICE_ID: &'static str = "G000000000000";

/// How the device presents itself to the cloud.
#[derive(Debug, Clone)]
pub struct DeviceConfig {
    /// `G` and the serial number of the board; a part of every topic.
    pub id: String,
    /// Model and version of the main board.
    pub mb: String,
    /// Software version of the controller.
    pub sf1: String,
    /// Software version of the radio.
    pub sf2: String,
    /// Name of the Wi-Fi network.
    pub wf: String,
    /// 0 for Chinese, 1 for anything else.
    pub lang: u8,
}

/// How the broker is reached.
#[derive(Debug, Clone)]
pub struct MqttConfig {
    pub broker: String,
    pub port: u16,
    pub keepalive_secs: u16,
    pub clean_session: bool,
    pub username: Option<String>,
    pub password: Option<String>,
}

/// How the printer's server is reached.
#[derive(Debug, Clone)]
pub struct MoonrakerConfig {
    pub host: String,
    pub port: u16,
}

/// Where downloads go, and how large they may be.
#[derive(Debug, Clone)]
pub struct DownloadConfig {
    /// Where G-code files go.
    pub dir: String,
    pub max_file_bytes: u64,
    pub chunk_size: usize,
}

/// The whole configuration.
#[derive(Debug, Clone)]
pub struct AppConfig {
    pub device: DeviceConfig,
    pub mqtt: MqttConfig,
    pub moonraker: MoonrakerConfig,
    pub download: DownloadConfig,
    pub blufi: BluFiConfig,
    pub uds: UdsConfig,
}

/// The socket of the user interface.
#[derive(Debug, Clone)]
pub struct UdsConfig {
    pub enabled: bool,
    pub socket_path: String,
}

impl Default for UdsConfig {
    fn default() -> (c: Self)
        ensures
            c.enabled,
            c.socket_path@ == "/run/mqtt-client/ui.sock"@,
    {
        UdsConfig { enabled: true, socket_path: "/run/mqtt-client/ui.sock".to_owned() }
    }
}

/// Why a configuration is refused.
#[derive(Debug)]
pub enum ConfigError {
    Invalid(String),
}

impl ConfigError {
    /// The message to show.
    pub fn message(&self) -> (m: String)
        ensures
            m@ == "invalid config: "@ + match *self {
                ConfigError::Invalid(s) => s@,
            },
    {
        match self {
            ConfigError::Invalid(s) => text::join("invalid config: ", s.as_str()),
        }
    }
}

/// The serial number that a line of the processor description gives.
pub open spec fn serial_in_line(line: Seq<char>) -> Option<Seq<char>> {
    let l = text::trimmed(line);
    let rest = l.skip("Serial"@.len() as int);
    let parts = text::split_on(rest, ':');
    if text::starts(l, "Serial"@) && parts.len() > 1 && text::trimmed(parts[1]).len() > 0 {
        Some(text::trimmed(parts[1]))
    } else {
        None
    }
}

/// The first serial number that some lines give.
pub open spec fn serial_in_lines(lines: Seq<Seq<char>>) -> Option<Seq<char>>
    decreases lines.len(),
{
    if lines.len() == 0 {
        None
    } else if serial_in_line(lines[0]) is Some {
        serial_in_line(lines[0])
    } else {
        serial_in_lines(lines.drop_first())
    }
}

/// The serial number in the text of `/proc/cpuinfo`: what stands behind the first colon of the
/// first `Serial` line that has something there.
pub fn board_serial(cpuinfo: &str) -> (serial: Option<String>)
    ensures
        match serial {
            Some(s) => serial_in_lines(text::split_on(cpuinfo@, '\n')) == Some(s@),
            None => serial_in_lines(text::split_on(cpuinfo@, '\n')) is None,
        },
{
    let lines: Vec<&str> = text::split(cpuinfo, '\n');
    let ghost views = text::text_views(lines@);
    let mut i: usize = 0;
    assert(views.skip(0) =~= views);
    while i < lines.len()
        invariant
            i <= lines@.len(),
            views == text::text_views(lines@),
            serial_in_lines(views.skip(i as int)) == serial_in_lines(views),
            views == text::split_on(cpuinfo@, '\n'),
        decreases lines@.len() - i,
    {
        assert(views.skip(i as int)[0] == lines@[i as int]@);
        assert(views.skip(i as int).drop_first() =~= views.skip(i as int + 1));
        let line: &str = text::trim(lines[i]);
        if let Some(rest) = text::strip_prefix(line, "Serial") {
            let parts: Vec<&str> = text::split(rest, ':');
            let ghost part_views = text::text_views(parts@);
            if parts.len() > 1 {
                assert(part_views[1] == parts@[1]@);
                let val: &str = text::trim(parts[1]);
                if !val.is_empty() {
                    return Some(val.to_owned());
                }
            }
        }
        i += 1;
    }
    assert(views.skip(i as int) =~= Seq::<Seq<char>>::empty());
    None
}

/// The device id of a serial number: `G` and the serial number.
pub fn device_id_from_serial(serial: &str) -> (id: String)
    ensures
        id@ == "G"@ + text::trimmed(serial@),
{
    text::join("G", text::trim(serial))
}

/// The device id of a board: that of its serial number, or the placeholder where there is none.
pub fn default_device_id(serial: Option<&str>) -> (id: String)
    ensures
        id@ == match serial {
            Some(s) => "G"@ + text::trimmed(s@),
            None => PLACEHOLDER_DEVICE_ID@,
        },
{
    match serial {
        Some(s) => device_id_from_serial(s),
        None => PLACEHOLDER_DEVICE_ID.to_owned(),
    }
}

/// The device id to use in place of a configured one that is empty or the placeholder: that of
/// the board's serial number, where there is one.
pub fn filled_device_id(id: &str, serial: Option<&str>) -> (r: Option<String>)
    ensures
        match serial {
            Some(s) if id@.len() == 0 || id@ == PLACEHOLDER_DEVICE_ID@ => r is Some && r->0@ == "G"@
                + text::trimmed(s@),
            _ => r is None,
        },
{
    if id.is_empty() || text::same(id, PLACEHOLDER_DEVICE_ID) {
        if let Some(s) = serial {
            return Some(device_id_from_serial(s));
        }
    }
    None
}

/// Where the configuration is: where the command line says, else where the environment says, else
/// at its usual place.
pub fn config_path(arg: Option<String>, env: Option<String>) -> (path: String)
    ensures
        path@ == match (arg, env) {
            (Some(a), _) => a@,
            (None, Some(e)) => e@,
            (None, None) => "config/mqtt-client.toml"@,
        },
{
    match arg {
        Some(a) => a,
        None => match env {
            Some(e) => e,
            None => "config/mqtt-client.toml".to_owned(),
        },
    }
}

impl Default for DeviceConfig {
    /// The id is the placeholder, since the board's serial number lies on disk and is not read
    /// here; [`default_device_id`] and [`filled_device_id`] give the id of a board once it is read.
    fn default() -> (c: Self)
        ensures
            c.id@ == PLACEHOLDER_DEVICE_ID@,
            c.mb@ == "MB_V2"@,
            c.sf1@ == "1.0.0"@,
            c.sf2@ == "1.0.0"@,
            c.wf@ == "unknown"@,
            c.lang == 0,
    {
        Self {
            id: default_device_id(None),
            mb: "MB_V2".to_owned(),
            sf1: "1.0.0".to_owned(),
            sf2: "1.0.0".to_owned(),
            wf: "unknown".to_owned(),
            lang: 0,
        }
    }
}

impl Default for MqttConfig {
    fn default() -> (c: Self)
        ensures
            c.broker@ == "127.0.0.1"@,
            c.port == 1883,
            c.keepalive_secs == 60,
            !c.clean_session,
            c.username is None,
            c.password is None,
    {
        Self {
            broker: "127.0.0.1".to_owned(),
            port: 1883,
            keepalive_secs: 60,
            clean_session: false,
            username: None,
            password: None,
        }
    }
}

impl Default for MoonrakerConfig {
    fn default() -> (c: Self)
        ensures
            c.host@ == "127.0.0.1"@,
            c.port == 7125,
    {
        Self { host: "127.0.0.1".to_owned(), port: 7125 }
    }
}

impl Default for DownloadConfig {
    fn default() -> (c: Self)
        ensures
            c.dir@ == "/mnt/udisk"@,
            c.max_file_bytes == 512 * 1024 * 1024,
            c.chunk_size == 64 * 1024,
    {
        Self {
            dir: "/mnt/udisk".to_owned(),
            max_file_bytes: 512 * 1024 * 1024,
            chunk_size: 64 * 1024,
        }
    }
}

impl Default for AppConfig {
    fn default() -> (c: Self)
        ensures
            call_ensures(DeviceConfig::default, (), c.device),
            call_ensures(MqttConfig::default, (), c.mqtt),
            call_ensures(MoonrakerConfig::default, (), c.moonraker),
            call_ensures(DownloadConfig::default, (), c.download),
            call_ensures(BluFiConfig::default, (), c.blufi),
            call_ensures(UdsConfig::default, (), c.uds),
            c.valid(),
    {
        let c = Self {
            device: DeviceConfig::default(),
            mqtt: MqttConfig::default(),
            moonraker: MoonrakerConfig::default(),
            download: DownloadConfig::default(),
            blufi: BluFiConfig::default(),
            uds: UdsConfig::default(),
        };
        proof {
            reveal_strlit("G000000000000");
            utf8::is_ascii_chars_encode_utf8("G000000000000"@);
        }
        c
    }
}

/// What an error says.
pub open spec fn says(r: Result<(), ConfigError>, message: Seq<char>) -> bool {
    match r {
        Err(ConfigError::Invalid(m)) => m@ == message,
        _ => false,
    }
}

impl AppConfig {
    pub open spec fn id_valid(&self) -> bool {
        self.device.id@.len() > 0 && utf8::encode_utf8(self.device.id@).len() <= 64
    }

    pub open spec fn session_valid(&self) -> bool {
        self.mqtt.port != 0 && self.mqtt.keepalive_secs != 0
    }

    /// Whether the client can work with the configuration.
    pub open spec fn valid(&self) -> bool {
        self.id_valid() && self.session_valid() && self.download.chunk_size != 0
    }

    /// Checks the configuration; the first thing that is wrong is reported.
    pub fn validate(&self) -> (r: Result<(), ConfigError>)
        ensures
            r is Ok <==> self.valid(),
            !self.id_valid() ==> says(r, "device.id 必须为非空且 ≤64 字符"@),
            self.id_valid() && !self.session_valid() ==> says(
                r,
                "mqtt.port / keepalive_secs 非法"@,
            ),
            self.id_valid() && self.session_valid() && self.download.chunk_size == 0 ==> says(
                r,
                "download.chunk_size 非法"@,
            ),
    {
        if self.device.id.as_str().is_empty() || self.device.id.as_str().as_bytes().len() > 64 {
            return Err(ConfigError::Invalid("device.id 必须为非空且 ≤64 字符".to_owned()));
        }
        if self.mqtt.port == 0 || self.mqtt.keepalive_secs == 0 {
            return Err(ConfigError::Invalid("mqtt.port / keepalive_secs 非法".to_owned()));
        }
        if self.download.chunk_size == 0 {
            return Err(ConfigError::Invalid("download.chunk_size 非法".to_owned()));
        }
        Ok(())
    }

    /// The name or address of the broker, without the brackets of an IPv6 address.
    pub fn broker_host(&self) -> (host: &str)
        ensures
            host@ == text::stripped_end(
                text::stripped_start(self.mqtt.broker@, seq!['[', ']']),
                seq!['[', ']'],
            ),
    {
        let mut brackets: Vec<char> = Vec::new();
        brackets.push('[');
        brackets.push(']');
        assert(brackets@ =~= seq!['[', ']']);
        text::trim_set(self.mqtt.broker.as_str(), brackets.as_slice())
    }

    /// The user of the MQTT session: the configured one, or the device id where there is none.
    pub fn mqtt_username(&self) -> (name: &str)
        ensures
            name@ == match self.mqtt.username {
                Some(u) => u@,
                None => self.device.id@,
            },
    {
        match &self.mqtt.username {
            Some(u) => u.as_str(),
            None => self.device.id.as_str(),
        }
    }

    /// The topic of packets to the cloud.
    pub fn up_topic(&self) -> (t: String)
        ensures
            t@ == "GT/MXS/UP/"@ + self.device.id@,
    {
        text::join("GT/MXS/UP/", self.device.id.as_str())
    }

    /// The topic of packets from the cloud.
    pub fn down_topic(&self) -> (t: String)
        ensures
            t@ == "GT/MXS/DOWN/"@ + self.device.id@,
    {
        text::join("GT/MXS/DOWN/", self.device.id.as_str())
    }

    /// The topic of the last will.
    pub fn lwt_topic(&self) -> (t: String)
        ensures
            t@ == "GT/MXS/LWT/"@ + self.device.id@,
    {
        text::join("GT/MXS/LWT/", self.device.id.as_str())
    }

    /// Where the printer's server listens.
    pub fn moonraker_ws_url(&self) -> (url: String)
        ensures
            url@ == "ws://"@ + self.moonraker.host@ + ":"@ + text::decimal(
                self.moonraker.port as nat,
            ) + "/websocket"@,
    {
        let mut url: String = text::join("ws://", self.moonraker.host.as_str());
        url.append(":");
        url.append(text::number_text(self.moonraker.port as u64).as_str());
        url.append("/websocket");
        url
    }
}

} // verus!
