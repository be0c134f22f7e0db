//! What the settings come to.

use crate::config::{
    config_path, default_device_id, filled_device_id, AppConfig, ConfigError, DownloadConfig,
    MoonrakerConfig, MqttConfig,
};
use crate::laws::joining::writes;
use crate::state::reconnect_delay_millis;
use crate::text;
use vstd::prelude::*;
use vstd::utf8;

verus! {

/// The three topics of a device are told apart by their middle part, and end with its id.
pub proof fn law_topics(c: &AppConfig, up: String, down: String, will: String)
    requires
        call_ensures(AppConfig::up_topic, (c,), up),
        call_ensures(AppConfig::down_topic, (c,), down),
        call_ensures(AppConfig::lwt_topic, (c,), will),
    ensures
        up@ == "GT/MXS/UP/"@ + c.device.id@,
        down@ == "GT/MXS/DOWN/"@ + c.device.id@,
        will@ == "GT/MXS/LWT/"@ + c.device.id@,
{
}

/// The user name of the session is the configured one, or the id of the device.
pub proof fn law_user_name(c: &AppConfig, name: &str)
    requires
        call_ensures(AppConfig::mqtt_username, (c,), name),
    ensures
        c.mqtt.username is Some ==> name@ == c.mqtt.username->0@,
        c.mqtt.username is None ==> name@ == c.device.id@,
{
}

/// The printer's server is at the configured host and port.
pub proof fn law_server_address(c: &AppConfig, url: String, port: Seq<char>)
    requires
        call_ensures(AppConfig::moonraker_ws_url, (c,), url),
        port == text::decimal(c.moonraker.port as nat),
    ensures
        writes(port, c.moonraker.port as int),
        url@ == "ws://"@ + c.moonraker.host@ + ":"@ + port + "/websocket"@,
{
    text::lemma_decimal_is_read(c.moonraker.port as nat);
}

/// A configuration is accepted exactly where the id has 1 to 64 bytes, and neither the port of the
/// broker, nor the keep-alive time, nor the size of a chunk is 0.
pub proof fn law_accepted_settings(c: &AppConfig, r: Result<(), ConfigError>)
    requires
        call_ensures(AppConfig::validate, (c,), r),
    ensures
        r is Ok <==> c.device.id@.len() > 0 && utf8::encode_utf8(c.device.id@).len() <= 64
            && c.mqtt.port > 0 && c.mqtt.keepalive_secs > 0 && c.download.chunk_size > 0,
{
}

/// The id of a device is a G and the serial number of its board, and is filled in where the
/// configuration has none, or the placeholder; a configured id stays.
pub proof fn law_device_id(id: &str, serial: Option<&str>, made: String, r: Option<String>)
    requires
        call_ensures(default_device_id, (serial,), made),
        call_ensures(filled_device_id, (id, serial), r),
    ensures
        serial is Some ==> made@ == "G"@ + text::trimmed(serial->0@),
        serial is None ==> made@ == "G000000000000"@ && r is None,
        serial is Some && (id@.len() == 0 || id@ == "G000000000000"@) ==> r is Some && r->0@
            == made@,
        id@.len() > 0 && id@ != "G000000000000"@ ==> r is None,
{
}

/// The configuration is where the command line says, else where the environment says, else at its
/// usual place.
pub proof fn law_place_of_the_settings(arg: Option<String>, env: Option<String>, path: String)
    requires
        call_ensures(config_path, (arg, env), path),
    ensures
        arg is Some ==> path@ == arg->0@,
        arg is None && env is Some ==> path@ == env->0@,
        arg is None && env is None ==> path@ == "config/mqtt-client.toml"@,
{
}

/// The settings of a client that has not been configured.
pub proof fn law_usual_settings(m: MqttConfig, k: MoonrakerConfig, d: DownloadConfig)
    requires
        call_ensures(MqttConfig::default, (), m),
        call_ensures(MoonrakerConfig::default, (), k),
        call_ensures(DownloadConfig::default, (), d),
    ensures
        m.broker@ == "127.0.0.1"@ && m.port == 1883 && m.keepalive_secs == 60 && !m.clean_session
            && m.username is None && m.password is None,
        k.host@ == "127.0.0.1"@ && k.port == 7125,
        d.dir@ == "/mnt/udisk"@ && d.max_file_bytes == 536870912 && d.chunk_size == 65536,
{
}

/// A session that ended to log in anew is followed at once, any other after five seconds.
pub proof fn law_next_session(at_once: bool, ms: u64)
    requires
        call_ensures(reconnect_delay_millis, (at_once,), ms),
    ensures
        at_once ==> ms == 0,
        !at_once ==> ms == 5000,
{
}

/// The serial number of a board is what stands behind the colon of a line that begins with `Serial`.
pub proof fn law_serial_number(gap: Seq<char>, serial: Seq<char>)
    requires
        forall|i: int| 0 <= i < gap.len() ==> #[trigger] gap[i] == ' ' || gap[i] == '\t',
        serial.len() > 0,
        forall|i: int| 0 <= i < serial.len() ==> #[trigger] serial[i] != ':' && !text::is_space(
            serial[i],
        ),
    ensures
        crate::config::serial_in_line("Serial"@ + gap + seq![':'] + seq![' '] + serial) == Some(
            serial,
        ),
{
    reveal_strlit("Serial");
    assert("Serial"@.len() == 6);
    let behind = seq![' '] + serial;
    let line = "Serial"@ + gap + seq![':'] + seq![' '] + serial;
    assert(line[0] == 'S');
    assert(line.last() == serial[serial.len() - 1]);
    assert(!text::is_space(line.last()));
    assert(text::trimmed_start(line) == line);
    assert(text::trimmed(line) == line);
    assert(line.take(6) =~= "Serial"@);
    let rest = line.skip(6);
    assert(rest =~= gap + seq![':'] + behind);
    crate::laws::texts::law_splitting(gap, behind, ':');
    assert forall|i: int| 0 <= i < behind.len() implies #[trigger] behind[i] != ':' by {
        if i > 0 {
            assert(behind[i] == serial[i - 1]);
        }
    }
    crate::laws::texts::law_splitting(behind, behind, ':');
    let parts = text::split_on(rest, ':');
    assert(parts =~= seq![gap, behind]);
    assert(behind.drop_first() =~= serial);
    assert(!text::is_space(serial[0]));
    assert(text::is_space(behind[0]));
    assert(text::trimmed_start(behind) == text::trimmed_start(behind.drop_first()));
    assert(text::trimmed_start(serial) == serial);
    assert(!text::is_space(serial[serial.len() - 1]));
    assert(text::trimmed(behind) == serial);
}

/// The brackets around an address of the broker do not belong to it.
pub proof fn law_broker_address(c: &AppConfig, host: &str, name: Seq<char>)
    requires
        call_ensures(AppConfig::broker_host, (c,), host),
        name.len() > 0,
        name[0] != '[' && name[0] != ']' && name.last() != '[' && name.last() != ']',
        c.mqtt.broker@ == name || c.mqtt.broker@ == seq!['['] + name + seq![']'],
    ensures
        host@ == name,
{
    let set = seq!['[', ']'];
    assert(set[0] == '[' && set[1] == ']');
    assert(!set.contains(name[0]) && !set.contains(name.last()));
    assert(text::stripped_start(name, set) == name);
    assert(text::stripped_end(name, set) == name);
    let b = seq!['['] + name + seq![']'];
    let inner = name + seq![']'];
    assert(b.drop_first() =~= inner);
    assert(set.contains(b[0]));
    assert(inner[0] == name[0]);
    assert(text::stripped_start(inner, set) == inner);
    assert(text::stripped_start(b, set) == inner);
    assert(inner.drop_last() =~= name);
    assert(set.contains(inner.last()));
    assert(text::stripped_end(inner, set) == name);
}

/// How provisioning and the socket are set up where nothing has been configured.
pub proof fn law_usual_provisioning(b: crate::blufi::BluFiConfig, u: crate::config::UdsConfig)
    requires
        call_ensures(crate::blufi::BluFiConfig::default, (), b),
        call_ensures(crate::config::UdsConfig::default, (), u),
    ensures
        b.enabled && b.advertise,
        b.adapter@ == "hci0"@,
        b.scan_timeout_ms == 5000,
        b.connect_timeout_ms == 30000,
        b.ack_repeat == 3,
        b.ack_interval_ms == 500,
        b.scan_single_frame_bytes == 0,
        b.security@ == "plain"@,
        b.version_major == 1 && b.version_minor == 0,
        u.enabled,
        u.socket_path@ == "/run/mqtt-client/ui.sock"@,
{
}

} // verus!
