//! What is read out of the outputs of `wpa_cli`, and what a scan runs.

use crate::blufi::wifi;
use crate::blufi::wifi::{
    CmdOutcome, RunView, ScanRunView, ScanStage, Stage, WifiError, WifiErrorView, WifiManager,
    WifiStatus,
};
use crate::blufi::BluFiConfig;
use crate::laws::joining::writes;
use crate::text;
use vstd::prelude::*;

verus! {

/// A line of a table: columns with tabs between them.
pub open spec fn two_columns(a: Seq<char>, b: Seq<char>) -> Seq<char> {
    a + seq!['\t'] + b
}

/// Nothing to trim, and nothing that separates columns.
pub open spec fn solid(s: Seq<char>) -> bool {
    &&& s.len() > 0
    &&& !text::is_space(s[0])
    &&& !text::is_space(s.last())
    &&& forall|i: int| 0 <= i < s.len() ==> #[trigger] s[i] != '\t'
}

proof fn lemma_solid(s: Seq<char>)
    requires
        solid(s),
    ensures
        text::trimmed(s) == s,
        text::split_on(s, '\t') == seq![s],
{
    assert(text::trimmed_start(s) == s);
    text::lemma_find_char(s, '\t', s.len() as int);
}

proof fn lemma_columns(a: Seq<char>, b: Seq<char>)
    requires
        solid(a),
        solid(b),
    ensures
        text::split_on(two_columns(a, b), '\t') == seq![a, b],
{
    lemma_solid(a);
    lemma_solid(b);
    text::lemma_split_joined(a, b, '\t');
    assert(seq![a] + seq![b] =~= seq![a, b]);
}

/// The number of a network is the one in front of its name in the list: a line with another name is
/// not taken for it.
pub proof fn law_network_of_a_line(id: u32, name: Seq<char>, ssid: Seq<char>)
    requires
        solid(name),
    ensures
        wifi::network_in_line(two_columns(text::decimal(id as nat), name), ssid) == if name == ssid {
            Some(id)
        } else {
            None
        },
        writes(text::decimal(id as nat), id as int),
{
    let digits = text::decimal(id as nat);
    text::lemma_decimal_is_read(id as nat);
    assert forall|i: int| 0 <= i < digits.len() implies !text::is_space(digits[i])
        && #[trigger] digits[i] != '\t' by {
        assert(text::is_digit(digits[i]));
    }
    assert(solid(digits));
    lemma_columns(digits, name);
    lemma_solid(digits);
    lemma_solid(name);
}

/// The first line that names the network counts; where there is none, there is no number.
pub proof fn law_first_network_counts(lines: Seq<Seq<char>>, ssid: Seq<char>)
    ensures
        lines.len() == 0 ==> wifi::network_in(lines, ssid) is None,
        lines.len() > 0 && wifi::network_in_line(lines[0], ssid) is Some ==> wifi::network_in(
            lines,
            ssid,
        ) == wifi::network_in_line(lines[0], ssid),
        lines.len() > 0 && wifi::network_in_line(lines[0], ssid) is None ==> wifi::network_in(
            lines,
            ssid,
        ) == wifi::network_in(lines.subrange(1, lines.len() as int), ssid),
{
    if lines.len() > 0 {
        assert(lines.drop_first() =~= lines.subrange(1, lines.len() as int));
    }
}

/// A network that is found in the list is configured under its number, and one that is not is added
/// first; the number of an added one is what `add_network` prints.
pub proof fn law_network_is_found_or_added(v: RunView, out: Seq<char>, id: u32, expired: bool)
    ensures
        v.stage == Stage::Find && wifi::network_in(wifi::rows(out), v.ssid) == Some(id) ==> v.stepped(
            Ok(out),
            expired,
        ) == Ok::<RunView, WifiErrorView>(RunView { id, stage: Stage::SetName, ..v }),
        v.stage == Stage::Find && wifi::network_in(wifi::rows(out), v.ssid) is None ==> v.stepped(
            Ok(out),
            expired,
        ) == Ok::<RunView, WifiErrorView>(RunView { stage: Stage::Add, ..v }),
        v.stage == Stage::Add && out == text::decimal(id as nat) ==> v.stepped(Ok(out), expired)
            == Ok::<RunView, WifiErrorView>(RunView { id, stage: Stage::SetName, ..v }),
        v.stage == Stage::FindAgain && wifi::network_in(wifi::rows(out), v.ssid) == Some(id)
            ==> v.stepped(Ok(out), expired) == Ok::<RunView, WifiErrorView>(
            RunView { id, stage: Stage::Select, ..v },
        ),
        v.stage == Stage::FindAgain && wifi::network_in(wifi::rows(out), v.ssid) is None
            ==> v.stepped(Ok(out), expired) == Ok::<RunView, WifiErrorView>(
            RunView { stage: Stage::Dhcp, ..v },
        ),
{
    let digits = text::decimal(id as nat);
    text::lemma_decimal_is_read(id as nat);
    assert forall|i: int| 0 <= i < digits.len() implies !text::is_space(digits[i])
        && #[trigger] digits[i] != '\t' by {
        assert(text::is_digit(digits[i]));
    }
    assert(solid(digits));
    lemma_solid(digits);
}

/// The address is what stands behind `ip_address=` in a line of the status.
pub proof fn law_address_in_a_line(ip: Seq<char>)
    requires
        solid(ip),
    ensures
        wifi::ip_in_line("ip_address="@ + ip) == Some(ip),
{
    reveal_strlit("ip_address=");
    let line = "ip_address="@ + ip;
    assert("ip_address="@.len() == 11);
    assert(line[0] == 'i');
    assert(line.last() == ip.last());
    assert(text::trimmed_start(line) == line);
    assert(text::trimmed(line) == line);
    assert(line.take(11) =~= "ip_address="@);
    assert(line.skip(11) =~= ip);
    lemma_solid(ip);
}

/// The device waits for its address until it has one, or the time is over.
pub proof fn law_waiting_for_the_address(
    v: RunView,
    out: Result<Seq<char>, WifiErrorView>,
    expired: bool,
)
    requires
        v.stage == Stage::Poll,
    ensures
        ({
            let there = out is Ok && wifi::ip_in(text::lines_of(out->Ok_0)) is Some;
            &&& there ==> v.stepped(out, expired) == Ok::<RunView, WifiErrorView>(
                RunView { stage: Stage::Joined, ..v },
            )
            &&& !there && expired ==> v.stepped(out, expired) == Err::<RunView, WifiErrorView>(
                WifiErrorView::Timeout,
            )
            &&& !there && !expired ==> v.stepped(out, expired) == Ok::<RunView, WifiErrorView>(v)
        }),
{
}

/// The commands of a scan and the time that follows each: half a second after the network was left,
/// the configured time after the scan began, and half a second after each of the readings.
pub proof fn law_commands_of_a_scan(v: ScanRunView)
    ensures
        v.stage == ScanStage::Leave ==> v.args() == seq!["disconnect"@] && v.pause_ms() == 500,
        v.stage == ScanStage::Trigger ==> v.args() == seq!["scan"@] && v.pause_ms() == v.wait_ms,
        v.stage == ScanStage::Read ==> v.args() == seq!["scan_results"@] && v.pause_ms() == 500,
        v.stage == ScanStage::Return ==> v.args() == seq!["reconnect"@] && v.pause_ms() == 0,
        v.stage == ScanStage::Dhcp || v.stage == ScanStage::Done ==> v.args().len() == 0
            && v.pause_ms() == 0,
{
}

/// The course of a scan: three readings; where the network was left, back into it and an address; a
/// reading that fails ends it.
pub proof fn law_course_of_a_scan(v: ScanRunView, out: Seq<char>, e: WifiErrorView)
    ensures
        v.stage == ScanStage::Leave ==> v.stepped(Err(e)) == Ok::<ScanRunView, WifiErrorView>(
            ScanRunView { stage: ScanStage::Trigger, ..v },
        ),
        v.stage == ScanStage::Trigger ==> v.stepped(Err(e)) == Ok::<ScanRunView, WifiErrorView>(
            ScanRunView { stage: ScanStage::Read, ..v },
        ),
        v.stage == ScanStage::Read ==> v.stepped(Err(e)) == Err::<ScanRunView, WifiErrorView>(e),
        v.stage == ScanStage::Read ==> (v.stepped(Ok(out)) matches Ok(w) && {
            &&& w.reads == v.reads + 1
            &&& w.found == wifi::merged(v.found, wifi::scan_lines(wifi::rows(out)))
            &&& v.reads < 2 ==> w.stage == ScanStage::Read
            &&& v.reads == 2 && v.away ==> w.stage == ScanStage::Return
            &&& v.reads == 2 && !v.away ==> w.stage == ScanStage::Done
        }),
        v.stage == ScanStage::Return ==> v.stepped(Err(e)) == Ok::<ScanRunView, WifiErrorView>(
            ScanRunView { stage: ScanStage::Dhcp, ..v },
        ),
        v.stage == ScanStage::Dhcp ==> v.stepped(Err(e)) == Ok::<ScanRunView, WifiErrorView>(
            ScanRunView { stage: ScanStage::Done, ..v },
        ),
{
}

/// The manager works on the interface `wlan0` with `wpa_cli`, and every command names it.
pub proof fn law_manager(cfg: &BluFiConfig, m: WifiManager, args: Vec<String>, all: Vec<String>)
    requires
        call_ensures(WifiManager::new, (cfg,), m),
        call_ensures(WifiManager::command, (&m, args), all),
    ensures
        m.iface@ == "wlan0"@,
        m.bin@ == "wpa_cli"@,
        m.scan_timeout_ms == cfg.scan_timeout_ms,
        m.connect_timeout_ms == cfg.connect_timeout_ms,
        m.scan_disconnect_fallback == cfg.scan_disconnect_fallback,
        wifi::string_views(all@) == seq!["-i"@, "wlan0"@] + wifi::string_views(args@),
{
}

/// The network is left for a scan only where that is configured and the device is in one, and the
/// scan then takes four seconds at most.
pub proof fn law_scan_plan(m: &WifiManager, connected: bool, r: (bool, u64))
    requires
        call_ensures(WifiManager::scan_plan, (m, connected), r),
    ensures
        r.0 <==> m.scan_disconnect_fallback && connected,
        !r.0 ==> r.1 == m.scan_timeout_ms,
        r.0 ==> r.1 <= 4000 && r.1 <= m.scan_timeout_ms && (r.1 == 4000 || r.1 == m.scan_timeout_ms),
{
}

/// The commands outside of scans and joining.
pub proof fn law_single_commands(
    m: &WifiManager,
    id: u32,
    a: Vec<String>,
    b: Vec<String>,
    c: Vec<String>,
    d: String,
)
    requires
        call_ensures(WifiManager::trigger_scan, (m,), a),
        call_ensures(WifiManager::remove_network, (m, id), b),
        call_ensures(WifiManager::dhcp_args, (m,), c),
        call_ensures(WifiManager::dhcp_pattern, (m,), d),
    ensures
        wifi::string_views(a@) == seq!["-i"@, m.iface@, "scan"@],
        wifi::string_views(b@).len() == 4,
        wifi::string_views(b@)[2] == "remove_network"@,
        writes(wifi::string_views(b@)[3], id as int),
        wifi::string_views(c@) == seq![
            "-i"@,
            m.iface@,
            "-p"@,
            "/var/run/udhcpc."@ + m.iface@ + ".pid"@,
        ],
        d@ == "udhcpc.*"@ + m.iface@,
{
    text::lemma_decimal_is_read(id as nat);
}

/// What a command comes to: its output where it succeeds, and the reason and the code where not.
pub proof fn law_outcome_of_a_command(o: CmdOutcome, r: Result<String, WifiError>)
    requires
        call_ensures(wifi::run, (o,), r),
    ensures
        o matches CmdOutcome::Ended { stdout } ==> (r matches Ok(s) && s@ == stdout@),
        o matches CmdOutcome::Failed { code, stderr } ==> (r matches Err(e) && (
        e@ matches WifiErrorView::CmdFailed(c, m) && m == stderr@ && (code is Some ==> c == code->0)
            && (code is None ==> c == -1))),
        o matches CmdOutcome::NotStarted { denied, message } ==> (r matches Err(e) && if denied {
            e@ == WifiErrorView::Permission(message@)
        } else {
            e@ == WifiErrorView::CmdFailed(-1, message@)
        }),
{
}

/// The device is in a network where its status has an address, or says that it is connected.
pub proof fn law_status(m: &WifiManager, out: Result<String, WifiError>, r: Result<WifiStatus, WifiError>, b: bool)
    requires
        call_ensures(WifiManager::status, (m, out), r),
        call_ensures(WifiManager::is_connected, (m, out), b),
    ensures
        out is Err ==> !b && r is Err,
        out matches Ok(s) ==> {
            let ip = wifi::ip_in(text::lines_of(s@));
            let word = text::holds(s@, "wpa_state=COMPLETED"@);
            &&& b <==> ip is Some || word
            &&& ip is Some ==> (r matches Ok(WifiStatus::Connected { ip: Some(i) }) && i@ == ip->0)
            &&& ip is None && word ==> (r matches Ok(WifiStatus::Connected { ip: None }))
            &&& ip is None && !word ==> (r matches Ok(WifiStatus::Disconnected))
        },
{
}

/// The first line that has an address counts.
pub proof fn law_first_address_counts(lines: Seq<Seq<char>>)
    ensures
        lines.len() == 0 ==> wifi::ip_in(lines) is None,
        lines.len() > 0 && wifi::ip_in_line(lines[0]) is Some ==> wifi::ip_in(lines)
            == wifi::ip_in_line(lines[0]),
        lines.len() > 0 && wifi::ip_in_line(lines[0]) is None ==> wifi::ip_in(lines) == wifi::ip_in(
            lines.subrange(1, lines.len() as int),
        ),
{
    if lines.len() > 0 {
        assert(lines.drop_first() =~= lines.subrange(1, lines.len() as int));
    }
}

/// The first line of a table is its head, and the others are its rows; a row that names a network
/// adds it behind those before it.
pub proof fn law_rows(head: Seq<char>, rest: Seq<char>, lines: Seq<Seq<char>>, line: Seq<char>)
    requires
        forall|i: int| 0 <= i < head.len() ==> #[trigger] head[i] != '\n',
        head.len() == 0 || head.last() != '\r',
        rest.len() > 0,
    ensures
        wifi::rows(head + seq!['\n'] + rest) == text::lines_of(rest),
        wifi::scan_line(line) is Some ==> wifi::scan_lines(lines.push(line)) == wifi::scan_lines(
            lines,
        ).push(wifi::scan_line(line)->0),
        wifi::scan_line(line) is None ==> wifi::scan_lines(lines.push(line)) == wifi::scan_lines(
            lines,
        ),
{
    crate::laws::texts::law_lines(head, rest);
    let all = text::lines_of(head + seq!['\n'] + rest);
    assert(all == seq![head] + text::lines_of(rest));
    assert(all.drop_first() =~= text::lines_of(rest));
    assert(lines.push(line).drop_last() =~= lines);
}

} // verus!
