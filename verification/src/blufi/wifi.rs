//! Wi-Fi through `wpa_cli`: the commands to run, and what their outputs mean.
//!
//! The owner runs the commands; the functions here say which, and read what came out.

use crate::blufi::codec;
use crate::blufi::codec::{ScanItem, ScanView};
use crate::blufi::BluFiConfig;
use crate::text;
use vstd::prelude::*;

verus! {

/// How often the results of a scan are read.
pub const SCAN_READS: usize = 3;

/// How long it is between two readings of a scan's results, in milliseconds.
pub const SCAN_READ_GAP_MS: u64 = 500;

/// How long a scan may take at most while the network is left for it, in milliseconds.
pub const SCAN_AWAY_MS: u64 = 4000;

/// How long it is from leaving a network to a scan, in milliseconds.
pub const LEAVE_PAUSE_MS: u64 = 500;

/// How long it is between two looks at the state of a connection, in milliseconds.
pub const POLL_GAP_MS: u64 = 300;

/// Why Wi-Fi fails.
#[derive(Debug)]
pub enum WifiError {
    CmdFailed(i32, String),
    Timeout,
    Parse(String),
    NoInterface,
    Permission(String),
}

/// The contents of a [`WifiError`].
#[verifier::ext_equal]
pub enum WifiErrorView {
    CmdFailed(int, Seq<char>),
    Timeout,
    Parse(Seq<char>),
    NoInterface,
    Permission(Seq<char>),
}

impl View for WifiError {
    type V = WifiErrorView;

    open spec fn view(&self) -> WifiErrorView {
        match *self {
            WifiError::CmdFailed(c, m) => WifiErrorView::CmdFailed(c as int, m@),
            WifiError::Timeout => WifiErrorView::Timeout,
            WifiError::Parse(m) => WifiErrorView::Parse(m@),
            WifiError::NoInterface => WifiErrorView::NoInterface,
            WifiError::Permission(m) => WifiErrorView::Permission(m@),
        }
    }
}

/// A number with its sign, in decimal.
pub open spec fn signed_decimal(n: int) -> Seq<char> {
    if n < 0 {
        "-"@ + text::decimal((-n) as nat)
    } else {
        text::decimal(n as nat)
    }
}

impl WifiErrorView {
    /// The message to show.
    pub open spec fn message(self) -> Seq<char> {
        match self {
            WifiErrorView::CmdFailed(c, m) => "cmd failed ("@ + signed_decimal(c) + "): "@
                + m,
            WifiErrorView::Timeout => "timeout"@,
            WifiErrorView::Parse(m) => "parse: "@ + m,
            WifiErrorView::NoInterface => "no interface"@,
            WifiErrorView::Permission(m) => "permission: "@ + m,
        }
    }
}

impl WifiError {
    /// The message to show.
    pub fn message(&self) -> (s: String)
        ensures
            s@ == self@.message(),
    {
        match self {
            WifiError::CmdFailed(c, m) => {
                let mut s: String = "cmd failed (".to_owned();
                if *c < 0 {
                    s.append(
                        text::join("-", text::number_text((-(*c as i64)) as u64).as_str()).as_str(),
                    );
                } else {
                    s.append(text::number_text(*c as u64).as_str());
                }
                s.append("): ");
                s.append(m.as_str());
                s
            },
            WifiError::Timeout => "timeout".to_owned(),
            WifiError::Parse(m) => text::join("parse: ", m.as_str()),
            WifiError::NoInterface => "no interface".to_owned(),
            WifiError::Permission(m) => text::join("permission: ", m.as_str()),
        }
    }
}

/// Whether the device is in a network.
#[derive(Debug, Clone)]
pub enum WifiStatus {
    Disconnected,
    Connecting,
    Connected { ip: Option<String> },
}

/// How a command ended.
#[derive(Debug)]
pub enum CmdOutcome {
    /// It could not be started.
    NotStarted { denied: bool, message: String },
    /// It ended without success; a command that was killed has no code.
    Failed { code: Option<i32>, stderr: String },
    /// It ended with success.
    Ended { stdout: String },
}

/// The output of a command that ended with success, or why there is none.
pub open spec fn outcome_read(o: CmdOutcome, r: Result<String, WifiError>) -> bool {
    match o {
        CmdOutcome::NotStarted { denied, message } => r matches Err(e) && e@ == if denied {
            WifiErrorView::Permission(message@)
        } else {
            WifiErrorView::CmdFailed(-1, message@)
        },
        CmdOutcome::Failed { code, stderr } => r matches Err(e) && e@ == WifiErrorView::CmdFailed(
            match code {
                Some(c) => c as int,
                None => -1,
            },
            stderr@,
        ),
        CmdOutcome::Ended { stdout } => r matches Ok(s) && s@ == stdout@,
    }
}

/// The output of a command that ended with success, or why there is none.
pub fn run(o: CmdOutcome) -> (r: Result<String, WifiError>)
    ensures
        outcome_read(o, r),
{
    match o {
        CmdOutcome::NotStarted { denied, message } => if denied {
            Err(WifiError::Permission(message))
        } else {
            Err(WifiError::CmdFailed(-1, message))
        },
        CmdOutcome::Failed { code, stderr } => Err(
            WifiError::CmdFailed(
                match code {
                    Some(c) => c,
                    None => -1,
                },
                stderr,
            ),
        ),
        CmdOutcome::Ended { stdout } => Ok(stdout),
    }
}

/// Whether the output of a command says that it failed, for which `wpa_cli` ends with success all
/// the same: it is `FAIL` in whatever case, or contains `FAIL`.
pub open spec fn says_fail(out: Seq<char>) -> bool {
    text::same_letters(text::trimmed(out), "FAIL"@) || text::holds(out, "FAIL"@)
}

/// Whether the output of a command says that it failed.
pub fn is_fail(out: &str) -> (b: bool)
    ensures
        b == says_fail(out@),
{
    text::same_ignoring_case(text::trim(out), "FAIL") || text::contains(out, "FAIL")
}

/// Words with a space between each and the next.
pub open spec fn spaced(words: Seq<Seq<char>>) -> Seq<char>
    decreases words.len(),
{
    if words.len() == 0 {
        Seq::empty()
    } else if words.len() == 1 {
        words[0]
    } else {
        spaced(words.drop_last()) + " "@ + words.last()
    }
}

/// The contents of a list of strings.
pub open spec fn string_views(list: Seq<String>) -> Seq<Seq<char>> {
    list.map_values(|s: String| s@)
}

fn join_spaced(words: &Vec<String>) -> (s: String)
    ensures
        s@ == spaced(string_views(words@)),
{
    let ghost views = string_views(words@);
    let mut s: String = String::new();
    let mut i: usize = 0;
    assert(views.take(0) =~= Seq::<Seq<char>>::empty());
    assert(s@ =~= spaced(views.take(0)));
    while i < words.len()
        invariant
            i <= words@.len(),
            views == string_views(words@),
            s@ == spaced(views.take(i as int)),
        decreases words@.len() - i,
    {
        let ghost more = views.take(i as int + 1);
        proof {
            assert(more.drop_last() =~= views.take(i as int));
            assert(more.last() == words@[i as int]@);
        }
        if i > 0 {
            s.append(" ");
        }
        let ghost before = s@;
        s.append(words[i].as_str());
        proof {
            if i == 0 {
                assert(s@ =~= more[0]);
            }
        }
        i += 1;
    }
    assert(views.take(i as int) =~= views);
    s
}

/// What a command that must not fail comes to: an output that says so makes it an error.
pub open spec fn checked(
    args: Seq<Seq<char>>,
    out: Result<Seq<char>, WifiErrorView>,
) -> Result<Seq<char>, WifiErrorView> {
    match out {
        Ok(s) if says_fail(s) => Err(
            WifiErrorView::CmdFailed(-1, spaced(args) + " -> "@ + text::trimmed(s)),
        ),
        _ => out,
    }
}

/// A result by its contents.
pub open spec fn output_view(r: Result<String, WifiError>) -> Result<Seq<char>, WifiErrorView> {
    match r {
        Ok(s) => Ok(s@),
        Err(e) => Err(e@),
    }
}

/// What a command that must not fail comes to.
pub fn run_checked(args: &Vec<String>, out: Result<String, WifiError>) -> (r: Result<
    String,
    WifiError,
>)
    ensures
        output_view(r) == checked(string_views(args@), output_view(out)),
{
    match out {
        Ok(s) => {
            if is_fail(s.as_str()) {
                let mut m: String = join_spaced(args);
                m.append(" -> ");
                m.append(text::trim(s.as_str()));
                Err(WifiError::CmdFailed(-1, m))
            } else {
                Ok(s)
            }
        },
        Err(e) => Err(e),
    }
}

/// The address in one line of a status.
pub open spec fn ip_in_line(line: Seq<char>) -> Option<Seq<char>> {
    let t = text::trimmed(line);
    if text::starts(t, "ip_address="@) {
        let ip = text::trimmed(t.skip("ip_address="@.len() as int));
        if ip.len() > 0 {
            Some(ip)
        } else {
            None
        }
    } else {
        None
    }
}

/// The address in the first line that has one.
pub open spec fn ip_in(lines: Seq<Seq<char>>) -> Option<Seq<char>>
    decreases lines.len(),
{
    if lines.len() == 0 {
        None
    } else if ip_in_line(lines[0]) is Some {
        ip_in_line(lines[0])
    } else {
        ip_in(lines.drop_first())
    }
}

/// The address in a status.
pub fn extract_ip(status: &str) -> (ip: Option<String>)
    ensures
        match ip {
            Some(s) => ip_in(text::lines_of(status@)) == Some(s@),
            None => ip_in(text::lines_of(status@)) is None,
        },
{
    let lines: Vec<&str> = text::lines(status);
    let ghost views = text::text_views(lines@);
    let mut i: usize = 0;
    assert(views.skip(0) =~= views);
    while i < lines.len()
        invariant
            i <= lines@.len(),
            views == text::text_views(lines@),
            views == text::lines_of(status@),
            ip_in(views) == ip_in(views.skip(i as int)),
        decreases lines@.len() - i,
    {
        assert(views.skip(i as int)[0] == lines@[i as int]@);
        assert(views.skip(i as int).drop_first() =~= views.skip(i as int + 1));
        if let Some(rest) = text::strip_prefix(text::trim(lines[i]), "ip_address=") {
            let ip: &str = text::trim(rest);
            if !ip.is_empty() {
                return Some(ip.to_owned());
            }
        }
        i += 1;
    }
    None
}

/// The number of the network in one line of a list, if it has the name.
pub open spec fn network_in_line(line: Seq<char>, ssid: Seq<char>) -> Option<u32> {
    let cols = text::split_on(line, '\t');
    if cols.len() >= 2 && text::trimmed(cols[1]) == ssid {
        match text::unsigned_of(text::trimmed(cols[0])) {
            Some(n) if n <= u32::MAX => Some(n as u32),
            _ => None,
        }
    } else {
        None
    }
}

/// The number of the first network with the name.
pub open spec fn network_in(lines: Seq<Seq<char>>, ssid: Seq<char>) -> Option<u32>
    decreases lines.len(),
{
    if lines.len() == 0 {
        None
    } else if network_in_line(lines[0], ssid) is Some {
        network_in_line(lines[0], ssid)
    } else {
        network_in(lines.drop_first(), ssid)
    }
}

/// The lines of a table without its head.
pub open spec fn rows(out: Seq<char>) -> Seq<Seq<char>> {
    let lines = text::lines_of(out);
    if lines.len() > 0 {
        lines.drop_first()
    } else {
        lines
    }
}

/// The number of the network with a name, in the output of `list_networks`.
pub fn find_network_id(list: &str, ssid: &str) -> (id: Option<u32>)
    ensures
        id == network_in(rows(list@), ssid@),
{
    let lines: Vec<&str> = text::lines(list);
    let ghost views = text::text_views(lines@);
    let ghost body = rows(list@);
    if lines.len() == 0 {
        return None;
    }
    let mut i: usize = 1;
    assert(body.skip(0) =~= body);
    while i < lines.len()
        invariant
            1 <= i <= lines@.len(),
            views == text::text_views(lines@),
            body == views.drop_first(),
            body == rows(list@),
            network_in(body, ssid@) == network_in(body.skip(i - 1), ssid@),
        decreases lines@.len() - i,
    {
        assert(body.skip(i - 1)[0] == lines@[i as int]@);
        assert(body.skip(i - 1).drop_first() =~= body.skip(i as int));
        let cols: Vec<&str> = text::split(lines[i], '\t');
        let ghost col_views = text::text_views(cols@);
        if cols.len() >= 2 {
            assert(col_views[0] == cols@[0]@ && col_views[1] == cols@[1]@);
            if text::same(text::trim(cols[1]), ssid) {
                if let Some(n) = text::parse_unsigned(text::trim(cols[0]), u32::MAX as u64) {
                    return Some(n as u32);
                }
            }
        }
        i += 1;
    }
    None
}

/// The network in one line of a scan's results: the third column is the strength of the signal,
/// and the name is what stands behind the fourth tab.
pub open spec fn scan_line(line: Seq<char>) -> Option<ScanView> {
    match text::behind_nth(line, '\t', 4) {
        Some(rest) => {
            let ssid = text::trimmed(rest);
            let rssi = match text::integer_of(text::trimmed(text::split_on(line, '\t')[2])) {
                Some(n) if -128 <= n <= 127 => n as i8,
                _ => 0i8,
            };
            if ssid.len() > 0 {
                Some(ScanView { ssid, rssi })
            } else {
                None
            }
        },
        None => None,
    }
}

/// The networks in the lines of a scan's results.
pub open spec fn scan_lines(lines: Seq<Seq<char>>) -> Seq<ScanView>
    decreases lines.len(),
{
    if lines.len() == 0 {
        Seq::empty()
    } else {
        match scan_line(lines.last()) {
            Some(v) => scan_lines(lines.drop_last()).push(v),
            None => scan_lines(lines.drop_last()),
        }
    }
}

proof fn lemma_columns(s: Seq<char>, c: char, n: nat)
    ensures
        text::behind_nth(s, c, n) is Some <==> text::split_on(s, c).len() > n,
    decreases n,
{
    let k = text::find_char(s, c);
    if n > 0 && 0 <= k < s.len() {
        lemma_columns(s.skip(k + 1), c, (n - 1) as nat);
    }
}

/// The networks in the lines of a scan's results.
pub fn parse_scan_results(lines: &[&str]) -> (items: Vec<ScanItem>)
    ensures
        codec::scan_views(items@) == scan_lines(text::text_views(lines@)),
{
    let ghost views = text::text_views(lines@);
    let mut items: Vec<ScanItem> = Vec::new();
    let mut i: usize = 0;
    assert(views.take(0) =~= Seq::<Seq<char>>::empty());
    assert(codec::scan_views(items@) =~= Seq::<ScanView>::empty());
    while i < lines.len()
        invariant
            i <= lines@.len(),
            views == text::text_views(lines@),
            codec::scan_views(items@) == scan_lines(views.take(i as int)),
        decreases lines@.len() - i,
    {
        let line: &str = lines[i];
        proof {
            let more = views.take(i as int + 1);
            assert(more.drop_last() =~= views.take(i as int));
            assert(more.last() == line@);
            lemma_columns(line@, '\t', 4);
        }
        if let Some(rest) = text::after_nth(line, '\t', 4) {
            let cols: Vec<&str> = text::split(line, '\t');
            assert(text::text_views(cols@)[2] == cols@[2]@);
            let rssi: i8 = match text::parse_i8(text::trim(cols[2])) {
                Some(n) => n,
                None => 0,
            };
            let ssid: &str = text::trim(rest);
            if !ssid.is_empty() {
                let item: ScanItem = ScanItem { ssid: ssid.to_owned(), rssi };
                let ghost before = items@;
                items.push(item);
                assert(codec::scan_views(items@) =~= codec::scan_views(before).push(item@));
            }
        }
        i += 1;
    }
    assert(views.take(i as int) =~= views);
    items
}

/// The place of a name among networks, or their number where it is not there.
pub open spec fn name_place(items: Seq<ScanView>, ssid: Seq<char>) -> int
    decreases items.len(),
{
    if items.len() == 0 || items[0].ssid == ssid {
        0
    } else {
        1 + name_place(items.drop_first(), ssid)
    }
}

/// Networks with one more: a name that is there already keeps the stronger signal.
pub open spec fn merged_one(items: Seq<ScanView>, item: ScanView) -> Seq<ScanView> {
    let i = name_place(items, item.ssid);
    if 0 <= i < items.len() {
        if item.rssi > items[i].rssi {
            items.update(i, ScanView { rssi: item.rssi, ..items[i] })
        } else {
            items
        }
    } else {
        items.push(item)
    }
}

/// Networks with some more.
pub open spec fn merged(items: Seq<ScanView>, more: Seq<ScanView>) -> Seq<ScanView>
    decreases more.len(),
{
    if more.len() == 0 {
        items
    } else {
        merged_one(merged(items, more.drop_last()), more.last())
    }
}

proof fn lemma_name_place(items: Seq<ScanView>, ssid: Seq<char>, n: int)
    requires
        0 <= n <= items.len(),
        forall|k: int| 0 <= k < n ==> (#[trigger] items[k]).ssid != ssid,
        n < items.len() ==> items[n].ssid == ssid,
    ensures
        name_place(items, ssid) == n,
    decreases items.len(),
{
    if items.len() > 0 && n > 0 {
        assert(items[0].ssid != ssid);
        assert forall|k: int| 0 <= k < n - 1 implies (#[trigger] items.drop_first()[k]).ssid
            != ssid by {
            assert(items[k + 1].ssid != ssid);
        }
        lemma_name_place(items.drop_first(), ssid, n - 1);
    }
}

fn merge_one(acc: &mut Vec<ScanItem>, item: &ScanItem)
    ensures
        codec::scan_views(final(acc)@) == merged_one(codec::scan_views(old(acc)@), item@),
{
    let ghost views = codec::scan_views(acc@);
    let mut i: usize = 0;
    while i < acc.len()
        invariant
            i <= acc@.len(),
            acc@ == old(acc)@,
            views == codec::scan_views(old(acc)@),
            forall|k: int| 0 <= k < i ==> (#[trigger] views[k]).ssid != item.ssid@,
        decreases acc@.len() - i,
    {
        if text::same(acc[i].ssid.as_str(), item.ssid.as_str()) {
            proof {
                assert(views[i as int].ssid == item.ssid@);
                lemma_name_place(views, item.ssid@, i as int);
            }
            if item.rssi > acc[i].rssi {
                let stronger: ScanItem = ScanItem {
                    ssid: acc[i].ssid.as_str().to_owned(),
                    rssi: item.rssi,
                };
                acc.set(i, stronger);
                assert(codec::scan_views(acc@) =~= merged_one(views, item@));
            }
            return;
        }
        assert(views[i as int].ssid != item.ssid@);
        i += 1;
    }
    proof {
        lemma_name_place(views, item.ssid@, i as int);
    }
    acc.push(ScanItem { ssid: item.ssid.as_str().to_owned(), rssi: item.rssi });
    assert(codec::scan_views(acc@) =~= merged_one(views, item@));
}

/// Adds networks to those that were found before: each name stays once, with its strongest
/// signal.
pub fn merge_scan_items(acc: &mut Vec<ScanItem>, incoming: &[ScanItem])
    ensures
        codec::scan_views(final(acc)@) == merged(
            codec::scan_views(old(acc)@),
            codec::scan_views(incoming@),
        ),
{
    let ghost before = codec::scan_views(acc@);
    let ghost views = codec::scan_views(incoming@);
    let mut i: usize = 0;
    assert(views.take(0) =~= Seq::<ScanView>::empty());
    while i < incoming.len()
        invariant
            i <= incoming@.len(),
            views == codec::scan_views(incoming@),
            codec::scan_views(acc@) == merged(before, views.take(i as int)),
        decreases incoming@.len() - i,
    {
        proof {
            assert(views.take(i as int + 1).drop_last() =~= views.take(i as int));
            assert(views.take(i as int + 1).last() == incoming@[i as int]@);
        }
        merge_one(acc, &incoming[i]);
        i += 1;
    }
    assert(views.take(i as int) =~= views);
}

/// Each name stands once.
pub open spec fn distinct_names(items: Seq<ScanView>) -> bool {
    forall|i: int, j: int| 0 <= i < j < items.len() ==> items[i].ssid != items[j].ssid
}

/// The strongest signal of a name.
pub open spec fn strongest(items: Seq<ScanView>, ssid: Seq<char>) -> Option<i8>
    decreases items.len(),
{
    if items.len() == 0 {
        None
    } else {
        let before = strongest(items.drop_last(), ssid);
        if items.last().ssid == ssid {
            stronger(before, Some(items.last().rssi))
        } else {
            before
        }
    }
}

/// The stronger of two signals that may be there.
pub open spec fn stronger(a: Option<i8>, b: Option<i8>) -> Option<i8> {
    match (a, b) {
        (Some(x), Some(y)) => Some(
            if x >= y {
                x
            } else {
                y
            },
        ),
        (Some(x), None) => Some(x),
        (None, y) => y,
    }
}

proof fn lemma_name_place_range(items: Seq<ScanView>, ssid: Seq<char>)
    ensures
        0 <= name_place(items, ssid) <= items.len(),
        name_place(items, ssid) < items.len() ==> items[name_place(items, ssid)].ssid == ssid,
        forall|k: int|
            0 <= k < name_place(items, ssid) && k < items.len() ==> (#[trigger] items[k]).ssid
                != ssid,
    decreases items.len(),
{
    if items.len() > 0 && items[0].ssid != ssid {
        let rest = items.drop_first();
        lemma_name_place_range(rest, ssid);
        assert forall|k: int| 0 <= k < name_place(items, ssid) && k < items.len() implies (
        #[trigger] items[k]).ssid != ssid by {
            if k > 0 {
                assert(rest[k - 1].ssid != ssid);
            }
        }
    }
}

proof fn lemma_strongest_absent(items: Seq<ScanView>, ssid: Seq<char>)
    requires
        forall|k: int| 0 <= k < items.len() ==> (#[trigger] items[k]).ssid != ssid,
    ensures
        strongest(items, ssid) is None,
    decreases items.len(),
{
    if items.len() > 0 {
        let front = items.drop_last();
        assert forall|k: int| 0 <= k < front.len() implies (#[trigger] front[k]).ssid != ssid by {
            assert(items[k].ssid != ssid);
        }
        assert(items[items.len() - 1].ssid != ssid);
        lemma_strongest_absent(front, ssid);
    }
}

proof fn lemma_strongest_alone(items: Seq<ScanView>, i: int)
    requires
        distinct_names(items),
        0 <= i < items.len(),
    ensures
        strongest(items, items[i].ssid) == Some(items[i].rssi),
    decreases items.len(),
{
    let front = items.drop_last();
    if i == items.len() - 1 {
        lemma_strongest_absent(front, items[i].ssid);
    } else {
        assert(items[i].ssid != items[items.len() - 1].ssid);
        assert(front[i] == items[i]);
        lemma_strongest_alone(front, i);
    }
}

proof fn lemma_merged_one(items: Seq<ScanView>, item: ScanView)
    requires
        distinct_names(items),
    ensures
        distinct_names(merged_one(items, item)),
        forall|ssid: Seq<char>| #[trigger]
            strongest(merged_one(items, item), ssid) == if item.ssid == ssid {
                stronger(strongest(items, ssid), Some(item.rssi))
            } else {
                strongest(items, ssid)
            },
{
    lemma_name_place_range(items, item.ssid);
    let i = name_place(items, item.ssid);
    let after = merged_one(items, item);
    if i < items.len() {
        assert(distinct_names(after)) by {
            assert forall|a: int, b: int| 0 <= a < b < after.len() implies after[a].ssid
                != after[b].ssid by {
                assert(after[a].ssid == items[a].ssid);
                assert(after[b].ssid == items[b].ssid);
            }
        }
        lemma_strongest_alone(items, i);
        lemma_strongest_alone(after, i);
        assert forall|ssid: Seq<char>| #[trigger]
            strongest(after, ssid) == if item.ssid == ssid {
                stronger(strongest(items, ssid), Some(item.rssi))
            } else {
                strongest(items, ssid)
            } by {
            if item.ssid != ssid {
                lemma_strongest_elsewhere(items, after, i, ssid);
            }
        }
    } else {
        assert(after.drop_last() =~= items);
        assert forall|a: int, b: int| 0 <= a < b < after.len() implies after[a].ssid
            != after[b].ssid by {
            if b == items.len() {
                assert(items[a].ssid != item.ssid);
            }
        }
    }
}

proof fn lemma_strongest_elsewhere(
    a: Seq<ScanView>,
    b: Seq<ScanView>,
    i: int,
    ssid: Seq<char>,
)
    requires
        a.len() == b.len(),
        0 <= i < a.len(),
        forall|k: int| 0 <= k < a.len() && k != i ==> a[k] == b[k],
        a[i].ssid != ssid,
        b[i].ssid != ssid,
    ensures
        strongest(a, ssid) == strongest(b, ssid),
    decreases a.len(),
{
    if i == a.len() - 1 {
        assert(a.drop_last() =~= b.drop_last());
    } else {
        assert(a[a.len() - 1] == b[a.len() - 1]);
        lemma_strongest_elsewhere(a.drop_last(), b.drop_last(), i, ssid);
    }
}

/// Merging keeps each name once, loses none, adds none that was not found, and gives each the
/// strongest of its signals.
pub proof fn law_merge_keeps_the_strongest(items: Seq<ScanView>, more: Seq<ScanView>)
    requires
        distinct_names(items),
    ensures
        distinct_names(merged(items, more)),
        forall|ssid: Seq<char>| #[trigger]
            strongest(merged(items, more), ssid) == stronger(
                strongest(items, ssid),
                strongest(more, ssid),
            ),
    decreases more.len(),
{
    if more.len() > 0 {
        let front = more.drop_last();
        law_merge_keeps_the_strongest(items, front);
        lemma_merged_one(merged(items, front), more.last());
    }
}

/// The interface, and how long scanning and joining a network may take.
pub struct WifiManager {
    pub iface: String,
    pub bin: String,
    pub scan_timeout_ms: u64,
    pub connect_timeout_ms: u64,
    pub scan_disconnect_fallback: bool,
}

/// Whether a status says that the device is in a network.
pub open spec fn status_view(out: Seq<char>, s: WifiStatus) -> bool {
    match ip_in(text::lines_of(out)) {
        Some(ip) => s matches WifiStatus::Connected { ip: Some(i) } && i@ == ip,
        None => if text::holds(out, "wpa_state=COMPLETED"@) {
            s matches WifiStatus::Connected { ip: None }
        } else {
            s is Disconnected
        },
    }
}

/// Whether a status, if there is one, says that the device is in a network.
pub open spec fn in_network(out: Result<Seq<char>, WifiErrorView>) -> bool {
    match out {
        Ok(s) => ip_in(text::lines_of(s)) is Some || text::holds(s, "wpa_state=COMPLETED"@),
        Err(_) => false,
    }
}

impl WifiManager {
    /// A manager of the device's only interface.
    pub fn new(cfg: &BluFiConfig) -> (m: Self)
        ensures
            m.iface@ == "wlan0"@,
            m.bin@ == "wpa_cli"@,
            m.scan_timeout_ms == cfg.scan_timeout_ms,
            m.connect_timeout_ms == cfg.connect_timeout_ms,
            m.scan_disconnect_fallback == cfg.scan_disconnect_fallback,
    {
        WifiManager {
            iface: "wlan0".to_owned(),
            bin: "wpa_cli".to_owned(),
            scan_timeout_ms: cfg.scan_timeout_ms,
            connect_timeout_ms: cfg.connect_timeout_ms,
            scan_disconnect_fallback: cfg.scan_disconnect_fallback,
        }
    }

    /// The arguments of `wpa_cli` for a command: the interface, then the command.
    pub fn command(&self, args: Vec<String>) -> (all: Vec<String>)
        ensures
            string_views(all@) == seq!["-i"@, self.iface@] + string_views(args@),
    {
        let mut all: Vec<String> = Vec::new();
        all.push("-i".to_owned());
        all.push(self.iface.as_str().to_owned());
        let mut i: usize = 0;
        while i < args.len()
            invariant
                i <= args@.len(),
                all@.len() == i + 2,
                all@[0]@ == "-i"@,
                all@[1]@ == self.iface@,
                forall|k: int| 0 <= k < i ==> (#[trigger] args@[k])@ == all@[k + 2]@,
            decreases args@.len() - i,
        {
            all.push(args[i].as_str().to_owned());
            i += 1;
        }
        assert(string_views(all@) =~= seq!["-i"@, self.iface@] + string_views(args@));
        all
    }

    /// Whether the interface is there, by the output of `status`.
    pub fn probe(&self, out: Result<String, WifiError>) -> (r: Result<(), WifiError>)
        ensures
            match output_view(out) {
                Ok(s) => if text::holds(s, "wpa_state"@) {
                    r is Ok
                } else {
                    r matches Err(e) && e@ is NoInterface
                },
                Err(f) => r matches Err(e) && e@ == f,
            },
    {
        match out {
            Ok(s) => if text::contains(s.as_str(), "wpa_state") {
                Ok(())
            } else {
                Err(WifiError::NoInterface)
            },
            Err(e) => Err(e),
        }
    }

    /// Whether the device is in a network, by the output of `status`.
    pub fn status(&self, out: Result<String, WifiError>) -> (r: Result<WifiStatus, WifiError>)
        ensures
            match output_view(out) {
                Ok(s) => r matches Ok(st) && status_view(s, st),
                Err(f) => r matches Err(e) && e@ == f,
            },
    {
        match out {
            Ok(s) => match extract_ip(s.as_str()) {
                Some(ip) => Ok(WifiStatus::Connected { ip: Some(ip) }),
                None => if text::contains(s.as_str(), "wpa_state=COMPLETED") {
                    Ok(WifiStatus::Connected { ip: None })
                } else {
                    Ok(WifiStatus::Disconnected)
                },
            },
            Err(e) => Err(e),
        }
    }

    /// Whether the device is in a network; where nothing can be learned, it is not.
    pub fn is_connected(&self, out: Result<String, WifiError>) -> (b: bool)
        ensures
            b == in_network(output_view(out)),
    {
        match self.status(out) {
            Ok(WifiStatus::Connected { .. }) => true,
            _ => false,
        }
    }

    /// The command that starts a scan. Its results are not waited for.
    pub fn trigger_scan(&self) -> (args: Vec<String>)
        ensures
            string_views(args@) == seq!["-i"@, self.iface@, "scan"@],
    {
        let args: Vec<String> = self.command(one_word("scan"));
        assert(string_views(args@) =~= seq!["-i"@, self.iface@, "scan"@]);
        args
    }

    /// The command that forgets a network.
    pub fn remove_network(&self, id: u32) -> (args: Vec<String>)
        ensures
            string_views(args@) == seq![
                "-i"@,
                self.iface@,
                "remove_network"@,
                text::decimal(id as nat),
            ],
    {
        let words: Vec<String> = two_words("remove_network", text::number_text(id as u64));
        let args: Vec<String> = self.command(words);
        assert(string_views(args@) =~= seq![
            "-i"@,
            self.iface@,
            "remove_network"@,
            text::decimal(id as nat),
        ]);
        args
    }

    /// The output of `list_networks` to show, or why there is none.
    pub fn list_networks_text(&self, out: Result<String, WifiError>) -> (s: String)
        ensures
            s@ == match output_view(out) {
                Ok(t) => t,
                Err(e) => "<读取失败: "@ + e.message() + ">"@,
            },
    {
        match out {
            Ok(t) => t,
            Err(e) => {
                let mut s: String = text::join("<读取失败: ", e.message().as_str());
                s.append(">");
                s
            },
        }
    }

    /// Whether the network has to be left for a scan, and how long the scan may take, in
    /// milliseconds.
    pub fn scan_plan(&self, connected: bool) -> (r: (bool, u64))
        ensures
            r.0 == (self.scan_disconnect_fallback && connected),
            r.1 == if r.0 && self.scan_timeout_ms > SCAN_AWAY_MS {
                SCAN_AWAY_MS
            } else {
                self.scan_timeout_ms
            },
    {
        let away: bool = self.scan_disconnect_fallback && connected;
        let wait: u64 = if away && self.scan_timeout_ms > SCAN_AWAY_MS {
            SCAN_AWAY_MS
        } else {
            self.scan_timeout_ms
        };
        (away, wait)
    }

    /// The pattern of the processes that hold an address for the interface.
    pub fn dhcp_pattern(&self) -> (s: String)
        ensures
            s@ == "udhcpc.*"@ + self.iface@,
    {
        text::join("udhcpc.*", self.iface.as_str())
    }

    /// The arguments of `udhcpc`, which gets an address for the interface.
    pub fn dhcp_args(&self) -> (args: Vec<String>)
        ensures
            string_views(args@) == seq![
                "-i"@,
                self.iface@,
                "-p"@,
                "/var/run/udhcpc."@ + self.iface@ + ".pid"@,
            ],
    {
        let mut pidfile: String = text::join("/var/run/udhcpc.", self.iface.as_str());
        pidfile.append(".pid");
        let mut args: Vec<String> = Vec::new();
        args.push("-i".to_owned());
        args.push(self.iface.as_str().to_owned());
        args.push("-p".to_owned());
        args.push(pidfile);
        assert(string_views(args@) =~= seq![
            "-i"@,
            self.iface@,
            "-p"@,
            "/var/run/udhcpc."@ + self.iface@ + ".pid"@,
        ]);
        args
    }
}

fn one_word(word: &str) -> (v: Vec<String>)
    ensures
        string_views(v@) == seq![word@],
{
    let mut v: Vec<String> = Vec::new();
    v.push(word.to_owned());
    assert(string_views(v@) =~= seq![word@]);
    v
}

fn two_words(first: &str, second: String) -> (v: Vec<String>)
    ensures
        string_views(v@) == seq![first@, second@],
{
    let mut v: Vec<String> = Vec::new();
    v.push(first.to_owned());
    v.push(second);
    assert(string_views(v@) =~= seq![first@, second@]);
    v
}

/// Where a scan stands.
#[derive(Debug, Clone, Copy, PartialEq, Eq, Structural)]
pub enum ScanStage {
    /// Leave the network.
    Leave,
    /// Begin to scan.
    Trigger,
    /// Read what has been found.
    Read,
    /// Go back into the network.
    Return,
    /// Get an address.
    Dhcp,
    /// The scan is over.
    Done,
}

/// A scan under way. Where the network is left for it, the device goes back into the network when
/// all has been read.
pub struct ScanRun {
    pub away: bool,
    /// How long the scan may take.
    pub wait_ms: u64,
    pub stage: ScanStage,
    pub found: Vec<ScanItem>,
    pub reads: usize,
}

/// The contents of a [`ScanRun`].
#[verifier::ext_equal]
pub struct ScanRunView {
    pub away: bool,
    pub wait_ms: u64,
    pub stage: ScanStage,
    pub found: Seq<ScanView>,
    pub reads: int,
}

impl View for ScanRun {
    type V = ScanRunView;

    open spec fn view(&self) -> ScanRunView {
        ScanRunView {
            away: self.away,
            wait_ms: self.wait_ms,
            stage: self.stage,
            found: codec::scan_views(self.found@),
            reads: self.reads as int,
        }
    }
}

impl ScanRunView {
    /// The results are read so often and no more.
    pub open spec fn well_formed(self) -> bool {
        match self.stage {
            ScanStage::Leave | ScanStage::Trigger => self.reads == 0,
            ScanStage::Read => 0 <= self.reads < SCAN_READS,
            _ => self.reads == SCAN_READS,
        }
    }

    /// The command of the stage; getting an address has none.
    pub open spec fn args(self) -> Seq<Seq<char>> {
        match self.stage {
            ScanStage::Leave => seq!["disconnect"@],
            ScanStage::Trigger => seq!["scan"@],
            ScanStage::Read => seq!["scan_results"@],
            ScanStage::Return => seq!["reconnect"@],
            ScanStage::Dhcp | ScanStage::Done => Seq::empty(),
        }
    }

    /// How long it is from the command of the stage to the next stage, in milliseconds.
    pub open spec fn pause_ms(self) -> u64 {
        match self.stage {
            ScanStage::Leave => LEAVE_PAUSE_MS,
            ScanStage::Trigger => self.wait_ms,
            ScanStage::Read => SCAN_READ_GAP_MS,
            _ => 0,
        }
    }

    /// What the output of the stage's command leads to. Only a reading that fails ends the scan.
    pub open spec fn stepped(self, out: Result<Seq<char>, WifiErrorView>) -> Result<
        ScanRunView,
        WifiErrorView,
    > {
        match self.stage {
            ScanStage::Leave => Ok(ScanRunView { stage: ScanStage::Trigger, ..self }),
            ScanStage::Trigger => Ok(ScanRunView { stage: ScanStage::Read, ..self }),
            ScanStage::Read => match out {
                Ok(s) => Ok(
                    ScanRunView {
                        found: merged(self.found, scan_lines(rows(s))),
                        reads: self.reads + 1,
                        stage: if self.reads + 1 < SCAN_READS {
                            ScanStage::Read
                        } else if self.away {
                            ScanStage::Return
                        } else {
                            ScanStage::Done
                        },
                        ..self
                    },
                ),
                Err(e) => Err(e),
            },
            ScanStage::Return => Ok(ScanRunView { stage: ScanStage::Dhcp, ..self }),
            ScanStage::Dhcp | ScanStage::Done => Ok(
                ScanRunView { stage: ScanStage::Done, ..self },
            ),
        }
    }
}

impl ScanRun {
    /// A scan that begins.
    pub fn new(away: bool, wait_ms: u64) -> (r: Self)
        ensures
            r@.well_formed(),
            r@ == (ScanRunView {
                away,
                wait_ms,
                stage: if away {
                    ScanStage::Leave
                } else {
                    ScanStage::Trigger
                },
                found: Seq::empty(),
                reads: 0,
            }),
    {
        let found: Vec<ScanItem> = Vec::new();
        assert(codec::scan_views(found@) =~= Seq::<ScanView>::empty());
        let stage: ScanStage = if away {
            ScanStage::Leave
        } else {
            ScanStage::Trigger
        };
        ScanRun { away, wait_ms, stage, found, reads: 0 }
    }

    /// The command to run now.
    pub fn args(&self) -> (args: Vec<String>)
        ensures
            string_views(args@) == self@.args(),
    {
        match self.stage {
            ScanStage::Leave => one_word("disconnect"),
            ScanStage::Trigger => one_word("scan"),
            ScanStage::Read => one_word("scan_results"),
            ScanStage::Return => one_word("reconnect"),
            ScanStage::Dhcp | ScanStage::Done => {
                let none: Vec<String> = Vec::new();
                assert(string_views(none@) =~= Seq::<Seq<char>>::empty());
                none
            },
        }
    }

    /// How long to wait before the output of the command is handed on.
    pub fn pause_ms(&self) -> (ms: u64)
        ensures
            ms == self@.pause_ms(),
    {
        match self.stage {
            ScanStage::Leave => LEAVE_PAUSE_MS,
            ScanStage::Trigger => self.wait_ms,
            ScanStage::Read => SCAN_READ_GAP_MS,
            _ => 0,
        }
    }

    fn take_results(&mut self, s: &str)
        ensures
            final(self)@ == (ScanRunView {
                found: merged(old(self)@.found, scan_lines(rows(s@))),
                ..old(self)@
            }),
    {
        let lines: Vec<&str> = text::lines(s);
        let ghost views = text::text_views(lines@);
        if lines.len() > 1 {
            let data: &[&str] = vstd::slice::slice_subrange(lines.as_slice(), 1, lines.len());
            assert(text::text_views(data@) =~= views.drop_first());
            let items: Vec<ScanItem> = parse_scan_results(data);
            merge_scan_items(&mut self.found, items.as_slice());
        } else {
            assert(rows(s@) =~= Seq::<Seq<char>>::empty());
        }
    }

    /// Takes the output of the command that `args` gives.
    pub fn step(&mut self, out: Result<String, WifiError>) -> (r: Result<(), WifiError>)
        requires
            old(self)@.well_formed(),
        ensures
            final(self)@.well_formed(),
            match old(self)@.stepped(output_view(out)) {
                Ok(v) => r is Ok && final(self)@ == v,
                Err(f) => r matches Err(e) && e@ == f && final(self)@ == old(self)@,
            },
    {
        match self.stage {
            ScanStage::Leave => {
                self.stage = ScanStage::Trigger;
            },
            ScanStage::Trigger => {
                self.stage = ScanStage::Read;
            },
            ScanStage::Read => {
                let s: String = match out {
                    Ok(s) => s,
                    Err(e) => {
                        return Err(e);
                    },
                };
                self.take_results(s.as_str());
                self.reads = self.reads + 1;
                self.stage = if self.reads < SCAN_READS {
                    ScanStage::Read
                } else if self.away {
                    ScanStage::Return
                } else {
                    ScanStage::Done
                };
            },
            ScanStage::Return => {
                self.stage = ScanStage::Dhcp;
            },
            ScanStage::Dhcp | ScanStage::Done => {
                self.stage = ScanStage::Done;
            },
        }
        Ok(())
    }
}

/// A scan after these outputs of `scan_results` have been read.
pub open spec fn scanned(v: ScanRunView, reads: Seq<Seq<char>>) -> ScanRunView
    decreases reads.len(),
{
    if reads.len() == 0 {
        v
    } else {
        scanned(v, reads.drop_last()).stepped(Ok(reads.last()))->Ok_0
    }
}

/// A scan reads the results three times and reports the best that each reading has of each
/// network. A device that has left its network for the scan goes back into it, and gets an address.
pub proof fn law_scan_returns_to_the_network(v: ScanRunView, a: Seq<char>, b: Seq<char>, c: Seq<char>)
    requires
        v.well_formed(),
        v.stage == ScanStage::Read,
        v.reads == 0,
        v.found.len() == 0,
    ensures
        ({
            let end = scanned(v, seq![a, b, c]);
            &&& end.found == merged(
                merged(merged(v.found, scan_lines(rows(a))), scan_lines(rows(b))),
                scan_lines(rows(c)),
            )
            &&& end.stage == if v.away {
                ScanStage::Return
            } else {
                ScanStage::Done
            }
            &&& forall|o: Result<Seq<char>, WifiErrorView>|
                v.away ==> (#[trigger] end.stepped(o))->Ok_0.stage == ScanStage::Dhcp
        }),
{
    let all = seq![a, b, c];
    assert(all.drop_last() =~= seq![a, b]);
    assert(all.drop_last().drop_last() =~= seq![a]);
    assert(seq![a].drop_last() =~= Seq::<Seq<char>>::empty());
    reveal_with_fuel(scanned, 4);
}

/// Where joining a network stands.
#[derive(Debug, Clone, Copy, PartialEq, Eq, Structural)]
pub enum Stage {
    /// Look whether the network is known.
    Find,
    /// Add it.
    Add,
    /// Set its name.
    SetName,
    /// Set its password, or that it has none.
    SetKey,
    Enable,
    /// Write the configuration.
    Save,
    /// Read the configuration again.
    Reload,
    /// Look the network up.
    FindAgain,
    /// Change to it.
    Select,
    /// Get an address.
    Dhcp,
    /// Wait for the address.
    Poll,
    /// The device is in the network.
    Joined,
}

impl Stage {
    /// How far a stage is from the first.
    pub open spec fn rank(self) -> int {
        match self {
            Stage::Find => 0,
            Stage::Add => 1,
            Stage::SetName => 2,
            Stage::SetKey => 3,
            Stage::Enable => 4,
            Stage::Save => 5,
            Stage::Reload => 6,
            Stage::FindAgain => 7,
            Stage::Select => 8,
            Stage::Dhcp => 9,
            Stage::Poll => 10,
            Stage::Joined => 11,
        }
    }

    /// Whether the stage's command fails where its output says so.
    pub open spec fn is_checked(self) -> bool {
        match self {
            Stage::SetName | Stage::SetKey | Stage::Enable | Stage::Save | Stage::Reload
            | Stage::Select => true,
            _ => false,
        }
    }
}

/// The device on its way into a network.
#[derive(Debug)]
pub struct ConnectRun {
    pub ssid: String,
    pub pwd: Option<String>,
    /// The number of the network, once it is known.
    pub id: u32,
    pub stage: Stage,
}

/// The contents of a [`ConnectRun`].
#[verifier::ext_equal]
pub struct RunView {
    pub ssid: Seq<char>,
    pub pwd: Option<Seq<char>>,
    pub id: u32,
    pub stage: Stage,
}

impl View for ConnectRun {
    type V = RunView;

    open spec fn view(&self) -> RunView {
        RunView {
            ssid: self.ssid@,
            pwd: match self.pwd {
                Some(p) => Some(p@),
                None => None,
            },
            id: self.id,
            stage: self.stage,
        }
    }
}

/// A value that is a text, as `wpa_cli` takes it.
pub open spec fn quoted(s: Seq<char>) -> Seq<char> {
    "\""@ + s + "\""@
}

fn quote(s: &str) -> (r: String)
    ensures
        r@ == quoted(s@),
{
    let mut r: String = text::join("\"", s);
    r.append("\"");
    r
}

impl RunView {
    /// The command of the stage; getting an address and being in the network have none.
    pub open spec fn args(self) -> Seq<Seq<char>> {
        let id = text::decimal(self.id as nat);
        match self.stage {
            Stage::Find | Stage::FindAgain => seq!["list_networks"@],
            Stage::Add => seq!["add_network"@],
            Stage::SetName => seq!["set_network"@, id, "ssid"@, quoted(self.ssid)],
            Stage::SetKey => match self.pwd {
                Some(p) if p.len() > 0 => seq!["set_network"@, id, "psk"@, quoted(p)],
                _ => seq!["set_network"@, id, "key_mgmt"@, "NONE"@],
            },
            Stage::Enable => seq!["enable_network"@, id],
            Stage::Save => seq!["save_config"@],
            Stage::Reload => seq!["reconfigure"@],
            Stage::Select => seq!["select_network"@, id],
            Stage::Poll => seq!["status"@],
            Stage::Dhcp | Stage::Joined => Seq::empty(),
        }
    }

    /// What the output of the stage's command leads to. `expired`: the time for an address is
    /// over.
    pub open spec fn stepped(self, out: Result<Seq<char>, WifiErrorView>, expired: bool) -> Result<
        RunView,
        WifiErrorView,
    > {
        let read = if self.stage.is_checked() {
            checked(self.args(), out)
        } else {
            out
        };
        match self.stage {
            Stage::Dhcp => Ok(RunView { stage: Stage::Poll, ..self }),
            Stage::Joined => Ok(self),
            Stage::Poll => match read {
                Ok(s) if ip_in(text::lines_of(s)) is Some => Ok(
                    RunView { stage: Stage::Joined, ..self },
                ),
                _ => if expired {
                    Err(WifiErrorView::Timeout)
                } else {
                    Ok(self)
                },
            },
            _ => match read {
                Err(e) => Err(e),
                Ok(s) => match self.stage {
                    Stage::Find => match network_in(rows(s), self.ssid) {
                        Some(id) => Ok(RunView { id, stage: Stage::SetName, ..self }),
                        None => Ok(RunView { stage: Stage::Add, ..self }),
                    },
                    Stage::Add => match text::unsigned_of(text::trimmed(s)) {
                        Some(n) if n <= u32::MAX => Ok(
                            RunView { id: n as u32, stage: Stage::SetName, ..self },
                        ),
                        _ => Err(WifiErrorView::Parse("add_network: "@ + s)),
                    },
                    Stage::SetName => Ok(RunView { stage: Stage::SetKey, ..self }),
                    Stage::SetKey => Ok(RunView { stage: Stage::Enable, ..self }),
                    Stage::Enable => Ok(RunView { stage: Stage::Save, ..self }),
                    Stage::Save => Ok(RunView { stage: Stage::Reload, ..self }),
                    Stage::Reload => Ok(RunView { stage: Stage::FindAgain, ..self }),
                    Stage::FindAgain => match network_in(rows(s), self.ssid) {
                        Some(id) => Ok(RunView { id, stage: Stage::Select, ..self }),
                        None => Ok(RunView { stage: Stage::Dhcp, ..self }),
                    },
                    _ => Ok(RunView { stage: Stage::Dhcp, ..self }),
                },
            },
        }
    }
}

impl ConnectRun {
    /// The way into a network, from its start.
    pub fn new(ssid: &str, pwd: Option<&str>) -> (r: Self)
        ensures
            r@ == (RunView {
                ssid: ssid@,
                pwd: text::opt_str(pwd),
                id: 0,
                stage: Stage::Find,
            }),
    {
        let pwd: Option<String> = match pwd {
            Some(p) => Some(p.to_owned()),
            None => None,
        };
        ConnectRun { ssid: ssid.to_owned(), pwd, id: 0, stage: Stage::Find }
    }

    /// The command to run now.
    pub fn args(&self) -> (args: Vec<String>)
        ensures
            string_views(args@) == self@.args(),
    {
        let args: Vec<String> = match self.stage {
            Stage::Find | Stage::FindAgain => one_word("list_networks"),
            Stage::Add => one_word("add_network"),
            Stage::SetName => self.set_network("ssid", quote(self.ssid.as_str())),
            Stage::SetKey => match &self.pwd {
                Some(p) if !p.as_str().is_empty() => self.set_network("psk", quote(p.as_str())),
                _ => self.set_network("key_mgmt", "NONE".to_owned()),
            },
            Stage::Enable => self.with_id("enable_network"),
            Stage::Save => one_word("save_config"),
            Stage::Reload => one_word("reconfigure"),
            Stage::Select => self.with_id("select_network"),
            Stage::Poll => one_word("status"),
            Stage::Dhcp | Stage::Joined => Vec::new(),
        };
        assert(string_views(args@) =~= self@.args());
        args
    }

    fn with_id(&self, word: &str) -> (args: Vec<String>)
        ensures
            string_views(args@) == seq![word@, text::decimal(self.id as nat)],
    {
        two_words(word, text::number_text(self.id as u64))
    }

    fn set_network(&self, key: &str, value: String) -> (args: Vec<String>)
        ensures
            string_views(args@) == seq![
                "set_network"@,
                text::decimal(self.id as nat),
                key@,
                value@,
            ],
    {
        let mut args: Vec<String> = Vec::new();
        args.push("set_network".to_owned());
        args.push(text::number_text(self.id as u64));
        args.push(key.to_owned());
        args.push(value);
        assert(string_views(args@) =~= seq![
            "set_network"@,
            text::decimal(self.id as nat),
            key@,
            value@,
        ]);
        args
    }

    fn checked_stage(&self) -> (b: bool)
        ensures
            b == self.stage.is_checked(),
    {
        match self.stage {
            Stage::SetName | Stage::SetKey | Stage::Enable | Stage::Save | Stage::Reload
            | Stage::Select => true,
            _ => false,
        }
    }

    /// Takes the output of the stage's command, and goes on to the next stage, or fails.
    pub fn step(&mut self, out: Result<String, WifiError>, expired: bool) -> (r: Result<
        (),
        WifiError,
    >)
        ensures
            match old(self)@.stepped(output_view(out), expired) {
                Ok(v) => r is Ok && final(self)@ == v,
                Err(f) => r matches Err(e) && e@ == f && final(self)@ == old(self)@,
            },
    {
        let read: Result<String, WifiError> = if self.checked_stage() {
            let args: Vec<String> = self.args();
            run_checked(&args, out)
        } else {
            out
        };
        match self.stage {
            Stage::Dhcp => {
                self.stage = Stage::Poll;
                return Ok(());
            },
            Stage::Joined => {
                return Ok(());
            },
            Stage::Poll => {
                if let Ok(s) = &read {
                    if extract_ip(s.as_str()).is_some() {
                        self.stage = Stage::Joined;
                        return Ok(());
                    }
                }
                return if expired {
                    Err(WifiError::Timeout)
                } else {
                    Ok(())
                };
            },
            _ => {},
        }
        let s: String = match read {
            Ok(s) => s,
            Err(e) => {
                return Err(e);
            },
        };
        match self.stage {
            Stage::Find => match find_network_id(s.as_str(), self.ssid.as_str()) {
                Some(id) => {
                    self.id = id;
                    self.stage = Stage::SetName;
                },
                None => {
                    self.stage = Stage::Add;
                },
            },
            Stage::Add => match text::parse_unsigned(text::trim(s.as_str()), u32::MAX as u64) {
                Some(n) => {
                    self.id = n as u32;
                    self.stage = Stage::SetName;
                },
                None => {
                    return Err(WifiError::Parse(text::join("add_network: ", s.as_str())));
                },
            },
            Stage::SetName => {
                self.stage = Stage::SetKey;
            },
            Stage::SetKey => {
                self.stage = Stage::Enable;
            },
            Stage::Enable => {
                self.stage = Stage::Save;
            },
            Stage::Save => {
                self.stage = Stage::Reload;
            },
            Stage::Reload => {
                self.stage = Stage::FindAgain;
            },
            Stage::FindAgain => match find_network_id(s.as_str(), self.ssid.as_str()) {
                Some(id) => {
                    self.id = id;
                    self.stage = Stage::Select;
                },
                None => {
                    self.stage = Stage::Dhcp;
                },
            },
            _ => {
                self.stage = Stage::Dhcp;
            },
        }
        Ok(())
    }
}

/// Joining a network comes to an end: every step leads to a later stage, but for waiting for an
/// address, which the time limits; and the device is in the network only once it has an address.
pub proof fn law_joining_moves_on(
    v: RunView,
    out: Result<Seq<char>, WifiErrorView>,
    expired: bool,
)
    requires
        v.stepped(out, expired) is Ok,
    ensures
        ({
            let w = v.stepped(out, expired)->Ok_0;
            &&& w.ssid == v.ssid && w.pwd == v.pwd
            &&& v.stage != Stage::Poll && v.stage != Stage::Joined ==> w.stage.rank()
                > v.stage.rank()
            &&& v.stage == Stage::Poll && expired ==> w.stage == Stage::Joined
            &&& v.stage != Stage::Joined && w.stage == Stage::Joined ==> (out matches Ok(s)
                && ip_in(text::lines_of(s)) is Some)
        }),
{
}

/// Output that contains `FAIL` is always an error, although the command ended with success.
pub proof fn law_fail_is_an_error(args: Seq<Seq<char>>, out: Seq<char>)
    requires
        text::holds(out, "FAIL"@),
    ensures
        checked(args, Ok(out)) == Err::<Seq<char>, WifiErrorView>(
            WifiErrorView::CmdFailed(-1, spaced(args) + " -> "@ + text::trimmed(out)),
        ),
{
}

/// A network is never joined without its configuration being written: an output that says that
/// writing failed ends the attempt.
pub proof fn law_failed_save_is_an_error(v: RunView, out: Seq<char>, expired: bool)
    requires
        v.stage == Stage::Save,
        says_fail(out),
    ensures
        v.stepped(Ok(out), expired) == Err::<RunView, WifiErrorView>(
            WifiErrorView::CmdFailed(-1, "save_config"@ + " -> "@ + text::trimmed(out)),
        ),
{
}

} // verus!
