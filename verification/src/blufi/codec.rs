//! What the frames of the provisioning protocol carry.

use crate::text;
use vstd::prelude::*;
use vstd::utf8;

verus! {

/// What the app is told when the network and its password have arrived.
pub const RECEIVED_MSG: &'static str = "Received SSID and password";

/// What the app is told when the device cannot join the network.
pub const FAILED_MSG: &'static str = "Wifi connection failed";

/// The network that the app asks the device to join.
#[derive(Debug, Clone)]
pub struct Provisioning {
    pub ssid: String,
    pub pwd: String,
    pub ip: Option<String>,
    pub port: Option<u16>,
}

/// The contents of a [`Provisioning`].
#[verifier::ext_equal]
pub struct ProvisioningView {
    pub ssid: Seq<char>,
    pub pwd: Seq<char>,
    pub ip: Option<Seq<char>>,
    pub port: Option<u16>,
}

impl View for Provisioning {
    type V = ProvisioningView;

    open spec fn view(&self) -> ProvisioningView {
        ProvisioningView {
            ssid: self.ssid@,
            pwd: self.pwd@,
            ip: match self.ip {
                Some(s) => Some(s@),
                None => None,
            },
            port: self.port,
        }
    }
}

/// Why provisioning data cannot be read.
#[derive(Debug)]
pub enum CodecError {
    /// The network or its password is not there.
    MissingField(&'static str),
    InvalidPort,
    /// The data is no UTF-8; why.
    Utf8(String),
}

/// The contents of a [`CodecError`].
#[verifier::ext_equal]
pub enum CodecErrorView {
    MissingField(Seq<char>),
    InvalidPort,
    Utf8(Seq<char>),
}

impl View for CodecError {
    type V = CodecErrorView;

    open spec fn view(&self) -> CodecErrorView {
        match *self {
            CodecError::MissingField(k) => CodecErrorView::MissingField(k@),
            CodecError::InvalidPort => CodecErrorView::InvalidPort,
            CodecError::Utf8(m) => CodecErrorView::Utf8(m@),
        }
    }
}

impl CodecError {
    /// The message to show.
    pub fn message(&self) -> (s: String)
        ensures
            s@ == match *self {
                CodecError::MissingField(k) => "missing field: "@ + k@,
                CodecError::InvalidPort => "invalid port"@,
                CodecError::Utf8(m) => "utf8: "@ + m@,
            },
    {
        match self {
            CodecError::MissingField(k) => text::join("missing field: ", k),
            CodecError::InvalidPort => "invalid port".to_owned(),
            CodecError::Utf8(m) => text::join("utf8: ", m.as_str()),
        }
    }
}

/// A network that a scan found, and the strength of its signal.
#[derive(Debug, Clone)]
pub struct ScanItem {
    pub ssid: String,
    pub rssi: i8,
}

/// The contents of a [`ScanItem`].
#[verifier::ext_equal]
pub struct ScanView {
    pub ssid: Seq<char>,
    pub rssi: i8,
}

impl View for ScanItem {
    type V = ScanView;

    open spec fn view(&self) -> ScanView {
        ScanView { ssid: self.ssid@, rssi: self.rssi }
    }
}

/// The contents of scan results.
pub open spec fn scan_views(items: Seq<ScanItem>) -> Seq<ScanView> {
    items.map_values(|i: ScanItem| i@)
}

/// The byte of a signed number.
pub open spec fn signed_byte(n: i8) -> u8 {
    if n >= 0 {
        n as u8
    } else {
        (n + 256) as u8
    }
}

/// One network in a list: the length of what follows, the strength, the name.
pub open spec fn scan_entry(i: ScanView) -> Seq<u8> {
    let name = utf8::encode_utf8(i.ssid);
    seq![((name.len() + 1) % 256) as u8, signed_byte(i.rssi)] + name
}

/// A list of networks.
pub open spec fn scan_list(items: Seq<ScanView>) -> Seq<u8>
    decreases items.len(),
{
    if items.len() == 0 {
        Seq::empty()
    } else {
        scan_list(items.drop_last()) + scan_entry(items.last())
    }
}

fn push_entry(v: &mut Vec<u8>, item: &ScanItem)
    ensures
        final(v)@ == old(v)@ + scan_entry(item@),
{
    let name: &[u8] = item.ssid.as_str().as_bytes();
    let len: u8 = ((name.len() % 256 + 1) % 256) as u8;
    assert(len == ((name@.len() + 1) % 256) as u8) by {
        assert((name@.len() % 256 + 1) % 256 == (name@.len() + 1) % 256);
    }
    let strength: u8 = if item.rssi >= 0 {
        item.rssi as u8
    } else {
        (item.rssi as i16 + 256) as u8
    };
    v.push(len);
    v.push(strength);
    v.extend_from_slice(name);
    assert(v@ =~= old(v)@ + scan_entry(item@));
}

/// A list of networks as the app is sent it.
pub fn encode_scan_list(items: &[ScanItem]) -> (v: Vec<u8>)
    ensures
        v@ == scan_list(scan_views(items@)),
{
    let mut v: Vec<u8> = Vec::new();
    let ghost views = scan_views(items@);
    let mut i: usize = 0;
    assert(views.take(0) =~= Seq::<ScanView>::empty());
    while i < items.len()
        invariant
            i <= items@.len(),
            views == scan_views(items@),
            v@ == scan_list(views.take(i as int)),
        decreases items@.len() - i,
    {
        proof {
            assert(views.take(i as int + 1).drop_last() =~= views.take(i as int));
            assert(views.take(i as int + 1).last() == items@[i as int]@);
        }
        push_entry(&mut v, &items[i]);
        i += 1;
    }
    assert(views.take(i as int) =~= views);
    v
}

/// How many networks from the front of a list fit into `max_bytes`. The first is always taken.
pub open spec fn fitting(items: Seq<ScanView>, max_bytes: int) -> int
    decreases items.len(),
{
    if items.len() == 0 {
        0
    } else {
        let n = fitting(items.drop_last(), max_bytes);
        if n == items.len() - 1 && (n == 0 || scan_list(items).len() <= max_bytes) {
            n + 1
        } else {
            n
        }
    }
}

/// As many networks from the front of a list as fit into `max_bytes`, but at least one. The
/// caller puts the most important ones in front.
pub fn encode_scan_list_fitting(items: &[ScanItem], max_bytes: usize) -> (v: Vec<u8>)
    ensures
        v@ == scan_list(
            scan_views(items@).take(fitting(scan_views(items@), max_bytes as int)),
        ),
{
    let mut v: Vec<u8> = Vec::new();
    let ghost views = scan_views(items@);
    let mut i: usize = 0;
    assert(views.take(0) =~= Seq::<ScanView>::empty());
    while i < items.len()
        invariant
            i <= items@.len(),
            views == scan_views(items@),
            v@ == scan_list(views.take(i as int)),
            fitting(views.take(i as int), max_bytes as int) == i,
            (v@.len() == 0) == (i == 0),
        decreases items@.len() - i,
    {
        let ghost more = views.take(i as int + 1);
        proof {
            assert(more.drop_last() =~= views.take(i as int));
            assert(more.last() == items@[i as int]@);
        }
        let name: usize = items[i].ssid.as_str().as_bytes().len();
        let room: usize = if v.len() <= max_bytes {
            max_bytes - v.len()
        } else {
            0
        };
        if v.len() > 0 && (room < 2 || name > room - 2) {
            proof {
                lemma_fitting_stops(views, i as int, max_bytes as int);
            }
            return v;
        }
        push_entry(&mut v, &items[i]);
        i += 1;
    }
    assert(views.take(i as int) =~= views);
    v
}

proof fn lemma_fitting_stops(items: Seq<ScanView>, n: int, max_bytes: int)
    requires
        0 <= n < items.len(),
        fitting(items.take(n), max_bytes) == n,
        fitting(items.take(n + 1), max_bytes) == n,
    ensures
        fitting(items, max_bytes) == n,
    decreases items.len(),
{
    if items.len() == n + 1 {
        assert(items.take(n + 1) =~= items);
    } else {
        assert(items.drop_last().take(n) =~= items.take(n));
        assert(items.drop_last().take(n + 1) =~= items.take(n + 1));
        lemma_fitting_stops(items.drop_last(), n, max_bytes);
    }
}

proof fn lemma_scan_list_grows(items: Seq<ScanView>, n: int)
    requires
        0 <= n <= items.len(),
    ensures
        scan_list(items.take(n)).len() <= scan_list(items).len(),
        scan_list(items).take(scan_list(items.take(n)).len() as int) == scan_list(items.take(n)),
    decreases items.len(),
{
    if n == items.len() {
        assert(items.take(n) =~= items);
        assert(scan_list(items).take(scan_list(items).len() as int) =~= scan_list(items));
    } else {
        lemma_scan_list_grows(items.drop_last(), n);
        assert(items.drop_last().take(n) =~= items.take(n));
        let m = scan_list(items.take(n)).len() as int;
        assert(scan_list(items).take(m) =~= scan_list(items.drop_last()).take(m));
    }
}

/// A list that is cut to fit is the front of the whole list. It keeps at least one network,
/// fits unless it keeps just one, and has no room for the next one.
pub proof fn law_fitting_list(items: Seq<ScanView>, max_bytes: int)
    ensures
        ({
            let n = fitting(items, max_bytes);
            let kept = scan_list(items.take(n));
            &&& 0 <= n <= items.len()
            &&& items.len() > 0 ==> n >= 1
            &&& kept.len() <= scan_list(items).len()
            &&& scan_list(items).take(kept.len() as int) == kept
            &&& n > 1 ==> kept.len() <= max_bytes
            &&& n < items.len() ==> scan_list(items.take(n + 1)).len() > max_bytes
        }),
    decreases items.len(),
{
    if items.len() > 0 {
        let front = items.drop_last();
        law_fitting_list(front, max_bytes);
        let n = fitting(front, max_bytes);
        assert(n <= front.len());
        if n == front.len() {
            assert(front.take(n) =~= front);
            assert(items.take(n + 1) =~= items);
            assert(items.take(n) =~= front);
        } else {
            assert(front.take(n) =~= items.take(n));
            assert(front.take(n + 1) =~= items.take(n + 1));
        }
        lemma_scan_list_grows(items, fitting(items, max_bytes));
    }
}

/// The state of the connection: the device is a station, and in this state (0 connected, 1
/// disconnected, 2 connecting, 3 connected without an address).
pub fn encode_connect_state(sta_state: u8) -> (v: Vec<u8>)
    ensures
        v@ == seq![1u8, sta_state],
{
    let mut v: Vec<u8> = Vec::new();
    v.push(1);
    v.push(sta_state);
    assert(v@ =~= seq![1u8, sta_state]);
    v
}

/// The version of the protocol.
pub fn encode_version(major: u8, minor: u8) -> (v: Vec<u8>)
    ensures
        v@ == seq![major, minor],
{
    let mut v: Vec<u8> = Vec::new();
    v.push(major);
    v.push(minor);
    assert(v@ =~= seq![major, minor]);
    v
}

/// What has been read of provisioning data.
#[verifier::ext_equal]
pub struct Draft {
    pub ssid: Option<Seq<char>>,
    pub pwd: Option<Seq<char>>,
    pub ip: Option<Seq<char>>,
    pub port: Option<u16>,
}

/// Nothing has been read yet.
pub open spec fn empty_draft() -> Draft {
    Draft { ssid: None, pwd: None, ip: None, port: None }
}

/// What stands behind a prefix.
pub open spec fn behind(s: Seq<char>, prefix: Seq<char>) -> Seq<char> {
    s.skip(prefix.len() as int)
}

/// What has been read after one more field; nothing where its port is none.
pub open spec fn field_read(d: Draft, part: Seq<char>) -> Option<Draft> {
    if text::starts(part, "SSID:"@) {
        Some(Draft { ssid: Some(behind(part, "SSID:"@)), ..d })
    } else if text::starts(part, "PWD:"@) {
        Some(Draft { pwd: Some(behind(part, "PWD:"@)), ..d })
    } else if text::starts(part, "IP:"@) {
        Some(Draft { ip: Some(behind(part, "IP:"@)), ..d })
    } else if text::starts(part, "PORT:"@) {
        match text::unsigned_of(behind(part, "PORT:"@)) {
            Some(n) if n <= 65535 => Some(Draft { port: Some(n as u16), ..d }),
            _ => None,
        }
    } else {
        Some(d)
    }
}

/// What has been read after some fields. White space around a field does not count.
pub open spec fn fields_read(parts: Seq<Seq<char>>) -> Option<Draft>
    decreases parts.len(),
{
    if parts.len() == 0 {
        Some(empty_draft())
    } else {
        match fields_read(parts.drop_last()) {
            Some(d) => field_read(d, text::trimmed(parts.last())),
            None => None,
        }
    }
}

/// What a provisioning text says. A later field replaces an earlier one of the same name, and
/// unknown fields are passed over.
pub open spec fn provisioning_of(s: Seq<char>) -> Result<ProvisioningView, CodecErrorView> {
    match fields_read(text::split_on(text::trimmed(s), ',')) {
        None => Err(CodecErrorView::InvalidPort),
        Some(d) => match (d.ssid, d.pwd) {
            (Some(ssid), Some(pwd)) => Ok(ProvisioningView { ssid, pwd, ip: d.ip, port: d.port }),
            (None, _) => Err(CodecErrorView::MissingField("SSID"@)),
            (_, None) => Err(CodecErrorView::MissingField("PWD"@)),
        },
    }
}

proof fn lemma_bad_port_stays(parts: Seq<Seq<char>>, n: int)
    requires
        0 <= n <= parts.len(),
        fields_read(parts.take(n)) is None,
    ensures
        fields_read(parts) is None,
    decreases parts.len(),
{
    if n == parts.len() {
        assert(parts.take(n) =~= parts);
    } else {
        assert(parts.drop_last().take(n) =~= parts.take(n));
        lemma_bad_port_stays(parts.drop_last(), n);
    }
}

/// Reads provisioning data: fields of the form `SSID:`, `PWD:`, `IP:` and `PORT:`, with commas
/// between them.
pub fn parse_provisioning(raw: &[u8]) -> (r: Result<Provisioning, CodecError>)
    ensures
        match r {
            Ok(p) => utf8::valid_utf8(raw@) && provisioning_of(utf8::decode_utf8(raw@)) == Ok::<
                ProvisioningView,
                CodecErrorView,
            >(p@),
            Err(e) => if utf8::valid_utf8(raw@) {
                provisioning_of(utf8::decode_utf8(raw@)) == Err::<
                    ProvisioningView,
                    CodecErrorView,
                >(e@)
            } else {
                e@ == CodecErrorView::Utf8(text::utf8_complaint(raw@))
            },
        },
{
    let whole: &str = match text::utf8_text(raw) {
        Ok(s) => s,
        Err(m) => {
            return Err(CodecError::Utf8(m));
        },
    };
    proof {
        utf8::encode_utf8_decode_utf8(whole@);
    }
    let parts: Vec<&str> = text::split(text::trim(whole), ',');
    let ghost views = text::text_views(parts@);
    let mut ssid: Option<&str> = None;
    let mut pwd: Option<&str> = None;
    let mut ip: Option<&str> = None;
    let mut port: Option<u16> = None;
    let mut i: usize = 0;
    assert(views.take(0) =~= Seq::<Seq<char>>::empty());
    while i < parts.len()
        invariant
            i <= parts@.len(),
            views == text::text_views(parts@),
            views == text::split_on(text::trimmed(whole@), ','),
            utf8::valid_utf8(raw@),
            whole@ == utf8::decode_utf8(raw@),
            fields_read(views.take(i as int)) == Some(
                Draft {
                    ssid: text::opt_str(ssid),
                    pwd: text::opt_str(pwd),
                    ip: text::opt_str(ip),
                    port,
                },
            ),
        decreases parts@.len() - i,
    {
        let part: &str = text::trim(parts[i]);
        let ghost more = views.take(i as int + 1);
        proof {
            assert(more.drop_last() =~= views.take(i as int));
            assert(more.last() == parts@[i as int]@);
        }
        if let Some(v) = text::strip_prefix(part, "SSID:") {
            ssid = Some(v);
        } else if let Some(v) = text::strip_prefix(part, "PWD:") {
            pwd = Some(v);
        } else if let Some(v) = text::strip_prefix(part, "IP:") {
            ip = Some(v);
        } else if let Some(v) = text::strip_prefix(part, "PORT:") {
            match text::parse_unsigned(v, 65535) {
                Some(n) => {
                    port = Some(n as u16);
                },
                None => {
                    proof {
                        lemma_bad_port_stays(views, i as int + 1);
                    }
                    return Err(CodecError::InvalidPort);
                },
            }
        }
        i += 1;
    }
    assert(views.take(i as int) =~= views);
    let ssid: &str = match ssid {
        Some(s) => s,
        None => {
            return Err(CodecError::MissingField("SSID"));
        },
    };
    let pwd: &str = match pwd {
        Some(s) => s,
        None => {
            return Err(CodecError::MissingField("PWD"));
        },
    };
    let ip: Option<String> = match ip {
        Some(s) => Some(s.to_owned()),
        None => None,
    };
    Ok(Provisioning { ssid: ssid.to_owned(), pwd: pwd.to_owned(), ip, port })
}

proof fn lemma_trimmed_end(s: Seq<char>, end: Seq<char>)
    requires
        s.len() > 0,
        !text::is_space(s.last()),
        forall|i: int| 0 <= i < end.len() ==> text::is_space(#[trigger] end[i]),
    ensures
        text::trimmed_end(s + end) == s,
    decreases end.len(),
{
    if end.len() == 0 {
        assert(s + end =~= s);
    } else {
        assert((s + end).last() == end[end.len() - 1]);
        assert((s + end).drop_last() =~= s + end.drop_last());
        lemma_trimmed_end(s, end.drop_last());
    }
}

proof fn lemma_trimmed_whole(s: Seq<char>, end: Seq<char>)
    requires
        s.len() > 0,
        !text::is_space(s[0]),
        !text::is_space(s.last()),
        forall|i: int| 0 <= i < end.len() ==> text::is_space(#[trigger] end[i]),
    ensures
        text::trimmed(s + end) == s,
{
    assert((s + end)[0] == s[0]);
    assert(text::trimmed_start(s + end) == s + end);
    lemma_trimmed_end(s, end);
}

/// A value that a field can carry: nothing in it ends the field, and no white space ends it.
pub open spec fn carried(value: Seq<char>) -> bool {
    &&& forall|i: int| 0 <= i < value.len() ==> #[trigger] value[i] != ','
    &&& value.len() > 0 ==> !text::is_space(value.last())
}

/// A field is one part of the data, and is read whole.
proof fn lemma_field(name: Seq<char>, value: Seq<char>)
    requires
        name.len() > 0,
        carried(name),
        !text::is_space(name[0]),
        carried(value),
    ensures
        text::split_on(name + value, ',') == seq![name + value],
        text::trimmed(name + value) == name + value,
        text::starts(name + value, name),
        behind(name + value, name) == value,
{
    let f = name + value;
    let none = Seq::<char>::empty();
    assert(f.last() == if value.len() > 0 {
        value.last()
    } else {
        name.last()
    });
    assert(f[0] == name[0]);
    lemma_trimmed_whole(f, none);
    assert(f + none =~= f);
    text::lemma_find_char(f, ',', f.len() as int);
    assert(f.take(name.len() as int) =~= name);
    assert(f.skip(name.len() as int) =~= value);
}

/// What has been read of some fields, and one more.
proof fn lemma_fields_grow(parts: Seq<Seq<char>>, part: Seq<char>)
    ensures
        fields_read(parts.push(part)) == match fields_read(parts) {
            Some(d) => field_read(d, text::trimmed(part)),
            None => None,
        },
{
    assert(parts.push(part).drop_last() =~= parts);
}

/// The names of the fields can be told apart.
proof fn lemma_field_names()
    ensures
        carried("SSID:"@),
        carried("PWD:"@),
        carried("IP:"@),
        carried("PORT:"@),
        "SSID:"@.len() == 5,
        "PWD:"@.len() == 4,
        "IP:"@.len() == 3,
        "PORT:"@.len() == 5,
        !text::is_space("SSID:"@[0]),
        !text::is_space("PWD:"@[0]),
        !text::is_space("IP:"@[0]),
        !text::is_space("PORT:"@[0]),
        forall|v: Seq<char>| !text::starts(#[trigger] ("PWD:"@ + v), "SSID:"@),
        forall|v: Seq<char>|
            !text::starts(#[trigger] ("IP:"@ + v), "SSID:"@) && !text::starts(
                "IP:"@ + v,
                "PWD:"@,
            ),
        forall|v: Seq<char>|
            !text::starts(#[trigger] ("PORT:"@ + v), "SSID:"@) && !text::starts(
                "PORT:"@ + v,
                "PWD:"@,
            ) && !text::starts("PORT:"@ + v, "IP:"@),
{
    reveal_strlit("SSID:");
    reveal_strlit("PWD:");
    reveal_strlit("IP:");
    reveal_strlit("PORT:");
    assert forall|v: Seq<char>| !text::starts(#[trigger] ("PWD:"@ + v), "SSID:"@) by {
        let f = "PWD:"@ + v;
        assert(f[0] == 'P');
        assert(text::starts(f, "SSID:"@) ==> f.take(5)[0] == 'S');
    }
    assert forall|v: Seq<char>|
        !text::starts(#[trigger] ("IP:"@ + v), "SSID:"@) && !text::starts("IP:"@ + v, "PWD:"@) by {
        let f = "IP:"@ + v;
        assert(f[0] == 'I');
        assert(text::starts(f, "SSID:"@) ==> f.take(5)[0] == 'S');
        assert(text::starts(f, "PWD:"@) ==> f.take(4)[0] == 'P');
    }
    assert forall|v: Seq<char>|
        !text::starts(#[trigger] ("PORT:"@ + v), "SSID:"@) && !text::starts("PORT:"@ + v, "PWD:"@)
            && !text::starts("PORT:"@ + v, "IP:"@) by {
        let f = "PORT:"@ + v;
        assert(f[0] == 'P' && f[1] == 'O');
        assert(text::starts(f, "SSID:"@) ==> f.take(5)[0] == 'S');
        assert(text::starts(f, "PWD:"@) ==> f.take(4)[1] == 'W');
        assert(text::starts(f, "IP:"@) ==> f.take(3)[0] == 'I');
    }
}

/// The data that names a network and its password.
pub open spec fn network_text(ssid: Seq<char>, pwd: Seq<char>) -> Seq<char> {
    "SSID:"@ + ssid + ","@ + ("PWD:"@ + pwd)
}

/// The data that names a server too.
pub open spec fn server_text(ssid: Seq<char>, pwd: Seq<char>, ip: Seq<char>, port: u16) -> Seq<char> {
    network_text(ssid, pwd) + ","@ + ("IP:"@ + ip) + ","@ + ("PORT:"@ + text::decimal(port as nat))
}

proof fn lemma_network_parts(ssid: Seq<char>, pwd: Seq<char>)
    requires
        carried(ssid),
        carried(pwd),
    ensures
        text::split_on(network_text(ssid, pwd), ',') == seq!["SSID:"@ + ssid, "PWD:"@ + pwd],
        fields_read(seq!["SSID:"@ + ssid, "PWD:"@ + pwd]) == Some(
            Draft { ssid: Some(ssid), pwd: Some(pwd), ..empty_draft() },
        ),
{
    lemma_field_names();
    lemma_field("SSID:"@, ssid);
    lemma_field("PWD:"@, pwd);
    let a = "SSID:"@ + ssid;
    let b = "PWD:"@ + pwd;
    reveal_strlit(",");
    assert(","@ =~= seq![',']);
    text::lemma_split_joined(a, b, ',');
    assert(seq![a] + seq![b] =~= seq![a, b]);
    let none = Seq::<Seq<char>>::empty();
    lemma_fields_grow(none, a);
    lemma_fields_grow(none.push(a), b);
    assert(none.push(a).push(b) =~= seq![a, b]);
}

/// The network and the password that are sent are the ones that are read, whatever white space
/// follows the data.
pub proof fn law_provisioning_is_read(ssid: Seq<char>, pwd: Seq<char>, end: Seq<char>)
    requires
        carried(ssid),
        carried(pwd),
        forall|i: int| 0 <= i < end.len() ==> text::is_space(#[trigger] end[i]),
    ensures
        provisioning_of(network_text(ssid, pwd) + end) == Ok::<ProvisioningView, CodecErrorView>(
            ProvisioningView { ssid, pwd, ip: None, port: None },
        ),
{
    let s = network_text(ssid, pwd);
    lemma_network_parts(ssid, pwd);
    lemma_field_names();
    lemma_field("PWD:"@, pwd);
    assert(s[0] == "SSID:"@[0]);
    assert(s.last() == ("PWD:"@ + pwd).last());
    assert(("PWD:"@ + pwd).last() == if pwd.len() > 0 {
        pwd.last()
    } else {
        "PWD:"@.last()
    });
    lemma_trimmed_whole(s, end);
}

/// The server that is sent with a network is the one that is read with it.
pub proof fn law_server_is_read(
    ssid: Seq<char>,
    pwd: Seq<char>,
    ip: Seq<char>,
    port: u16,
    end: Seq<char>,
)
    requires
        carried(ssid),
        carried(pwd),
        carried(ip),
        forall|i: int| 0 <= i < end.len() ==> text::is_space(#[trigger] end[i]),
    ensures
        provisioning_of(server_text(ssid, pwd, ip, port) + end) == Ok::<
            ProvisioningView,
            CodecErrorView,
        >(ProvisioningView { ssid, pwd, ip: Some(ip), port: Some(port) }),
{
    let digits = text::decimal(port as nat);
    text::lemma_decimal_is_read(port as nat);
    assert(carried(digits)) by {
        assert forall|i: int| 0 <= i < digits.len() implies #[trigger] digits[i] != ',' by {
            assert(text::is_digit(digits[i]));
        }
        assert(text::is_digit(digits.last()));
    }
    lemma_field_names();
    lemma_network_parts(ssid, pwd);
    lemma_field("IP:"@, ip);
    lemma_field("PORT:"@, digits);
    let n = network_text(ssid, pwd);
    let c = "IP:"@ + ip;
    let d = "PORT:"@ + digits;
    reveal_strlit(",");
    assert(","@ =~= seq![',']);
    let s = server_text(ssid, pwd, ip, port);
    text::lemma_split_joined(n, c, ',');
    text::lemma_split_joined(n + seq![','] + c, d, ',');
    let ab = seq!["SSID:"@ + ssid, "PWD:"@ + pwd];
    assert(ab + seq![c] + seq![d] =~= ab.push(c).push(d));
    lemma_fields_grow(ab, c);
    lemma_fields_grow(ab.push(c), d);
    assert(s[0] == "SSID:"@[0]);
    assert(s.last() == digits.last());
    assert(text::is_digit(digits.last()));
    lemma_trimmed_whole(s, end);
}

} // verus!
