//! The socket on which the user interface sends its requests: frames, requests and answers.
//!
//! A frame is the length of its payload in four bytes, the lowest first, and the payload, a JSON
//! document in UTF-8.

use crate::downlink::{UiCmd, UiReply};
use crate::json;
use crate::json::{Doc, Fields};
use crate::state::UiState;
use crate::text;
use serde_json::Value;
use vstd::prelude::*;

verus! {

/// The longest payload of a frame.
pub const MAX_MSG_LEN: usize = 65536;

/// The number that four bytes stand for, the lowest first.
pub open spec fn little_endian(b: Seq<u8>) -> int {
    b[0] + 256 * b[1] + 65536 * b[2] + 16777216 * b[3]
}

/// The frame around a payload.
pub open spec fn framed(payload: Seq<u8>) -> Seq<u8> {
    let n = payload.len() as int;
    seq![
        (n % 256) as u8,
        (n / 256 % 256) as u8,
        (n / 65536 % 256) as u8,
        (n / 16777216 % 256) as u8,
    ] + payload
}

/// The length of the payload that follows these four bytes. Frames without a payload and frames
/// longer than the limit are refused.
pub fn frame_len(header: &[u8]) -> (r: Result<usize, String>)
    requires
        header@.len() == 4,
    ensures
        match r {
            Ok(n) => n == little_endian(header@) && 1 <= n <= MAX_MSG_LEN,
            Err(e) => {
                &&& !(1 <= little_endian(header@) <= MAX_MSG_LEN)
                &&& e@ == "bad frame len "@ + text::decimal(little_endian(header@) as nat)
            },
        },
{
    let n: u64 = header[0] as u64 + 256 * (header[1] as u64) + 65536 * (header[2] as u64)
        + 16777216 * (header[3] as u64);
    if n == 0 || n > MAX_MSG_LEN as u64 {
        return Err(text::join("bad frame len ", text::number_text(n).as_str()));
    }
    Ok(n as usize)
}

/// The frame to write for a payload.
pub fn write_frame(payload: &[u8]) -> (r: Result<Vec<u8>, String>)
    ensures
        match r {
            Ok(f) => payload@.len() <= MAX_MSG_LEN && f@ == framed(payload@),
            Err(e) => payload@.len() > MAX_MSG_LEN && e@ == "payload too large"@,
        },
{
    if payload.len() > MAX_MSG_LEN {
        return Err("payload too large".to_owned());
    }
    let n: usize = payload.len();
    let mut f: Vec<u8> = Vec::new();
    f.push((n % 256) as u8);
    f.push((n / 256 % 256) as u8);
    f.push((n / 65536 % 256) as u8);
    f.push(0);
    assert(n / 16777216 == 0);
    f.extend_from_slice(payload);
    assert(f@ =~= framed(payload@));
    Ok(f)
}

/// What is written is read again: the first four bytes of a frame give the length of the
/// payload, which is the rest of the frame.
pub proof fn law_frame_round_trip(payload: Seq<u8>)
    requires
        1 <= payload.len() <= MAX_MSG_LEN,
    ensures
        little_endian(framed(payload).take(4)) == payload.len(),
        framed(payload).skip(4) == payload,
{
    let n = payload.len() as int;
    assert(n / 65536 % 256 + n / 16777216 % 256 * 256 <= 1);
    assert(framed(payload).skip(4) =~= payload);
}

/// The answer to a request that was served.
pub open spec fn ok_doc(id: Seq<char>, result: Doc) -> Doc {
    json::object_of(seq![("id"@, Doc::Text(id)), ("ok"@, Doc::Bool(true)), ("result"@, result)])
}

/// The answer to a request that was not served.
pub open spec fn error_doc(id: Seq<char>, message: Seq<char>) -> Doc {
    json::object_of(
        seq![("id"@, Doc::Text(id)), ("ok"@, Doc::Bool(false)), ("error"@, Doc::Text(message))],
    )
}

/// The answer to a request that was served, as it is sent.
pub fn ok_json(id: &str, result: Value) -> (bytes: Vec<u8>)
    ensures
        bytes@ == json::rendered(ok_doc(id@, json::document(result))),
{
    let ghost d = json::document(result);
    let mut f: Fields = Fields::new();
    f.text("id", id);
    f.boolean("ok", true);
    f.value("result", result);
    assert(f@ =~= seq![("id"@, Doc::Text(id@)), ("ok"@, Doc::Bool(true)), ("result"@, d)]);
    json::to_bytes(&f.finish())
}

/// The answer to a request that was not served, as it is sent.
pub fn error_json(id: &str, message: &str) -> (bytes: Vec<u8>)
    ensures
        bytes@ == json::rendered(error_doc(id@, message@)),
{
    let mut f: Fields = Fields::new();
    f.text("id", id);
    f.boolean("ok", false);
    f.text("error", message);
    assert(f@ =~= seq![
        ("id"@, Doc::Text(id@)),
        ("ok"@, Doc::Bool(false)),
        ("error"@, Doc::Text(message@)),
    ]);
    json::to_bytes(&f.finish())
}

/// The answer to a frame that cannot be read.
pub fn frame_error_json(error: &str) -> (bytes: Vec<u8>)
    ensures
        bytes@ == json::rendered(error_doc(""@, "frame error: "@ + error@)),
{
    error_json("", text::join("frame error: ", error).as_str())
}

/// What a request of the user interface leads to.
#[derive(Debug)]
pub enum Dispatched {
    /// The request is answered with this.
    Reply(Vec<u8>),
    /// The dispatcher has to be asked; [`answer`] makes an answer of its reply.
    Ask { id: String, cmd: UiCmd },
}

/// The identifier that a request carries; a request without one has an empty one.
pub open spec fn request_id(d: Doc) -> Seq<char> {
    match json::text_field(d, "id"@) {
        Some(s) => s,
        None => Seq::empty(),
    }
}

/// The method that a request asks for.
pub open spec fn request_method(d: Doc) -> Seq<char> {
    match json::text_field(d, "method"@) {
        Some(s) => s,
        None => Seq::empty(),
    }
}

/// The parameters of a request.
pub open spec fn request_params(d: Doc) -> Doc {
    match json::field(d, "params"@) {
        Some(p) => p,
        None => Doc::Null,
    }
}

/// How the device is bound and connected, as the user interface is told.
pub open spec fn bind_status_doc(u: UiState) -> Doc {
    json::object_of(
        seq![
            ("cloud_connected"@, Doc::Bool(u.cloud_connected)),
            ("moonraker_connected"@, Doc::Bool(u.moonraker_connected)),
            ("bound"@, Doc::Bool(u.bound)),
            ("bind_state"@, Doc::Unsigned(u.bind_state as u64)),
            ("account"@, Doc::Text(u.account@)),
        ],
    )
}

/// A download that has to wait: another one is running.
pub open spec fn busy_doc() -> Doc {
    json::object_of(seq![("err_code"@, Doc::Unsigned(1))])
}

/// Whether `cmd` is the download that the parameters ask for. The type of the file is the lowest
/// byte of a number, 0 where there is none.
pub open spec fn download_asked(params: Doc, cmd: UiCmd) -> bool {
    cmd matches UiCmd::Download { file_type, file_name, url } && {
        &&& file_type == match json::unsigned_field(params, "file_type"@) {
            Some(n) => n % 256,
            None => 0,
        }
        &&& file_name@ == match json::text_field(params, "file_name"@) {
            Some(s) => s,
            None => Seq::empty(),
        }
        &&& match json::text_field(params, "url"@) {
            Some(s) => url is Some && url->0@ == s,
            None => url is None,
        }
    }
}

/// Whether a request leads to `r`, in the state `u` of the user interface.
pub open spec fn request_served(request: Doc, u: UiState, r: Dispatched) -> bool {
    let id = request_id(request);
    let method = request_method(request);
    if method == "bind_status"@ {
        r matches Dispatched::Reply(b) && b@ == json::rendered(ok_doc(id, bind_status_doc(u)))
    } else if method == "download"@ {
        if u.downloading {
            r matches Dispatched::Reply(b) && b@ == json::rendered(ok_doc(id, busy_doc()))
        } else {
            r matches Dispatched::Ask { id: i, cmd } && i@ == id && download_asked(
                request_params(request),
                cmd,
            )
        }
    } else if method == "unbind"@ {
        r matches Dispatched::Ask { id: i, cmd } && i@ == id && cmd is Unbind
    } else {
        r matches Dispatched::Reply(b) && b@ == json::rendered(
            error_doc(id, "unknown method: "@ + method),
        )
    }
}

fn bind_status(u: &UiState) -> (v: Value)
    ensures
        json::document(v) == bind_status_doc(*u),
{
    let mut f: Fields = Fields::new();
    f.boolean("cloud_connected", u.cloud_connected);
    f.boolean("moonraker_connected", u.moonraker_connected);
    f.boolean("bound", u.bound);
    f.unsigned("bind_state", u.bind_state as u64);
    f.text("account", u.account.as_str());
    assert(f@ =~= seq![
        ("cloud_connected"@, Doc::Bool(u.cloud_connected)),
        ("moonraker_connected"@, Doc::Bool(u.moonraker_connected)),
        ("bound"@, Doc::Bool(u.bound)),
        ("bind_state"@, Doc::Unsigned(u.bind_state as u64)),
        ("account"@, Doc::Text(u.account@)),
    ]);
    f.finish()
}

fn busy_value() -> (v: Value)
    ensures
        json::document(v) == busy_doc(),
{
    let mut f: Fields = Fields::new();
    f.unsigned("err_code", 1);
    assert(f@ =~= seq![("err_code"@, Doc::Unsigned(1))]);
    f.finish()
}

fn empty_text() -> (s: &'static str)
    ensures
        s@ == Seq::<char>::empty(),
{
    proof {
        reveal_strlit("");
        assert(""@ =~= Seq::<char>::empty());
    }
    ""
}

fn text_of<'a>(v: &'a Value, key: &str) -> (s: &'a str)
    ensures
        s@ == match json::text_field(json::document(*v), key@) {
            Some(t) => t,
            None => Seq::empty(),
        },
{
    match json::get_text(v, key) {
        Some(t) => t,
        None => empty_text(),
    }
}

fn download_cmd(params: Option<&Value>) -> (cmd: UiCmd)
    ensures
        download_asked(
            match json::opt_document(params) {
                Some(d) => d,
                None => Doc::Null,
            },
            cmd,
        ),
{
    match params {
        Some(p) => {
            let file_type: u8 = match json::get_unsigned(p, "file_type") {
                Some(n) => (n % 256) as u8,
                None => 0,
            };
            let url: Option<String> = match json::get_text(p, "url") {
                Some(u) => Some(u.to_owned()),
                None => None,
            };
            UiCmd::Download { file_type, file_name: text_of(p, "file_name").to_owned(), url }
        },
        None => UiCmd::Download { file_type: 0, file_name: String::new(), url: None },
    }
}

proof fn lemma_method_names()
    ensures
        "bind_status"@ != "download"@,
        "unbind"@ != "download"@,
{
    reveal_strlit("bind_status");
    reveal_strlit("download");
    reveal_strlit("unbind");
    assert("bind_status"@.len() == 11);
    assert("download"@.len() == 8);
    assert("unbind"@.len() == 6);
}

/// Serves a request that has been read: it is answered at once, or the dispatcher is asked. A
/// download claims the only place there is for one, and is refused while that is taken.
pub fn serve(request: &Value, ui: &mut UiState) -> (r: Dispatched)
    ensures
        request_served(json::document(*request), *old(ui), r),
        final(ui)@ == (crate::state::UiView {
            downloading: old(ui).downloading || request_method(json::document(*request))
                == "download"@,
            ..old(ui)@
        }),
{
    proof {
        lemma_method_names();
    }
    let id: &str = text_of(request, "id");
    let method: &str = text_of(request, "method");
    if text::same(method, "bind_status") {
        return Dispatched::Reply(ok_json(id, bind_status(ui)));
    }
    if text::same(method, "download") {
        if ui.downloading {
            return Dispatched::Reply(ok_json(id, busy_value()));
        }
        ui.downloading = true;
        let cmd: UiCmd = download_cmd(json::get(request, "params"));
        return Dispatched::Ask { id: id.to_owned(), cmd };
    }
    if text::same(method, "unbind") {
        return Dispatched::Ask { id: id.to_owned(), cmd: UiCmd::Unbind };
    }
    Dispatched::Reply(error_json(id, text::join("unknown method: ", method).as_str()))
}

/// Serves a request as it comes from the socket. One that is no JSON document is answered with
/// the reason.
pub fn dispatch(request: &[u8], ui: &mut UiState) -> (r: Dispatched)
    ensures
        match json::parsed(request@) {
            Ok(d) => {
                &&& request_served(d, *old(ui), r)
                &&& final(ui)@ == (crate::state::UiView {
                    downloading: old(ui).downloading || request_method(d) == "download"@,
                    ..old(ui)@
                })
            },
            Err(e) => {
                &&& r matches Dispatched::Reply(b) && b@ == json::rendered(
                    error_doc(""@, "invalid json: "@ + e),
                )
                &&& final(ui)@ == old(ui)@
            },
        },
{
    match json::parse(request) {
        Ok(v) => serve(&v, ui),
        Err(e) => Dispatched::Reply(
            error_json("", text::join("invalid json: ", e.as_str()).as_str()),
        ),
    }
}

/// The answer that the dispatcher's reply makes.
pub open spec fn answer_doc(id: Seq<char>, reply: Option<UiReply>) -> Doc {
    match reply {
        Some(UiReply::Done(v)) => ok_doc(id, json::document(v)),
        Some(UiReply::Failed(e)) => error_doc(id, e@),
        None => error_doc(id, "dispatcher unavailable"@),
    }
}

/// The answer to a request that went to the dispatcher, which gave no reply in time where `reply`
/// is `None`. A download gives its place back, however it ended.
pub fn answer(id: &str, download: bool, reply: Option<UiReply>, ui: &mut UiState) -> (bytes: Vec<u8>)
    ensures
        bytes@ == json::rendered(answer_doc(id@, reply)),
        final(ui)@ == (crate::state::UiView {
            downloading: old(ui).downloading && !download,
            ..old(ui)@
        }),
{
    if download {
        ui.downloading = false;
    }
    match reply {
        Some(UiReply::Done(v)) => ok_json(id, v),
        Some(UiReply::Failed(e)) => error_json(id, e.as_str()),
        None => error_json(id, "dispatcher unavailable"),
    }
}

/// Two requests for a download, one after the other, do not both reach the dispatcher: while the
/// first is under way the second is answered that the device is busy.
pub proof fn law_second_download_is_refused(
    first: Doc,
    second: Doc,
    before: UiState,
    between: UiState,
    a: Dispatched,
    b: Dispatched,
)
    requires
        request_method(first) == "download"@,
        request_method(second) == "download"@,
        request_served(first, before, a),
        between@ == (crate::state::UiView {
            downloading: before.downloading || request_method(first) == "download"@,
            ..before@
        }),
        request_served(second, between, b),
    ensures
        b matches Dispatched::Reply(r) && r@ == json::rendered(
            ok_doc(request_id(second), busy_doc()),
        ),
{
    lemma_method_names();
    assert(between.downloading == between@.downloading);
}

} // verus!
