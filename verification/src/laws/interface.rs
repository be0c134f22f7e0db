//! What the user interface asks for over its socket, and what it is answered.

use crate::downlink::{UiCmd, UiReply};
use crate::json;
use crate::json::Doc;
use crate::laws::reports;
use crate::laws::reports::says;
use crate::state::UiState;
use crate::uds;
use crate::uds::{
    answer, answer_doc, dispatch, frame_len, request_served, serve, write_frame, Dispatched,
};
use serde_json::Value;
use vstd::prelude::*;

verus! {

/// A frame is its length as four bytes, the lowest first, and the payload; payloads of more than
/// 65536 bytes are refused on the way out, and those and empty ones on the way in.
pub proof fn law_socket_frames(payload: &[u8], f: Result<Vec<u8>, String>, header: &[u8], n: Result<usize, String>)
    requires
        call_ensures(write_frame, (payload,), f),
        header@.len() == 4,
        call_ensures(frame_len, (header,), n),
    ensures
        f is Ok <==> payload@.len() <= 65536,
        f matches Ok(b) ==> {
            &&& b@.len() == payload@.len() + 4
            &&& b@[0] + 256 * b@[1] + 65536 * b@[2] + 16777216 * b@[3] == payload@.len()
            &&& b@.skip(4) == payload@
        },
        ({
            let len = header@[0] + 256 * header@[1] + 65536 * header@[2] + 16777216 * header@[3];
            &&& n is Ok <==> 1 <= len <= 65536
            &&& n matches Ok(k) ==> k == len
        }),
{
    if f is Ok {
        let b = f->Ok_0@;
        assert(b.skip(4) =~= payload@);
        let k = payload@.len() as int;
        assert(k / 65536 % 256 + k / 16777216 % 256 * 256 <= 1);
    }
}

proof fn lemma_answer_fields(id: Seq<char>, second: Doc, name: Seq<char>, third: Doc)
    requires
        name == "result"@ || name == "error"@,
    ensures
        ({
            let d = json::object_of(seq![("id"@, Doc::Text(id)), ("ok"@, second), (name, third)]);
            says(d, "id"@, Doc::Text(id)) && says(d, "ok"@, second) && says(d, name, third)
        }),
{
    let f = seq![("id"@, Doc::Text(id)), ("ok"@, second), (name, third)];
    reveal_strlit("id");
    reveal_strlit("ok");
    reveal_strlit("result");
    reveal_strlit("error");
    assert("id"@.len() == 2 && "ok"@.len() == 2 && "result"@.len() == 6 && "error"@.len() == 5);
    assert("id"@[0] == 'i' && "ok"@[0] == 'o');
    reports::lemma_field_found(f, 0);
    reports::lemma_field_found(f, 1);
    reports::lemma_field_found(f, 2);
}

/// An answer has the number of its request; it is true with the result where the request was
/// served, and false with the reason where it was not, or where nobody served it in time.
pub proof fn law_answers(id: Seq<char>, reply: Option<UiReply>)
    ensures
        says(answer_doc(id, reply), "id"@, Doc::Text(id)),
        reply matches Some(UiReply::Done(v)) ==> says(answer_doc(id, reply), "ok"@, Doc::Bool(true))
            && says(answer_doc(id, reply), "result"@, json::document(v)),
        reply matches Some(UiReply::Failed(e)) ==> says(
            answer_doc(id, reply),
            "ok"@,
            Doc::Bool(false),
        ) && says(answer_doc(id, reply), "error"@, Doc::Text(e@)),
        reply is None ==> says(answer_doc(id, reply), "ok"@, Doc::Bool(false)) && says(
            answer_doc(id, reply),
            "error"@,
            Doc::Text("dispatcher unavailable"@),
        ),
{
    match reply {
        Some(UiReply::Done(v)) => {
            lemma_answer_fields(id, Doc::Bool(true), "result"@, json::document(v));
        },
        Some(UiReply::Failed(e)) => {
            lemma_answer_fields(id, Doc::Bool(false), "error"@, Doc::Text(e@));
        },
        None => {
            lemma_answer_fields(
                id,
                Doc::Bool(false),
                "error"@,
                Doc::Text("dispatcher unavailable"@),
            );
        },
    }
}

/// The answer goes out so, and a download gives its place back however it ended.
pub proof fn law_answer_is_sent(
    id: &str,
    download: bool,
    reply: Option<UiReply>,
    ui: &mut UiState,
    bytes: Vec<u8>,
)
    requires
        call_ensures(answer, (id, download, reply, ui), bytes),
    ensures
        bytes@ == json::rendered(answer_doc(id@, reply)),
        download ==> !final(ui)@.downloading,
        !download ==> final(ui)@ == old(ui)@,
        final(ui)@.bind_state == old(ui)@.bind_state,
        final(ui)@.account == old(ui)@.account,
{
}

/// What a document has under a key, if that is a text; else nothing.
pub open spec fn named_text(d: Doc, key: Seq<char>) -> Seq<char> {
    match d {
        Doc::Object(e) => match json::lookup(e, key) {
            Some(Doc::Text(s)) => s,
            _ => Seq::empty(),
        },
        _ => Seq::empty(),
    }
}

proof fn lemma_methods()
    ensures
        "bind_status"@ != "download"@,
        "bind_status"@ != "unbind"@,
        "unbind"@ != "download"@,
{
    reveal_strlit("bind_status");
    reveal_strlit("download");
    reveal_strlit("unbind");
    assert("bind_status"@.len() == 11);
    assert("download"@.len() == 8);
    assert("unbind"@.len() == 6);
}

/// Who asks how the device is bound is told so at once: both connections, whether it is bound, the
/// last answer of the cloud, and the account.
pub proof fn law_bind_status(request: Doc, u: UiState, r: Dispatched) -> (d: (Doc, Doc))
    requires
        named_text(request, "method"@) == "bind_status"@,
        request_served(request, u, r),
    ensures
        r matches Dispatched::Reply(b) && b@ == json::rendered(d.0),
        says(d.0, "id"@, Doc::Text(named_text(request, "id"@))),
        says(d.0, "ok"@, Doc::Bool(true)),
        says(d.0, "result"@, d.1),
        says(d.1, "cloud_connected"@, Doc::Bool(u.cloud_connected)),
        says(d.1, "moonraker_connected"@, Doc::Bool(u.moonraker_connected)),
        says(d.1, "bound"@, Doc::Bool(u.bound)),
        says(d.1, "bind_state"@, Doc::Unsigned(u.bind_state as u64)),
        says(d.1, "account"@, Doc::Text(u.account@)),
{
    let f = seq![
        ("cloud_connected"@, Doc::Bool(u.cloud_connected)),
        ("moonraker_connected"@, Doc::Bool(u.moonraker_connected)),
        ("bound"@, Doc::Bool(u.bound)),
        ("bind_state"@, Doc::Unsigned(u.bind_state as u64)),
        ("account"@, Doc::Text(u.account@)),
    ];
    reveal_strlit("cloud_connected");
    reveal_strlit("moonraker_connected");
    reveal_strlit("bound");
    reveal_strlit("bind_state");
    reveal_strlit("account");
    assert("cloud_connected"@.len() == 15 && "moonraker_connected"@.len() == 19 && "bound"@.len()
        == 5 && "bind_state"@.len() == 10 && "account"@.len() == 7);
    reports::lemma_field_found(f, 0);
    reports::lemma_field_found(f, 1);
    reports::lemma_field_found(f, 2);
    reports::lemma_field_found(f, 3);
    reports::lemma_field_found(f, 4);
    let status = uds::bind_status_doc(u);
    let id = named_text(request, "id"@);
    lemma_answer_fields(id, Doc::Bool(true), "result"@, status);
    (uds::ok_doc(id, status), status)
}

/// A download that is asked for goes to the dispatcher with its file and its address where none is
/// running; else it is answered at once, with error code 1.
pub proof fn law_download_request(request: Doc, params: Doc, u: UiState, r: Dispatched) -> (d: (
    Doc,
    Doc,
))
    requires
        named_text(request, "method"@) == "download"@,
        request matches Doc::Object(e) && json::lookup(e, "params"@) == Some(params),
        request_served(request, u, r),
    ensures
        !u.downloading ==> (r matches Dispatched::Ask { id, cmd } && id@ == named_text(
            request,
            "id"@,
        ) && (cmd matches UiCmd::Download { file_type, file_name, url } && {
            &&& file_name@ == named_text(params, "file_name"@)
            &&& url is Some ==> url->0@ == named_text(params, "url"@)
            &&& named_text(params, "url"@).len() > 0 ==> url is Some
            &&& forall|n: u64| #[trigger] says(params, "file_type"@, Doc::Unsigned(n)) ==> file_type
                == n % 256
        })),
        u.downloading ==> (r matches Dispatched::Reply(b) && b@ == json::rendered(d.0)) && says(
            d.0,
            "result"@,
            d.1,
        ) && says(d.1, "err_code"@, Doc::Unsigned(1)),
{
    lemma_methods();
    reports::lemma_field_found(seq![("err_code"@, Doc::Unsigned(1))], 0);
    let id = named_text(request, "id"@);
    lemma_answer_fields(id, Doc::Bool(true), "result"@, uds::busy_doc());
    (uds::ok_doc(id, uds::busy_doc()), uds::busy_doc())
}

/// A request to unbind goes to the dispatcher; one for anything that is not known is answered with
/// its name.
pub proof fn law_other_requests(request: Doc, u: UiState, r: Dispatched) -> (d: Doc)
    requires
        request_served(request, u, r),
    ensures
        named_text(request, "method"@) == "unbind"@ ==> (r matches Dispatched::Ask { id, cmd } && id@
            == named_text(request, "id"@) && cmd is Unbind),
        named_text(request, "method"@) != "unbind"@ && named_text(request, "method"@)
            != "bind_status"@ && named_text(request, "method"@) != "download"@ ==> (
        r matches Dispatched::Reply(b) && b@ == json::rendered(d)) && says(d, "ok"@, Doc::Bool(false))
            && says(d, "error"@, Doc::Text("unknown method: "@ + named_text(request, "method"@))),
{
    lemma_methods();
    let id = named_text(request, "id"@);
    let message = "unknown method: "@ + named_text(request, "method"@);
    lemma_answer_fields(id, Doc::Bool(false), "error"@, Doc::Text(message));
    uds::error_doc(id, message)
}

/// Requests are served so, and one for a download takes the place for it.
pub proof fn law_requests_are_served(request: &Value, raw: &[u8], ui: &mut UiState, r: Dispatched)
    ensures
        call_ensures(serve, (request, ui), r) ==> request_served(
            json::document(*request),
            *old(ui),
            r,
        ) && (named_text(json::document(*request), "method"@) == "download"@
            ==> final(ui)@.downloading) && (named_text(json::document(*request), "method"@)
            != "download"@ ==> final(ui)@ == old(ui)@),
        call_ensures(dispatch, (raw, ui), r) && json::parsed(raw@) is Ok ==> request_served(
            json::parsed(raw@)->Ok_0,
            *old(ui),
            r,
        ),
        call_ensures(dispatch, (raw, ui), r) && json::parsed(raw@) is Err ==> final(ui)@ == old(ui)@
            && (r matches Dispatched::Reply(b) && b@ == json::rendered(
            uds::error_doc(""@, "invalid json: "@ + json::parsed(raw@)->Err_0),
        )),
{
}

} // verus!
