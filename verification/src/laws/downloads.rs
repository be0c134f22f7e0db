//! Where a download goes, and how it ends.

use crate::downlink::{
    call_result, download_reply, handle_ui, planned, transferred, work_for, CmdView, PlanView,
    ReplyView, StepView, Transfer, TransferOutcome, TransferStep, UiCmd, UiReply, Work,
};
use crate::downlink;
use crate::json;
use crate::json::Doc;
use crate::laws::joining::writes;
use crate::laws::reports;
use crate::laws::reports::says;
use crate::state::Event;
use crate::text;
use vstd::prelude::*;

verus! {

/// A file name without directories.
pub open spec fn plain(name: Seq<char>) -> bool {
    name.len() > 0 && forall|i: int|
        0 <= i < name.len() ==> #[trigger] name[i] != '/' && name[i] != '\\'
}

proof fn lemma_base_of(front: Seq<char>, name: Seq<char>)
    requires
        plain(name) || name.len() == 0,
        front.len() == 0 || front.last() == '/' || front.last() == '\\',
    ensures
        downlink::base_name(front + name) == name,
    decreases name.len(),
{
    let s = front + name;
    if name.len() == 0 {
        assert(s =~= front);
        assert(downlink::base_name(s) =~= name);
    } else {
        assert(s.last() == name.last());
        assert(name[name.len() - 1] != '/' && name[name.len() - 1] != '\\');
        assert(s.drop_last() =~= front + name.drop_last());
        if name.len() > 1 {
            assert forall|i: int| 0 <= i < name.drop_last().len() implies #[trigger] name.drop_last()[i]
                != '/' && name.drop_last()[i] != '\\' by {
                assert(name[i] != '/' && name[i] != '\\');
            }
        }
        lemma_base_of(front, name.drop_last());
        assert(name.drop_last().push(name.last()) =~= name);
    }
}

/// A G-code file with an address and a name is downloaded from that address into the directory for
/// downloads, under its name without any directories in front of it.
pub proof fn law_download_target(
    dir: Seq<char>,
    home: Option<Seq<char>>,
    front: Seq<char>,
    name: Seq<char>,
    url: Seq<char>,
)
    requires
        plain(name),
        front.len() == 0 || front.last() == '/' || front.last() == '\\',
        url.len() > 0,
        dir.len() > 0,
        dir[0] != '~',
        dir.last() != '/',
    ensures
        planned(dir, home, 0, front + name, Some(url)) == Ok::<PlanView, u8>(
            PlanView { url, dir, dest: dir + seq!['/'] + name },
        ),
{
    lemma_base_of(front, name);
    reveal_strlit("~/");
    reveal_strlit("/");
    assert("/"@ =~= seq!['/']);
    assert("~/"@[0] == '~');
    assert(!text::starts(dir, "~/"@)) by {
        if text::starts(dir, "~/"@) {
            assert(dir.take(2)[0] == "~/"@[0]);
        }
    }
}

/// `~/` in front of the directory for downloads stands for the home directory, where that is known.
pub proof fn law_home_directory(
    rest: Seq<char>,
    home: Seq<char>,
    name: Seq<char>,
    url: Seq<char>,
)
    requires
        plain(name),
        url.len() > 0,
        rest.len() > 0,
        rest.last() != '/',
    ensures
        planned(seq!['~', '/'] + rest, Some(home), 0, name, Some(url)) == Ok::<PlanView, u8>(
            PlanView {
                url,
                dir: home + seq!['/'] + rest,
                dest: home + seq!['/'] + rest + seq!['/'] + name,
            },
        ),
{
    let none = Seq::<char>::empty();
    lemma_base_of(none, name);
    assert(none + name =~= name);
    reveal_strlit("~/");
    reveal_strlit("/");
    assert("/"@ =~= seq!['/']);
    assert("~/"@ =~= seq!['~', '/']);
    let dir = seq!['~', '/'] + rest;
    assert(dir.take(2) =~= seq!['~', '/']);
    assert(dir.skip(2) =~= rest);
    let target = home + seq!['/'] + rest;
    assert(target.last() == rest.last());
}

/// A request without an address or without a file name is refused with code 1, and one for a file
/// that is no G-code with code 4.
pub proof fn law_refused_downloads(
    dir: Seq<char>,
    home: Option<Seq<char>>,
    file_type: u8,
    front: Seq<char>,
    name: Seq<char>,
    url: Option<Seq<char>>,
)
    requires
        plain(name),
        front.len() == 0 || front.last() == '/' || front.last() == '\\',
    ensures
        url is None || url->0.len() == 0 ==> planned(dir, home, file_type, front + name, url) == Err::<
            PlanView,
            u8,
        >(1),
        planned(dir, home, file_type, front, url) == Err::<PlanView, u8>(1),
        url is Some && url->0.len() > 0 && file_type != 0 ==> planned(
            dir,
            home,
            file_type,
            front + name,
            url,
        ) == Err::<PlanView, u8>(4),
{
    lemma_base_of(front, name);
    lemma_base_of(front, Seq::empty());
    assert(front + Seq::<char>::empty() =~= front);
}

/// The end of a download, by its code.
pub open spec fn over(t: Transfer, code: u8, remove: bool) -> bool {
    t.step == (TransferStep::Over { err_code: code, remove })
}

/// What each failure of a download is reported as: 1 where the server does not answer the request, 2
/// where the directory or the file cannot be made or written, 3 where the bytes do not come or are
/// too many. A file that was begun is removed.
pub proof fn law_failures_of_a_download(p: PlanView, t: Transfer)
    ensures
        t.step is MakeDir ==> over(transferred(p, t, TransferOutcome::Failed), 2, false),
        t.step is Request ==> over(transferred(p, t, TransferOutcome::Failed), 1, false),
        t.step is Create ==> over(transferred(p, t, TransferOutcome::Failed), 2, false),
        t.step is Read ==> over(transferred(p, t, TransferOutcome::Failed), 3, true),
        t.step is Write ==> over(transferred(p, t, TransferOutcome::Failed), 2, true),
        t.step is Flush ==> over(transferred(p, t, TransferOutcome::Failed), 2, true),
{
}

/// A download goes through its steps in order: the root directory, the directory, the request, the
/// file, then as many times as bytes come reading and writing, and the end, which is a success.
pub proof fn law_course_of_a_download(p: PlanView, t: Transfer, n: usize)
    requires
        t.total <= t.max,
    ensures
        t.step is AskRoot ==> transferred(p, t, TransferOutcome::Root(None)) == (Transfer {
            step: TransferStep::MakeDir,
            ..t
        }),
        t.step is MakeDir ==> transferred(p, t, TransferOutcome::Done) == (Transfer {
            step: TransferStep::Request,
            ..t
        }),
        t.step is Request ==> transferred(p, t, TransferOutcome::Done) == (Transfer {
            step: TransferStep::Create,
            ..t
        }),
        t.step is Create ==> transferred(p, t, TransferOutcome::Done) == (Transfer {
            step: TransferStep::Read,
            ..t
        }),
        t.step is Read && n == 0 ==> transferred(p, t, TransferOutcome::Chunk(n)) == (Transfer {
            step: TransferStep::Flush,
            ..t
        }),
        t.step is Read && 0 < n <= t.max - t.total ==> transferred(p, t, TransferOutcome::Chunk(n))
            == (Transfer { step: TransferStep::Write, total: (t.total + n) as u64, ..t }),
        t.step is Read && n > t.max - t.total ==> over(
            transferred(p, t, TransferOutcome::Chunk(n)),
            3,
            true,
        ),
        t.step is Write ==> transferred(p, t, TransferOutcome::Done) == (Transfer {
            step: TransferStep::Read,
            ..t
        }),
        t.step is Flush ==> over(transferred(p, t, TransferOutcome::Done), 0, false),
{
}

/// A file is not downloaded where the printer would not find it: a directory outside the printer's
/// root directory ends the download with code 2, before anything is made.
pub proof fn law_download_stays_under_the_root(p: PlanView, t: Transfer, root: String)
    requires
        t.step is AskRoot,
    ensures
        ({
            let next = transferred(p, t, TransferOutcome::Root(Some(root)));
            let dir = downlink::components_of(p.dir);
            let top = downlink::components_of(root@);
            let inside = top.len() <= dir.len() && forall|i: int|
                0 <= i < top.len() ==> dir[i] == #[trigger] top[i];
            &&& inside ==> next.step is MakeDir
            &&& !inside ==> over(next, 2, false)
        }),
{
    let dir = downlink::components_of(p.dir);
    let top = downlink::components_of(root@);
    if top.len() <= dir.len() {
        if forall|i: int| 0 <= i < top.len() ==> dir[i] == #[trigger] top[i] {
            assert(dir.take(top.len() as int) =~= top);
        } else {
            let i = choose|i: int| 0 <= i < top.len() && dir[i] != #[trigger] top[i];
            assert(dir.take(top.len() as int)[i] == dir[i]);
        }
    }
}

/// The user interface is told where its file is where the download's code is 0, and the code
/// otherwise.
pub proof fn law_download_answer(err_code: u8, dest: Option<&str>, r: UiReply)
    requires
        call_ensures(download_reply, (err_code, dest), r),
    ensures
        err_code == 0 ==> (r@ matches ReplyView::Done(d) && says(
            d,
            "err_code"@,
            Doc::Unsigned(0),
        ) && (dest is Some ==> says(d, "dest"@, Doc::Text(dest->0@)))),
        err_code != 0 ==> (r@ matches ReplyView::Failed(m) && m.len() > 22 && m.take(22)
            == "download failed: code "@ && writes(m.skip(22), err_code as int)),
{
    reveal_strlit("download failed: code ");
    reveal_strlit("err_code");
    reveal_strlit("dest");
    assert("err_code"@.len() == 8 && "dest"@.len() == 4);
    if err_code == 0 {
        let f = downlink::downloaded_fields(text::opt_str(dest));
        reports::lemma_field_found(f, 0);
        if dest is Some {
            reports::lemma_field_found(f, 1);
        }
    } else {
        let m = "download failed: code "@ + text::decimal(err_code as nat);
        text::lemma_decimal_is_read(err_code as nat);
        assert("download failed: code "@.len() == 22);
        assert(m.take(22) =~= "download failed: code "@);
        assert(m.skip(22) =~= text::decimal(err_code as nat));
    }
}

/// The result of a command is the one for success where there is no error, else the one for failure
/// and the error behind it.
pub proof fn law_result_of_a_call(ok: &str, err: &str, error: Option<&str>, r: String)
    requires
        call_ensures(call_result, (ok, err, error), r),
    ensures
        error is None ==> r@ == ok@,
        error is Some ==> r@ == err@ + error->0@,
{
}

/// What the dispatcher does for a command of the cloud: it downloads the file that is asked for,
/// deletes the file that is named, lists the files, and answers that the device has been unbound.
pub proof fn law_dispatch(c: CmdView, w: Work)
    requires
        work_for(c, w),
    ensures
        c matches CmdView::Gcode { cmd_type, raw } ==> (w matches Work::Gcode {
            cmd_type: told,
            step,
        } && told@ == cmd_type && step@ == crate::laws::commands::carried_out(raw)),
        c matches CmdView::DownloadBegin { file_type, file_name, url, .. } ==> (
        w matches Work::Download { file_type: t, file_name: n, url: u } && {
            &&& t == file_type
            &&& n@ == file_name
            &&& url is Some ==> u is Some && u->0@ == url->0
            &&& url is None ==> u is None
        }),
        c matches CmdView::DeleteFile { file_name } ==> (w matches Work::Gcode {
            cmd_type: told,
            step,
        } && told@ == "M30"@ && (step@ matches StepView::Call { call, on_ok, on_err } && {
            &&& call.method == "server.files.delete_file"@
            &&& call.params == Doc::Object(seq![("path"@, Doc::Text(file_name))])
            &&& call.timeout_secs == 5
            &&& on_ok == "File deleted"@
            &&& on_err == "Deletion failed: "@
        })),
        c is ListFiles ==> w is ListFiles,
        c is ServerUnbind ==> (w matches Work::Report(
            Event::GcodeResult { cmd_type, result },
        ) && cmd_type@ == "server_unbind"@ && result@ == "OK"@),
{
    if c is DeleteFile {
        let one = seq![("path"@, Doc::Text(c->DeleteFile_file_name))];
        assert(one.drop_last() =~= Seq::<(Seq<char>, Doc)>::empty());
        assert(json::collected(one) =~= one);
    }
}

/// What a request of the user interface leads to first: a download is reported as begun and answered
/// later, unbinding is answered at once, and a query for firmware waits for the cloud.
pub proof fn law_requests_of_the_interface(cmd: &UiCmd, ticket: u64, r: (Event, Option<UiReply>))
    requires
        call_ensures(handle_ui, (cmd, ticket), r),
    ensures
        cmd matches UiCmd::Download { file_type, file_name, .. } ==> (
        r.0 matches Event::DownloadStarted { file_type: t, file_name: n } && t == *file_type && n@
            == file_name@ && r.1 is None),
        cmd is Unbind ==> r.0 is UiUnbind && (r.1 matches Some(a) && (a@ matches ReplyView::Done(d)
            && says(d, "ok"@, Doc::Bool(true)))),
        cmd is UpgradeQuery ==> r.0 == (Event::UpgradeQueryRequested { ticket: Some(ticket) })
            && r.1 is None,
{
    reports::lemma_field_found(seq![("ok"@, Doc::Bool(true))], 0);
}

/// A part of a path that names something.
pub open spec fn names(part: Seq<char>) -> bool {
    &&& part.len() > 0
    &&& part != "."@
    &&& forall|i: int| 0 <= i < part.len() ==> #[trigger] part[i] != '/'
}

/// The components of a path are its parts between slashes, in front of which an absolute path has
/// its root: one more part is one more component, and a slash at the end is none.
pub proof fn law_components(path: Seq<char>, part: Seq<char>)
    requires
        names(part),
    ensures
        path.len() > 0 ==> downlink::components_of(path + seq!['/'] + part)
            == downlink::components_of(path).push(part),
        downlink::components_of(seq!['/'] + part) == seq!["/"@, part],
        downlink::components_of(part) == seq![part],
        path.len() > 0 ==> downlink::components_of(path + seq!['/']) == downlink::components_of(
            path,
        ),
{
    let none = Seq::<char>::empty();
    let slash = seq!['/'];
    text::lemma_find_char(part, '/', part.len() as int);
    text::lemma_find_char(none, '/', 0);
    assert(text::split_on(part, '/') =~= seq![part]);
    assert(text::split_on(none, '/') =~= seq![none]);
    text::lemma_split_joined(path, part, '/');
    text::lemma_split_joined(path, none, '/');
    text::lemma_split_joined(none, part, '/');
    assert(path + slash + none =~= path + slash);
    assert(none + slash + part =~= slash + part);
    let parts = text::split_on(path, '/');
    assert((parts + seq![part]).drop_last() =~= parts);
    assert((parts + seq![none]).drop_last() =~= parts);
    let one = seq![part];
    assert(one.drop_last() =~= Seq::<Seq<char>>::empty());
    assert(one.last() == part);
    assert(downlink::named_parts(one.drop_last()) =~= Seq::<Seq<char>>::empty());
    assert(downlink::named_parts(one) == downlink::named_parts(one.drop_last()).push(part));
    assert(downlink::named_parts(one) =~= one);
    let two = seq![none] + seq![part];
    assert(two.drop_last() =~= seq![none]);
    assert(seq![none].drop_last() =~= Seq::<Seq<char>>::empty());
    assert(seq![none].last() == none);
    assert(downlink::named_parts(seq![none].drop_last()) =~= Seq::<Seq<char>>::empty());
    assert(downlink::named_parts(seq![none]) =~= Seq::<Seq<char>>::empty());
    assert(two.last() == part);
    assert(downlink::named_parts(two) =~= one);
    assert(part[0] != '/');
    assert(downlink::components_of(slash + part) =~= seq!["/"@, part]);
    assert(downlink::components_of(part) =~= seq![part]);
    if path.len() > 0 {
        let whole = path + slash + part;
        assert(whole[0] == path[0]);
        assert((path + slash)[0] == path[0]);
        assert(downlink::components_of(whole) =~= downlink::components_of(path).push(part));
        assert(downlink::components_of(path + slash) =~= downlink::components_of(path));
    }
}

} // verus!
