//! Commands to the printer: what they are, and how each is carried out.

use crate::config::DownloadConfig;
use crate::gcode_translator;
use crate::gcode_translator::{GcodeKind, GcodeView};
use crate::json;
use crate::json::{Doc, Fields};
use crate::protocol;
use crate::state::Event;
use crate::text;
use serde_json::Value;
use vstd::prelude::*;

verus! {

/// A command from the cloud.
#[derive(Debug, Clone)]
pub enum DownlinkCmd {
    /// Run a G-code command; `cmd_type` goes back with the result.
    Gcode { cmd_type: String, raw: String },
    /// Download a file: 0 G-code, 1 firmware of the controller, 2 firmware of the radio. Firmware
    /// is not supported.
    DownloadBegin {
        file_type: u8,
        file_name: String,
        url: Option<String>,
        server_ip: Option<String>,
    },
    /// Delete a file.
    DeleteFile { file_name: String },
    /// List the files.
    ListFiles,
    /// The cloud has unbound the device.
    ServerUnbind,
}

/// The contents of a [`DownlinkCmd`].
#[verifier::ext_equal]
pub enum CmdView {
    Gcode { cmd_type: Seq<char>, raw: Seq<char> },
    DownloadBegin {
        file_type: u8,
        file_name: Seq<char>,
        url: Option<Seq<char>>,
        server_ip: Option<Seq<char>>,
    },
    DeleteFile { file_name: Seq<char> },
    ListFiles,
    ServerUnbind,
}

impl View for DownlinkCmd {
    type V = CmdView;

    open spec fn view(&self) -> CmdView {
        match *self {
            DownlinkCmd::Gcode { cmd_type, raw } => CmdView::Gcode {
                cmd_type: cmd_type@,
                raw: raw@,
            },
            DownlinkCmd::DownloadBegin { file_type, file_name, url, server_ip } =>
            CmdView::DownloadBegin {
                file_type,
                file_name: file_name@,
                url: protocol::opt_text(url),
                server_ip: protocol::opt_text(server_ip),
            },
            DownlinkCmd::DeleteFile { file_name } => CmdView::DeleteFile { file_name: file_name@ },
            DownlinkCmd::ListFiles => CmdView::ListFiles,
            DownlinkCmd::ServerUnbind => CmdView::ServerUnbind,
        }
    }
}

/// What the user interface is answered.
#[derive(Debug)]
pub enum UiReply {
    Done(Value),
    Failed(String),
}

/// The contents of a [`UiReply`].
#[verifier::ext_equal]
pub enum ReplyView {
    Done(json::Doc),
    Failed(Seq<char>),
}

impl View for UiReply {
    type V = ReplyView;

    open spec fn view(&self) -> ReplyView {
        match *self {
            UiReply::Done(v) => ReplyView::Done(json::document(v)),
            UiReply::Failed(e) => ReplyView::Failed(e@),
        }
    }
}

/// A request of the user interface.
#[derive(Debug)]
pub enum UiCmd {
    /// Download a file.
    Download { file_type: u8, file_name: String, url: Option<String> },
    /// Unbind the device.
    Unbind,
    /// Ask the cloud for new firmware.
    UpgradeQuery,
}

/// A call of the printer's server.
#[derive(Debug)]
pub struct RpcCall {
    pub method: &'static str,
    pub params: Value,
    pub timeout_secs: u64,
}

/// The contents of an [`RpcCall`].
#[verifier::ext_equal]
pub struct CallView {
    pub method: Seq<char>,
    pub params: Doc,
    pub timeout_secs: u64,
}

impl View for RpcCall {
    type V = CallView;

    open spec fn view(&self) -> CallView {
        CallView {
            method: self.method@,
            params: json::document(self.params),
            timeout_secs: self.timeout_secs,
        }
    }
}

/// How a G-code command is carried out.
#[derive(Debug)]
pub enum GcodeStep {
    /// Nothing has to be done; this is the result.
    Reply(String),
    /// Call the printer's server; the result is `on_ok`, or `on_err` and the error.
    Call { call: RpcCall, on_ok: &'static str, on_err: &'static str },
    /// Send the list of files; the result is `OK`.
    ListFiles,
}

/// The contents of a [`GcodeStep`].
#[verifier::ext_equal]
pub enum StepView {
    Reply(Seq<char>),
    Call { call: CallView, on_ok: Seq<char>, on_err: Seq<char> },
    ListFiles,
}

impl View for GcodeStep {
    type V = StepView;

    open spec fn view(&self) -> StepView {
        match *self {
            GcodeStep::Reply(s) => StepView::Reply(s@),
            GcodeStep::Call { call, on_ok, on_err } => StepView::Call {
                call: call@,
                on_ok: on_ok@,
                on_err: on_err@,
            },
            GcodeStep::ListFiles => StepView::ListFiles,
        }
    }
}

/// An object with one text.
pub open spec fn one_text(key: Seq<char>, value: Seq<char>) -> Doc {
    json::object_of(seq![(key, Doc::Text(value))])
}

/// An object without fields.
pub open spec fn no_fields() -> Doc {
    json::object_of(Seq::empty())
}

fn one_text_value(key: &str, value: &str) -> (v: Value)
    ensures
        json::document(v) == one_text(key@, value@),
{
    let mut f: Fields = Fields::new();
    f.text(key, value);
    assert(f@ =~= seq![(key@, Doc::Text(value@))]);
    f.finish()
}

/// A call that runs a G-code script.
pub open spec fn script_step(script: Seq<char>) -> StepView {
    StepView::Call {
        call: CallView {
            method: "printer.gcode.script"@,
            params: one_text("script"@, script),
            timeout_secs: 30,
        },
        on_ok: "OK"@,
        on_err: "ERR: "@,
    }
}

/// A call that controls the print.
pub open spec fn print_ctrl_step(method: Seq<char>) -> StepView {
    StepView::Call {
        call: CallView { method, params: no_fields(), timeout_secs: 10 },
        on_ok: "OK"@,
        on_err: "ERR: "@,
    }
}

/// A call that deletes a file.
pub open spec fn delete_step(file: Seq<char>) -> StepView {
    StepView::Call {
        call: CallView {
            method: "server.files.delete_file"@,
            params: one_text("path"@, file),
            timeout_secs: 5,
        },
        on_ok: "File deleted"@,
        on_err: "Deletion failed: "@,
    }
}

/// How a command is carried out.
pub open spec fn gcode_step(k: GcodeView) -> StepView {
    match k {
        GcodeView::Empty => StepView::Reply("OK"@),
        GcodeView::Native(text) => script_step(text),
        GcodeView::Leveling => script_step("BED_MESH_CALIBRATE"@),
        GcodeView::PrintStart(file) => StepView::Call {
            call: CallView {
                method: "printer.print.start"@,
                params: one_text("filename"@, file),
                timeout_secs: 10,
            },
            on_ok: "File selected OK"@,
            on_err: "File open failed: "@,
        },
        GcodeView::Resume => print_ctrl_step("printer.print.resume"@),
        GcodeView::Pause => print_ctrl_step("printer.print.pause"@),
        GcodeView::Cancel => print_ctrl_step("printer.print.cancel"@),
        GcodeView::ListFiles => StepView::ListFiles,
        GcodeView::DeleteFile(file) => delete_step(file),
        GcodeView::Unsupported(s) => StepView::Reply("ERR: unsupported: "@ + s),
    }
}

fn script(lines: &str) -> (s: GcodeStep)
    ensures
        s@ == script_step(lines@),
{
    GcodeStep::Call {
        call: RpcCall {
            method: "printer.gcode.script",
            params: one_text_value("script", lines),
            timeout_secs: 30,
        },
        on_ok: "OK",
        on_err: "ERR: ",
    }
}

fn print_ctrl(method: &'static str) -> (s: GcodeStep)
    ensures
        s@ == print_ctrl_step(method@),
{
    let f: Fields = Fields::new();
    GcodeStep::Call {
        call: RpcCall { method, params: f.finish(), timeout_secs: 10 },
        on_ok: "OK",
        on_err: "ERR: ",
    }
}

/// How a file is deleted.
pub fn delete_file(file: &str) -> (s: GcodeStep)
    ensures
        s@ == delete_step(file@),
{
    GcodeStep::Call {
        call: RpcCall {
            method: "server.files.delete_file",
            params: one_text_value("path", file),
            timeout_secs: 5,
        },
        on_ok: "File deleted",
        on_err: "Deletion failed: ",
    }
}

/// How a G-code command from the cloud is carried out.
pub fn exec_gcode(raw: &str) -> (s: GcodeStep)
    ensures
        s@ == gcode_step(gcode_translator::meaning(raw@)),
{
    match gcode_translator::translate(raw) {
        GcodeKind::Empty => GcodeStep::Reply("OK".to_owned()),
        GcodeKind::Native(text) => script(text.as_str()),
        GcodeKind::Leveling => script("BED_MESH_CALIBRATE"),
        GcodeKind::PrintStart(file) => GcodeStep::Call {
            call: RpcCall {
                method: "printer.print.start",
                params: one_text_value("filename", file.as_str()),
                timeout_secs: 10,
            },
            on_ok: "File selected OK",
            on_err: "File open failed: ",
        },
        GcodeKind::Resume => print_ctrl("printer.print.resume"),
        GcodeKind::Pause => print_ctrl("printer.print.pause"),
        GcodeKind::Cancel => print_ctrl("printer.print.cancel"),
        GcodeKind::ListFiles => GcodeStep::ListFiles,
        GcodeKind::DeleteFile(file) => delete_file(file.as_str()),
        GcodeKind::Unsupported(s) => GcodeStep::Reply(text::join("ERR: unsupported: ", s.as_str())),
    }
}

/// The result of a command whose call succeeded, or failed with an error.
pub fn call_result(on_ok: &str, on_err: &str, error: Option<&str>) -> (r: String)
    ensures
        r@ == match error {
            None => on_ok@,
            Some(e) => on_err@ + e@,
        },
{
    match error {
        None => on_ok.to_owned(),
        Some(e) => text::join(on_err, e),
    }
}

/// The file that one item of the server's list describes.
pub open spec fn listed_file(d: Doc) -> Option<(Seq<char>, u64)> {
    match json::text_field(d, "path"@) {
        Some(name) if name.len() > 0 => Some(
            (
                name,
                match json::unsigned_field(d, "size"@) {
                    Some(n) => n,
                    None => 0,
                },
            ),
        ),
        _ => None,
    }
}

/// The files that the items of the server's list describe.
pub open spec fn listed_files(items: Seq<Doc>) -> Seq<(Seq<char>, u64)>
    decreases items.len(),
{
    if items.len() == 0 {
        Seq::empty()
    } else {
        match listed_file(items.last()) {
            Some(f) => listed_files(items.drop_last()).push(f),
            None => listed_files(items.drop_last()),
        }
    }
}

/// The call that asks for the files of the root directory called `gcodes`.
pub open spec fn list_files_view() -> CallView {
    CallView {
        method: "server.files.list"@,
        params: one_text("root"@, "gcodes"@),
        timeout_secs: 5,
    }
}

/// How the files are asked for.
pub fn list_files_call() -> (c: RpcCall)
    ensures
        c@ == list_files_view(),
{
    RpcCall {
        method: "server.files.list",
        params: one_text_value("root", "gcodes"),
        timeout_secs: 5,
    }
}

/// The files of the server's answer; anything but a list has none, and items without a path are
/// passed over.
pub fn list_files(answer: &Value) -> (files: Vec<(String, u64)>)
    ensures
        protocol::file_views(files@) == match json::document(*answer) {
            Doc::List(items) => listed_files(items),
            _ => Seq::empty(),
        },
{
    let mut files: Vec<(String, u64)> = Vec::new();
    assert(protocol::file_views(files@) =~= Seq::<(Seq<char>, u64)>::empty());
    if let Some(items) = json::as_items(answer) {
        let ghost docs = json::documents(items@);
        let mut i: usize = 0;
        assert(docs.take(0) =~= Seq::<Doc>::empty());
        while i < items.len()
            invariant
                i <= items@.len(),
                docs == json::documents(items@),
                protocol::file_views(files@) == listed_files(docs.take(i as int)),
            decreases items@.len() - i,
        {
            proof {
                assert(docs.take(i as int + 1).drop_last() =~= docs.take(i as int));
                assert(docs.take(i as int + 1).last() == json::document(items@[i as int]));
            }
            let size: u64 = match json::get_unsigned(&items[i], "size") {
                Some(n) => n,
                None => 0,
            };
            if let Some(name) = json::get_text(&items[i], "path") {
                if !name.is_empty() {
                    let ghost before = files@;
                    files.push((name.to_owned(), size));
                    assert(protocol::file_views(files@) =~= protocol::file_views(before).push(
                        (name@, size),
                    ));
                }
            }
            i += 1;
        }
        assert(docs.take(i as int) =~= docs);
    }
    files
}

/// The call that asks for the root directories.
pub open spec fn roots_view() -> CallView {
    CallView { method: "server.files.roots"@, params: no_fields(), timeout_secs: 5 }
}

/// How the root directories are asked for.
pub fn roots_call() -> (c: RpcCall)
    ensures
        c@ == roots_view(),
{
    let f: Fields = Fields::new();
    RpcCall { method: "server.files.roots", params: f.finish(), timeout_secs: 5 }
}

/// The path of the root directory called `gcodes`: that of the first root with this name.
pub open spec fn gcode_root_in(roots: Seq<Doc>) -> Option<Seq<char>>
    decreases roots.len(),
{
    if roots.len() == 0 {
        None
    } else if json::text_field(roots[0], "name"@) == Some("gcodes"@) {
        json::text_field(roots[0], "path"@)
    } else {
        gcode_root_in(roots.drop_first())
    }
}

/// The directory whose files the printer's server offers for printing, in the server's answer.
pub fn gcode_root(answer: &Value) -> (root: Option<String>)
    ensures
        protocol::opt_text(root) == match json::document(*answer) {
            Doc::List(roots) => gcode_root_in(roots),
            _ => None,
        },
{
    if let Some(roots) = json::as_items(answer) {
        let ghost docs = json::documents(roots@);
        let mut i: usize = 0;
        assert(docs.skip(0) =~= docs);
        while i < roots.len()
            invariant
                i <= roots@.len(),
                docs == json::documents(roots@),
                json::document(*answer) == Doc::List(docs),
                gcode_root_in(docs.skip(i as int)) == gcode_root_in(docs),
            decreases roots@.len() - i,
        {
            assert(docs.skip(i as int)[0] == json::document(roots@[i as int]));
            assert(docs.skip(i as int).drop_first() =~= docs.skip(i as int + 1));
            if let Some(name) = json::get_text(&roots[i], "name") {
                if text::same(name, "gcodes") {
                    return match json::get_text(&roots[i], "path") {
                        Some(p) => Some(p.to_owned()),
                        None => None,
                    };
                }
            }
            i += 1;
        }
        assert(docs.skip(i as int) =~= Seq::<Doc>::empty());
    }
    None
}

/// Whether a character separates the parts of a path that the cloud sends.
pub open spec fn is_separator(c: char) -> bool {
    c == '/' || c == '\\'
}

/// What stands behind the last separator of a path.
pub open spec fn base_name(s: Seq<char>) -> Seq<char>
    decreases s.len(),
{
    if s.len() > 0 && !is_separator(s.last()) {
        base_name(s.drop_last()).push(s.last())
    } else {
        Seq::empty()
    }
}

proof fn lemma_base_name(s: Seq<char>, n: int)
    requires
        0 <= n <= s.len(),
        n > 0 ==> is_separator(s[n - 1]),
        forall|k: int| n <= k < s.len() ==> !is_separator(s[k]),
    ensures
        base_name(s) == s.skip(n),
    decreases s.len(),
{
    if s.len() > n {
        lemma_base_name(s.drop_last(), n);
        assert(s.drop_last().skip(n).push(s.last()) =~= s.skip(n));
    } else {
        assert(s.skip(n) =~= Seq::<char>::empty());
    }
}

/// The name of a file without the directories in front of it.
pub fn safe_name(file_name: &str) -> (r: &str)
    ensures
        r@ == base_name(file_name@),
{
    let v: Vec<char> = text::chars_of(file_name);
    let mut n: usize = v.len();
    while n > 0 && v[n - 1] != '/' && v[n - 1] != '\\'
        invariant
            n <= v@.len(),
            v@ == file_name@,
            forall|k: int| n <= k < v@.len() ==> !is_separator(v@[k]),
        decreases n,
    {
        n -= 1;
    }
    proof {
        lemma_base_name(file_name@, n as int);
        assert(file_name@.subrange(n as int, v@.len() as int) =~= file_name@.skip(n as int));
    }
    file_name.substring_char(n, v.len())
}

/// `~/` at the start of a path stands for the home directory, where there is one.
pub open spec fn expanded(path: Seq<char>, home: Option<Seq<char>>) -> Seq<char> {
    match home {
        Some(h) if text::starts(path, "~/"@) => h + "/"@ + path.skip("~/"@.len() as int),
        _ => path,
    }
}

/// Expands `~/` at the start of a path.
pub fn expand_tilde(path: &str, home: Option<&str>) -> (r: String)
    ensures
        r@ == expanded(path@, text::opt_str(home)),
{
    if let Some(rest) = text::strip_prefix(path, "~/") {
        if let Some(h) = home {
            let mut r: String = text::join(h, "/");
            r.append(rest);
            return r;
        }
    }
    path.to_owned()
}

/// The parts of a path that name something: empty ones do not, nor does `.` but in front.
pub open spec fn named_parts(parts: Seq<Seq<char>>) -> Seq<Seq<char>>
    decreases parts.len(),
{
    if parts.len() == 0 {
        Seq::empty()
    } else {
        let before = named_parts(parts.drop_last());
        let p = parts.last();
        if p.len() == 0 || p == "."@ && parts.len() > 1 {
            before
        } else {
            before.push(p)
        }
    }
}

/// The components of a path: the root of an absolute one, then the parts between the slashes.
pub open spec fn components_of(path: Seq<char>) -> Seq<Seq<char>> {
    (if path.len() > 0 && path[0] == '/' {
        seq!["/"@]
    } else {
        Seq::empty()
    }) + named_parts(text::split_on(path, '/'))
}

/// Whether a path lies under a root: whole components count.
pub open spec fn lies_under(path: Seq<char>, root: Seq<char>) -> bool {
    let p = components_of(path);
    let r = components_of(root);
    r.len() <= p.len() && p.take(r.len() as int) == r
}

fn components<'a>(path: &'a str) -> (c: Vec<&'a str>)
    ensures
        text::text_views(c@) == components_of(path@),
{
    let mut c: Vec<&'a str> = Vec::new();
    let v: Vec<char> = text::chars_of(path);
    if v.len() > 0 && v[0] == '/' {
        c.push("/");
    }
    let ghost root = text::text_views(c@);
    assert(root =~= if path@.len() > 0 && path@[0] == '/' {
        seq!["/"@]
    } else {
        Seq::empty()
    });
    let parts: Vec<&'a str> = text::split(path, '/');
    let ghost views = text::text_views(parts@);
    let mut i: usize = 0;
    proof {
        assert(views.take(0) =~= Seq::<Seq<char>>::empty());
        assert(root + named_parts(views.take(0)) =~= root);
    }
    while i < parts.len()
        invariant
            i <= parts@.len(),
            views == text::text_views(parts@),
            text::text_views(c@) == root + named_parts(views.take(i as int)),
        decreases parts@.len() - i,
    {
        let part: &'a str = parts[i];
        let ghost more = views.take(i as int + 1);
        proof {
            assert(more.drop_last() =~= views.take(i as int));
            assert(more.last() == part@);
        }
        if !part.is_empty() && !(i > 0 && text::same(part, ".")) {
            let ghost before = c@;
            let ghost named = named_parts(views.take(i as int));
            c.push(part);
            assert(text::text_views(c@) =~= text::text_views(before).push(part@));
            assert((root + named).push(part@) =~= root + named.push(part@));
        }
        i += 1;
    }
    assert(views.take(i as int) =~= views);
    c
}

/// Whether a directory lies under a root directory.
pub fn starts_with_root(dir: &str, root: &str) -> (b: bool)
    ensures
        b == lies_under(dir@, root@),
{
    let d: Vec<&str> = components(dir);
    let r: Vec<&str> = components(root);
    let ghost dv = text::text_views(d@);
    let ghost rv = text::text_views(r@);
    if r.len() > d.len() {
        return false;
    }
    let mut i: usize = 0;
    while i < r.len()
        invariant
            i <= r@.len() <= d@.len(),
            dv == text::text_views(d@),
            rv == text::text_views(r@),
            dv == components_of(dir@),
            rv == components_of(root@),
            forall|k: int| 0 <= k < i ==> dv[k] == rv[k],
        decreases r@.len() - i,
    {
        if !text::same(d[i], r[i]) {
            assert(dv.take(rv.len() as int)[i as int] != rv[i as int]);
            return false;
        }
        i += 1;
    }
    assert(dv.take(rv.len() as int) =~= rv);
    true
}

/// A file in a directory.
pub open spec fn joined(dir: Seq<char>, name: Seq<char>) -> Seq<char> {
    if dir.len() == 0 || dir.last() == '/' {
        dir + name
    } else {
        dir + "/"@ + name
    }
}

/// The path of a file in a directory.
pub fn join_path(dir: &str, name: &str) -> (r: String)
    ensures
        r@ == joined(dir@, name@),
{
    let v: Vec<char> = text::chars_of(dir);
    if v.len() == 0 || v[v.len() - 1] == '/' {
        text::join(dir, name)
    } else {
        let mut r: String = text::join(dir, "/");
        r.append(name);
        r
    }
}

/// A download that can be tried.
#[derive(Debug)]
pub struct DownloadPlan {
    pub url: String,
    /// The directory that the file goes to.
    pub dir: String,
    /// The path of the file.
    pub dest: String,
}

/// The contents of a [`DownloadPlan`].
#[verifier::ext_equal]
pub struct PlanView {
    pub url: Seq<char>,
    pub dir: Seq<char>,
    pub dest: Seq<char>,
}

impl View for DownloadPlan {
    type V = PlanView;

    open spec fn view(&self) -> PlanView {
        PlanView { url: self.url@, dir: self.dir@, dest: self.dest@ }
    }
}

/// What a request for a download comes to: a plan, or the error code of a request without an
/// address or a file name (1), or of a type that is not supported (4). Only G-code, type 0, is.
pub open spec fn planned(
    dir: Seq<char>,
    home: Option<Seq<char>>,
    file_type: u8,
    file_name: Seq<char>,
    url: Option<Seq<char>>,
) -> Result<PlanView, u8> {
    let name = base_name(file_name);
    let target = expanded(dir, home);
    match url {
        Some(u) if u.len() > 0 => if name.len() == 0 {
            Err(1)
        } else if file_type != 0 {
            Err(4)
        } else {
            Ok(PlanView { url: u, dir: target, dest: joined(target, name) })
        },
        _ => Err(1),
    }
}

/// Plans a download of a G-code file; files of other types are refused.
pub fn plan_download(
    cfg: &DownloadConfig,
    home: Option<&str>,
    file_type: u8,
    file_name: &str,
    url: Option<&str>,
) -> (r: Result<DownloadPlan, u8>)
    ensures
        planned(
            cfg.dir@,
            text::opt_str(home),
            file_type,
            file_name@,
            text::opt_str(url),
        ) == match r {
            Ok(p) => Ok::<PlanView, u8>(p@),
            Err(e) => Err(e),
        },
{
    let url: &str = match url {
        Some(u) => u,
        None => {
            return Err(1);
        },
    };
    if url.is_empty() {
        return Err(1);
    }
    let name: &str = safe_name(file_name);
    if name.is_empty() {
        return Err(1);
    }
    if file_type != 0 {
        return Err(4);
    }
    let dir: String = expand_tilde(cfg.dir.as_str(), home);
    let dest: String = join_path(dir.as_str(), name);
    Ok(DownloadPlan { url: url.to_owned(), dir, dest })
}

/// What a download is at, which is what has to be done for it next.
#[derive(Debug, Clone, Copy, PartialEq, Eq, Structural)]
pub enum TransferStep {
    /// Ask the printer for its root directory for G-code files.
    AskRoot,
    /// Make the directory.
    MakeDir,
    /// Send the request to the server.
    Request,
    /// Make the file.
    Create,
    /// Read some bytes.
    Read,
    /// Write the bytes that have been read.
    Write,
    /// Finish the file.
    Flush,
    /// The download is over, with this code; a file that is not whole is removed.
    Over { err_code: u8, remove: bool },
}

/// How a step of a download ended.
#[derive(Debug)]
pub enum TransferOutcome {
    /// The step has been carried out.
    Done,
    /// It has failed.
    Failed,
    /// The printer's root directory, if it could be had.
    Root(Option<String>),
    /// So many bytes have been read; none at the end of the file.
    Chunk(usize),
}

/// A download under way.
#[derive(Debug, Clone, Copy, PartialEq, Eq, Structural)]
pub struct Transfer {
    pub step: TransferStep,
    /// How many bytes have come.
    pub total: u64,
    /// How many may come.
    pub max: u64,
}

/// The end of a download that has failed.
pub open spec fn gives_up(t: Transfer, err_code: u8, remove: bool) -> Transfer {
    Transfer { step: TransferStep::Over { err_code, remove }, ..t }
}

/// Where a download is after its step has ended so.
pub open spec fn transferred(p: PlanView, t: Transfer, o: TransferOutcome) -> Transfer {
    let failed = o is Failed;
    match t.step {
        TransferStep::AskRoot => match o {
            TransferOutcome::Root(Some(root)) if !lies_under(p.dir, root@) => gives_up(t, 2, false),
            _ => Transfer { step: TransferStep::MakeDir, ..t },
        },
        TransferStep::MakeDir => if failed {
            gives_up(t, 2, false)
        } else {
            Transfer { step: TransferStep::Request, ..t }
        },
        TransferStep::Request => if failed {
            gives_up(t, 1, false)
        } else {
            Transfer { step: TransferStep::Create, ..t }
        },
        TransferStep::Create => if failed {
            gives_up(t, 2, false)
        } else {
            Transfer { step: TransferStep::Read, ..t }
        },
        TransferStep::Read => match o {
            TransferOutcome::Failed => gives_up(t, 3, true),
            TransferOutcome::Chunk(n) if n > 0 => if t.total + n > t.max {
                gives_up(t, 3, true)
            } else {
                Transfer { step: TransferStep::Write, total: (t.total + n) as u64, ..t }
            },
            _ => Transfer { step: TransferStep::Flush, ..t },
        },
        TransferStep::Write => if failed {
            gives_up(t, 2, true)
        } else {
            Transfer { step: TransferStep::Read, ..t }
        },
        TransferStep::Flush => if failed {
            gives_up(t, 2, true)
        } else {
            Transfer { step: TransferStep::Over { err_code: 0, remove: false }, ..t }
        },
        TransferStep::Over { .. } => t,
    }
}

impl Transfer {
    /// A download that begins: its file has to go where the printer finds it.
    pub fn new(max: u64) -> (t: Self)
        ensures
            t == (Transfer { step: TransferStep::AskRoot, total: 0, max }),
    {
        Transfer { step: TransferStep::AskRoot, total: 0, max }
    }

    fn give_up(&mut self, err_code: u8, remove: bool)
        ensures
            *final(self) == gives_up(*old(self), err_code, remove),
    {
        self.step = TransferStep::Over { err_code, remove };
    }

    /// The step of the download has ended so: the download goes to its next one.
    pub fn on(&mut self, plan: &DownloadPlan, outcome: TransferOutcome)
        requires
            old(self).total <= old(self).max,
        ensures
            *final(self) == transferred(plan@, *old(self), outcome),
            final(self).total <= final(self).max,
    {
        let failed: bool = matches!(outcome, TransferOutcome::Failed);
        match self.step {
            TransferStep::AskRoot => {
                if let TransferOutcome::Root(Some(root)) = outcome {
                    if !starts_with_root(plan.dir.as_str(), root.as_str()) {
                        self.give_up(2, false);
                        return;
                    }
                }
                self.step = TransferStep::MakeDir;
            },
            TransferStep::MakeDir => {
                if failed {
                    self.give_up(2, false);
                } else {
                    self.step = TransferStep::Request;
                }
            },
            TransferStep::Request => {
                if failed {
                    self.give_up(1, false);
                } else {
                    self.step = TransferStep::Create;
                }
            },
            TransferStep::Create => {
                if failed {
                    self.give_up(2, false);
                } else {
                    self.step = TransferStep::Read;
                }
            },
            TransferStep::Read => match outcome {
                TransferOutcome::Failed => self.give_up(3, true),
                TransferOutcome::Chunk(n) => {
                    if n == 0 {
                        self.step = TransferStep::Flush;
                    } else if n as u64 > self.max - self.total {
                        self.give_up(3, true);
                    } else {
                        self.total = self.total + n as u64;
                        self.step = TransferStep::Write;
                    }
                },
                _ => {
                    self.step = TransferStep::Flush;
                },
            },
            TransferStep::Write => {
                if failed {
                    self.give_up(2, true);
                } else {
                    self.step = TransferStep::Read;
                }
            },
            TransferStep::Flush => {
                if failed {
                    self.give_up(2, true);
                } else {
                    self.step = TransferStep::Over { err_code: 0, remove: false };
                }
            },
            TransferStep::Over { .. } => {},
        }
    }
}

/// A download succeeds only where its file has been finished, a file that was begun and not
/// finished is removed, and never are more bytes written than are allowed.
pub proof fn law_download_is_whole_or_gone(p: PlanView, t: Transfer, o: TransferOutcome)
    requires
        t.total <= t.max,
    ensures
        ({
            let next = transferred(p, t, o);
            &&& next.total <= next.max == t.max
            &&& !(t.step is Over) && next.step is Over ==> {
                let code = next.step->err_code;
                &&& code == 0 <==> t.step is Flush && !(o is Failed)
                &&& next.step->remove <==> code != 0 && (t.step is Read || t.step is Write
                    || t.step is Flush)
            }
        }),
{
}

/// The fields of a successful download's answer.
pub open spec fn downloaded_fields(dest: Option<Seq<char>>) -> Seq<(Seq<char>, Doc)> {
    match dest {
        Some(p) => seq![("err_code"@, Doc::Unsigned(0)), ("dest"@, Doc::Text(p))],
        None => seq![("err_code"@, Doc::Unsigned(0))],
    }
}

/// What the user interface is told of its download.
pub fn download_reply(err_code: u8, dest: Option<&str>) -> (r: UiReply)
    ensures
        r@ == if err_code == 0 {
            ReplyView::Done(json::object_of(downloaded_fields(text::opt_str(dest))))
        } else {
            ReplyView::Failed("download failed: code "@ + text::decimal(err_code as nat))
        },
{
    if err_code == 0 {
        let mut f: Fields = Fields::new();
        f.unsigned("err_code", 0);
        if let Some(p) = dest {
            f.text("dest", p);
        }
        assert(f@ =~= downloaded_fields(text::opt_str(dest)));
        UiReply::Done(f.finish())
    } else {
        UiReply::Failed(
            text::join("download failed: code ", text::number_text(err_code as u64).as_str()),
        )
    }
}

/// What the dispatcher does for a command.
#[derive(Debug)]
pub enum Work {
    /// Carry out the step, and report its result under `cmd_type`.
    Gcode { cmd_type: String, step: GcodeStep },
    /// Download a file, and report its end.
    Download { file_type: u8, file_name: String, url: Option<String> },
    /// Report the list of files.
    ListFiles,
    /// Report this.
    Report(Event),
}

/// Whether `w` is what the dispatcher does for a command of the cloud.
pub open spec fn work_for(c: CmdView, w: Work) -> bool {
    match c {
        CmdView::Gcode { cmd_type, raw } => w matches Work::Gcode { cmd_type: t, step } && t@
            == cmd_type && step@ == gcode_step(gcode_translator::meaning(raw)),
        CmdView::DownloadBegin { file_type, file_name, url, server_ip } =>
        w matches Work::Download { file_type: t, file_name: n, url: u } && t == file_type && n@
            == file_name && protocol::opt_text(u) == url,
        CmdView::DeleteFile { file_name } => w matches Work::Gcode { cmd_type: t, step } && t@
            == "M30"@ && step@ == delete_step(file_name),
        CmdView::ListFiles => w is ListFiles,
        CmdView::ServerUnbind => w matches Work::Report(
            Event::GcodeResult { cmd_type: t, result },
        ) && t@ == "server_unbind"@ && result@ == "OK"@,
    }
}

/// What the dispatcher does for a command of the cloud.
pub fn handle(cmd: DownlinkCmd) -> (w: Work)
    ensures
        work_for(cmd@, w),
{
    match cmd {
        DownlinkCmd::Gcode { cmd_type, raw } => {
            let step: GcodeStep = exec_gcode(raw.as_str());
            Work::Gcode { cmd_type, step }
        },
        DownlinkCmd::DownloadBegin { file_type, file_name, url, .. } => Work::Download {
            file_type,
            file_name,
            url,
        },
        DownlinkCmd::DeleteFile { file_name } => Work::Gcode {
            cmd_type: "M30".to_owned(),
            step: delete_file(file_name.as_str()),
        },
        DownlinkCmd::ListFiles => Work::ListFiles,
        DownlinkCmd::ServerUnbind => Work::Report(
            Event::GcodeResult { cmd_type: "server_unbind".to_owned(), result: "OK".to_owned() },
        ),
    }
}

/// What the dispatcher does first for a request of the user interface: the event to report, and
/// the answer, if there is one already. A download is answered when it is over, a firmware query
/// when the cloud has answered.
pub fn handle_ui(cmd: &UiCmd, ticket: u64) -> (r: (Event, Option<UiReply>))
    ensures
        match *cmd {
            UiCmd::Download { file_type, file_name, .. } => {
                &&& r.0 matches Event::DownloadStarted { file_type: t, file_name: n } && t
                    == file_type && n@ == file_name@
                &&& r.1 is None
            },
            UiCmd::Unbind => {
                &&& r.0 is UiUnbind
                &&& r.1 is Some
                &&& r.1->0@ == ReplyView::Done(json::object_of(seq![("ok"@, Doc::Bool(true))]))
            },
            UiCmd::UpgradeQuery => {
                &&& r.0 == (Event::UpgradeQueryRequested { ticket: Some(ticket) })
                &&& r.1 is None
            },
        },
{
    match cmd {
        UiCmd::Download { file_type, file_name, .. } => (
            Event::DownloadStarted {
                file_type: *file_type,
                file_name: file_name.as_str().to_owned(),
            },
            None,
        ),
        UiCmd::Unbind => {
            let mut f: Fields = Fields::new();
            f.boolean("ok", true);
            assert(f@ =~= seq![("ok"@, Doc::Bool(true))]);
            (Event::UiUnbind, Some(UiReply::Done(f.finish())))
        },
        UiCmd::UpgradeQuery => (Event::UpgradeQueryRequested { ticket: Some(ticket) }, None),
    }
}

proof fn lemma_base_name_plain(s: Seq<char>)
    ensures
        forall|i: int| 0 <= i < base_name(s).len() ==> !is_separator(#[trigger] base_name(s)[i]),
    decreases s.len(),
{
    if s.len() > 0 && !is_separator(s.last()) {
        let front = s.drop_last();
        lemma_base_name_plain(front);
        assert forall|i: int| 0 <= i < base_name(s).len() implies !is_separator(
            #[trigger] base_name(s)[i],
        ) by {
            if i < base_name(front).len() {
                assert(base_name(s)[i] == base_name(front)[i]);
            }
        }
    }
}

/// Whatever directories stand in front of the name of a file that is downloaded, or none: the file
/// goes into the directory for downloads, under a name that no directory is part of. No file but
/// one of G-code is downloaded.
pub proof fn law_download_lands_in_its_directory(
    dir: Seq<char>,
    home: Option<Seq<char>>,
    file_type: u8,
    file_name: Seq<char>,
    url: Option<Seq<char>>,
)
    ensures
        planned(dir, home, file_type, file_name, url) matches Ok(p) ==> {
            let name = base_name(file_name);
            &&& file_type == 0
            &&& p.dir == expanded(dir, home)
            &&& p.dest == joined(p.dir, name)
            &&& name.len() > 0
            &&& forall|i: int| 0 <= i < name.len() ==> !is_separator(#[trigger] name[i])
        },
{
    lemma_base_name_plain(file_name);
}

} // verus!
