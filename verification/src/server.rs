//! The decisions of the server side (`--server <path>`): how the root path
//! names the home directory, how the first message is answered, and the
//! DONE it sends at the end. Reading and writing frames, and the tasks that
//! run the transfer, are left to the caller.

use vstd::prelude::*;
use bytes::Bytes;
use crate::streaming::channel::SyncStats;
use crate::streaming::messages::{spec_decode_hello, DecodeError, Done, Hello};
use crate::streaming::paths::{
    components_view, copy_components, path_components, str_components, ComponentView, PathComponent,
};
use crate::streaming::protocol::{HelloFlags, MessageType, PROTOCOL_VERSION};
use crate::streaming::transfer::Fatal;
use crate::streaming::wire::bytes_contents;

verus! {

/// How a root path names the home directory.
#[derive(Debug)]
pub enum TildeForm {
    /// Exactly `~`.
    Home,
    /// `~/` followed by this rest.
    UnderHome(String),
    /// Anything else: taken as it is.
    Plain,
}

pub enum TildeFormView {
    Home,
    UnderHome(Seq<char>),
    Plain,
}

impl View for TildeForm {
    type V = TildeFormView;

    open spec fn view(&self) -> TildeFormView {
        match self {
            TildeForm::Home => TildeFormView::Home,
            TildeForm::UnderHome(r) => TildeFormView::UnderHome(r@),
            TildeForm::Plain => TildeFormView::Plain,
        }
    }
}

pub open spec fn spec_tilde_form(s: Seq<char>) -> TildeFormView {
    if s == seq!['~'] {
        TildeFormView::Home
    } else if s.len() >= 2 && s[0] == '~' && s[1] == '/' {
        TildeFormView::UnderHome(s.subrange(2, s.len() as int))
    } else {
        TildeFormView::Plain
    }
}

/// Whether `path` is `~`, starts with `~/`, or neither.
pub fn tilde_form(path: &str) -> (r: TildeForm)
    ensures
        r@ == spec_tilde_form(path@),
{
    let n = path.unicode_len();
    if n == 1 && path.get_char(0) == '~' {
        assert(path@ =~= seq!['~']);
        return TildeForm::Home;
    }
    if n >= 2 && path.get_char(0) == '~' && path.get_char(1) == '/' {
        let rest = path.substring_char(2, n);
        return TildeForm::UnderHome(rest.to_owned());
    }
    proof {
        if path@ == seq!['~'] {
            assert(path@[0] == '~');
        }
    }
    TildeForm::Plain
}

/// `dirs::home_dir`, as text (`to_string_lossy`): the user's home directory,
/// when one can be found. What it returns depends on the environment, so
/// nothing is stated of it.
#[verifier::external_body]
fn home_dir_text() -> Option<String> {
    dirs::home_dir().map(|h| h.to_string_lossy().into_owned())
}

/// What `~` expansion gives, component by component, for `path` and the home
/// directory `home` (if any).
pub open spec fn spec_expand_tilde(path: Seq<char>, home: Option<Seq<char>>) -> Seq<ComponentView> {
    match spec_tilde_form(path) {
        TildeFormView::Home => match home {
            Some(h) => path_components(h),
            None => path_components(seq!['.']),
        },
        TildeFormView::UnderHome(rest) => match home {
            Some(h) => path_components(h) + path_components(rest),
            None => path_components(path),
        },
        TildeFormView::Plain => path_components(path),
    }
}

/// Expand tilde (~) in a path, given the home directory: `~` becomes the
/// home directory (or `.` when there is none), `~/rest` becomes `rest` under
/// it (or stays as it is), any other path stays as it is. The result is given
/// as path components.
pub fn expand_tilde_with(path: &str, home: Option<&str>) -> (r: Vec<PathComponent>)
    ensures
        components_view(r@) == spec_expand_tilde(
            path@,
            match home {
                Some(h) => Some(h@),
                None => None,
            },
        ),
{
    match tilde_form(path) {
        TildeForm::Home => match home {
            Some(h) => str_components(h),
            None => {
                let dot = ".";
                proof {
                    reveal_strlit(".");
                    assert(dot@ =~= seq!['.']);
                }
                str_components(dot)
            },
        },
        TildeForm::UnderHome(rest) => match home {
            Some(h) => {
                let a = str_components(h);
                let b = str_components(rest.as_str());
                let r = copy_components(a.as_slice(), a.len(), b.as_slice());
                assert(a@.subrange(0, a@.len() as int) =~= a@);
                r
            },
            None => str_components(path),
        },
        TildeForm::Plain => str_components(path),
    }
}

/// With a home directory `h`, `~` names exactly `h`, and `~/rest` names `rest`
/// under `h`: `h`'s components followed by those of `rest`. Without one, `~`
/// is the current directory and `~/rest` is kept as it is.
pub proof fn lemma_tilde_names_home(h: Seq<char>, rest: Seq<char>)
    ensures
        spec_expand_tilde(seq!['~'], Some(h)) == path_components(h),
        spec_expand_tilde(seq!['~', '/'] + rest, Some(h)) == path_components(h) + path_components(rest),
        spec_expand_tilde(seq!['~'], None) == path_components(seq!['.']),
        spec_expand_tilde(seq!['~', '/'] + rest, None) == path_components(seq!['~', '/'] + rest),
{
    let p = seq!['~', '/'] + rest;
    assert(p[0] == '~' && p[1] == '/');
    assert(p.len() >= 2);
    assert(p != seq!['~']);
    assert(p.subrange(2, p.len() as int) =~= rest);
}

/// Expand tilde (~) in `path` with the home directory that was found, if
/// any: `~` becomes that home (or `.`), `~/rest` becomes `rest` under it (or
/// stays as it is), any other path stays as it is.
pub fn expand_tilde_home(path: &str, home: Option<String>) -> (r: Vec<PathComponent>)
    ensures
        components_view(r@) == spec_expand_tilde(
            path@,
            match home {
                Some(h) => Some(h@),
                None => None,
            },
        ),
{
    match &home {
        Some(h) => expand_tilde_with(path, Some(h.as_str())),
        None => expand_tilde_with(path, None),
    }
}

/// Expand tilde (~) in paths to the user's home directory, as found in the
/// environment (see `expand_tilde_home`).
pub fn expand_tilde(path: &str) -> (r: Vec<PathComponent>)
    ensures
        spec_tilde_form(path@) is Plain ==> components_view(r@) == path_components(path@),
        exists|home: Option<Seq<char>>| components_view(r@) == #[trigger] spec_expand_tilde(path@, home),
{
    expand_tilde_home(path, home_dir_text())
}

/// How the server goes on after the first message.
#[derive(Debug)]
pub enum ServerStart {
    /// The first message was not HELLO: send this FATAL and stop.
    Reject(Fatal),
    /// HELLO with the PULL flag: the server sends files.
    Pull(Hello),
    /// HELLO without it: the server receives files.
    Push(Hello),
}

/// The text of the FATAL sent when the first message is not HELLO.
pub open spec fn expected_hello_text(t: MessageType) -> Seq<char> {
    "Expected HELLO, got "@ + t.spec_name()
}

/// The server's reading of the first message.
pub fn server_start(msg_type: MessageType, payload: Bytes) -> (r: Result<ServerStart, DecodeError>)
    ensures
        msg_type != MessageType::Hello ==> (r matches Ok(ServerStart::Reject(f)) && f.code == 1
            && f.message@ == expected_hello_text(msg_type)),
        msg_type == MessageType::Hello ==> match spec_decode_hello(bytes_contents(payload)) {
            Ok(v) => if v.flags & 1u32 == 1u32 {
                r matches Ok(ServerStart::Pull(h)) && h@ == v
            } else {
                r matches Ok(ServerStart::Push(h)) && h@ == v
            },
            Err(e) => r == Err::<ServerStart, DecodeError>(e),
        },
{
    if msg_type != MessageType::Hello {
        let mut message = String::from_str("Expected HELLO, got ");
        message.append(msg_type.name());
        return Ok(ServerStart::Reject(Fatal { code: 1, message }));
    }
    let hello = match Hello::decode(payload) {
        Ok(h) => h,
        Err(e) => return Err(e),
    };
    if hello.flags.contains(HelloFlags::pull()) {
        Ok(ServerStart::Pull(hello))
    } else {
        Ok(ServerStart::Push(hello))
    }
}

/// The HELLO the server answers with: protocol version 2, no flags, an
/// empty path.
pub fn server_hello_reply() -> (r: Hello)
    ensures
        r@.version == PROTOCOL_VERSION,
        r@.flags == 0,
        r@.root_path == Seq::<char>::empty(),
{
    Hello::new(HelloFlags::empty(), String::new())
}

/// The DONE the server sends after receiving a push: the receiver's counts.
pub fn push_done(stats: &SyncStats) -> (r: Done)
    ensures
        r == (Done {
            files_ok: stats.files_ok,
            files_err: stats.files_err,
            bytes: stats.bytes_transferred,
            duration_ms: 0,
        }),
{
    Done { files_ok: stats.files_ok, files_err: stats.files_err, bytes: stats.bytes_transferred, duration_ms: 0 }
}

/// The DONE the server sends after serving a pull: the generator's totals.
pub fn pull_done(total_files: u64, total_bytes: u64) -> (r: Done)
    ensures
        r == (Done { files_ok: total_files, files_err: 0, bytes: total_bytes, duration_ms: 0 }),
{
    Done { files_ok: total_files, files_err: 0, bytes: total_bytes, duration_ms: 0 }
}

} // verus!
