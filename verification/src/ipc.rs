//! The replies of the viewer's control socket, and where the socket lives.
use vstd::prelude::*;
use crate::text::{decimal, decimal_string};
use crate::thumbnail::{join_path, join_path_string};
use crate::viewer::ImageViewer;

verus! {

/// A JSON value, carried through a reply unread.
#[verifier::external_type_specification]
#[verifier::external_body]
pub struct ExJsonValue(serde_json::Value);

/// Response from the viewer.
pub struct Response {
    pub success: bool,
    pub message: Option<String>,
    pub data: Option<serde_json::Value>,
}

impl Response {
    /// Success, with nothing more to say.
    pub fn ok() -> (r: Self)
        ensures
            r.success,
            r.message is None,
            r.data is None,
    {
        Response { success: true, message: None, data: None }
    }

    /// Success, with a message.
    pub fn ok_with_message(message: String) -> (r: Self)
        ensures
            r.success,
            r.message == Some(message),
            r.data is None,
    {
        Response { success: true, message: Some(message), data: None }
    }

    /// Success, with data.
    pub fn ok_with_data(data: serde_json::Value) -> (r: Self)
        ensures
            r.success,
            r.message is None,
            r.data == Some(data),
    {
        Response { success: true, message: None, data: Some(data) }
    }

    /// Failure, with the reason.
    pub fn error(message: String) -> (r: Self)
        ensures
            !r.success,
            r.message == Some(message),
            r.data is None,
    {
        Response { success: false, message: Some(message), data: None }
    }
}


/// A successful reply carrying `text`.
pub open spec fn says(r: Response, success: bool, text: Seq<char>) -> bool {
    &&& r.success == success
    &&& r.message matches Some(m) && m@ == text
    &&& r.data is None
}

/// The reply to `open`: "Opened: <path>" when the file was loaded, else
/// "Failed to open: <reason>" with the reason the load gave.
pub fn open_reply(path: &str, failure: Option<String>) -> (r: Response)
    ensures
        match failure {
            None => says(r, true, "Opened: "@ + path@),
            Some(e) => says(r, false, "Failed to open: "@ + e@),
        },
{
    match failure {
        None => {
            let mut m = "Opened: ".to_owned();
            m.append(path);
            Response::ok_with_message(m)
        },
        Some(e) => {
            let mut m = "Failed to open: ".to_owned();
            m.append(e.as_str());
            Response::error(m)
        },
    }
}

/// The reply to `goto <page>`, pages counted from 1 (0 is read as 1): the
/// viewer shows that page (also when it is already shown), and the reply
/// fails with "Invalid page number" when there is no such page.
pub fn goto_reply<R>(viewer: &mut ImageViewer<R>, page: usize) -> (r: Response)
    ensures
        ({
            let target: int = if page == 0 {
                0
            } else {
                page - 1
            };
            let moved = target < old(viewer).pages();
            &&& moved ==> r.success && r.message is None && r.data is None
                && final(viewer).frame() == target
            &&& !moved ==> says(r, false, "Invalid page number"@)
                && final(viewer).frame() == old(viewer).frame()
        }),
        old(viewer).same_but_page(&*final(viewer)),
{
    let target = if page == 0 {
        0
    } else {
        page - 1
    };
    if target < viewer.page_count() {
        viewer.goto_page(target);
        Response::ok()
    } else {
        Response::error("Invalid page number".to_owned())
    }
}

/// The reply to `close`: "File closed".
pub fn close_reply() -> (r: Response)
    ensures
        says(r, true, "File closed"@),
{
    Response::ok_with_message("File closed".to_owned())
}

/// The reply to `slideshow-start`: "Slideshow started".
pub fn slideshow_started_reply() -> (r: Response)
    ensures
        says(r, true, "Slideshow started"@),
{
    Response::ok_with_message("Slideshow started".to_owned())
}

/// The reply to `slideshow-stop`: "Slideshow stopped".
pub fn slideshow_stopped_reply() -> (r: Response)
    ensures
        says(r, true, "Slideshow stopped"@),
{
    Response::ok_with_message("Slideshow stopped".to_owned())
}

/// The reply to `quit`: "Quitting...".
pub fn quit_reply() -> (r: Response)
    ensures
        says(r, true, "Quitting..."@),
{
    Response::ok_with_message("Quitting...".to_owned())
}

/// The path of the control socket: `garview.sock` in the runtime directory
/// (`$XDG_RUNTIME_DIR`), or in `/run/user/<uid>` when that is not set.
pub open spec fn socket_path_text(runtime_dir: Option<Seq<char>>, uid: u32) -> Seq<char> {
    let dir = match runtime_dir {
        Some(d) => d,
        None => "/run/user/"@ + decimal(uid as nat),
    };
    join_path(dir, "garview.sock"@)
}

/// Get the socket path for IPC, given the value of `$XDG_RUNTIME_DIR` (if
/// set) and the user id.
pub fn socket_path(runtime_dir: Option<&str>, uid: u32) -> (p: String)
    ensures
        p@ == socket_path_text(
            match runtime_dir {
                Some(d) => Some(d@),
                None => None,
            },
            uid,
        ),
{
    let dir = match runtime_dir {
        Some(d) => d.to_owned(),
        None => {
            let mut s = "/run/user/".to_owned();
            let n = decimal_string(uid as u64);
            s.append(n.as_str());
            s
        },
    };
    join_path_string(dir.as_str(), "garview.sock")
}

} // verus!
