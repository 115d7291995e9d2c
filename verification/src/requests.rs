use vstd::prelude::*;
use crate::effect::Effect;
use crate::geometry::{wrap_add, wrap_sub, Position};
use crate::ipc::{response_from_result, without_client, MainRequest, MainResponse};
use crate::lookup::{first_where, lemma_first_where};
use crate::manager::WindowManager;
use crate::task::Task;
use crate::text::{chars_of, string_from_chars};
use crate::window::Window;

verus! {

/// The lowercase form of a string, as `str::to_lowercase` maps it (Unicode's
/// lowercase mapping, character by character).
pub uninterp spec fn lowercase(s: Seq<char>) -> Seq<char>;

/// `str::to_lowercase` on `s`. The contract names the result and says no more:
/// Unicode's mapping is not restated here.
#[verifier::external_body]
fn to_lowercase(s: &String) -> (r: String)
    ensures
        r@ == lowercase(s@),
{
    s.to_lowercase()
}

/// Whether `p` occurs in `s` as a contiguous run of characters.
pub open spec fn has_substr(s: Seq<char>, p: Seq<char>) -> bool {
    exists|i: int| 0 <= i <= s.len() - p.len() && #[trigger] s.subrange(i, i + p.len()) == p
}

/// Whether `p` occurs in `s` (as `str::contains` with a string pattern decides).
pub fn contains(s: &String, p: &String) -> (r: bool)
    ensures
        r == has_substr(s@, p@),
{
    let sc = chars_of(s.as_str());
    let pc = chars_of(p.as_str());
    let n = sc.len();
    let m = pc.len();
    if m > n {
        return false;
    }
    let mut i: usize = 0;
    while i <= n - m
        invariant
            m <= n,
            n == s@.len(),
            m == p@.len(),
            sc@ == s@,
            pc@ == p@,
            0 <= i <= n - m + 1,
            forall|j: int| 0 <= j < i ==> #[trigger] s@.subrange(j, j + m) != p@,
        decreases n - m + 1 - i,
    {
        let mut k: usize = 0;
        while k < m && sc[i + k] == pc[k]
            invariant
                0 <= k <= m,
                i + m <= n,
                n == sc@.len(),
                m == pc@.len(),
                forall|t: int| 0 <= t < k ==> sc@[i + t] == pc@[t],
            decreases m - k,
        {
            k += 1;
        }
        if k == m {
            assert(s@.subrange(i as int, i + m) =~= p@);
            return true;
        }
        assert(s@.subrange(i as int, i + m)[k as int] != p@[k as int]);
        i += 1;
    }
    false
}

/// Whether a window answers to the (lowercased) request `req`: its lowercased app
/// id or title contains it, or it contains one of them.
pub open spec fn window_matches(w: Window, req: Seq<char>) -> bool {
    let a = lowercase(w.app_id@);
    let t = lowercase(w.title@);
    has_substr(a, req) || has_substr(t, req) || has_substr(req, a) || has_substr(req, t)
}

pub open spec fn matches_request(ws: Seq<Window>, req: Seq<char>) -> spec_fn(int) -> bool {
    |i: int| window_matches(ws[i], req)
}

/// The index of the first window that answers to `req`.
pub open spec fn window_for(ws: Seq<Window>, req: Seq<char>) -> Option<usize> {
    first_where(ws.len(), matches_request(ws, req))
}

/// The index of the first window that answers to the lowercased request `req`.
pub fn find_window_id(req: &String, windows: &Vec<Window>) -> (r: Option<usize>)
    ensures
        r == window_for(windows@, req@),
        r matches Some(i) ==> i < windows@.len(),
{
    let n = windows.len();
    let mut i: usize = 0;
    let mut found = false;
    while i < n && !found
        invariant
            0 <= i <= n,
            n == windows@.len(),
            found ==> i < n && window_matches(windows@[i as int], req@),
            forall|j: int| 0 <= j < i ==> !window_matches(#[trigger] windows@[j], req@),
        decreases n - i + if found {
            0int
        } else {
            1int
        },
    {
        let a = to_lowercase(&windows[i].app_id);
        let t = to_lowercase(&windows[i].title);
        if contains(&a, req) || contains(&t, req) || contains(req, &a) || contains(req, &t) {
            found = true;
        } else {
            i += 1;
        }
    }
    proof {
        let p = matches_request(windows@, req@);
        lemma_first_where(windows@.len(), p);
        assert(forall|j: int| #[trigger] p(j) == window_matches(windows@[j], req@));
    }
    if found {
        proof {
            let p = matches_request(windows@, req@);
            assert(p(i as int));
            match window_for(windows@, req@) {
                Some(j) => {
                    assert(p(j as int));
                    if (i as int) < (j as int) {
                        assert(!p(i as int));
                    }
                },
                None => {},
            }
        }
        Some(i)
    } else {
        None
    }
}

/// Where a window's centre shows on screen for the camera at `camera`, computed as
/// `i32` arithmetic does in a release build.
pub open spec fn window_center(w: Window, camera: Position) -> Position {
    wrap_add(
        wrap_sub(w.original_position, camera),
        Position {
            x: crate::slide::div_trunc(w.width as int, 2) as i32,
            y: crate::slide::div_trunc(w.height as int, 2) as i32,
        },
    )
}

/// The error message for a watch request that matches no window.
pub open spec fn not_found_message(app_id: Seq<char>) -> Seq<char> {
    "couldn't find requested window "@ + app_id
}

/// What answering an IPC request does to the window manager (`w0` to `w1`) and the
/// effects, and which responses go back.
pub open spec fn answered(
    req: MainRequest,
    w0: &WindowManager,
    w1: &WindowManager,
    e0: Seq<Effect>,
    e1: Seq<Effect>,
    out: Seq<MainResponse>,
) -> bool {
    match req {
        MainRequest::Watch { client_id, request_id, app_id } => {
            &&& e1 == e0
            &&& match window_for(w0.windows@, lowercase(app_id@)) {
                Some(i) => {
                    let w = w0.windows@[i as int];
                    &&& *w1 == WindowManager { ipc: w1.ipc, ..*w0 }
                    &&& w1.ipc@ == w0.ipc@.insert((w.name@, client_id))
                    &&& out.len() == 2
                    &&& out[0] matches MainResponse::OkWatch { client_id: c, window_id: n, request_id: r }
                        && c == client_id && n@ == w.name@ && r == request_id
                    &&& out[1] matches MainResponse::Geometry { client_id: c, window_id: n, center }
                        && c == client_id && n@ == w.name@ && center == window_center(
                        w,
                        w0.camera_pos,
                    )
                },
                None => {
                    &&& *w1 == *w0
                    &&& out.len() == 1
                    &&& out[0] matches MainResponse::Error { client_id: c, request_id: r, message }
                        && c == client_id && r == request_id && message@ == not_found_message(
                        app_id@,
                    )
                },
            }
        },
        MainRequest::Unwatch { client_id, request_id, app_id } => {
            &&& e1 == e0
            &&& *w1 == WindowManager { ipc: w1.ipc, ..*w0 }
            &&& w1.ipc@ == w0.ipc@.remove((app_id@, client_id))
            &&& out == seq![MainResponse::Ack { client_id, request_id }]
        },
        MainRequest::Focus { client_id, request_id, app_id } => {
            &&& e1 == e0.push(Effect::ManageDirty)
            &&& *w1 == WindowManager { queue: w1.queue, ..*w0 }
            &&& w1.queue@ == w0.queue@.push(Task::FocusWindow { window_id: app_id })
            &&& out == seq![MainResponse::Ack { client_id, request_id }]
        },
        MainRequest::Disconnected { client_id } => {
            &&& e1 == e0
            &&& *w1 == WindowManager { ipc: w1.ipc, ..*w0 }
            &&& w1.ipc@ == without_client(w0.ipc@, client_id)
            &&& out.len() == 0
        },
    }
}

/// A run of characters occurs in any string made of something, then that run, then
/// something else; and nothing longer than a string occurs in it.
pub proof fn lemma_has_substr(a: Seq<char>, p: Seq<char>, b: Seq<char>)
    ensures
        has_substr(a + p + b, p),
        p.len() > a.len() ==> !has_substr(a, p),
{
    let s = a + p + b;
    assert(s.subrange(a.len() as int, (a.len() + p.len()) as int) =~= p);
}

/// A window whose lowercased app id or title contains the request, or lies inside
/// it, answers the request: the search finds a window at or before it, the first
/// one that answers, and never misses one.
pub proof fn lemma_window_for_finds(ws: Seq<Window>, req: Seq<char>, i: int)
    requires
        ws.len() <= usize::MAX,
        0 <= i < ws.len(),
        ({
            let a = lowercase(ws[i].app_id@);
            let t = lowercase(ws[i].title@);
            has_substr(a, req) || has_substr(t, req) || has_substr(req, a) || has_substr(req, t)
        }),
    ensures
        window_for(ws, req) matches Some(j) && j <= i && ({
            let a = lowercase(ws[j as int].app_id@);
            let t = lowercase(ws[j as int].title@);
            has_substr(a, req) || has_substr(t, req) || has_substr(req, a) || has_substr(req, t)
        }),
        forall|k: int|
            0 <= k < window_for(ws, req)->0 ==> {
                let a = lowercase((#[trigger] ws[k]).app_id@);
                let t = lowercase(ws[k].title@);
                !(has_substr(a, req) || has_substr(t, req) || has_substr(req, a) || has_substr(req, t))
            },
{
    let p = matches_request(ws, req);
    lemma_first_where(ws.len(), p);
    assert(p(i));
    let j = window_for(ws, req)->0 as int;
    assert forall|k: int| 0 <= k < j implies {
        let a = lowercase((#[trigger] ws[k]).app_id@);
        let t = lowercase(ws[k].title@);
        !(has_substr(a, req) || has_substr(t, req) || has_substr(req, a) || has_substr(req, t))
    } by {
        assert(!p(k));
    }
}

impl WindowManager {
    /// Answers one request from an IPC client: watches and unwatches windows,
    /// queues a focus, or forgets a client that went away.
    pub fn handle_request(&mut self, req: MainRequest, effects: &mut Vec<Effect>) -> (out: Vec<
        MainResponse,
    >)
        ensures
            answered(req, old(self), final(self), old(effects)@, final(effects)@, out@),
    {
        let mut out: Vec<MainResponse> = Vec::new();
        match req {
            MainRequest::Watch { client_id, request_id, app_id } => {
                let req_l = to_lowercase(&app_id);
                match find_window_id(&req_l, &self.windows) {
                    Some(i) => {
                        self.ipc.watch(&self.windows[i].name, client_id);
                        out.push(
                            MainResponse::OkWatch {
                                client_id,
                                window_id: self.windows[i].name.clone(),
                                request_id,
                            },
                        );
                        let w = &self.windows[i];
                        let center = w.original_position.wrapping_sub(self.camera_pos).wrapping_add(
                            Position { x: w.width / 2, y: w.height / 2 },
                        );
                        out.push(
                            MainResponse::Geometry {
                                client_id,
                                window_id: self.windows[i].name.clone(),
                                center,
                            },
                        );
                    },
                    None => {
                        let mut msg = chars_of("couldn't find requested window ");
                        let mut rest = chars_of(app_id.as_str());
                        proof {
                            reveal_strlit("couldn't find requested window ");
                        }
                        let ghost m0 = msg@;
                        msg.append(&mut rest);
                        out.push(
                            MainResponse::Error {
                                client_id,
                                request_id,
                                message: string_from_chars(msg.as_slice()),
                            },
                        );
                    },
                }
            },
            MainRequest::Unwatch { client_id, request_id, app_id } => {
                self.ipc.unwatch(&app_id, client_id);
                out.push(MainResponse::Ack { client_id, request_id });
            },
            MainRequest::Focus { client_id, request_id, app_id } => {
                effects.push(Effect::ManageDirty);
                self.queue.push(Task::FocusWindow { window_id: app_id });
                out.push(response_from_result(client_id, request_id, Ok(())));
            },
            MainRequest::Disconnected { client_id } => {
                self.ipc.remove_client_from_watchers(client_id);
            },
        }
        out
    }
}

}
