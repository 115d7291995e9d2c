use vstd::prelude::*;
use crate::geometry::Position;
use crate::window::ClientId;

verus! {

/// A request that the IPC thread forwards to the window manager.
#[derive(Debug, Clone)]
pub enum MainRequest {
    Watch { client_id: ClientId, request_id: u64, app_id: String },
    Unwatch { client_id: ClientId, request_id: u64, app_id: String },
    Focus { client_id: ClientId, request_id: u64, app_id: String },
    Disconnected { client_id: ClientId },
}

/// A reply or event that the window manager sends back to one IPC client.
#[derive(Debug, Clone)]
pub enum MainResponse {
    Geometry { client_id: ClientId, window_id: String, center: Position },
    Ack { client_id: ClientId, request_id: u64 },
    OkWatch { client_id: ClientId, window_id: String, request_id: u64 },
    Error { client_id: ClientId, request_id: u64, message: String },
}

/// A request as a client writes it on the socket (one JSON object per line).
#[derive(Debug, Clone)]
pub enum SocketRequest {
    Watch { request_id: u64, app_id: String },
    Unwatch { request_id: u64, app_id: String },
    Focus { request_id: u64, app_id: String },
}

/// A reply or event as it is written back on the socket.
#[derive(Debug, Clone)]
pub enum SocketResponse {
    Geometry { window_id: String, center: Position },
    Ack { request_id: u64 },
    OkWatch { request_id: u64, window_id: String },
    Error { request_id: u64, message: String },
}

impl SocketRequest {
    /// The request, tagged with the client it came from.
    pub fn into_main(self, client_id: ClientId) -> (r: MainRequest)
        ensures
            match self {
                SocketRequest::Watch { request_id, app_id } => r == (MainRequest::Watch {
                    client_id,
                    request_id,
                    app_id,
                }),
                SocketRequest::Unwatch { request_id, app_id } => r == (MainRequest::Unwatch {
                    client_id,
                    request_id,
                    app_id,
                }),
                SocketRequest::Focus { request_id, app_id } => r == (MainRequest::Focus {
                    client_id,
                    request_id,
                    app_id,
                }),
            },
    {
        match self {
            SocketRequest::Watch { request_id, app_id } => MainRequest::Watch {
                client_id,
                request_id,
                app_id,
            },
            SocketRequest::Unwatch { request_id, app_id } => MainRequest::Unwatch {
                client_id,
                request_id,
                app_id,
            },
            SocketRequest::Focus { request_id, app_id } => MainRequest::Focus {
                client_id,
                request_id,
                app_id,
            },
        }
    }
}

impl MainResponse {
    /// The client that the response is for, and what is written to it.
    pub fn into_socket(self) -> (r: (ClientId, SocketResponse))
        ensures
            match self {
                MainResponse::Geometry { client_id, window_id, center } => r == (
                    client_id,
                    SocketResponse::Geometry { window_id, center },
                ),
                MainResponse::OkWatch { client_id, window_id, request_id } => r == (
                    client_id,
                    SocketResponse::OkWatch { request_id, window_id },
                ),
                MainResponse::Ack { client_id, request_id } => r == (
                    client_id,
                    SocketResponse::Ack { request_id },
                ),
                MainResponse::Error { client_id, request_id, message } => r == (
                    client_id,
                    SocketResponse::Error { request_id, message },
                ),
            },
    {
        match self {
            MainResponse::Geometry { client_id, window_id, center } => (
                client_id,
                SocketResponse::Geometry { window_id, center },
            ),
            MainResponse::OkWatch { client_id, window_id, request_id } => (
                client_id,
                SocketResponse::OkWatch { request_id, window_id },
            ),
            MainResponse::Ack { client_id, request_id } => (
                client_id,
                SocketResponse::Ack { request_id },
            ),
            MainResponse::Error { client_id, request_id, message } => (
                client_id,
                SocketResponse::Error { request_id, message },
            ),
        }
    }
}

/// `Ok` for a request that succeeded, `Error` with the message for one that failed.
pub fn response_from_result(client_id: ClientId, request_id: u64, result: Result<(), String>) -> (r:
    MainResponse)
    ensures
        match result {
            Ok(()) => r == (MainResponse::Ack { client_id, request_id }),
            Err(message) => r == (MainResponse::Error { client_id, request_id, message }),
        },
{
    match result {
        Ok(()) => MainResponse::Ack { client_id, request_id },
        Err(message) => MainResponse::Error { client_id, request_id, message },
    }
}

/// The byte that ends a request line.
pub open spec fn newline() -> u8 {
    10
}

/// The index of the first newline of `b`, or its length.
pub open spec fn first_newline(b: Seq<u8>) -> nat
    decreases b.len(),
{
    if b.len() == 0 || b[0] == newline() {
        0
    } else {
        1 + first_newline(b.drop_first())
    }
}

pub proof fn lemma_first_newline(b: Seq<u8>)
    ensures
        first_newline(b) <= b.len(),
        first_newline(b) < b.len() ==> b[first_newline(b) as int] == newline(),
        forall|i: int| 0 <= i < first_newline(b) ==> b[i] != newline(),
    decreases b.len(),
{
    if b.len() > 0 && b[0] != newline() {
        lemma_first_newline(b.drop_first());
        assert forall|i: int| 0 <= i < first_newline(b) implies b[i] != newline() by {
            if i > 0 {
                assert(b[i] == b.drop_first()[i - 1]);
            }
        }
    }
}

/// The complete, non-empty lines of `b` (without their newline), in order.
pub open spec fn lines_of(b: Seq<u8>) -> Seq<Seq<u8>>
    decreases b.len(),
{
    proof {
        lemma_first_newline(b);
    }
    let k = first_newline(b);
    if k >= b.len() {
        Seq::empty()
    } else if k == 0 {
        lines_of(b.skip(1))
    } else {
        seq![b.take(k as int)] + lines_of(b.skip((k + 1) as int))
    }
}

/// What follows the last newline of `b` (all of `b` if it has none).
pub open spec fn leftover(b: Seq<u8>) -> Seq<u8>
    decreases b.len(),
{
    proof {
        lemma_first_newline(b);
    }
    let k = first_newline(b);
    if k >= b.len() {
        b
    } else {
        leftover(b.skip((k + 1) as int))
    }
}

/// Framing leaves no complete line behind: what stays in the buffer holds no
/// newline, and every line taken out is non-empty and holds no newline.
pub proof fn lemma_framing(b: Seq<u8>)
    ensures
        !leftover(b).contains(newline()),
        forall|i: int| 0 <= i < lines_of(b).len() ==> #[trigger] lines_of(b)[i].len() > 0
            && !lines_of(b)[i].contains(newline()),
    decreases b.len(),
{
    lemma_first_newline(b);
    let k = first_newline(b);
    if k >= b.len() {
        assert(lines_of(b).len() == 0);
        if leftover(b).contains(newline()) {
            let j = choose|j: int| 0 <= j < b.len() && b[j] == newline();
            assert(b[j] != newline());
        }
    } else {
        let rest = b.skip((k + 1) as int);
        lemma_framing(rest);
        assert(leftover(b) == leftover(rest));
        if k == 0 {
            assert(b.skip(1) == rest);
            assert(lines_of(b) == lines_of(rest));
        } else {
            let line = b.take(k as int);
            assert forall|i: int| 0 <= i < lines_of(b).len() implies #[trigger] lines_of(b)[i].len() > 0
                && !lines_of(b)[i].contains(newline()) by {
                if i == 0 {
                    assert(lines_of(b)[0] == line);
                    if line.contains(newline()) {
                        let j = choose|j: int| 0 <= j < line.len() && line[j] == newline();
                        assert(b[j] == newline());
                    }
                } else {
                    assert(lines_of(b)[i] == lines_of(rest)[i - 1]);
                }
            }
        }
    }
}

fn find_newline(b: &Vec<u8>, lo: usize) -> (k: usize)
    requires
        lo <= b.len(),
    ensures
        k == lo + first_newline(b@.subrange(lo as int, b.len() as int)),
        lo <= k <= b.len(),
{
    let mut k = lo;
    while k < b.len() && b[k] != 10
        invariant
            lo <= k <= b.len(),
            lo + first_newline(b@.subrange(lo as int, b.len() as int)) == k + first_newline(
                b@.subrange(k as int, b.len() as int),
            ),
        decreases b.len() - k,
    {
        assert(b@.subrange(k as int, b.len() as int).drop_first() =~= b@.subrange(
            k + 1,
            b.len() as int,
        ));
        k += 1;
    }
    k
}

fn copy_range(b: &Vec<u8>, lo: usize, hi: usize) -> (v: Vec<u8>)
    requires
        lo <= hi <= b.len(),
    ensures
        v@ == b@.subrange(lo as int, hi as int),
{
    let mut v: Vec<u8> = Vec::new();
    let mut i = lo;
    while i < hi
        invariant
            lo <= i <= hi <= b.len(),
            v@ == b@.subrange(lo as int, i as int),
        decreases hi - i,
    {
        v.push(b[i]);
        i += 1;
        assert(v@ =~= b@.subrange(lo as int, i as int));
    }
    v
}

/// Takes the complete lines out of a client's read buffer: returns the non-empty
/// ones, in order, and leaves the unfinished tail in the buffer.
pub fn take_lines(read_buf: &mut Vec<u8>) -> (lines: Vec<Vec<u8>>)
    ensures
        lines@.map_values(|l: Vec<u8>| l@) == lines_of(old(read_buf)@),
        final(read_buf)@ == leftover(old(read_buf)@),
{
    let ghost orig = read_buf@;
    let mut lines: Vec<Vec<u8>> = Vec::new();
    let mut pos: usize = 0;
    let n = read_buf.len();
    assert(orig.subrange(0, n as int) =~= orig);
    assert(lines@.map_values(|l: Vec<u8>| l@) + lines_of(orig) =~= lines_of(orig));
    loop
        invariant
            n == read_buf.len(),
            read_buf@ == orig,
            pos <= n,
            lines_of(orig) == lines@.map_values(|l: Vec<u8>| l@) + lines_of(
                orig.subrange(pos as int, n as int),
            ),
            leftover(orig) == leftover(orig.subrange(pos as int, n as int)),
            orig == old(read_buf)@,
        decreases n - pos,
    {
        let ghost rest = orig.subrange(pos as int, n as int);
        let k = find_newline(read_buf, pos);
        proof {
            lemma_first_newline(rest);
        }
        if k == n {
            assert(lines_of(rest) =~= Seq::<Seq<u8>>::empty());
            assert(lines@.map_values(|l: Vec<u8>| l@) + Seq::<Seq<u8>>::empty() =~= lines@.map_values(
                |l: Vec<u8>| l@,
            ));
            assert(leftover(rest) == rest);
            let tail = copy_range(read_buf, pos, n);
            *read_buf = tail;
            return lines;
        }
        assert(rest.skip((k - pos) + 1) =~= orig.subrange(k + 1, n as int));
        if k > pos {
            let line = copy_range(read_buf, pos, k);
            let ghost before = lines@.map_values(|l: Vec<u8>| l@);
            lines.push(line);
            assert(rest.take((k - pos) as int) =~= orig.subrange(pos as int, k as int));
            assert(lines@.map_values(|l: Vec<u8>| l@) =~= before.push(
                orig.subrange(pos as int, k as int),
            ));
            assert(before + lines_of(rest) =~= before.push(orig.subrange(pos as int, k as int))
                + lines_of(orig.subrange(k + 1, n as int)));
        }
        pos = k + 1;
    }
}

/// Which clients watch which windows, by the window's object name.
#[derive(Debug)]
pub struct IpcState {
    pub watchers: Vec<(String, ClientId)>,
}

/// The (window name, client) pairs that a list of entries holds.
pub open spec fn pairs_set(s: Seq<(String, ClientId)>) -> Set<(Seq<char>, ClientId)> {
    Set::new(
        |p: (Seq<char>, ClientId)|
            exists|i: int| 0 <= i < s.len() && (#[trigger] s[i]).0@ == p.0 && s[i].1 == p.1,
    )
}

proof fn lemma_pairs_push(s: Seq<(String, ClientId)>, e: (String, ClientId))
    ensures
        pairs_set(s.push(e)) == pairs_set(s).insert((e.0@, e.1)),
{
    assert forall|p: (Seq<char>, ClientId)| #[trigger]
        pairs_set(s.push(e)).contains(p) == pairs_set(s).insert((e.0@, e.1)).contains(p) by {
        if pairs_set(s).contains(p) {
            let i = choose|i: int| 0 <= i < s.len() && (#[trigger] s[i]).0@ == p.0 && s[i].1 == p.1;
            assert(s.push(e)[i] == s[i]);
        }
        if p == (e.0@, e.1) {
            assert(s.push(e)[s.len() as int] == e);
        }
        if pairs_set(s.push(e)).contains(p) {
            let i = choose|i: int|
                0 <= i < s.push(e).len() && (#[trigger] s.push(e)[i]).0@ == p.0 && s.push(e)[i].1
                    == p.1;
            if i < s.len() {
                assert(s[i] == s.push(e)[i]);
            }
        }
    }
    assert(pairs_set(s.push(e)) =~= pairs_set(s).insert((e.0@, e.1)));
}

impl View for IpcState {
    type V = Set<(Seq<char>, ClientId)>;

    open spec fn view(&self) -> Set<(Seq<char>, ClientId)> {
        pairs_set(self.watchers@)
    }
}

/// The watch table without any entry of client `c`.
pub open spec fn without_client(s: Set<(Seq<char>, ClientId)>, c: ClientId) -> Set<
    (Seq<char>, ClientId),
> {
    s.filter(|p: (Seq<char>, ClientId)| p.1 != c)
}

/// The entries that `retain_where(name, c)` keeps.
pub open spec fn kept_by(name: Option<Seq<char>>, c: ClientId) -> spec_fn(
    (Seq<char>, ClientId),
) -> bool {
    |p: (Seq<char>, ClientId)|
        !(p.1 == c && match name {
            Some(n) => p.0 == n,
            None => true,
        })
}

impl IpcState {
    pub fn new() -> (s: IpcState)
        ensures
            s.watchers@.len() == 0,
            s@ == Set::<(Seq<char>, ClientId)>::empty(),
    {
        let s = IpcState { watchers: Vec::new() };
        assert(s@ =~= Set::<(Seq<char>, ClientId)>::empty());
        s
    }

    /// Whether `client_id` watches the window named `name`.
    pub fn is_watching(&self, name: &String, client_id: ClientId) -> (r: bool)
        ensures
            r == self@.contains((name@, client_id)),
    {
        let mut i: usize = 0;
        while i < self.watchers.len()
            invariant
                0 <= i <= self.watchers.len(),
                forall|j: int|
                    0 <= j < i ==> !((#[trigger] self.watchers@[j]).0@ == name@
                        && self.watchers@[j].1 == client_id),
            decreases self.watchers.len() - i,
        {
            if self.watchers[i].1 == client_id && self.watchers[i].0 == *name {
                return true;
            }
            i += 1;
        }
        false
    }

    /// Records that `client_id` watches the window named `name`.
    pub fn watch(&mut self, name: &String, client_id: ClientId)
        ensures
            final(self)@ == old(self)@.insert((name@, client_id)),
    {
        if !self.is_watching(name, client_id) {
            let e = (name.clone(), client_id);
            proof {
                lemma_pairs_push(self.watchers@, e);
            }
            self.watchers.push(e);
        } else {
            assert(self@ =~= old(self)@.insert((name@, client_id)));
        }
    }

    /// Drops the entries of `client_id`, for the window named `name` only when one
    /// is given.
    fn retain_where(&mut self, name: Option<&String>, client_id: ClientId)
        ensures
            final(self)@ == old(self)@.filter(
                kept_by(
                    match name {
                        Some(n) => Some(n@),
                        None => None,
                    },
                    client_id,
                ),
            ),
    {
        let ghost keep = kept_by(
            match name {
                Some(n) => Some(n@),
                None => None,
            },
            client_id,
        );
        let ghost old_w = self.watchers@;
        let mut kept: Vec<(String, ClientId)> = Vec::new();
        let mut i: usize = 0;
        assert(pairs_set(kept@) =~= pairs_set(old_w.take(0)).filter(keep));
        while i < self.watchers.len()
            invariant
                0 <= i <= self.watchers.len(),
                self.watchers@ == old_w,
                keep == kept_by(
                    match name {
                        Some(n) => Some(n@),
                        None => None,
                    },
                    client_id,
                ),
                pairs_set(kept@) == pairs_set(old_w.take(i as int)).filter(keep),
            decreases self.watchers.len() - i,
        {
            let same_client = self.watchers[i].1 == client_id;
            let same_name = match name {
                Some(n) => {
                    let e = self.watchers[i].0.eq(n);
                    assert(e == (old_w[i as int].0@ == n@));
                    e
                },
                None => true,
            };
            let drop = same_client && same_name;
            let ghost p = (old_w[i as int].0@, old_w[i as int].1);
            proof {
                assert(old_w.take(i + 1) =~= old_w.take(i as int).push(old_w[i as int]));
                lemma_pairs_push(old_w.take(i as int), old_w[i as int]);
                assert(keep(p) == !drop);
            }
            if !drop {
                let e = (self.watchers[i].0.clone(), self.watchers[i].1);
                proof {
                    lemma_pairs_push(kept@, e);
                }
                kept.push(e);
                assert(pairs_set(kept@) =~= pairs_set(old_w.take(i + 1)).filter(keep));
            } else {
                assert(pairs_set(kept@) =~= pairs_set(old_w.take(i + 1)).filter(keep));
            }
            i += 1;
        }
        assert(old_w.take(i as int) =~= old_w);
        self.watchers = kept;
    }

    /// Records that `client_id` no longer watches the window named `name`.
    pub fn unwatch(&mut self, name: &String, client_id: ClientId)
        ensures
            final(self)@ == old(self)@.remove((name@, client_id)),
    {
        self.retain_where(Some(name), client_id);
        assert(self@ =~= old(self)@.remove((name@, client_id)));
    }

    /// Forgets every window that `client_id` watches.
    pub fn remove_client_from_watchers(&mut self, client_id: ClientId)
        ensures
            final(self)@ == without_client(old(self)@, client_id),
    {
        self.retain_where(None, client_id);
        assert(self@ =~= without_client(old(self)@, client_id));
    }
}

/// Watching a window and then unwatching it leaves the watch table as it was, when
/// the client did not watch that window before.
pub proof fn lemma_watch_then_unwatch(s: Set<(Seq<char>, ClientId)>, name: Seq<char>, c: ClientId)
    requires
        !s.contains((name, c)),
    ensures
        s.insert((name, c)).remove((name, c)) == s,
{
    assert(s.insert((name, c)).remove((name, c)) =~= s);
}

/// Once a client is removed, it watches nothing, and every other client's watches
/// are kept.
pub proof fn lemma_disconnect_forgets_client(s: Set<(Seq<char>, ClientId)>, c: ClientId)
    ensures
        forall|name: Seq<char>| !#[trigger] without_client(s, c).contains((name, c)),
        forall|name: Seq<char>, d: ClientId|
            d != c ==> (#[trigger] without_client(s, c).contains((name, d)) == s.contains(
                (name, d),
            )),
{
}

}
