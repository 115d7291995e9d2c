use vstd::prelude::*;
use crate::window::{Output, OutputId, Window, WindowId};

verus! {

/// Some window of `ws` has id `id`.
pub open spec fn has_window(ws: Seq<Window>, id: WindowId) -> bool {
    exists|i: int| 0 <= i < ws.len() && (#[trigger] ws[i]).id == id
}

/// The first window of `ws` with id `id`, if any.
pub open spec fn first_window(ws: Seq<Window>, id: WindowId, r: Option<usize>) -> bool {
    match r {
        Some(i) => i < ws.len() && ws[i as int].id == id && forall|j: int|
            0 <= j < i ==> (#[trigger] ws[j]).id != id,
        None => !has_window(ws, id),
    }
}

/// At most one index is the first with a given id.
pub proof fn lemma_first_window_unique(ws: Seq<Window>, id: WindowId, i: usize, j: usize)
    requires
        first_window(ws, id, Some(i)),
        first_window(ws, id, Some(j)),
    ensures
        i == j,
{
    if i < j {
        assert(ws[i as int].id == id);
    }
    if j < i {
        assert(ws[j as int].id == id);
    }
}

pub fn find_window(windows: &Vec<Window>, id: WindowId) -> (r: Option<usize>)
    ensures
        first_window(windows@, id, r),
        r == window_index(windows@, id),
{
    let n = windows.len();
    let mut i: usize = 0;
    while i < n && windows[i].id != id
        invariant
            0 <= i <= n,
            n == windows@.len(),
            forall|j: int| 0 <= j < i ==> (#[trigger] windows@[j]).id != id,
        decreases n - i,
    {
        i += 1;
    }
    let r = if i < n {
        Some(i)
    } else {
        None
    };
    proof {
        lemma_window_index(windows@, id, r);
    }
    r
}

/// Some output of `os` has id `id`.
pub open spec fn first_output(os: Seq<Output>, id: OutputId, r: Option<usize>) -> bool {
    match r {
        Some(i) => i < os.len() && os[i as int].id == id && forall|j: int|
            0 <= j < i ==> (#[trigger] os[j]).id != id,
        None => forall|j: int| 0 <= j < os.len() ==> (#[trigger] os[j]).id != id,
    }
}

pub fn find_output(outputs: &Vec<Output>, id: OutputId) -> (r: Option<usize>)
    ensures
        first_output(outputs@, id, r),
        r == output_index(outputs@, id),
{
    let n = outputs.len();
    let mut i: usize = 0;
    while i < n && outputs[i].id != id
        invariant
            0 <= i <= n,
            n == outputs@.len(),
            forall|j: int| 0 <= j < i ==> (#[trigger] outputs@[j]).id != id,
        decreases n - i,
    {
        i += 1;
    }
    proof {
        let p = output_has_id(outputs@, id);
        lemma_first_where(outputs@.len(), p);
        assert(forall|j: int| #[trigger] p(j) == (outputs@[j].id == id));
        match output_index(outputs@, id) {
            Some(j) => {
                assert(p(j as int));
                if (j as int) < (i as int) {
                    assert(outputs@[j as int].id == id);
                }
                if (i as int) < (j as int) {
                    assert(!p(i as int));
                }
            },
            None => {
                if i < n {
                    assert(!p(i as int));
                }
            },
        }
    }
    if i < n {
        Some(i)
    } else {
        None
    }
}

}

verus! {

/// The first index below `n` at which `p` holds, if any.
pub open spec fn first_where(n: nat, p: spec_fn(int) -> bool) -> Option<usize>
    decreases n,
{
    if n == 0 {
        None
    } else {
        match first_where((n - 1) as nat, p) {
            Some(i) => Some(i),
            None => if p(n - 1) {
                Some((n - 1) as usize)
            } else {
                None
            },
        }
    }
}

/// `first_where` finds the least index at which `p` holds.
pub proof fn lemma_first_where(n: nat, p: spec_fn(int) -> bool)
    requires
        n <= usize::MAX + 1,
    ensures
        match first_where(n, p) {
            Some(i) => i < n && p(i as int) && forall|j: int| 0 <= j < i ==> !#[trigger] p(j),
            None => forall|j: int| 0 <= j < n ==> !#[trigger] p(j),
        },
    decreases n,
{
    if n > 0 {
        lemma_first_where((n - 1) as nat, p);
    }
}

/// `first_where` only looks below `n`.
pub proof fn lemma_first_where_ext(n: nat, p: spec_fn(int) -> bool, q: spec_fn(int) -> bool)
    requires
        forall|i: int| 0 <= i < n ==> #[trigger] p(i) == q(i),
    ensures
        first_where(n, p) == first_where(n, q),
    decreases n,
{
    if n > 0 {
        lemma_first_where_ext((n - 1) as nat, p, q);
        assert(p(n - 1) == q(n - 1));
    }
}

/// Whether output `i` of `os` has id `id`.
pub open spec fn output_has_id(os: Seq<Output>, id: OutputId) -> spec_fn(int) -> bool {
    |i: int| os[i].id == id
}

/// The index of the first output with id `id`.
pub open spec fn output_index(os: Seq<Output>, id: OutputId) -> Option<usize> {
    first_where(os.len(), output_has_id(os, id))
}

/// Whether window `i` of `ws` has id `id`.
pub open spec fn window_has_id(ws: Seq<Window>, id: WindowId) -> spec_fn(int) -> bool {
    |i: int| ws[i].id == id
}

/// The index of the first window of `ws` with id `id`.
pub open spec fn window_index(ws: Seq<Window>, id: WindowId) -> Option<usize> {
    first_where(ws.len(), window_has_id(ws, id))
}

/// Whether entry `i` of `s` is `id`.
pub open spec fn is_id(s: Seq<WindowId>, id: WindowId) -> spec_fn(int) -> bool {
    |i: int| s[i] == id
}

/// The index of the first occurrence of `id` in `s`.
pub open spec fn id_index(s: Seq<WindowId>, id: WindowId) -> Option<usize> {
    first_where(s.len(), is_id(s, id))
}

pub proof fn lemma_window_index(ws: Seq<Window>, id: WindowId, r: Option<usize>)
    requires
        first_window(ws, id, r),
        ws.len() <= usize::MAX,
    ensures
        r == window_index(ws, id),
{
    let p = window_has_id(ws, id);
    lemma_first_where(ws.len(), p);
    assert(forall|j: int| #[trigger] p(j) == (ws[j].id == id));
    match r {
        Some(i) => {
            match window_index(ws, id) {
                Some(j) => {
                    assert(p(j as int));
                    if j < i {
                        assert(ws[j as int].id == id);
                    }
                    if i < j {
                        assert(!p(i as int));
                    }
                },
                None => {
                    assert(!p(i as int));
                },
            }
        },
        None => {
            match window_index(ws, id) {
                Some(j) => {
                    assert(p(j as int));
                    assert(ws[j as int].id == id);
                },
                None => {},
            }
        },
    }
}

/// The index of the first occurrence of `id` in `s`.
pub fn find_id(s: &Vec<WindowId>, id: WindowId) -> (r: Option<usize>)
    ensures
        r == id_index(s@, id),
        r matches Some(k) ==> k < s@.len(),
{
    let n = s.len();
    let mut i: usize = 0;
    while i < n && s[i] != id
        invariant
            0 <= i <= n,
            n == s@.len(),
            forall|j: int| 0 <= j < i ==> s@[j] != id,
        decreases n - i,
    {
        i += 1;
    }
    proof {
        let p = is_id(s@, id);
        lemma_first_where(s@.len(), p);
        assert(forall|j: int| #[trigger] p(j) == (s@[j] == id));
        match id_index(s@, id) {
            Some(j) => {
                assert(p(j as int));
                if (j as int) < (i as int) {
                    assert(s@[j as int] == id);
                }
                if (i as int) < (j as int) {
                    assert(!p(i as int));
                }
            },
            None => {
                if i < n {
                    assert(!p(i as int));
                }
            },
        }
    }
    if i < n {
        Some(i)
    } else {
        None
    }
}

}
