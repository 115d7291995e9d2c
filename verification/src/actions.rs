use vstd::prelude::*;
use crate::text::{
    is_ws,
    all_ws, lemma_trim_ignores_whitespace,
    ascii_lower, chars_of, lower_range, parse_i32, parse_i32_spec, range_eq, range_starts_with,
    split_words, string_from_chars, sub_chars, trim, trim_range, words,
};

verus! {

/// What a key or pointer binding does.
#[derive(Debug, Clone)]
pub enum Action {
    Noop,
    Pan,
    View { x: i32, y: i32 },
    Spawn { program: String, args: Vec<String> },
    SpawnShell { command: String },
    Close,
    CenterFocused,
    Move,
    Resize,
    ToggleMaximize,
    NextSlide,
    PrevSlide,
    MoveToNextSlide,
    MoveToPrevSlide,
    NextWindow,
    PrevWindow,
    CycleTiling,
    Exit,
}

/// The mathematical value of an action.
pub enum ActionModel {
    Noop,
    Pan,
    View { x: i32, y: i32 },
    Spawn { program: Seq<char>, args: Seq<Seq<char>> },
    SpawnShell { command: Seq<char> },
    Close,
    CenterFocused,
    Move,
    Resize,
    ToggleMaximize,
    NextSlide,
    PrevSlide,
    MoveToNextSlide,
    MoveToPrevSlide,
    NextWindow,
    PrevWindow,
    CycleTiling,
    Exit,
}

impl View for Action {
    type V = ActionModel;

    open spec fn view(&self) -> ActionModel {
        match self {
            Action::Noop => ActionModel::Noop,
            Action::Pan => ActionModel::Pan,
            Action::View { x, y } => ActionModel::View { x: *x, y: *y },
            Action::Spawn { program, args } => ActionModel::Spawn {
                program: program@,
                args: args@.map_values(|a: String| a@),
            },
            Action::SpawnShell { command } => ActionModel::SpawnShell { command: command@ },
            Action::Close => ActionModel::Close,
            Action::CenterFocused => ActionModel::CenterFocused,
            Action::Move => ActionModel::Move,
            Action::Resize => ActionModel::Resize,
            Action::ToggleMaximize => ActionModel::ToggleMaximize,
            Action::NextSlide => ActionModel::NextSlide,
            Action::PrevSlide => ActionModel::PrevSlide,
            Action::MoveToNextSlide => ActionModel::MoveToNextSlide,
            Action::MoveToPrevSlide => ActionModel::MoveToPrevSlide,
            Action::NextWindow => ActionModel::NextWindow,
            Action::PrevWindow => ActionModel::PrevWindow,
            Action::CycleTiling => ActionModel::CycleTiling,
            Action::Exit => ActionModel::Exit,
        }
    }
}

pub open spec fn action_view(a: Option<Action>) -> Option<ActionModel> {
    match a {
        Some(a) => Some(a@),
        None => None,
    }
}

/// A set of keyboard modifiers, with river's bit for each.
#[derive(Debug, Clone, Copy, PartialEq, Eq, Structural)]
pub struct Modifiers {
    pub bits: u32,
}

impl Modifiers {
    pub fn union(self, other: Modifiers) -> (r: Modifiers)
        ensures
            r.bits == self.bits | other.bits,
    {
        Modifiers { bits: self.bits | other.bits }
    }
}

/// The modifier bit that a (trimmed, lowered) name stands for.
pub open spec fn modifier_bits(w: Seq<char>) -> Option<u32> {
    if w == "none"@ {
        Some(0u32)
    } else if w == "shift"@ {
        Some(1u32)
    } else if w == "ctrl"@ {
        Some(4u32)
    } else if w == "alt"@ {
        Some(8u32)
    } else if w == "super"@ {
        Some(64u32)
    } else if w == "mod3"@ {
        Some(32u32)
    } else if w == "mod5"@ {
        Some(128u32)
    } else {
        None
    }
}

pub open spec fn is_mod_sep(c: char) -> bool {
    c == '+' || c == '-'
}

/// The index of the first `+` or `-` in `s`, or its length.
pub open spec fn first_sep(s: Seq<char>) -> nat
    decreases s.len(),
{
    if s.len() == 0 || is_mod_sep(s[0]) {
        0
    } else {
        1 + first_sep(s.drop_first())
    }
}

pub proof fn lemma_first_sep_len(s: Seq<char>)
    ensures
        first_sep(s) <= s.len(),
        first_sep(s) < s.len() ==> is_mod_sep(s[first_sep(s) as int]),
    decreases s.len(),
{
    if s.len() > 0 && !is_mod_sep(s[0]) {
        lemma_first_sep_len(s.drop_first());
    }
}

/// The pieces of `s` between `+` and `-` signs, as `str::split(['+', '-'])` gives them.
pub open spec fn split_mods(s: Seq<char>) -> Seq<Seq<char>>
    decreases s.len(),
{
    proof {
        lemma_first_sep_len(s);
    }
    if first_sep(s) >= s.len() {
        seq![s]
    } else {
        seq![s.take(first_sep(s) as int)] + split_mods(s.skip((first_sep(s) + 1) as int))
    }
}

/// The word a piece stands for: trimmed, then lowered.
pub open spec fn piece_word(p: Seq<char>) -> Seq<char> {
    ascii_lower(trim(p))
}

/// The union of the modifiers that the pieces name, and whether any piece was
/// non-empty; `None` if a non-empty piece names no modifier.
pub open spec fn fold_mods(pieces: Seq<Seq<char>>) -> Option<(u32, bool)>
    decreases pieces.len(),
{
    if pieces.len() == 0 {
        Some((0u32, false))
    } else {
        let w = piece_word(pieces[0]);
        let rest = fold_mods(pieces.drop_first());
        if w.len() == 0 {
            rest
        } else {
            match modifier_bits(w) {
                None => None,
                Some(m) => match rest {
                    None => None,
                    Some((b, _)) => Some((m | b, true)),
                },
            }
        }
    }
}

/// A modifier group such as "super+shift": every non-empty piece between `+` and
/// `-` must name a modifier, and at least one piece must be non-empty.
pub open spec fn parse_modifiers_spec(s: Seq<char>) -> Option<u32> {
    match fold_mods(split_mods(s)) {
        Some((b, true)) => Some(b),
        _ => None,
    }
}

pub open spec fn merge_mods(acc: u32, seen: bool, r: Option<(u32, bool)>) -> Option<(u32, bool)> {
    match r {
        None => None,
        Some((b, s)) => Some((acc | b, seen || s)),
    }
}

fn modifier_of(w: &Vec<char>) -> (r: Option<u32>)
    ensures
        r == modifier_bits(w@),
{
    let n = w.len();
    assert(w@.subrange(0, n as int) =~= w@);
    if range_eq(w, 0, n, "none") {
        Some(0)
    } else if range_eq(w, 0, n, "shift") {
        Some(1)
    } else if range_eq(w, 0, n, "ctrl") {
        Some(4)
    } else if range_eq(w, 0, n, "alt") {
        Some(8)
    } else if range_eq(w, 0, n, "super") {
        Some(64)
    } else if range_eq(w, 0, n, "mod3") {
        Some(32)
    } else if range_eq(w, 0, n, "mod5") {
        Some(128)
    } else {
        proof {
            assert(w@.subrange(0, n as int) =~= w@);
        }
        None
    }
}

fn find_sep(s: &Vec<char>, lo: usize, hi: usize) -> (k: usize)
    requires
        lo <= hi <= s.len(),
    ensures
        k == lo + first_sep(s@.subrange(lo as int, hi as int)),
        lo <= k <= hi,
{
    let mut k = lo;
    while k < hi && !(s[k] == '+' || s[k] == '-')
        invariant
            lo <= k <= hi <= s.len(),
            lo + first_sep(s@.subrange(lo as int, hi as int)) == k + first_sep(
                s@.subrange(k as int, hi as int),
            ),
        decreases hi - k,
    {
        assert(s@.subrange(k as int, hi as int).drop_first() =~= s@.subrange(k + 1, hi as int));
        k += 1;
    }
    k
}

/// Parses a modifier group such as "Super+Shift".
pub fn parse_modifiers(s: &str) -> (r: Option<Modifiers>)
    ensures
        r == (match parse_modifiers_spec(s@) {
            Some(b) => Some(Modifiers { bits: b }),
            None => None::<Modifiers>,
        }),
{
    let cs = chars_of(s);
    let n = cs.len();
    let mut mods = Modifiers { bits: 0 };
    let mut seen_any = false;
    let mut pos: usize = 0;
    assert(cs@.subrange(0, n as int) =~= s@);
    proof {
        if let Some((b0, _)) = fold_mods(split_mods(s@)) {
            assert((0u32 | b0) == b0) by (bit_vector);
        }
    }
    loop
        invariant
            n == cs.len(),
            cs@ == s@,
            pos <= n,
            fold_mods(split_mods(s@)) == merge_mods(
                mods.bits,
                seen_any,
                fold_mods(split_mods(cs@.subrange(pos as int, n as int))),
            ),
        decreases n - pos,
    {
        let ghost rest = cs@.subrange(pos as int, n as int);
        let k = find_sep(&cs, pos, n);
        let (a, b) = trim_range(&cs, pos, k);
        let w = lower_range(&cs, a, b);
        proof {
            lemma_first_sep_len(rest);
            assert(rest.take(first_sep(rest) as int) =~= cs@.subrange(pos as int, k as int));
            if k < n {
                assert(rest.skip((first_sep(rest) + 1) as int) =~= cs@.subrange(k + 1, n as int));
                assert(split_mods(rest).drop_first() =~= split_mods(
                    cs@.subrange(k + 1, n as int),
                ));
            } else {
                assert(rest =~= cs@.subrange(pos as int, k as int));
                assert(split_mods(rest).drop_first() =~= Seq::<Seq<char>>::empty());
            }
            assert(split_mods(rest)[0] == cs@.subrange(pos as int, k as int));
        }
        if w.len() != 0 {
            match modifier_of(&w) {
                None => {
                    return None;
                },
                Some(m) => {
                    let ghost old_bits = mods.bits;
                    mods = mods.union(Modifiers { bits: m });
                    seen_any = true;
                    proof {
                        let rf = fold_mods(split_mods(rest).drop_first());
                        if let Some((bb, _)) = rf {
                            assert((old_bits | (m | bb)) == ((old_bits | m) | bb))
                                by (bit_vector);
                        }
                    }
                },
            }
        }
        if k == n {
            assert(fold_mods(Seq::<Seq<char>>::empty()) == Some((0u32, false)));
            assert((mods.bits | 0u32) == mods.bits) by (bit_vector);
            if seen_any {
                return Some(mods);
            } else {
                return None;
            }
        }
        pos = k + 1;
    }
}

/// The action that a binding's text names: a keyword, "spawn PROGRAM ARGS...",
/// "shell COMMAND" or "view X Y", with surrounding whitespace ignored.
pub open spec fn parse_action_spec(s: Seq<char>) -> Option<ActionModel> {
    let k = trim(s);
    if k == "pan"@ {
        Some(ActionModel::Pan)
    } else if k == "close"@ {
        Some(ActionModel::Close)
    } else if k == "center_focused"@ {
        Some(ActionModel::CenterFocused)
    } else if k == "move"@ {
        Some(ActionModel::Move)
    } else if k == "resize"@ {
        Some(ActionModel::Resize)
    } else if k == "maximize"@ {
        Some(ActionModel::ToggleMaximize)
    } else if k == "next_slide"@ {
        Some(ActionModel::NextSlide)
    } else if k == "moveto_next_slide"@ {
        Some(ActionModel::MoveToNextSlide)
    } else if k == "moveto_prev_slide"@ {
        Some(ActionModel::MoveToPrevSlide)
    } else if k == "prev_slide"@ {
        Some(ActionModel::PrevSlide)
    } else if k == "next_window"@ {
        Some(ActionModel::NextWindow)
    } else if k == "prev_window"@ {
        Some(ActionModel::PrevWindow)
    } else if k == "cycle_tiling"@ {
        Some(ActionModel::CycleTiling)
    } else if k == "exit"@ {
        Some(ActionModel::Exit)
    } else if k.len() >= "spawn "@.len() && k.take("spawn "@.len() as int) == "spawn "@ {
        let ws = words(k.skip("spawn "@.len() as int));
        if ws.len() == 0 {
            None
        } else {
            Some(ActionModel::Spawn { program: ws[0], args: ws.drop_first() })
        }
    } else if k.len() >= "shell "@.len() && k.take("shell "@.len() as int) == "shell "@ {
        Some(ActionModel::SpawnShell { command: trim(k.skip("shell "@.len() as int)) })
    } else if k.len() >= "view "@.len() && k.take("view "@.len() as int) == "view "@ {
        let ws = words(k.skip("view "@.len() as int));
        if ws.len() < 2 {
            None
        } else {
            match (parse_i32_spec(ws[0]), parse_i32_spec(ws[1])) {
                (Some(x), Some(y)) => Some(ActionModel::View { x, y }),
                _ => None,
            }
        }
    } else {
        None
    }
}

/// The strings holding the given words.
fn strings_of(ws: &Vec<Vec<char>>, from: usize) -> (r: Vec<String>)
    requires
        from <= ws.len(),
    ensures
        r@.map_values(|a: String| a@) == ws@.map_values(|w: Vec<char>| w@).skip(from as int),
{
    let mut r: Vec<String> = Vec::new();
    let mut i = from;
    while i < ws.len()
        invariant
            from <= i <= ws.len(),
            r@.len() == i - from,
            forall|j: int| 0 <= j < r@.len() ==> (#[trigger] r@[j])@ == ws@[from + j]@,
        decreases ws.len() - i,
    {
        let s = string_from_chars(ws[i].as_slice());
        assert(s@ == ws@[i as int]@);
        r.push(s);
        i += 1;
    }
    assert(r@.map_values(|a: String| a@) =~= ws@.map_values(|w: Vec<char>| w@).skip(from as int));
    r
}

pub fn parse_action(keyword: &str) -> (r: Option<Action>)
    ensures
        action_view(r) == parse_action_spec(keyword@),
{
    let cs = chars_of(keyword);
    let n = cs.len();
    assert(cs@.subrange(0, n as int) =~= keyword@);
    let (a, b) = trim_range(&cs, 0, n);
    let ghost k = cs@.subrange(a as int, b as int);
    assert forall|m: int| 0 <= m <= k.len() implies #[trigger] k.take(m) == cs@.subrange(
        a as int,
        a + m,
    ) by {
        assert(k.take(m) =~= cs@.subrange(a as int, a + m));
    }
    if range_eq(&cs, a, b, "pan") {
        Some(Action::Pan)
    } else if range_eq(&cs, a, b, "close") {
        Some(Action::Close)
    } else if range_eq(&cs, a, b, "center_focused") {
        Some(Action::CenterFocused)
    } else if range_eq(&cs, a, b, "move") {
        Some(Action::Move)
    } else if range_eq(&cs, a, b, "resize") {
        Some(Action::Resize)
    } else if range_eq(&cs, a, b, "maximize") {
        Some(Action::ToggleMaximize)
    } else if range_eq(&cs, a, b, "next_slide") {
        Some(Action::NextSlide)
    } else if range_eq(&cs, a, b, "moveto_next_slide") {
        Some(Action::MoveToNextSlide)
    } else if range_eq(&cs, a, b, "moveto_prev_slide") {
        Some(Action::MoveToPrevSlide)
    } else if range_eq(&cs, a, b, "prev_slide") {
        Some(Action::PrevSlide)
    } else if range_eq(&cs, a, b, "next_window") {
        Some(Action::NextWindow)
    } else if range_eq(&cs, a, b, "prev_window") {
        Some(Action::PrevWindow)
    } else if range_eq(&cs, a, b, "cycle_tiling") {
        Some(Action::CycleTiling)
    } else if range_eq(&cs, a, b, "exit") {
        Some(Action::Exit)
    } else if range_starts_with(&cs, a, b, "spawn ") {
        let l = "spawn ".unicode_len();
        assert(k.take(l as int) =~= cs@.subrange(a as int, a + l));
        assert(k.skip(l as int) =~= cs@.subrange(a + l, b as int));
        let ws = split_words(&cs, a + l, b);
        if ws.len() == 0 {
            None
        } else {
            let program = string_from_chars(ws[0].as_slice());
            let args = strings_of(&ws, 1);
            assert(ws@.map_values(|w: Vec<char>| w@).skip(1) =~= ws@.map_values(
                |w: Vec<char>| w@,
            ).drop_first());
            Some(Action::Spawn { program, args })
        }
    } else if range_starts_with(&cs, a, b, "shell ") {
        let l = "shell ".unicode_len();
        assert(k.take(l as int) =~= cs@.subrange(a as int, a + l));
        assert(k.skip(l as int) =~= cs@.subrange(a + l, b as int));
        let (c0, c1) = trim_range(&cs, a + l, b);
        let sub = sub_chars(&cs, c0, c1);
        let command = string_from_chars(sub.as_slice());
        Some(Action::SpawnShell { command })
    } else if range_starts_with(&cs, a, b, "view ") {
        let l = "view ".unicode_len();
        assert(k.take(l as int) =~= cs@.subrange(a as int, a + l));
        assert(k.skip(l as int) =~= cs@.subrange(a + l, b as int));
        let ws = split_words(&cs, a + l, b);
        assert(ws@.map_values(|w: Vec<char>| w@).len() == ws.len());
        if ws.len() < 1 {
            return None;
        }
        assert(ws@.map_values(|w: Vec<char>| w@)[0] == ws@[0]@);
        let x = match parse_i32(&ws[0]) {
            Some(x) => x,
            None => {
                return None;
            },
        };
        if ws.len() < 2 {
            return None;
        }
        assert(ws@.map_values(|w: Vec<char>| w@)[1] == ws@[1]@);
        let y = match parse_i32(&ws[1]) {
            Some(y) => y,
            None => {
                return None;
            },
        };
        Some(Action::View { x, y })
    } else {
        None
    }
}

/// Whitespace around an action text does not change how it parses.
pub proof fn lemma_parse_action_ignores_whitespace(w1: Seq<char>, s: Seq<char>, w2: Seq<char>)
    requires
        all_ws(w1),
        all_ws(w2),
    ensures
        parse_action_spec(w1 + s + w2) == parse_action_spec(s),
{
    lemma_trim_ignores_whitespace(w1, s, w2);
}

/// `r` is what looking up the key name `name` gives: the name, whitespace trimmed,
/// is handed to `lookup` (libxkbcommon's name-to-keysym lookup, where 0 is its
/// `NoSymbol`), and a nonzero keysym is the result.
pub open spec fn keysym_entry<F: Fn(&str) -> u32>(lookup: F, name: Seq<char>, r: Option<u32>) -> bool {
    exists|n: &str, k: u32|
        #![trigger call_ensures(lookup, (n,), k)]
        n@ == trim(name) && call_ensures(lookup, (n,), k) && r == (if k != 0 {
            Some(k)
        } else {
            None
        })
}

/// The keysym of the key name `s`, whitespace trimmed, as `lookup` (the
/// name-to-keysym lookup of libxkbcommon, case-sensitive) gives it; `None` when the
/// lookup gives `NoSymbol` (0).
pub fn parse_keysym<F: Fn(&str) -> u32>(s: &str, lookup: &F) -> (r: Option<u32>)
    requires
        forall|n: &str| call_requires(*lookup, (n,)),
    ensures
        keysym_entry(*lookup, s@, r),
{
    let cs = chars_of(s);
    let n = cs.len();
    assert(cs@.subrange(0, n as int) =~= s@);
    let (a, b) = trim_range(&cs, 0, n);
    let t = string_from_chars(sub_chars(&cs, a, b).as_slice());
    let name = t.as_str();
    let k = lookup(name);
    let r = if k != 0 {
        Some(k)
    } else {
        None
    };
    assert(name@ == trim(s@) && call_ensures(*lookup, (name,), k) && r == (if k != 0 {
        Some(k)
    } else {
        None
    }));
    r
}

/// A string that neither starts nor ends with whitespace is its own trim.
proof fn lemma_trim_plain(s: Seq<char>)
    requires
        s.len() > 0,
        !is_ws(s[0]),
        !is_ws(s[s.len() - 1]),
    ensures
        trim(s) == s,
{
}

/// Each keyword of the action table names its own action: "next_window" is
/// `NextWindow`, "prev_window" is `PrevWindow`, and so on; no two keywords name
/// the same action.
pub proof fn lemma_action_keywords()
    ensures
        parse_action_spec("pan"@) == Some(ActionModel::Pan),
        parse_action_spec("close"@) == Some(ActionModel::Close),
        parse_action_spec("center_focused"@) == Some(ActionModel::CenterFocused),
        parse_action_spec("move"@) == Some(ActionModel::Move),
        parse_action_spec("resize"@) == Some(ActionModel::Resize),
        parse_action_spec("maximize"@) == Some(ActionModel::ToggleMaximize),
        parse_action_spec("next_slide"@) == Some(ActionModel::NextSlide),
        parse_action_spec("moveto_next_slide"@) == Some(ActionModel::MoveToNextSlide),
        parse_action_spec("moveto_prev_slide"@) == Some(ActionModel::MoveToPrevSlide),
        parse_action_spec("prev_slide"@) == Some(ActionModel::PrevSlide),
        parse_action_spec("next_window"@) == Some(ActionModel::NextWindow),
        parse_action_spec("prev_window"@) == Some(ActionModel::PrevWindow),
        parse_action_spec("cycle_tiling"@) == Some(ActionModel::CycleTiling),
        parse_action_spec("exit"@) == Some(ActionModel::Exit),
{
    reveal_strlit("pan");
    lemma_trim_plain("pan"@);
    reveal_strlit("close");
    lemma_trim_plain("close"@);
    reveal_strlit("center_focused");
    lemma_trim_plain("center_focused"@);
    reveal_strlit("move");
    lemma_trim_plain("move"@);
    reveal_strlit("resize");
    lemma_trim_plain("resize"@);
    reveal_strlit("maximize");
    lemma_trim_plain("maximize"@);
    reveal_strlit("next_slide");
    lemma_trim_plain("next_slide"@);
    reveal_strlit("moveto_next_slide");
    lemma_trim_plain("moveto_next_slide"@);
    reveal_strlit("moveto_prev_slide");
    lemma_trim_plain("moveto_prev_slide"@);
    assert("moveto_prev_slide"@[7] != "moveto_next_slide"@[7]);
    assert("moveto_prev_slide"@ != "moveto_next_slide"@);
    reveal_strlit("prev_slide");
    lemma_trim_plain("prev_slide"@);
    reveal_strlit("next_window");
    lemma_trim_plain("next_window"@);
    reveal_strlit("prev_window");
    lemma_trim_plain("prev_window"@);
    reveal_strlit("cycle_tiling");
    lemma_trim_plain("cycle_tiling"@);
    reveal_strlit("exit");
    lemma_trim_plain("exit"@);
    reveal_strlit("spawn ");
    reveal_strlit("shell ");
    reveal_strlit("view ");
}

/// An action's value names the same action: each keyword action is its own
/// variant in the model.
pub proof fn lemma_action_view_keeps_variant(a: Action)
    ensures
        (a is Pan) <==> (a@ is Pan),
        (a is Close) <==> (a@ is Close),
        (a is CenterFocused) <==> (a@ is CenterFocused),
        (a is Move) <==> (a@ is Move),
        (a is Resize) <==> (a@ is Resize),
        (a is ToggleMaximize) <==> (a@ is ToggleMaximize),
        (a is NextSlide) <==> (a@ is NextSlide),
        (a is MoveToNextSlide) <==> (a@ is MoveToNextSlide),
        (a is MoveToPrevSlide) <==> (a@ is MoveToPrevSlide),
        (a is PrevSlide) <==> (a@ is PrevSlide),
        (a is NextWindow) <==> (a@ is NextWindow),
        (a is PrevWindow) <==> (a@ is PrevWindow),
        (a is CycleTiling) <==> (a@ is CycleTiling),
        (a is Exit) <==> (a@ is Exit),
        (a is Noop) <==> (a@ is Noop),
{
}

}
