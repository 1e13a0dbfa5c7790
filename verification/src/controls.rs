//! Controller profile parsing and per-frame resolution of raw buttons into
//! movement intents.
use vstd::prelude::*;

verus! {

/// The player's control scheme.
#[derive(Copy, Clone, Debug, PartialEq, Eq, Hash, Structural)]
pub enum InputProfile {
    ActionCombat,
    ClassicCursor,
}

/// Unicode `White_Space` characters (what `str::trim` strips).
pub open spec fn is_whitespace(c: char) -> bool {
    ('\u{9}' <= c && c <= '\u{d}') || c == ' ' || c == '\u{85}' || c == '\u{a0}' || c == '\u{1680}'
        || ('\u{2000}' <= c && c <= '\u{200a}') || c == '\u{2028}' || c == '\u{2029}' || c
        == '\u{202f}' || c == '\u{205f}' || c == '\u{3000}'
}

/// `s` without leading whitespace.
pub open spec fn trim_front(s: Seq<char>) -> Seq<char>
    decreases s.len(),
{
    if s.len() > 0 && is_whitespace(s[0]) {
        trim_front(s.drop_first())
    } else {
        s
    }
}

/// `s` without trailing whitespace.
pub open spec fn trim_back(s: Seq<char>) -> Seq<char>
    decreases s.len(),
{
    if s.len() > 0 && is_whitespace(s.last()) {
        trim_back(s.drop_last())
    } else {
        s
    }
}

/// `s` without leading and trailing whitespace.
pub open spec fn trim(s: Seq<char>) -> Seq<char> {
    trim_back(trim_front(s))
}

/// ASCII upper-case letters mapped to lower case; every other character kept.
pub open spec fn ascii_lower(c: char) -> char {
    if 'A' <= c && c <= 'Z' {
        ((c as u32) + 32) as char
    } else {
        c
    }
}

/// `s` with ASCII letters in lower case.
pub open spec fn lower(s: Seq<char>) -> Seq<char> {
    s.map_values(|c: char| ascii_lower(c))
}

/// The profile a configured name selects: "classic" or "classiccursor"
/// (ignoring surrounding whitespace and ASCII case) select the classic
/// cursor scheme; anything else, or no name, selects action combat.
pub open spec fn profile_for(name: Option<Seq<char>>) -> InputProfile {
    match name {
        Some(s) => if lower(trim(s)) == "classic"@ || lower(trim(s)) == "classiccursor"@ {
            InputProfile::ClassicCursor
        } else {
            InputProfile::ActionCombat
        },
        None => InputProfile::ActionCombat,
    }
}

fn is_ws(c: char) -> (r: bool)
    ensures
        r == is_whitespace(c),
{
    ('\u{9}' <= c && c <= '\u{d}') || c == ' ' || c == '\u{85}' || c == '\u{a0}' || c == '\u{1680}'
        || ('\u{2000}' <= c && c <= '\u{200a}') || c == '\u{2028}' || c == '\u{2029}' || c
        == '\u{202f}' || c == '\u{205f}' || c == '\u{3000}'
}

fn to_lower(c: char) -> (r: char)
    ensures
        r == ascii_lower(c),
{
    if 'A' <= c && c <= 'Z' {
        ((c as u32) + 32) as u8 as char
    } else {
        c
    }
}

/// The characters of `s`.
fn chars_of(s: &str) -> (v: Vec<char>)
    ensures
        v@ == s@,
{
    let mut v: Vec<char> = Vec::new();
    for c in it: s.chars()
        invariant
            v@ == it.seq().take(it.index() as int),
    {
        v.push(c);
    }
    v
}

proof fn lemma_trim_front_index(s: Seq<char>, i: int)
    requires
        0 <= i <= s.len(),
        forall|k: int| 0 <= k < i ==> is_whitespace(#[trigger] s[k]),
    ensures
        trim_front(s) == trim_front(s.subrange(i, s.len() as int)),
    decreases i,
{
    if i > 0 {
        assert(is_whitespace(s[0]));
        lemma_trim_front_index(s.drop_first(), i - 1);
        assert(s.drop_first().subrange(i - 1, s.drop_first().len() as int) =~= s.subrange(i, s.len() as int));
    } else {
        assert(s.subrange(0, s.len() as int) =~= s);
    }
}

proof fn lemma_trim_back_index(s: Seq<char>, j: int)
    requires
        0 <= j <= s.len(),
        forall|k: int| j <= k < s.len() ==> is_whitespace(#[trigger] s[k]),
    ensures
        trim_back(s) == trim_back(s.subrange(0, j)),
    decreases s.len() - j,
{
    if j < s.len() {
        assert(is_whitespace(s.last()));
        lemma_trim_back_index(s.drop_last(), j);
        assert(s.drop_last().subrange(0, j) =~= s.subrange(0, j));
    } else {
        assert(s.subrange(0, j) =~= s);
    }
}

/// Whether `v[start..end]`, lower-cased, equals `target`.
fn lower_range_eq(v: &Vec<char>, start: usize, end: usize, target: &[char]) -> (r: bool)
    requires
        start <= end <= v@.len(),
    ensures
        r == (lower(v@.subrange(start as int, end as int)) == target@),
{
    let ghost w = lower(v@.subrange(start as int, end as int));
    if end - start != target.len() {
        return false;
    }
    let mut i: usize = 0;
    while i < target.len()
        invariant
            start <= end <= v@.len(),
            end - start == target@.len(),
            w == lower(v@.subrange(start as int, end as int)),
            0 <= i <= target@.len(),
            forall|k: int| 0 <= k < i ==> w[k] == target@[k],
        decreases target@.len() - i,
    {
        if to_lower(v[start + i]) != target[i] {
            proof {
                assert(w[i as int] != target@[i as int]);
            }
            return false;
        }
        i = i + 1;
    }
    proof {
        assert(w =~= target@);
    }
    true
}

/// Parse the configured controller profile name.
pub fn parse_profile_name(name: Option<&str>) -> (p: InputProfile)
    ensures
        p == profile_for(
            match name {
                Some(s) => Some(s@),
                None => None,
            },
        ),
{
    match name {
        None => InputProfile::ActionCombat,
        Some(s) => {
            let v = chars_of(s);
            let n = v.len();
            let mut start: usize = 0;
            while start < n && is_ws(v[start])
                invariant
                    n == v@.len(),
                    0 <= start <= n,
                    forall|k: int| 0 <= k < start ==> is_whitespace(#[trigger] v@[k]),
                decreases n - start,
            {
                start = start + 1;
            }
            let mut end: usize = n;
            while end > start && is_ws(v[end - 1])
                invariant
                    n == v@.len(),
                    0 <= start <= end <= n,
                    forall|k: int| end <= k < n ==> is_whitespace(#[trigger] v@[k]),
                decreases end - start,
            {
                end = end - 1;
            }
            proof {
                let s0 = v@;
                lemma_trim_front_index(s0, start as int);
                let t = s0.subrange(start as int, n as int);
                assert(start == n || !is_whitespace(t[0]));
                assert(trim_front(t) == t);
                lemma_trim_back_index(t, end - start);
                assert(t.subrange(0, end - start) =~= s0.subrange(start as int, end as int));
                let u = s0.subrange(start as int, end as int);
                assert(end == start || !is_whitespace(u.last()));
                assert(trim_back(u) == u);
                assert(trim(s@) == u);
                reveal_strlit("classic");
                reveal_strlit("classiccursor");
            }
            let classic: &[char] = &['c', 'l', 'a', 's', 's', 'i', 'c'];
            let classic_cursor: &[char] = &['c', 'l', 'a', 's', 's', 'i', 'c', 'c', 'u', 'r', 's', 'o', 'r'];
            proof {
                assert(classic@ =~= "classic"@);
                assert(classic_cursor@ =~= "classiccursor"@);
            }
            if lower_range_eq(&v, start, end, classic) || lower_range_eq(&v, start, end, classic_cursor) {
                InputProfile::ClassicCursor
            } else {
                InputProfile::ActionCombat
            }
        },
    }
}

/// Map the raw strafe keys and A/D to (turn left, turn right, strafe left,
/// strafe right). A/D never turn; with the right mouse button held they
/// strafe (A right, D left). Q and E always strafe, with the flipped
/// mapping: Q (`q_strafe_left`) strafes right and E (`q_strafe_right`)
/// strafes left.
pub fn resolve_ad_to_turn_or_strafe(
    rmb_down: bool,
    a_down: bool,
    d_down: bool,
    q_strafe_left: bool,
    q_strafe_right: bool,
) -> (r: (bool, bool, bool, bool))
    ensures
        r == (false, false, q_strafe_right || (rmb_down && d_down), q_strafe_left || (rmb_down
            && a_down)),
{
    let turn_left = false;
    let turn_right = false;
    let mut strafe_left = q_strafe_right;
    let mut strafe_right = q_strafe_left;
    if rmb_down {
        if a_down {
            strafe_right = true;
        }
        if d_down {
            strafe_left = true;
        }
    }
    (turn_left, turn_right, strafe_left, strafe_right)
}

/// Click-to-move-forward is engaged exactly while both mouse buttons are held.
pub fn click_move_forward(lmb_down: bool, rmb_down: bool) -> (r: bool)
    ensures
        r == (lmb_down && rmb_down),
{
    lmb_down && rmb_down
}

/// Raw key state latched between frames, with the right mouse button's
/// state at the previous frame.
#[derive(Copy, Clone, Debug, PartialEq, Eq, Structural)]
pub struct ButtonLatch {
    pub a_down: bool,
    pub d_down: bool,
    pub q_down: bool,
    pub e_down: bool,
    pub prev_rmb_down: bool,
}

impl ButtonLatch {
    /// Start a frame: when the right mouse button changed since the last
    /// frame, the latched A/D/Q/E keys are released (pointer-lock
    /// transitions can eat key-ups); the button's state is remembered.
    /// Returns whether the latches were cleared.
    pub fn begin_frame(&mut self, rmb_down: bool) -> (cleared: bool)
        ensures
            cleared == (old(self).prev_rmb_down != rmb_down),
            final(self).prev_rmb_down == rmb_down,
            cleared ==> !final(self).a_down && !final(self).d_down && !final(self).q_down
                && !final(self).e_down,
            !cleared ==> final(self).a_down == old(self).a_down && final(self).d_down == old(
                self,
            ).d_down && final(self).q_down == old(self).q_down && final(self).e_down == old(
                self,
            ).e_down,
    {
        let cleared = self.prev_rmb_down != rmb_down;
        if cleared {
            self.a_down = false;
            self.d_down = false;
            self.q_down = false;
            self.e_down = false;
        }
        self.prev_rmb_down = rmb_down;
        cleared
    }
}

} // verus!
