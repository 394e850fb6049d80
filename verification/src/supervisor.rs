//! The supervisor: resolve a requested mode list ("net, usb", "all") to the
//! concrete monitor set, and after the startup probes, the set of monitors
//! actually active.
//!
//! Spawning, the grace window and the liveness checks happen outside; the
//! resolution of the list and the arithmetic of the active set are decided
//! here. An empty active set is the one fatal configuration error: nothing
//! would be watching anything.

use vstd::prelude::*;

verus! {

use vstd::string::StrSliceExecFns;
use vstd::string::StringExecFns;
use crate::error::DmsError;

/// One concrete monitor.
#[derive(Clone, Copy, Debug, PartialEq, Eq, Structural)]
pub enum Mode {
    Timer,
    Net,
    Bot,
    Usb,
    Flic,
}

/// A list-separating or padding character of the mode list.
pub open spec fn is_space(c: char) -> bool {
    c == ' ' || c == '\t'
}

/// `t` with its leading padding removed.
pub open spec fn trim_start(t: Seq<char>) -> Seq<char>
    decreases t.len(),
{
    if t.len() > 0 && is_space(t[0]) {
        trim_start(t.skip(1))
    } else {
        t
    }
}

/// `t` with its trailing padding removed.
pub open spec fn trim_end(t: Seq<char>) -> Seq<char>
    decreases t.len(),
{
    if t.len() > 0 && is_space(t.last()) {
        trim_end(t.drop_last())
    } else {
        t
    }
}

/// `t` with padding removed at both ends.
pub open spec fn trimmed(t: Seq<char>) -> Seq<char> {
    trim_end(trim_start(t))
}

/// `[i, j)` delimits one comma-separated segment of `s`: it touches a
/// comma or an end of the text on both sides and holds no comma itself.
pub open spec fn is_segment(s: Seq<char>, i: int, j: int) -> bool {
    &&& 0 <= i <= j <= s.len()
    &&& (i == 0 || s[i - 1] == ',')
    &&& (j == s.len() || s[j] == ',')
    &&& forall|x: int| i <= x < j ==> #[trigger] s[x] != ','
}

/// Some comma-separated segment of `s`, with its padding removed, spells
/// exactly `tok`.
pub open spec fn has_token(s: Seq<char>, tok: Seq<char>) -> bool {
    exists|i: int, j: int| #[trigger] is_segment(s, i, j) && trimmed(s.subrange(i, j)) == tok
}

/// If the first `m` characters of `t` are padding and the next one is not,
/// trimming the start drops exactly those `m`.
proof fn lemma_trim_start_skip(t: Seq<char>, m: int)
    requires
        0 <= m <= t.len(),
        forall|x: int| 0 <= x < m ==> is_space(#[trigger] t[x]),
        m == t.len() || !is_space(t[m]),
    ensures
        trim_start(t) == t.skip(m),
    decreases m,
{
    if m == 0 {
        assert(t.skip(0) =~= t);
    } else {
        let u = t.skip(1);
        assert(forall|x: int| 0 <= x < m - 1 ==> is_space(#[trigger] u[x]));
        lemma_trim_start_skip(u, m - 1);
        assert(u.skip(m - 1) =~= t.skip(m));
    }
}

/// If the characters of `t` from `m` on are padding and the one before is
/// not, trimming the end keeps exactly the first `m`.
proof fn lemma_trim_end_take(t: Seq<char>, m: int)
    requires
        0 <= m <= t.len(),
        forall|x: int| m <= x < t.len() ==> is_space(#[trigger] t[x]),
        m == 0 || !is_space(t[m - 1]),
    ensures
        trim_end(t) == t.take(m),
    decreases t.len() - m,
{
    if m == t.len() {
        assert(t.take(m) =~= t);
    } else {
        let u = t.drop_last();
        assert(forall|x: int| m <= x < u.len() ==> is_space(#[trigger] u[x]));
        lemma_trim_end_take(u, m);
        assert(u.take(m) =~= t.take(m));
    }
}

/// Whether the character of `s` at `x` is a comma.
fn is_comma_at(s: &str, x: usize) -> (r: bool)
    requires
        x < s@.len(),
    ensures
        r == (s@[x as int] == ','),
{
    s.get_char(x) as u32 == 44
}

/// Whether the character of `s` at `x` is padding.
fn is_space_at(s: &str, x: usize) -> (r: bool)
    requires
        x < s@.len(),
    ensures
        r == is_space(s@[x as int]),
{
    let c = s.get_char(x) as u32;
    c == 32 || c == 9
}

/// Whether some comma-separated segment of `input`, trimmed, equals `tok`.
pub fn has_mode_token(input: &str, tok: &str) -> (r: bool)
    ensures
        r == has_token(input@, tok@),
{
    let n = input.unicode_len();
    let nt = tok.unicode_len();
    let mut st: usize = 0;
    loop
        invariant
            n == input@.len(),
            nt == tok@.len(),
            0 <= st <= n,
            st == 0 || input@[st - 1 as int] == ',',
            forall|i: int, j: int| #[trigger] is_segment(input@, i, j) && i < st ==> trimmed(
                input@.subrange(i, j),
            ) != tok@,
        decreases n - st,
    {
        // Find the end of the segment that starts at `st`.
        let mut j: usize = st;
        while j < n && !is_comma_at(input, j)
            invariant
                n == input@.len(),
                st <= j <= n,
                forall|x: int| st <= x < j ==> #[trigger] input@[x] != ',',
            decreases n - j,
        {
            j = j + 1;
        }
        assert(is_segment(input@, st as int, j as int));
        // Trim the segment's padding on both sides.
        let mut a: usize = st;
        while a < j && is_space_at(input, a)
            invariant
                n == input@.len(),
                st <= a <= j <= n,
                forall|x: int| st <= x < a ==> is_space(#[trigger] input@[x]),
            decreases j - a,
        {
            a = a + 1;
        }
        let mut b: usize = j;
        while b > a && is_space_at(input, b - 1)
            invariant
                n == input@.len(),
                a <= b <= j <= n,
                forall|x: int| b <= x < j ==> is_space(#[trigger] input@[x]),
            decreases b - a,
        {
            b = b - 1;
        }
        proof {
            let t = input@.subrange(st as int, j as int);
            lemma_trim_start_skip(t, a - st);
            let u = t.skip(a - st);
            assert(u =~= input@.subrange(a as int, j as int));
            lemma_trim_end_take(u, b - a);
            assert(u.take(b - a) =~= input@.subrange(a as int, b as int));
            assert(trimmed(t) == input@.subrange(a as int, b as int));
        }
        // Compare the trimmed segment with the token.
        if b - a == nt {
            let mut x: usize = 0;
            let mut same = true;
            while x < nt
                invariant
                    n == input@.len(),
                    nt == tok@.len(),
                    a <= b <= n,
                    b - a == nt,
                    x <= nt,
                    same <==> (forall|y: int| 0 <= y < x ==> #[trigger] input@[a + y] == tok@[y]),
                decreases nt - x,
            {
                if input.get_char(a + x) as u32 != tok.get_char(x) as u32 {
                    same = false;
                }
                x = x + 1;
            }
            if same {
                proof {
                    assert forall|y: int| 0 <= y < nt implies input@.subrange(
                        a as int,
                        b as int,
                    )[y] == tok@[y] by {
                        assert(input@[a + y] == tok@[y]);
                    }
                    assert(input@.subrange(a as int, b as int) =~= tok@);
                }
                return true;
            }
            proof {
                let w = choose|y: int| 0 <= y < nt && input@[a + y] != tok@[y];
                assert(input@.subrange(a as int, b as int)[w] == input@[a + w]);
            }
        }
        proof {
            assert(input@.subrange(a as int, b as int) != tok@);
        }
        // Step past this segment; its start was the only segment start in
        // `[st, j]`, so every segment left behind has been compared.
        assert forall|i: int, jj: int|
            #[trigger] is_segment(input@, i, jj) && i < j + 1 implies trimmed(
            input@.subrange(i, jj),
        ) != tok@ by {
            if i >= st {
                assert(i == st) by {
                    if i > st {
                        assert(input@[i - 1] == ',');
                    }
                }
                assert(jj == j) by {
                    if jj < j {
                        assert(input@[jj] != ',');
                    }
                    if jj > j {
                        assert(input@[j as int] != ',');
                    }
                }
            }
        }
        if j == n {
            // No segment starts at or after `n + 1`; all have been tried.
            assert forall|i: int, jj: int| #[trigger] is_segment(input@, i, jj) implies trimmed(
                input@.subrange(i, jj),
            ) != tok@ by {
                assert(i <= n);
            }
            return false;
        }
        st = j + 1;
    }
}

/// The spelled name of a mode in the requested list.
pub open spec fn mode_name(m: Mode) -> Seq<char> {
    match m {
        Mode::Timer => "timer"@,
        Mode::Net => "net"@,
        Mode::Bot => "bot"@,
        Mode::Usb => "usb"@,
        Mode::Flic => "flic"@,
    }
}

/// The position of `m` in the fixed arming order.
pub open spec fn mode_rank(m: Mode) -> int {
    match m {
        Mode::Timer => 0,
        Mode::Net => 1,
        Mode::Bot => 2,
        Mode::Usb => 3,
        Mode::Flic => 4,
    }
}

/// The requested list selects `m`: either by its own name or by the
/// explicit keyword selecting every known monitor.
pub open spec fn mode_requested(s: Seq<char>, m: Mode) -> bool {
    has_token(s, "all"@) || has_token(s, mode_name(m))
}

/// The spelled name of `m`, as `mode_name` gives it.
fn mode_token(m: Mode) -> (r: &'static str)
    ensures
        r@ == mode_name(m),
{
    match m {
        Mode::Timer => "timer",
        Mode::Net => "net",
        Mode::Bot => "bot",
        Mode::Usb => "usb",
        Mode::Flic => "flic",
    }
}

/// Resolve the requested mode list to the concrete monitor set: exactly
/// the selected monitors, each at most once, in the fixed arming order.
pub fn parse_modes(input: &str) -> (r: Vec<Mode>)
    ensures
        forall|m: Mode| r@.contains(m) <==> mode_requested(input@, m),
        r@.no_duplicates(),
        forall|t1: int, t2: int| 0 <= t1 < t2 < r@.len() ==> mode_rank(#[trigger] r@[t1])
            < mode_rank(#[trigger] r@[t2]),
{
    let all = has_mode_token(input, "all");
    let mut order: Vec<Mode> = Vec::new();
    order.push(Mode::Timer);
    order.push(Mode::Net);
    order.push(Mode::Bot);
    order.push(Mode::Usb);
    order.push(Mode::Flic);
    proof {
        assert(order@ =~= seq![Mode::Timer, Mode::Net, Mode::Bot, Mode::Usb, Mode::Flic]);
        assert(order@.no_duplicates());
        assert forall|m: Mode| order@.contains(m) by {
            match m {
                Mode::Timer => assert(order@[0] == m),
                Mode::Net => assert(order@[1] == m),
                Mode::Bot => assert(order@[2] == m),
                Mode::Usb => assert(order@[3] == m),
                Mode::Flic => assert(order@[4] == m),
            }
        }
    }
    let mut r: Vec<Mode> = Vec::new();
    let mut i: usize = 0;
    while i < order.len()
        invariant
            all == has_token(input@, "all"@),
            order@ =~= seq![Mode::Timer, Mode::Net, Mode::Bot, Mode::Usb, Mode::Flic],
            order@.no_duplicates(),
            forall|m: Mode| order@.contains(m),
            i <= order@.len(),
            forall|m: Mode| #[trigger] r@.contains(m) <==> (exists|t: int|
                0 <= t < i && order@[t] == m && mode_requested(input@, m)),
            r@.no_duplicates(),
            forall|w: int| 0 <= w < r@.len() ==> mode_rank(#[trigger] r@[w]) < i,
            forall|t1: int, t2: int| 0 <= t1 < t2 < r@.len() ==> mode_rank(#[trigger] r@[t1])
                < mode_rank(#[trigger] r@[t2]),
        decreases order@.len() - i,
    {
        let m = order[i];
        proof {
            assert(mode_rank(order@[i as int]) == i as int);
        }
        let selected = all || has_mode_token(input, mode_token(m));
        let ghost before = r@;
        if selected {
            proof {
                assert(!before.contains(m)) by {
                    if before.contains(m) {
                        let t = choose|t: int|
                            0 <= t < i && order@[t] == m && mode_requested(input@, m);
                        assert(order@[t] == order@[i as int]);
                    }
                }
            }
            r.push(m);
            proof {
                assert forall|mm: Mode| #[trigger] r@.contains(mm) implies (exists|t: int|
                    0 <= t < i + 1 && order@[t] == mm && mode_requested(input@, mm)) by {
                    if before.contains(mm) {
                    } else {
                        let w = choose|w: int| 0 <= w < r@.len() && r@[w] == mm;
                        if w < before.len() {
                            assert(before[w] == mm);
                        }
                        assert(mm == m);
                        assert(order@[i as int] == mm);
                    }
                }
                assert forall|mm: Mode| (exists|t: int|
                    0 <= t < i + 1 && order@[t] == mm && mode_requested(input@, mm))
                    implies #[trigger] r@.contains(mm) by {
                    if before.contains(mm) {
                        let w = choose|w: int| 0 <= w < before.len() && before[w] == mm;
                        assert(r@[w] == mm);
                    } else {
                        let t = choose|t: int|
                            0 <= t < i + 1 && order@[t] == mm && mode_requested(input@, mm);
                        if t == i {
                            assert(r@[r@.len() - 1] == m);
                        }
                    }
                }
            }
        }
        i = i + 1;
    }
    proof {
        assert forall|m: Mode| #[trigger] r@.contains(m) <==> mode_requested(input@, m) by {
            if mode_requested(input@, m) {
                assert(order@.contains(m));
                let t = choose|t: int| 0 <= t < order@.len() && order@[t] == m;
            }
        }
    }
    r
}

/// Whether this monitor's startup can fail asynchronously and therefore
/// gets the grace-window probe; the others are assumed started once
/// spawned.
pub open spec fn probed(m: Mode) -> bool {
    m == Mode::Timer || m == Mode::Bot
}

pub fn needs_probe(m: Mode) -> (r: bool)
    ensures
        r == probed(m),
{
    match m {
        Mode::Timer => true,
        Mode::Bot => true,
        _ => false,
    }
}

/// The monitors that ended up running: built once at startup, read-only
/// thereafter, never empty.
pub struct ActiveModeSet {
    modes: Vec<Mode>,
}

impl ActiveModeSet {
    /// The monitors in the set.
    pub closed spec fn modes(&self) -> Seq<Mode> {
        self.modes@
    }

    /// A mode survives the probes: it was requested, and if it is one of
    /// the probed monitors, its probe did not fail.
    pub open spec fn survives(requested: Seq<Mode>, probe_failed: Seq<Mode>, m: Mode) -> bool {
        requested.contains(m) && !(probed(m) && probe_failed.contains(m))
    }

    /// Build the active set: the requested monitors minus those whose
    /// startup probe failed within the grace window. An empty result is
    /// the fatal configuration error: no monitor is watching anything.
    pub fn build(requested: &Vec<Mode>, probe_failed: &Vec<Mode>) -> (r: Result<
        ActiveModeSet,
        DmsError,
    >)
        requires
            requested@.no_duplicates(),
        ensures
            r matches Ok(a) ==> (forall|m: Mode| a.modes().contains(m)
                <==> ActiveModeSet::survives(requested@, probe_failed@, m)),
            r matches Ok(a) ==> a.modes().len() > 0 && a.modes().no_duplicates(),
            r is Err <==> (forall|m: Mode| !ActiveModeSet::survives(
                requested@,
                probe_failed@,
                m,
            )),
            r matches Err(e) ==> e is Config,
    {
        let mut kept: Vec<Mode> = Vec::new();
        let mut i: usize = 0;
        while i < requested.len()
            invariant
                requested@.no_duplicates(),
                i <= requested@.len(),
                forall|m: Mode| kept@.contains(m) ==> requested@.contains(m),
                forall|m: Mode| #[trigger] kept@.contains(m) <==> (exists|t: int|
                    0 <= t < i && requested@[t] == m && ActiveModeSet::survives(
                        requested@,
                        probe_failed@,
                        m,
                    )),
                kept@.no_duplicates(),
            decreases requested@.len() - i,
        {
            let m = requested[i];
            let failed = if needs_probe(m) {
                contains_mode(probe_failed, m)
            } else {
                false
            };
            let ghost before = kept@;
            if !failed {
                kept.push(m);
                proof {
                    assert(!before.contains(m)) by {
                        if before.contains(m) {
                            let t = choose|t: int|
                                0 <= t < i && requested@[t] == m && ActiveModeSet::survives(
                                    requested@,
                                    probe_failed@,
                                    m,
                                );
                            assert(requested@[t] == requested@[i as int]);
                        }
                    }
                    assert forall|mm: Mode| #[trigger] kept@.contains(mm) implies (exists|t: int|
                        0 <= t < i + 1 && requested@[t] == mm && ActiveModeSet::survives(
                            requested@,
                            probe_failed@,
                            mm,
                        )) by {
                        if before.contains(mm) {
                        } else {
                            assert(kept@ == before.push(m));
                            let w = choose|w: int|
                                0 <= w < kept@.len() && kept@[w] == mm;
                            if w < before.len() {
                                assert(before[w] == mm);
                            }
                            assert(mm == m);
                            assert(requested@[i as int] == mm);
                        }
                    }
                    assert forall|mm: Mode| (exists|t: int|
                        0 <= t < i + 1 && requested@[t] == mm && ActiveModeSet::survives(
                            requested@,
                            probe_failed@,
                            mm,
                        )) implies #[trigger] kept@.contains(mm) by {
                        if !before.contains(mm) {
                            let t = choose|t: int|
                                0 <= t < i + 1 && requested@[t] == mm
                                    && ActiveModeSet::survives(requested@, probe_failed@, mm);
                            if t == i {
                                assert(kept@[kept@.len() - 1] == m);
                            }
                        } else {
                            let w = choose|w: int|
                                0 <= w < before.len() && before[w] == mm;
                            assert(kept@[w] == mm);
                        }
                    }
                }
            }
            i = i + 1;
        }
        if kept.len() == 0 {
            proof {
                assert forall|m: Mode| !ActiveModeSet::survives(
                    requested@,
                    probe_failed@,
                    m,
                ) by {
                    if ActiveModeSet::survives(requested@, probe_failed@, m) {
                        let t = choose|t: int|
                            0 <= t < requested@.len() && requested@[t] == m;
                        assert(kept@.contains(m));
                    }
                }
            }
            return Err(DmsError::Config(String::from_str("no monitor could be armed")));
        }
        proof {
            let m0 = kept@[0];
            assert(kept@.contains(m0));
            assert(ActiveModeSet::survives(requested@, probe_failed@, m0));
        }
        Ok(ActiveModeSet { modes: kept })
    }

    /// The number of active monitors (always at least one).
    pub fn len(&self) -> (r: usize)
        ensures
            r == self.modes().len(),
    {
        self.modes.len()
    }

    /// The active monitor at `t`, in arming order.
    pub fn get(&self, t: usize) -> (r: Mode)
        requires
            t < self.modes().len(),
        ensures
            r == self.modes()[t as int],
    {
        self.modes[t]
    }

    /// Whether `m` ended up active.
    pub fn is_active(&self, m: Mode) -> (r: bool)
        ensures
            r == self.modes().contains(m),
    {
        contains_mode(&self.modes, m)
    }
}

/// Whether `v` holds `m`.
fn contains_mode(v: &Vec<Mode>, m: Mode) -> (r: bool)
    ensures
        r == v@.contains(m),
{
    let mut t: usize = 0;
    while t < v.len()
        invariant
            t <= v@.len(),
            forall|x: int| 0 <= x < t ==> #[trigger] v@[x] != m,
        decreases v@.len() - t,
    {
        if v[t] == m {
            return true;
        }
        t = t + 1;
    }
    false
}

} // verus!
