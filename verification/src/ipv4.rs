//! Dotted-quad address text: validation, parsing and rendering.
//!
//! The configuration accepts an address only in dotted-quad form — four
//! decimal octet runs of one to three digits, each valuing at most 255,
//! separated by single dots — and otherwise derives one (see the
//! configuration module). Validity, the parser and the renderer are all
//! stated against the same decomposition predicate below.

use vstd::prelude::*;

verus! {

use vstd::string::StrSliceExecFns;
use vstd::string::StringExecFns;

/// Four octet values; the meaning of a dotted-quad text.
#[derive(Clone, Copy, Debug, PartialEq, Eq, Structural)]
pub struct Ipv4Addr {
    pub a: u8,
    pub b: u8,
    pub c: u8,
    pub d: u8,
}

pub open spec fn is_ascii_digit(c: char) -> bool {
    '0' <= c && c <= '9'
}

pub open spec fn digit_val(c: char) -> int {
    c as int - '0' as int
}

/// The decimal value of a run of digit characters.
pub open spec fn octet_val(s: Seq<char>) -> int
    decreases s.len(),
{
    if s.len() == 0 {
        0
    } else {
        octet_val(s.drop_last()) * 10 + digit_val(s.last())
    }
}

/// One to three digit characters valuing at most 255: exactly the runs the
/// address grammar accepts between dots.
pub open spec fn is_octet_text(s: Seq<char>) -> bool {
    &&& 1 <= s.len() <= 3
    &&& forall|x: int| 0 <= x < s.len() ==> is_ascii_digit(#[trigger] s[x])
    &&& octet_val(s) <= 255
}

/// `s` splits into four octet runs with dots exactly at `i`, `j` and `k`.
pub open spec fn valid_split(s: Seq<char>, i: int, j: int, k: int) -> bool {
    &&& 0 <= i < j < k < s.len()
    &&& s[i] == '.' && s[j] == '.' && s[k] == '.'
    &&& is_octet_text(s.subrange(0, i))
    &&& is_octet_text(s.subrange(i + 1, j))
    &&& is_octet_text(s.subrange(j + 1, k))
    &&& is_octet_text(s.subrange(k + 1, s.len() as int))
}

/// `s` is well-formed dotted-quad address text.
pub open spec fn is_valid_ipv4(s: Seq<char>) -> bool {
    exists|i: int, j: int, k: int| valid_split(s, i, j, k)
}

/// `s` splits at `i`, `j`, `k` and its four runs value `ip`'s octets.
pub open spec fn split_matches(s: Seq<char>, i: int, j: int, k: int, ip: Ipv4Addr) -> bool {
    &&& valid_split(s, i, j, k)
    &&& octet_val(s.subrange(0, i)) == ip.a as int
    &&& octet_val(s.subrange(i + 1, j)) == ip.b as int
    &&& octet_val(s.subrange(j + 1, k)) == ip.c as int
    &&& octet_val(s.subrange(k + 1, s.len() as int)) == ip.d as int
}

/// `s` is dotted-quad text whose octet values are those of `ip`.
pub open spec fn represents(s: Seq<char>, ip: Ipv4Addr) -> bool {
    exists|i: int, j: int, k: int| split_matches(s, i, j, k, ip)
}

/// Extending a digit run by one character multiplies its value by ten and
/// adds the new digit.
proof fn lemma_octet_val_step(s: Seq<char>, p: int)
    requires
        0 <= p < s.len(),
    ensures
        octet_val(s.subrange(0, p + 1)) == octet_val(s.subrange(0, p)) * 10 + digit_val(s[p]),
{
    let a = s.subrange(0, p + 1);
    assert(a.drop_last() =~= s.subrange(0, p));
    assert(a.last() == s[p]);
}

/// A run of digits values at least zero.
proof fn lemma_octet_val_nonneg(s: Seq<char>)
    requires
        forall|x: int| 0 <= x < s.len() ==> is_ascii_digit(#[trigger] s[x]),
    ensures
        octet_val(s) >= 0,
    decreases s.len(),
{
    if s.len() > 0 {
        lemma_octet_val_nonneg(s.drop_last());
    }
}

/// Within a run of digits, every prefix values at most the whole run.
proof fn lemma_octet_prefix_le(s: Seq<char>, p: int)
    requires
        0 <= p <= s.len(),
        forall|x: int| 0 <= x < s.len() ==> is_ascii_digit(#[trigger] s[x]),
    ensures
        octet_val(s.subrange(0, p)) <= octet_val(s),
    decreases s.len() - p,
{
    if p == s.len() {
        assert(s.subrange(0, p) =~= s);
    } else {
        lemma_octet_val_step(s, p);
        let pre = s.subrange(0, p);
        assert(forall|x: int| 0 <= x < pre.len() ==> is_ascii_digit(#[trigger] pre[x]));
        lemma_octet_val_nonneg(pre);
        lemma_octet_prefix_le(s, p + 1);
    }
}

/// Parse one octet run. Succeeds exactly on well-formed runs, and then
/// returns their decimal value.
pub fn parse_octet(t: &str) -> (r: Option<u8>)
    ensures
        r is Some <==> is_octet_text(t@),
        r matches Some(v) ==> v as int == octet_val(t@),
{
    let n = t.unicode_len();
    if n == 0 || n > 3 {
        return None;
    }
    let mut acc: u32 = 0;
    let mut p: usize = 0;
    while p < n
        invariant
            n == t@.len(),
            1 <= n <= 3,
            p <= n,
            forall|x: int| 0 <= x < p ==> is_ascii_digit(#[trigger] t@[x]),
            acc as int == octet_val(t@.subrange(0, p as int)),
            acc <= 255,
        decreases n - p,
    {
        let c = t.get_char(p);
        let cu = c as u32;
        if cu < 48 || cu > 57 {
            assert(!is_ascii_digit(t@[p as int]));
            return None;
        }
        assert(is_ascii_digit(t@[p as int]));
        let d = cu - 48;
        proof {
            lemma_octet_val_step(t@, p as int);
        }
        assert(d as int == digit_val(t@[p as int]));
        if acc * 10 + d > 255 {
            proof {
                if is_octet_text(t@) {
                    lemma_octet_prefix_le(t@, (p + 1) as int);
                }
            }
            return None;
        }
        acc = acc * 10 + d;
        p = p + 1;
    }
    proof {
        assert(t@.subrange(0, n as int) =~= t@);
    }
    Some(acc as u8)
}

/// Some entry of `d` is the position `x`.
pub open spec fn appears(d: Seq<usize>, x: int) -> bool {
    exists|t: int| 0 <= t < d.len() && #[trigger] d[t] as int == x
}

/// In well-split address text the dots stand nowhere but at the three split
/// positions: everything else lies inside an octet run and is a digit.
proof fn lemma_valid_dot_positions(s: Seq<char>, i: int, j: int, k: int, x: int)
    requires
        valid_split(s, i, j, k),
        0 <= x < s.len(),
        s[x] == '.',
    ensures
        x == i || x == j || x == k,
{
    if x < i {
        assert(s.subrange(0, i)[x] == s[x]);
    } else if i < x < j {
        assert(s.subrange(i + 1, j)[x - (i + 1)] == s[x]);
    } else if j < x < k {
        assert(s.subrange(j + 1, k)[x - (j + 1)] == s[x]);
    } else if k < x {
        assert(s.subrange(k + 1, s.len() as int)[x - (k + 1)] == s[x]);
    }
}

/// A strictly increasing list whose entries all lie in `{i, j, k}` and that
/// reaches each of the three is exactly `[i, j, k]`.
proof fn lemma_dots_exact(d: Seq<usize>, i: int, j: int, k: int)
    requires
        forall|t1: int, t2: int| 0 <= t1 < t2 < d.len() ==> #[trigger] d[t1] < #[trigger] d[t2],
        forall|t: int| 0 <= t < d.len() ==> (#[trigger] d[t] as int == i || d[t] as int == j
            || d[t] as int == k),
        appears(d, i),
        appears(d, j),
        appears(d, k),
        i < j < k,
    ensures
        d.len() == 3,
        d[0] as int == i,
        d[1] as int == j,
        d[2] as int == k,
{
    let ti = choose|t: int| 0 <= t < d.len() && #[trigger] d[t] as int == i;
    let tj = choose|t: int| 0 <= t < d.len() && #[trigger] d[t] as int == j;
    let tk = choose|t: int| 0 <= t < d.len() && #[trigger] d[t] as int == k;
    assert(ti < tj) by {
        if tj < ti {
            assert(d[tj] < d[ti]);
        }
    }
    assert(tj < tk) by {
        if tk < tj {
            assert(d[tk] < d[tj]);
        }
    }
    assert(d.len() >= 3);
    assert(d.len() <= 3) by {
        if d.len() >= 4 {
            assert(d[0] < d[1] && d[1] < d[2] && d[2] < d[3]);
        }
    }
    assert(ti == 0) by {
        if ti > 0 {
            assert(d[0] < d[ti]);
        }
    }
    assert(tj == 1) by {
        if tj > 1 {
            assert(d[1] < d[tj]);
            assert(d[0] < d[1]);
        }
    }
    assert(tk == 2);
}

/// Well-formed address text splits in exactly one way: the three split
/// positions are the text's dots, and there are no others.
proof fn lemma_split_unique(s: Seq<char>, i: int, j: int, k: int, i2: int, j2: int, k2: int)
    requires
        valid_split(s, i, j, k),
        valid_split(s, i2, j2, k2),
    ensures
        i == i2 && j == j2 && k == k2,
{
    lemma_valid_dot_positions(s, i, j, k, i2);
    lemma_valid_dot_positions(s, i, j, k, j2);
    lemma_valid_dot_positions(s, i, j, k, k2);
    lemma_valid_dot_positions(s, i2, j2, k2, i);
    lemma_valid_dot_positions(s, i2, j2, k2, j);
    lemma_valid_dot_positions(s, i2, j2, k2, k);
}

/// Address text spells at most one address: whatever `parse_ipv4` returns
/// for it is thereby the only address it represents.
pub proof fn lemma_represents_functional(s: Seq<char>, ip1: Ipv4Addr, ip2: Ipv4Addr)
    requires
        represents(s, ip1),
        represents(s, ip2),
    ensures
        ip1 == ip2,
{
    let (i, j, k) = choose|i: int, j: int, k: int| split_matches(s, i, j, k, ip1);
    let (i2, j2, k2) = choose|i: int, j: int, k: int| split_matches(s, i, j, k, ip2);
    lemma_split_unique(s, i, j, k, i2, j2, k2);
}

/// Parse dotted-quad address text. Succeeds exactly on well-formed text,
/// and then returns the four octet values it spells.
pub fn parse_ipv4(s: &str) -> (r: Option<Ipv4Addr>)
    ensures
        r is Some <==> is_valid_ipv4(s@),
        r matches Some(ip) ==> represents(s@, ip),
{
    let n = s.unicode_len();
    let mut dots: Vec<usize> = Vec::new();
    let mut p: usize = 0;
    while p < n
        invariant
            n == s@.len(),
            p <= n,
            forall|t: int| 0 <= t < dots@.len() ==> #[trigger] dots@[t] < p && s@[dots@[t] as int]
                == '.',
            forall|t1: int, t2: int| 0 <= t1 < t2 < dots@.len() ==> #[trigger] dots@[t1]
                < #[trigger] dots@[t2],
            forall|x: int| 0 <= x < p && s@[x] == '.' ==> appears(dots@, x),
        decreases n - p,
    {
        let c = s.get_char(p);
        let ghost pre = dots@;
        if c as u32 == 46 {
            assert(s@[p as int] == '.');
            dots.push(p);
            assert(dots@[pre.len() as int] as int == p as int);
            assert(forall|x: int| appears(pre, x) ==> appears(dots@, x)) by {
                assert(forall|t: int| 0 <= t < pre.len() ==> dots@[t] == #[trigger] pre[t]);
            }
        }
        assert(forall|x: int| 0 <= x < p + 1 && s@[x] == '.' ==> appears(dots@, x));
        p = p + 1;
    }
    // The list now holds exactly the dot positions of `s`, in order. If the
    // text is well split, those are the three split positions.
    assert(is_valid_ipv4(s@) ==> dots@.len() == 3 && valid_split(
        s@,
        dots@[0] as int,
        dots@[1] as int,
        dots@[2] as int,
    )) by {
        if is_valid_ipv4(s@) {
            let (i, j, k) = choose|i: int, j: int, k: int| valid_split(s@, i, j, k);
            assert(appears(dots@, i) && appears(dots@, j) && appears(dots@, k));
            assert forall|t: int| 0 <= t < dots@.len() implies (#[trigger] dots@[t] as int == i
                || dots@[t] as int == j || dots@[t] as int == k) by {
                lemma_valid_dot_positions(s@, i, j, k, dots@[t] as int);
            }
            lemma_dots_exact(dots@, i, j, k);
        }
    }
    if dots.len() != 3 {
        return None;
    }
    let d0 = dots[0];
    let d1 = dots[1];
    let d2 = dots[2];
    let seg_a = s.substring_char(0, d0);
    let seg_b = s.substring_char(d0 + 1, d1);
    let seg_c = s.substring_char(d1 + 1, d2);
    let seg_d = s.substring_char(d2 + 1, n);
    let va = match parse_octet(seg_a) {
        Some(v) => v,
        None => {
            return None;
        },
    };
    let vb = match parse_octet(seg_b) {
        Some(v) => v,
        None => {
            return None;
        },
    };
    let vc = match parse_octet(seg_c) {
        Some(v) => v,
        None => {
            return None;
        },
    };
    let vd = match parse_octet(seg_d) {
        Some(v) => v,
        None => {
            return None;
        },
    };
    let ip = Ipv4Addr { a: va, b: vb, c: vc, d: vd };
    proof {
        assert(valid_split(s@, d0 as int, d1 as int, d2 as int));
        assert(split_matches(s@, d0 as int, d1 as int, d2 as int, ip));
    }
    Some(ip)
}

/// The character spelling one decimal digit.
pub open spec fn digit_char(d: int) -> char {
    if d == 0 {
        '0'
    } else if d == 1 {
        '1'
    } else if d == 2 {
        '2'
    } else if d == 3 {
        '3'
    } else if d == 4 {
        '4'
    } else if d == 5 {
        '5'
    } else if d == 6 {
        '6'
    } else if d == 7 {
        '7'
    } else if d == 8 {
        '8'
    } else {
        '9'
    }
}

/// Append the character spelling `d` to `out`.
pub(crate) fn push_digit(out: &mut String, d: u8)
    requires
        d < 10,
    ensures
        final(out)@ == old(out)@.push(digit_char(d as int)),
{
    proof {
        reveal_strlit("0");
        reveal_strlit("1");
        reveal_strlit("2");
        reveal_strlit("3");
        reveal_strlit("4");
        reveal_strlit("5");
        reveal_strlit("6");
        reveal_strlit("7");
        reveal_strlit("8");
        reveal_strlit("9");
    }
    match d {
        0 => out.append("0"),
        1 => out.append("1"),
        2 => out.append("2"),
        3 => out.append("3"),
        4 => out.append("4"),
        5 => out.append("5"),
        6 => out.append("6"),
        7 => out.append("7"),
        8 => out.append("8"),
        _ => out.append("9"),
    }
    proof {
        assert(final(out)@ =~= old(out)@.push(digit_char(d as int)));
    }
}

/// The shortest decimal spelling of a value.
pub open spec fn dec_text(v: int) -> Seq<char>
    decreases v,
{
    if v < 10 {
        seq![digit_char(v)]
    } else {
        dec_text(v / 10).push(digit_char(v % 10))
    }
}

/// Append the shortest decimal spelling of `v` to `out`.
pub(crate) fn push_decimal(out: &mut String, v: u64)
    ensures
        final(out)@ == old(out)@ + dec_text(v as int),
    decreases v,
{
    let ghost before = out@;
    if v < 10 {
        push_digit(out, v as u8);
        proof {
            assert(out@ =~= before + dec_text(v as int));
        }
    } else {
        push_decimal(out, v / 10);
        push_digit(out, (v % 10) as u8);
        proof {
            assert(out@ =~= before + dec_text(v as int));
        }
    }
}

/// Append the shortest decimal spelling of `v` to `out`.
fn push_octet(out: &mut String, v: u8)
    ensures
        final(out)@ == old(out)@ + spec_octet_text(v as int),
{
    let ghost before = out@;
    if v >= 100 {
        push_digit(out, v / 100);
        push_digit(out, (v / 10) % 10);
        push_digit(out, v % 10);
    } else if v >= 10 {
        push_digit(out, v / 10);
        push_digit(out, v % 10);
    } else {
        push_digit(out, v);
    }
    proof {
        assert(final(out)@ =~= before + spec_octet_text(v as int));
    }
}

/// The shortest decimal spelling of an octet value.
pub open spec fn spec_octet_text(v: int) -> Seq<char> {
    if v >= 100 {
        seq![digit_char(v / 100), digit_char((v / 10) % 10), digit_char(v % 10)]
    } else if v >= 10 {
        seq![digit_char(v / 10), digit_char(v % 10)]
    } else {
        seq![digit_char(v)]
    }
}

/// A digit's character spells that digit and is a digit character.
proof fn lemma_digit_char(d: int)
    requires
        0 <= d < 10,
    ensures
        is_ascii_digit(digit_char(d)),
        digit_val(digit_char(d)) == d,
{
}

/// The spelling of an octet value is a well-formed run valuing it.
proof fn lemma_octet_text_correct(v: int)
    requires
        0 <= v <= 255,
    ensures
        is_octet_text(spec_octet_text(v)),
        octet_val(spec_octet_text(v)) == v,
{
    let t = spec_octet_text(v);
    reveal_with_fuel(octet_val, 4);
    if v >= 100 {
        lemma_digit_char(v / 100);
        lemma_digit_char((v / 10) % 10);
        lemma_digit_char(v % 10);
        assert(t.last() == digit_char(v % 10));
        assert(t.drop_last() =~= seq![digit_char(v / 100), digit_char((v / 10) % 10)]);
        assert(t.drop_last().last() == digit_char((v / 10) % 10));
        assert(t.drop_last().drop_last() =~= seq![digit_char(v / 100)]);
        assert(t.drop_last().drop_last().last() == digit_char(v / 100));
        assert(t.drop_last().drop_last().drop_last() =~= Seq::<char>::empty());
        assert(octet_val(t) == (v / 100) * 100 + ((v / 10) % 10) * 10 + v % 10);
        assert((v / 100) * 100 + ((v / 10) % 10) * 10 + v % 10 == v) by (nonlinear_arith)
            requires
                0 <= v <= 255,
        ;
    } else if v >= 10 {
        lemma_digit_char(v / 10);
        lemma_digit_char(v % 10);
        assert(t.last() == digit_char(v % 10));
        assert(t.drop_last() =~= seq![digit_char(v / 10)]);
        assert(t.drop_last().last() == digit_char(v / 10));
        assert(t.drop_last().drop_last() =~= Seq::<char>::empty());
        assert(octet_val(t) == (v / 10) * 10 + v % 10);
        assert((v / 10) * 10 + v % 10 == v) by (nonlinear_arith)
            requires
                0 <= v <= 255,
        ;
    } else {
        lemma_digit_char(v);
        assert(t.last() == digit_char(v));
        assert(t.drop_last() =~= Seq::<char>::empty());
    }
}

/// Render `ip` as dotted-quad text: well-formed address text that spells
/// exactly `ip`'s octet values.
pub fn format_ipv4(ip: &Ipv4Addr) -> (r: String)
    ensures
        is_valid_ipv4(r@),
        represents(r@, *ip),
        r@ == spec_octet_text(ip.a as int) + seq!['.'] + spec_octet_text(ip.b as int) + seq!['.']
            + spec_octet_text(ip.c as int) + seq!['.'] + spec_octet_text(ip.d as int),
{
    proof {
        reveal_strlit(".");
    }
    let mut out = String::new();
    push_octet(&mut out, ip.a);
    out.append(".");
    let ghost i = out@.len() - 1;
    push_octet(&mut out, ip.b);
    out.append(".");
    let ghost j = out@.len() - 1;
    push_octet(&mut out, ip.c);
    out.append(".");
    let ghost k = out@.len() - 1;
    push_octet(&mut out, ip.d);
    proof {
        let ta = spec_octet_text(ip.a as int);
        let tb = spec_octet_text(ip.b as int);
        let tc = spec_octet_text(ip.c as int);
        let td = spec_octet_text(ip.d as int);
        lemma_octet_text_correct(ip.a as int);
        lemma_octet_text_correct(ip.b as int);
        lemma_octet_text_correct(ip.c as int);
        lemma_octet_text_correct(ip.d as int);
        assert(out@ =~= ta + seq!['.'] + tb + seq!['.'] + tc + seq!['.'] + td);
        assert(out@.subrange(0, i) =~= ta);
        assert(out@.subrange(i + 1, j) =~= tb);
        assert(out@.subrange(j + 1, k) =~= tc);
        assert(out@.subrange(k + 1, out@.len() as int) =~= td);
        assert(split_matches(out@, i, j, k, *ip));
    }
    out
}

} // verus!
