//! Character-level text handling: conversion between strings and character
//! vectors, terminal display width in the presence of SGR escape sequences,
//! width-bounded truncation, and joining of prompt parts.
use vstd::prelude::*;

verus! {

/// The escape character that starts an SGR sequence.
pub const ESC: char = '\x1b';

/// The SGR sequence that resets all attributes.
pub open spec fn reset_seq() -> Seq<char> {
    seq![ESC, '[', '0', 'm']
}

/// A character that may appear between `ESC [` and the final `m` of an SGR sequence.
pub open spec fn is_sgr_param(c: char) -> bool {
    ('0' <= c && c <= '9') || c == ';'
}

/// A character that can continue an SGR sequence begun before it.
pub open spec fn is_sgr_continuation(c: char) -> bool {
    c == '[' || c == 'm' || is_sgr_param(c)
}

/// Number of leading SGR parameter characters of `s`.
pub open spec fn param_run(s: Seq<char>) -> nat
    decreases s.len(),
{
    if s.len() > 0 && is_sgr_param(s[0]) {
        1 + param_run(s.skip(1))
    } else {
        0
    }
}

/// Length of the complete SGR sequence (`ESC [ params m`) at the start of `s`,
/// or 0 when `s` does not start with one.
pub open spec fn sgr_len(s: Seq<char>) -> nat {
    if s.len() >= 2 && s[0] == ESC && s[1] == '[' {
        let p = param_run(s.skip(2));
        if 2 + p < s.len() && s[(2 + p) as int] == 'm' {
            (3 + p) as nat
        } else {
            0
        }
    } else {
        0
    }
}

/// Number of terminal columns `s` occupies: every character counts one column,
/// except the characters of complete SGR sequences, which count none.
pub open spec fn display_width_of(s: Seq<char>) -> nat
    decreases s.len(),
{
    if s.len() == 0 {
        0
    } else if sgr_len(s) > 0 {
        display_width_of(s.skip(sgr_len(s) as int))
    } else {
        1 + display_width_of(s.skip(1))
    }
}

/// Number of characters of `s` kept when it is cut to `n` visible columns:
/// SGR sequences are kept whole, and those that directly follow the last
/// kept visible character are kept too.
pub open spec fn cut_len(s: Seq<char>, n: nat) -> nat
    decreases s.len(),
{
    if s.len() == 0 {
        0
    } else if sgr_len(s) > 0 {
        sgr_len(s) + cut_len(s.skip(sgr_len(s) as int), n)
    } else if n == 0 {
        0
    } else {
        1 + cut_len(s.skip(1), (n - 1) as nat)
    }
}

/// `s` cut to at most `n` columns; a cut text is followed by an attribute reset.
pub open spec fn truncate_spec(s: Seq<char>, n: nat) -> Seq<char> {
    if display_width_of(s) <= n {
        s
    } else {
        s.take(cut_len(s, n) as int) + reset_seq()
    }
}

/// `n` space characters.
pub open spec fn spaces(n: nat) -> Seq<char> {
    Seq::new(n, |i: int| ' ')
}

/// Joins two texts with a single space, leaving out whichever is empty.
pub open spec fn join2(a: Seq<char>, b: Seq<char>) -> Seq<char> {
    if b.len() == 0 {
        a
    } else if a.len() == 0 {
        b
    } else {
        a + seq![' '] + b
    }
}

/// Joins the non-empty parts with single spaces, in order.
pub open spec fn join_nonempty(parts: Seq<Seq<char>>) -> Seq<char>
    decreases parts.len(),
{
    if parts.len() == 0 {
        Seq::empty()
    } else {
        join2(join_nonempty(parts.drop_last()), parts.last())
    }
}

/// `s` ends with `suffix`.
pub open spec fn ends_with(s: Seq<char>, suffix: Seq<char>) -> bool {
    suffix.len() <= s.len() && s.skip(s.len() - suffix.len()) == suffix
}

/// Joins all parts, empty ones included, with the separator `sep` between neighbours.
pub open spec fn join_with(parts: Seq<Seq<char>>, sep: char) -> Seq<char>
    decreases parts.len(),
{
    if parts.len() == 0 {
        Seq::empty()
    } else if parts.len() == 1 {
        parts[0]
    } else {
        join_with(parts.drop_last(), sep) + seq![sep] + parts.last()
    }
}

/// The decimal digit character for `d < 10`.
pub open spec fn digit_char(d: nat) -> char {
    (48 + d) as char
}

/// Decimal notation of a natural number, without leading zeros.
pub open spec fn decimal(n: nat) -> Seq<char>
    decreases n,
{
    if n < 10 {
        seq![digit_char(n)]
    } else {
        decimal(n / 10).push(digit_char(n % 10))
    }
}

/// Decimal notation of an integer, with a leading `-` when negative.
pub open spec fn signed_decimal(n: int) -> Seq<char> {
    if n < 0 {
        seq!['-'] + decimal((-n) as nat)
    } else {
        decimal(n as nat)
    }
}

// ---------------------------------------------------------------------------
// Lemmas on SGR recognition and width
// ---------------------------------------------------------------------------

proof fn lemma_param_run_bound(s: Seq<char>)
    ensures
        param_run(s) <= s.len(),
        forall|i: int| 0 <= i < param_run(s) ==> is_sgr_param(#[trigger] s[i]),
        param_run(s) < s.len() ==> !is_sgr_param(s[param_run(s) as int]),
    decreases s.len(),
{
    if s.len() > 0 && is_sgr_param(s[0]) {
        lemma_param_run_bound(s.skip(1));
        assert forall|i: int| 0 <= i < param_run(s) implies is_sgr_param(#[trigger] s[i]) by {
            if i > 0 {
                assert(s[i] == s.skip(1)[i - 1]);
            }
        }
        if param_run(s) < s.len() {
            assert(s[param_run(s) as int] == s.skip(1)[param_run(s.skip(1)) as int]);
        }
    }
}

/// A terminated parameter run is not changed by what follows the text.
proof fn lemma_param_run_concat(a: Seq<char>, b: Seq<char>)
    ensures
        param_run(a) < a.len() ==> param_run(a + b) == param_run(a),
        param_run(a) == a.len() ==> param_run(a + b) == a.len() + param_run(b),
    decreases a.len(),
{
    lemma_param_run_bound(a);
    if a.len() == 0 {
        assert(a + b =~= b);
    } else {
        assert((a + b)[0] == a[0]);
        assert((a + b).skip(1) =~= a.skip(1) + b);
        lemma_param_run_concat(a.skip(1), b);
    }
}

/// An SGR sequence at the start of a text is recognized in every extension of it.
pub proof fn lemma_sgr_extend(a: Seq<char>, b: Seq<char>)
    requires
        sgr_len(a) > 0,
    ensures
        sgr_len(a + b) == sgr_len(a),
{
    let t = a.skip(2);
    assert((a + b).skip(2) =~= t + b);
    lemma_param_run_concat(t, b);
    assert((a + b)[0] == a[0]);
    assert((a + b)[1] == a[1]);
    assert((a + b)[(2 + param_run(t)) as int] == a[(2 + param_run(t)) as int]);
}

/// No SGR sequence can run from `a` into `b` when `b` starts with a character
/// that cannot continue one.
pub proof fn lemma_sgr_no_straddle(a: Seq<char>, b: Seq<char>)
    requires
        a.len() > 0,
        sgr_len(a) == 0,
        b.len() == 0 || !is_sgr_continuation(b[0]),
    ensures
        sgr_len(a + b) == 0,
{
    if b.len() == 0 {
        assert(a + b =~= a);
    } else {
        assert((a + b)[0] == a[0]);
        if a.len() == 1 {
            assert((a + b)[1] == b[0]);
        } else {
            assert((a + b)[1] == a[1]);
            if a[0] == ESC && a[1] == '[' {
                let t = a.skip(2);
                assert((a + b).skip(2) =~= t + b);
                lemma_param_run_concat(t, b);
                lemma_param_run_bound(t);
                lemma_param_run_bound(b);
                let p = param_run(t);
                if p < t.len() {
                    assert((a + b)[(2 + p) as int] == a[(2 + p) as int]);
                } else {
                    assert(param_run(b) == 0);
                    assert((a + b)[(2 + p) as int] == b[0]);
                }
            }
        }
    }
}

/// An SGR sequence of `s` is still recognized in a prefix that contains it whole.
proof fn lemma_sgr_take(s: Seq<char>, m: nat)
    requires
        sgr_len(s) > 0,
        sgr_len(s) <= m <= s.len(),
    ensures
        sgr_len(s.take(m as int)) == sgr_len(s),
{
    let k = sgr_len(s);
    assert(s =~= s.take(k as int) + s.skip(k as int));
    let p = s.take(m as int);
    // The prefix of length k is itself a complete SGR sequence.
    let q = s.take(k as int);
    let t = s.skip(2);
    let tq = q.skip(2);
    assert(t =~= tq + s.skip(k as int));
    lemma_param_run_bound(t);
    lemma_param_run_bound(tq);
    lemma_param_run_concat(tq, s.skip(k as int));
    assert(tq[(k - 3) as int] == 'm');
    assert(sgr_len(q) == k);
    assert(p =~= q + s.take(m as int).skip(k as int));
    lemma_sgr_extend(q, s.take(m as int).skip(k as int));
}

/// Width is additive when the second text cannot continue an SGR sequence
/// begun in the first.
pub proof fn lemma_width_concat(a: Seq<char>, b: Seq<char>)
    requires
        b.len() == 0 || !is_sgr_continuation(b[0]),
    ensures
        display_width_of(a + b) == display_width_of(a) + display_width_of(b),
    decreases a.len(),
{
    if a.len() == 0 {
        assert(a + b =~= b);
    } else if sgr_len(a) > 0 {
        let k = sgr_len(a) as int;
        lemma_sgr_extend(a, b);
        assert((a + b).skip(k) =~= a.skip(k) + b);
        lemma_width_concat(a.skip(k), b);
    } else {
        lemma_sgr_no_straddle(a, b);
        assert((a + b).skip(1) =~= a.skip(1) + b);
        lemma_width_concat(a.skip(1), b);
    }
}

/// The width of a text never exceeds its length.
pub proof fn lemma_width_le_len(s: Seq<char>)
    ensures
        display_width_of(s) <= s.len(),
    decreases s.len(),
{
    if s.len() > 0 {
        if sgr_len(s) > 0 {
            lemma_width_le_len(s.skip(sgr_len(s) as int));
        } else {
            lemma_width_le_len(s.skip(1));
        }
    }
}

/// A text made of spaces is as wide as it is long.
pub proof fn lemma_width_spaces(n: nat)
    ensures
        display_width_of(spaces(n)) == n,
    decreases n,
{
    if n > 0 {
        assert(spaces(n).skip(1) =~= spaces((n - 1) as nat));
        lemma_width_spaces((n - 1) as nat);
    }
}

/// Leading spaces add one column each.
pub proof fn lemma_width_spaces_prefix(n: nat, b: Seq<char>)
    ensures
        display_width_of(spaces(n) + b) == n + display_width_of(b),
    decreases n,
{
    if n > 0 {
        let s = spaces(n) + b;
        assert(s[0] == ' ');
        assert(sgr_len(s) == 0);
        assert(s.skip(1) =~= spaces((n - 1) as nat) + b);
        lemma_width_spaces_prefix((n - 1) as nat, b);
    } else {
        assert(spaces(n) + b =~= b);
    }
}

/// Joining the parts of two lists equals joining the two joined lists.
pub proof fn lemma_join_nonempty_concat(a: Seq<Seq<char>>, b: Seq<Seq<char>>)
    ensures
        join_nonempty(a + b) == join2(join_nonempty(a), join_nonempty(b)),
    decreases b.len(),
{
    if b.len() == 0 {
        assert(a + b =~= a);
    } else {
        assert((a + b).drop_last() =~= a + b.drop_last());
        assert((a + b).last() == b.last());
        lemma_join_nonempty_concat(a, b.drop_last());
        let x = join_nonempty(a);
        let y = join_nonempty(b.drop_last());
        let z = b.last();
        // join2 is associative
        if x.len() > 0 && y.len() > 0 && z.len() > 0 {
            assert(x + seq![' '] + y + seq![' '] + z =~= x + seq![' '] + (y + seq![' '] + z));
        }
    }
}

/// A text that starts with a plain visible character is one column wider than the rest.
pub proof fn lemma_width_cons(c: char, b: Seq<char>)
    requires
        c != ESC,
    ensures
        display_width_of(seq![c] + b) == 1 + display_width_of(b),
{
    assert((seq![c] + b)[0] == c);
    assert((seq![c] + b).skip(1) =~= b);
}

proof fn lemma_reset_width()
    ensures
        display_width_of(reset_seq()) == 0,
        sgr_len(reset_seq()) == 4,
{
    let r = reset_seq();
    assert(r.skip(2) =~= seq!['0', 'm']);
    assert(seq!['0', 'm'].skip(1) =~= seq!['m']);
    assert(seq!['m'].skip(1) =~= Seq::<char>::empty());
    assert(param_run(seq!['m']) == 0);
    assert(param_run(seq!['0', 'm']) == 1);
    assert(r.skip(4) =~= Seq::<char>::empty());
    assert(display_width_of(r.skip(4)) == 0);
}

proof fn lemma_cut_len_bound(s: Seq<char>, n: nat)
    ensures
        cut_len(s, n) <= s.len(),
    decreases s.len(),
{
    if s.len() > 0 {
        if sgr_len(s) > 0 {
            lemma_cut_len_bound(s.skip(sgr_len(s) as int), n);
        } else if n > 0 {
            lemma_cut_len_bound(s.skip(1), (n - 1) as nat);
        }
    }
}

/// The kept part of a cut text is at most `n` columns wide.
proof fn lemma_cut_width(s: Seq<char>, n: nat)
    ensures
        display_width_of(s.take(cut_len(s, n) as int)) <= n,
    decreases s.len(),
{
    lemma_cut_len_bound(s, n);
    let c = cut_len(s, n);
    let p = s.take(c as int);
    if s.len() == 0 {
        assert(p =~= Seq::<char>::empty());
    } else if sgr_len(s) > 0 {
        let k = sgr_len(s);
        let rest = s.skip(k as int);
        lemma_cut_len_bound(rest, n);
        lemma_sgr_take(s, c);
        assert(p.skip(k as int) =~= rest.take(cut_len(rest, n) as int));
        lemma_cut_width(rest, n);
    } else if n == 0 {
        assert(p =~= Seq::<char>::empty());
    } else {
        let rest = s.skip(1);
        lemma_cut_len_bound(rest, (n - 1) as nat);
        if sgr_len(p) > 0 {
            assert(s =~= p + s.skip(c as int));
            lemma_sgr_extend(p, s.skip(c as int));
        }
        assert(p.skip(1) =~= rest.take(cut_len(rest, (n - 1) as nat) as int));
        lemma_cut_width(rest, (n - 1) as nat);
    }
}

/// Cutting a text at least `n` columns wide keeps exactly `n` columns.
proof fn lemma_cut_width_exact(s: Seq<char>, n: nat)
    requires
        display_width_of(s) >= n,
    ensures
        display_width_of(s.take(cut_len(s, n) as int)) == n,
    decreases s.len(),
{
    lemma_cut_len_bound(s, n);
    let c = cut_len(s, n);
    let p = s.take(c as int);
    if s.len() == 0 {
        assert(p =~= Seq::<char>::empty());
    } else if sgr_len(s) > 0 {
        let k = sgr_len(s);
        let rest = s.skip(k as int);
        lemma_cut_len_bound(rest, n);
        lemma_sgr_take(s, c);
        assert(p.skip(k as int) =~= rest.take(cut_len(rest, n) as int));
        lemma_cut_width_exact(rest, n);
    } else if n == 0 {
        assert(p =~= Seq::<char>::empty());
    } else {
        let rest = s.skip(1);
        lemma_cut_len_bound(rest, (n - 1) as nat);
        if sgr_len(p) > 0 {
            assert(s =~= p + s.skip(c as int));
            lemma_sgr_extend(p, s.skip(c as int));
        }
        assert(p.skip(1) =~= rest.take(cut_len(rest, (n - 1) as nat) as int));
        lemma_cut_width_exact(rest, (n - 1) as nat);
    }
}

/// A text that already fits is kept whole by the cut.
proof fn lemma_cut_fits(s: Seq<char>, n: nat)
    requires
        display_width_of(s) <= n,
    ensures
        cut_len(s, n) == s.len(),
    decreases s.len(),
{
    if s.len() > 0 {
        if sgr_len(s) > 0 {
            lemma_cut_fits(s.skip(sgr_len(s) as int), n);
        } else {
            lemma_cut_fits(s.skip(1), (n - 1) as nat);
        }
    }
}

/// A truncated text is at most `n` columns wide, and a text that fits is unchanged.
pub proof fn lemma_truncate_width(s: Seq<char>, n: nat)
    ensures
        display_width_of(truncate_spec(s, n)) <= n,
        display_width_of(s) <= n ==> truncate_spec(s, n) == s,
{
    if display_width_of(s) > n {
        let p = s.take(cut_len(s, n) as int);
        lemma_cut_width(s, n);
        lemma_reset_width();
        lemma_width_concat(p, reset_seq());
    }
}

/// Truncation keeps as many columns as it may: the result is exactly as wide
/// as the text or as `n`, whichever is less, and it starts with the text's
/// first characters.
pub proof fn law_truncate_keeps_width(s: Seq<char>, n: nat)
    ensures
        display_width_of(truncate_spec(s, n)) == if display_width_of(s) <= n { display_width_of(s) } else { n },
        exists|k: int| 0 <= k <= s.len() && #[trigger] truncate_spec(s, n).take(k) == s.take(k)
            && truncate_spec(s, n).len() >= k && (display_width_of(s) > n ==> display_width_of(s.take(k)) == n),
{
    lemma_truncate_width(s, n);
    if display_width_of(s) > n {
        let c = cut_len(s, n);
        lemma_cut_len_bound(s, n);
        let p = s.take(c as int);
        lemma_cut_width_exact(s, n);
        lemma_reset_width();
        lemma_width_concat(p, reset_seq());
        assert(truncate_spec(s, n).take(c as int) =~= s.take(c as int));
    } else {
        assert(truncate_spec(s, n).take(s.len() as int) =~= s.take(s.len() as int));
        assert(s.take(s.len() as int) =~= s);
    }
}

// ---------------------------------------------------------------------------
// Executable text functions
// ---------------------------------------------------------------------------

/// Copies the characters of a string slice into a vector.
pub fn chars_of(s: &str) -> (v: Vec<char>)
    ensures
        v@ == s@,
{
    let mut v: Vec<char> = Vec::new();
    for c in it: s.chars()
        invariant
            v@ == it.seq().take(it.index() as int),
            it.seq() == s@,
    {
        v.push(c);
    }
    v
}

/// Collects the characters into a `String` with `Iterator::collect`; the
/// contract claims the string holds exactly these characters, in order.
#[verifier::external_body]
pub fn string_of(v: &Vec<char>) -> (s: String)
    ensures
        s@ == v@,
{
    v.iter().collect()
}

/// Appends all characters of `src` to `dst`.
pub fn push_all(dst: &mut Vec<char>, src: &Vec<char>)
    ensures
        final(dst)@ == old(dst)@ + src@,
{
    let mut i: usize = 0;
    while i < src.len()
        invariant
            i <= src@.len(),
            dst@ == old(dst)@ + src@.take(i as int),
        decreases src@.len() - i,
    {
        dst.push(src[i]);
        i = i + 1;
        assert(src@.take(i as int) =~= src@.take((i - 1) as int).push(src@[i - 1]));
    }
    assert(src@.take(i as int) =~= src@);
}

fn sgr_len_at(s: &Vec<char>, i: usize) -> (k: usize)
    requires
        i <= s@.len(),
    ensures
        k == sgr_len(s@.skip(i as int)),
        k <= s@.len() - i,
{
    let ghost t = s@.skip(i as int);
    if s.len() - i >= 2 && s[i] == ESC && s[i + 1] == '[' {
        let mut j: usize = i + 2;
        proof {
            assert(t.skip(2) =~= s@.skip(j as int));
        }
        while j < s.len() && (('0' <= s[j] && s[j] <= '9') || s[j] == ';')
            invariant
                i + 2 <= j <= s@.len(),
                t == s@.skip(i as int),
                param_run(t.skip(2)) == (j - (i + 2)) + param_run(s@.skip(j as int)),
            decreases s@.len() - j,
        {
            proof {
                let u = s@.skip(j as int);
                assert(u.skip(1) =~= s@.skip(j + 1));
            }
            j = j + 1;
        }
        proof {
            let u = s@.skip(j as int);
            if j < s@.len() {
                assert(u[0] == s@[j as int]);
            }
            assert(param_run(u) == 0);
            assert(j == s@.len() || t[(2 + param_run(t.skip(2))) as int] == s@[j as int]);
        }
        if j < s.len() && s[j] == 'm' {
            j - i + 1
        } else {
            0
        }
    } else {
        0
    }
}

/// Number of terminal columns the text occupies (see [`display_width_of`]).
pub fn width_of(s: &Vec<char>) -> (w: usize)
    ensures
        w == display_width_of(s@),
{
    let mut i: usize = 0;
    let mut w: usize = 0;
    proof {
        assert(s@.skip(0) =~= s@);
    }
    while i < s.len()
        invariant
            i <= s@.len(),
            w <= i,
            display_width_of(s@) == w + display_width_of(s@.skip(i as int)),
        decreases s@.len() - i,
    {
        let k = sgr_len_at(s, i);
        let ghost t = s@.skip(i as int);
        if k > 0 {
            proof {
                assert(t.skip(k as int) =~= s@.skip(i + k));
            }
            i = i + k;
        } else {
            proof {
                assert(t.skip(1) =~= s@.skip(i + 1));
            }
            i = i + 1;
            w = w + 1;
        }
    }
    w
}

/// Cuts the text to at most `n` columns (see [`truncate_spec`]).
pub fn truncate_chars(s: &Vec<char>, n: usize) -> (r: Vec<char>)
    ensures
        r@ == truncate_spec(s@, n as nat),
        display_width_of(r@) <= n,
{
    proof {
        lemma_truncate_width(s@, n as nat);
    }
    if width_of(s) <= n {
        return s.clone();
    }
    let mut out: Vec<char> = Vec::new();
    let mut i: usize = 0;
    let mut left: usize = n;
    proof {
        assert(s@.skip(0) =~= s@);
    }
    loop
        invariant
            i <= s@.len(),
            left <= n,
            out@ == s@.take(i as int),
            cut_len(s@, n as nat) == i + cut_len(s@.skip(i as int), left as nat),
        ensures
            out@ == s@.take(cut_len(s@, n as nat) as int),
        decreases s@.len() - i,
    {
        if i >= s.len() {
            break;
        }
        let k = sgr_len_at(s, i);
        let ghost t = s@.skip(i as int);
        if k > 0 {
            let end = i + k;
            let mut j: usize = i;
            while j < end
                invariant
                    i <= j <= end,
                    end == i + k,
                    end <= s@.len(),
                    out@ == s@.take(j as int),
                decreases end - j,
            {
                out.push(s[j]);
                j = j + 1;
                assert(s@.take(j as int) =~= s@.take((j - 1) as int).push(s@[j - 1]));
            }
            proof {
                assert(t.skip(k as int) =~= s@.skip(i + k));
            }
            i = i + k;
        } else if left == 0 {
            break;
        } else {
            out.push(s[i]);
            proof {
                assert(s@.take(i + 1) =~= s@.take(i as int).push(s@[i as int]));
                assert(t.skip(1) =~= s@.skip(i + 1));
            }
            i = i + 1;
            left = left - 1;
        }
    }
    out.push(ESC);
    out.push('[');
    out.push('0');
    out.push('m');
    proof {
        assert(out@ =~= s@.take(cut_len(s@, n as nat) as int) + reset_seq());
    }
    out
}

/// Appends `n` spaces to `dst`.
pub fn push_spaces(dst: &mut Vec<char>, n: usize)
    ensures
        final(dst)@ == old(dst)@ + spaces(n as nat),
{
    let mut i: usize = 0;
    while i < n
        invariant
            i <= n,
            dst@ == old(dst)@ + spaces(i as nat),
        decreases n - i,
    {
        dst.push(' ');
        i = i + 1;
        assert(spaces(i as nat) =~= spaces((i - 1) as nat).push(' '));
    }
}

/// Joins the non-empty parts with single spaces (see [`join_nonempty`]).
pub fn join_parts(parts: &Vec<Vec<char>>) -> (r: Vec<char>)
    ensures
        r@ == join_nonempty(parts@.map_values(|p: Vec<char>| p@)),
{
    let ghost views = parts@.map_values(|p: Vec<char>| p@);
    let mut out: Vec<char> = Vec::new();
    let mut i: usize = 0;
    while i < parts.len()
        invariant
            i <= parts@.len(),
            views == parts@.map_values(|p: Vec<char>| p@),
            out@ == join_nonempty(views.take(i as int)),
        decreases parts@.len() - i,
    {
        let part = &parts[i];
        proof {
            assert(views.take(i + 1).drop_last() =~= views.take(i as int));
            assert(views.take(i + 1).last() == part@);
        }
        if part.len() > 0 {
            if out.len() > 0 {
                out.push(' ');
            }
            push_all(&mut out, part);
        }
        i = i + 1;
    }
    assert(views.take(i as int) =~= views);
    out
}

/// Joins all parts with `sep` between neighbours (see [`join_with`]).
pub fn join_sep(parts: &Vec<Vec<char>>, sep: char) -> (r: Vec<char>)
    ensures
        r@ == join_with(parts@.map_values(|p: Vec<char>| p@), sep),
{
    let ghost views = parts@.map_values(|p: Vec<char>| p@);
    let mut out: Vec<char> = Vec::new();
    let mut i: usize = 0;
    while i < parts.len()
        invariant
            i <= parts@.len(),
            views == parts@.map_values(|p: Vec<char>| p@),
            out@ == join_with(views.take(i as int), sep),
        decreases parts@.len() - i,
    {
        let part = &parts[i];
        proof {
            assert(views.take(i + 1).drop_last() =~= views.take(i as int));
            assert(views.take(i + 1).last() == part@);
        }
        if i > 0 {
            out.push(sep);
        } else {
            assert(views.take(1)[0] == part@);
        }
        push_all(&mut out, part);
        i = i + 1;
    }
    assert(views.take(i as int) =~= views);
    out
}

/// Decimal notation of `n` (see [`decimal`]).
pub fn decimal_chars(n: u64) -> (r: Vec<char>)
    ensures
        r@ == decimal(n as nat),
    decreases n,
{
    let d = (n % 10) as u8;
    let c = (48u8 + d) as char;
    if n < 10 {
        let mut v: Vec<char> = Vec::new();
        v.push(c);
        v
    } else {
        let mut v = decimal_chars(n / 10);
        v.push(c);
        v
    }
}

/// Decimal notation of `n` with a leading `-` when negative (see [`signed_decimal`]).
pub fn signed_decimal_chars(n: i64) -> (r: Vec<char>)
    requires
        n > i64::MIN,
    ensures
        r@ == signed_decimal(n as int),
{
    if n < 0 {
        let mut v: Vec<char> = Vec::new();
        v.push('-');
        let digits = decimal_chars((-n) as u64);
        push_all(&mut v, &digits);
        v
    } else {
        decimal_chars(n as u64)
    }
}

} // verus!
