//! Quoting of strings as zsh words.
use vstd::prelude::*;

use crate::text::{chars_of, string_of};

verus! {

/// How one character is written inside a single-quoted word: a quote closes
/// the quoting, is written escaped, and reopens it.
pub open spec fn quote_piece(c: char) -> Seq<char> {
    if c == '\'' {
        seq!['\'', '\\', '\'', '\'']
    } else {
        seq![c]
    }
}

/// The characters of `s` as written between single quotes.
pub open spec fn quote_body(s: Seq<char>) -> Seq<char>
    decreases s.len(),
{
    if s.len() == 0 {
        Seq::empty()
    } else {
        quote_body(s.drop_last()) + quote_piece(s.last())
    }
}

/// `s` as one single-quoted zsh word.
pub open spec fn zsh_quoted(s: Seq<char>) -> Seq<char> {
    seq!['\''] + quote_body(s) + seq!['\'']
}

/// The value the shell reads from the word `w` made of single-quoted parts,
/// backslash escapes and plain characters; `quoted` tells whether a single
/// quote is open.
pub open spec fn shell_word_value(w: Seq<char>, quoted: bool) -> Seq<char>
    decreases w.len(),
{
    if w.len() == 0 {
        Seq::empty()
    } else if quoted {
        if w[0] == '\'' {
            shell_word_value(w.skip(1), false)
        } else {
            seq![w[0]] + shell_word_value(w.skip(1), true)
        }
    } else if w[0] == '\'' {
        shell_word_value(w.skip(1), true)
    } else if w[0] == '\\' && w.len() >= 2 {
        seq![w[1]] + shell_word_value(w.skip(2), false)
    } else {
        seq![w[0]] + shell_word_value(w.skip(1), false)
    }
}

proof fn lemma_quote_body_concat(a: Seq<char>, b: Seq<char>)
    ensures
        quote_body(a + b) == quote_body(a) + quote_body(b),
    decreases b.len(),
{
    if b.len() == 0 {
        assert(a + b =~= a);
        assert(quote_body(a) + quote_body(b) =~= quote_body(a));
    } else {
        assert((a + b).drop_last() =~= a + b.drop_last());
        lemma_quote_body_concat(a, b.drop_last());
        assert(quote_body(a) + quote_body(b.drop_last()) + quote_piece(b.last()) =~= quote_body(a) + (
        quote_body(b.drop_last()) + quote_piece(b.last())));
    }
}

proof fn lemma_read_quoted_body(s: Seq<char>, rest: Seq<char>)
    ensures
        shell_word_value(quote_body(s) + seq!['\''] + rest, true) == s + shell_word_value(rest, false),
    decreases s.len(),
{
    let tail = seq!['\''] + rest;
    if s.len() == 0 {
        assert(quote_body(s) =~= Seq::<char>::empty());
        assert(quote_body(s) + seq!['\''] + rest =~= tail);
        assert(tail[0] == '\'');
        assert(tail.skip(1) =~= rest);
        assert(shell_word_value(tail, true) == shell_word_value(tail.skip(1), false));
        assert(s + shell_word_value(rest, false) =~= shell_word_value(rest, false));
    } else {
        let c = s[0];
        let s1 = s.skip(1);
        assert(s =~= seq![c] + s1);
        lemma_quote_body_concat(seq![c], s1);
        assert(seq![c].drop_last() =~= Seq::<char>::empty());
        assert(quote_body(Seq::<char>::empty()) =~= Seq::<char>::empty());
        assert(quote_body(seq![c]) == quote_body(seq![c].drop_last()) + quote_piece(c));
        assert(quote_body(seq![c]) =~= quote_piece(c));
        lemma_read_quoted_body(s1, rest);
        let w = quote_body(s) + tail;
        let w1 = quote_body(s1) + tail;
        assert(quote_body(s) + seq!['\''] + rest =~= w);
        assert(quote_body(s1) + seq!['\''] + rest =~= w1);
        assert(w =~= quote_piece(c) + w1);
        let goal = s + shell_word_value(rest, false);
        assert(goal =~= seq![c] + (s1 + shell_word_value(rest, false)));
        if c == '\'' {
            assert(w[0] == '\'');
            let x = w.skip(1);
            assert(x =~= seq!['\\', '\'', '\''] + w1);
            assert(shell_word_value(w, true) == shell_word_value(x, false));
            assert(x[0] == '\\' && x[1] == '\'');
            let y = x.skip(2);
            assert(y =~= seq!['\''] + w1);
            assert(shell_word_value(x, false) == seq!['\''] + shell_word_value(y, false));
            assert(y[0] == '\'');
            assert(y.skip(1) =~= w1);
            assert(shell_word_value(y, false) == shell_word_value(w1, true));
        } else {
            assert(w[0] == c);
            assert(w.skip(1) =~= w1);
            assert(shell_word_value(w, true) == seq![c] + shell_word_value(w.skip(1), true));
        }
    }
}

/// The shell reads back exactly the quoted string.
pub proof fn lemma_zsh_quote_roundtrip(s: Seq<char>)
    ensures
        shell_word_value(zsh_quoted(s), false) == s,
{
    let w = zsh_quoted(s);
    assert(w.skip(1) =~= quote_body(s) + seq!['\''] + Seq::<char>::empty());
    lemma_read_quoted_body(s, Seq::empty());
    assert(s + Seq::<char>::empty() =~= s);
}

/// Quotes `value` as one zsh word that the shell reads back as `value`.
pub fn zsh_single_quote(value: &str) -> (r: String)
    ensures
        r@ == zsh_quoted(value@),
        shell_word_value(r@, false) == value@,
{
    let chars = chars_of(value);
    let mut out: Vec<char> = Vec::new();
    out.push('\'');
    let mut i: usize = 0;
    proof {
        assert(chars@.take(0) =~= Seq::<char>::empty());
    }
    while i < chars.len()
        invariant
            i <= chars@.len(),
            out@ == seq!['\''] + quote_body(chars@.take(i as int)),
        decreases chars@.len() - i,
    {
        let c = chars[i];
        if c == '\'' {
            out.push('\'');
            out.push('\\');
            out.push('\'');
            out.push('\'');
        } else {
            out.push(c);
        }
        proof {
            assert(chars@.take(i + 1).drop_last() =~= chars@.take(i as int));
            assert(out@ =~= seq!['\''] + quote_body(chars@.take(i + 1)));
        }
        i = i + 1;
    }
    out.push('\'');
    proof {
        assert(chars@.take(i as int) =~= chars@);
        assert(out@ == zsh_quoted(value@));
    }
    let r = string_of(&out);
    proof {
        lemma_zsh_quote_roundtrip(value@);
        assert(r@ == zsh_quoted(value@));
    }
    r
}

} // verus!
