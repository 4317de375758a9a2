//! Splitting the external tool's raw output into discrete flag words.
//!
//! A backslash escapes exactly the next character, which is then kept as
//! literal word content; unescaped space, tab, carriage return and newline
//! separate words, and runs of separators produce no empty words.

use crate::strutil::push_char;
use vstd::prelude::*;
use vstd::string::StrSliceExecFns;

verus! {

/// The unescaped characters that separate flag words.
pub open spec fn is_sep(c: char) -> bool {
    c == ' ' || c == '\t' || c == '\r' || c == '\n'
}

/// One step of the tokenizer state machine: `s` is the remaining input,
/// `word` the partial word, `acc` the words already produced, and `escaped`
/// whether the previous character was an unconsumed backslash.
pub open spec fn split_step(s: Seq<char>, word: Seq<char>, acc: Seq<Seq<char>>, escaped: bool) -> Seq<
    Seq<char>,
>
    decreases s.len(),
{
    if s.len() == 0 {
        if word.len() > 0 {
            acc.push(word)
        } else {
            acc
        }
    } else if escaped {
        split_step(s.drop_first(), word.push(s[0]), acc, false)
    } else if s[0] == '\\' {
        split_step(s.drop_first(), word, acc, true)
    } else if is_sep(s[0]) {
        if word.len() > 0 {
            split_step(s.drop_first(), Seq::empty(), acc.push(word), false)
        } else {
            split_step(s.drop_first(), word, acc, false)
        }
    } else {
        split_step(s.drop_first(), word.push(s[0]), acc, false)
    }
}

/// The word sequence the tokenizer produces for an input.
pub open spec fn spec_split_flags(s: Seq<char>) -> Seq<Seq<char>> {
    split_step(s, Seq::empty(), Seq::empty(), false)
}

/// Splits raw tool output into separate flag words, honouring
/// backslash-escaping: an escaped character is literal word content, and
/// unescaped whitespace separates words without producing empty ones.  A
/// trailing unterminated word is still emitted.
pub fn split_flags(output: &str) -> (r: Vec<String>)
    ensures
        r.deep_view() == spec_split_flags(output@),
{
    let len = output.unicode_len();
    let mut words: Vec<String> = Vec::new();
    let mut word: String = String::new();
    let mut escaped = false;
    let mut i: usize = 0;
    assert(output@.subrange(0, len as int) =~= output@);
    assert(words.deep_view() =~= Seq::<Seq<char>>::empty());
    while i < len
        invariant
            len == output@.len(),
            i <= len,
            spec_split_flags(output@) == split_step(
                output@.subrange(i as int, len as int),
                word@,
                words.deep_view(),
                escaped,
            ),
        decreases len - i,
    {
        let c = output.get_char(i);
        let ghost s_i = output@.subrange(i as int, len as int);
        let ghost s_i1 = output@.subrange(i as int + 1, len as int);
        let ghost w0 = word@;
        let ghost dv0 = words.deep_view();
        proof {
            assert(s_i.drop_first() =~= s_i1);
            assert(s_i[0] == output@[i as int]);
            assert(s_i.len() == len - i);
        }
        if escaped {
            escaped = false;
            push_char(&mut word, c);
            assert(split_step(s_i, w0, dv0, true) == split_step(s_i1, word@, dv0, false));
        } else if c == '\\' {
            escaped = true;
            assert(split_step(s_i, w0, dv0, false) == split_step(s_i1, w0, dv0, true));
        } else if c == ' ' || c == '\t' || c == '\r' || c == '\n' {
            assert(is_sep(s_i[0]));
            if word.as_str().unicode_len() > 0 {
                words.push(word);
                word = String::new();
                assert(words.deep_view() =~= dv0.push(w0));
                assert(split_step(s_i, w0, dv0, false) == split_step(
                    s_i1,
                    word@,
                    dv0.push(w0),
                    false,
                ));
            } else {
                assert(split_step(s_i, w0, dv0, false) == split_step(s_i1, w0, dv0, false));
            }
        } else {
            push_char(&mut word, c);
            assert(split_step(s_i, w0, dv0, false) == split_step(s_i1, word@, dv0, false));
        }
        i = i + 1;
    }
    assert(output@.subrange(len as int, len as int) =~= Seq::<char>::empty());
    if word.as_str().unicode_len() > 0 {
        let ghost w = word@;
        let ghost before = words.deep_view();
        words.push(word);
        assert(words.deep_view() =~= before.push(w));
    }
    words
}

/// The words rejoined with a single space between each pair.
pub open spec fn spec_join_spaces(ts: Seq<Seq<char>>) -> Seq<char>
    decreases ts.len(),
{
    if ts.len() == 0 {
        Seq::empty()
    } else if ts.len() == 1 {
        ts[0]
    } else {
        ts[0] + seq![' '] + spec_join_spaces(ts.drop_first())
    }
}

/// A word that needs no escaping when written back: it holds no separator
/// and no backslash.
pub open spec fn clean_word(t: Seq<char>) -> bool {
    forall|j: int| 0 <= j < t.len() ==> !is_sep(#[trigger] t[j]) && t[j] != '\\'
}

/// Every word in the sequence is nonempty.
pub open spec fn all_nonempty(ts: Seq<Seq<char>>) -> bool {
    forall|i: int| 0 <= i < ts.len() ==> (#[trigger] ts[i]).len() > 0
}

proof fn lemma_split_step_nonempty(s: Seq<char>, word: Seq<char>, acc: Seq<Seq<char>>, escaped: bool)
    requires
        all_nonempty(acc),
    ensures
        all_nonempty(split_step(s, word, acc, escaped)),
    decreases s.len(),
{
    if s.len() == 0 {
        if word.len() > 0 {
            assert forall|i: int| 0 <= i < acc.push(word).len() implies (#[trigger] acc.push(
                word,
            )[i]).len() > 0 by {
                if i < acc.len() {
                    assert(acc.push(word)[i] == acc[i]);
                } else {
                    assert(acc.push(word)[i] == word);
                }
            }
            assert(all_nonempty(acc.push(word)));
        }
    } else if escaped {
        lemma_split_step_nonempty(s.drop_first(), word.push(s[0]), acc, false);
    } else if s[0] == '\\' {
        lemma_split_step_nonempty(s.drop_first(), word, acc, true);
    } else if is_sep(s[0]) {
        if word.len() > 0 {
            assert forall|i: int| 0 <= i < acc.push(word).len() implies (#[trigger] acc.push(
                word,
            )[i]).len() > 0 by {
                if i < acc.len() {
                    assert(acc.push(word)[i] == acc[i]);
                } else {
                    assert(acc.push(word)[i] == word);
                }
            }
            assert(all_nonempty(acc.push(word)));
            lemma_split_step_nonempty(s.drop_first(), Seq::empty(), acc.push(word), false);
        } else {
            lemma_split_step_nonempty(s.drop_first(), word, acc, false);
        }
    } else {
        lemma_split_step_nonempty(s.drop_first(), word.push(s[0]), acc, false);
    }
}

proof fn lemma_split_step_clean_run(w: Seq<char>, r: Seq<char>, word: Seq<char>, acc: Seq<Seq<char>>)
    requires
        clean_word(w),
    ensures
        split_step(w + r, word, acc, false) == split_step(r, word + w, acc, false),
    decreases w.len(),
{
    if w.len() == 0 {
        assert(w + r =~= r);
        assert(word + w =~= word);
    } else {
        let c = w[0];
        assert((w + r)[0] == c);
        assert(!is_sep(c) && c != '\\');
        assert((w + r).drop_first() =~= w.drop_first() + r);
        lemma_split_step_clean_run(w.drop_first(), r, word.push(c), acc);
        assert(word.push(c) + w.drop_first() =~= word + w);
    }
}

proof fn lemma_split_join(ts: Seq<Seq<char>>, acc: Seq<Seq<char>>)
    requires
        forall|i: int| 0 <= i < ts.len() ==> clean_word(#[trigger] ts[i]),
        all_nonempty(ts),
    ensures
        split_step(spec_join_spaces(ts), Seq::empty(), acc, false) == acc + ts,
    decreases ts.len(),
{
    if ts.len() == 0 {
        assert(acc + ts =~= acc);
    } else if ts.len() == 1 {
        assert(spec_join_spaces(ts) == ts[0]);
        assert(ts[0] + Seq::<char>::empty() =~= ts[0]);
        lemma_split_step_clean_run(ts[0], Seq::empty(), Seq::empty(), acc);
        assert(Seq::<char>::empty() + ts[0] =~= ts[0]);
        assert(split_step(Seq::empty(), ts[0], acc, false) == acc.push(ts[0]));
        assert(acc.push(ts[0]) =~= acc + ts);
    } else {
        let rest = spec_join_spaces(ts.drop_first());
        assert(spec_join_spaces(ts) == ts[0] + seq![' '] + rest);
        assert(ts[0] + seq![' '] + rest =~= ts[0] + (seq![' '] + rest));
        lemma_split_step_clean_run(ts[0], seq![' '] + rest, Seq::empty(), acc);
        assert(Seq::<char>::empty() + ts[0] =~= ts[0]);
        let mid = seq![' '] + rest;
        assert(mid[0] == ' ');
        assert(mid.drop_first() =~= rest);
        assert(split_step(mid, ts[0], acc, false) == split_step(
            rest,
            Seq::empty(),
            acc.push(ts[0]),
            false,
        ));
        lemma_split_join(ts.drop_first(), acc.push(ts[0]));
        assert(acc.push(ts[0]) + ts.drop_first() =~= acc + ts);
    }
}

/// Law: tokenizing an input, rejoining the words with single spaces, and
/// tokenizing again yields the same word sequence, for every input whose
/// words carry no escaped separator or backslash.
pub proof fn lemma_split_rejoin(s: Seq<char>)
    requires
        forall|i: int|
            0 <= i < spec_split_flags(s).len() ==> clean_word(#[trigger] spec_split_flags(s)[i]),
    ensures
        spec_split_flags(spec_join_spaces(spec_split_flags(s))) == spec_split_flags(s),
{
    let ts = spec_split_flags(s);
    lemma_split_step_nonempty(s, Seq::empty(), Seq::empty(), false);
    lemma_split_join(ts, Seq::empty());
    assert(Seq::<Seq<char>>::empty() + ts =~= ts);
}

} // verus!
