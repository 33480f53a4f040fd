//! Strings as character sequences: conversions, whitespace-delimited tokens
//! and joining.
//!
//! Two functions of the standard library are taken on trust here:
//! `char::is_whitespace` and `String::push`.

use vstd::prelude::*;
use vstd::string::StringExecFns;

verus! {

/// Whether `c` is white space in the sense of `char::is_whitespace`: the
/// Unicode `White_Space` property of the character.
pub uninterp spec fn whitespace(c: char) -> bool;

/// `char::is_whitespace` depends on the character alone; its answer is the
/// one that `whitespace` names.
pub assume_specification[ char::is_whitespace ](c: char) -> (b: bool)
    ensures
        b == whitespace(c),
;

/// `String::push` appends one character to the end of the string.
pub assume_specification[ String::push ](s: &mut String, ch: char)
    ensures
        final(s)@ == old(s)@.push(ch),
;

/// The views of a sequence of strings.
pub open spec fn texts(v: Seq<String>) -> Seq<Seq<char>> {
    Seq::new(v.len(), |i: int| v[i]@)
}

/// The tokens of `rest`, given that `run` is the white-space-free run read
/// just before it: a run ends at white space or at the end of the input, and
/// an empty run is no token.
pub open spec fn tokens_after(rest: Seq<char>, run: Seq<char>) -> Seq<Seq<char>>
    decreases rest.len(),
{
    if rest.len() == 0 {
        if run.len() == 0 {
            Seq::empty()
        } else {
            seq![run]
        }
    } else if whitespace(rest[0]) {
        if run.len() == 0 {
            tokens_after(rest.drop_first(), Seq::empty())
        } else {
            seq![run] + tokens_after(rest.drop_first(), Seq::empty())
        }
    } else {
        tokens_after(rest.drop_first(), run.push(rest[0]))
    }
}

/// The maximal white-space-free runs of `s`, front to back.
pub open spec fn tokens(s: Seq<char>) -> Seq<Seq<char>> {
    tokens_after(s, Seq::empty())
}

/// Whether no character of `s` is white space.
pub open spec fn spaceless(s: Seq<char>) -> bool {
    forall|k: int| 0 <= k < s.len() ==> !whitespace(#[trigger] s[k])
}

/// A word: at least one character and no white space.
pub open spec fn is_word(s: Seq<char>) -> bool {
    s.len() > 0 && spaceless(s)
}

/// Every token that follows a run without white space is a word.
pub proof fn lemma_tokens_after_are_words(rest: Seq<char>, run: Seq<char>)
    requires
        spaceless(run),
    ensures
        forall|i: int|
            0 <= i < tokens_after(rest, run).len() ==> is_word(
                #[trigger] tokens_after(rest, run)[i],
            ),
    decreases rest.len(),
{
    let all = tokens_after(rest, run);
    if rest.len() == 0 {
        assert forall|i: int| 0 <= i < all.len() implies is_word(#[trigger] all[i]) by {
            assert(all[i] == run);
        }
    } else if whitespace(rest[0]) {
        let tail = tokens_after(rest.drop_first(), Seq::empty());
        lemma_tokens_after_are_words(rest.drop_first(), Seq::empty());
        assert forall|i: int| 0 <= i < all.len() implies is_word(#[trigger] all[i]) by {
            if run.len() == 0 {
                assert(all[i] == tail[i]);
            } else if i == 0 {
                assert(all[i] == run);
            } else {
                assert(all[i] == tail[i - 1]);
            }
        }
    } else {
        let longer = run.push(rest[0]);
        assert forall|k: int| 0 <= k < longer.len() implies !whitespace(#[trigger] longer[k]) by {
            if k < run.len() {
                assert(longer[k] == run[k]);
            }
        }
        lemma_tokens_after_are_words(rest.drop_first(), longer);
        let same = tokens_after(rest.drop_first(), longer);
        assert forall|i: int| 0 <= i < all.len() implies is_word(#[trigger] all[i]) by {
            assert(all[i] == same[i]);
        }
    }
}

/// Every token is a word: it is not empty and holds no white space.
pub proof fn lemma_tokens_are_words(s: Seq<char>)
    ensures
        forall|i: int| 0 <= i < tokens(s).len() ==> is_word(#[trigger] tokens(s)[i]),
{
    lemma_tokens_after_are_words(s, Seq::empty());
}

/// Text without white space extends the run before it and ends it.
pub proof fn lemma_tokens_after_spaceless(rest: Seq<char>, run: Seq<char>)
    requires
        spaceless(rest),
    ensures
        tokens_after(rest, run) == if (run + rest).len() == 0 {
            Seq::<Seq<char>>::empty()
        } else {
            seq![run + rest]
        },
    decreases rest.len(),
{
    if rest.len() == 0 {
        assert(run + rest == run);
    } else {
        assert(!whitespace(rest[0]));
        assert forall|k: int| 0 <= k < rest.drop_first().len() implies !whitespace(
            #[trigger] rest.drop_first()[k],
        ) by {
            assert(rest.drop_first()[k] == rest[k + 1]);
        }
        lemma_tokens_after_spaceless(rest.drop_first(), run.push(rest[0]));
        assert(run.push(rest[0]) + rest.drop_first() == run + rest);
    }
}

/// A word is its own single token.
pub proof fn lemma_word_is_one_token(word: Seq<char>)
    requires
        is_word(word),
    ensures
        tokens(word) == seq![word],
{
    lemma_tokens_after_spaceless(word, Seq::empty());
    assert(Seq::<char>::empty() + word == word);
}

/// White space separates: behind a white-space character the tokens start
/// afresh.
pub proof fn lemma_tokens_after_split(
    before: Seq<char>,
    space: char,
    after: Seq<char>,
    run: Seq<char>,
)
    requires
        whitespace(space),
    ensures
        tokens_after(before + seq![space] + after, run) == tokens_after(before, run) + tokens(
            after,
        ),
    decreases before.len(),
{
    let whole = before + seq![space] + after;
    if before.len() == 0 {
        assert(whole[0] == space);
        assert(whole.drop_first() == after);
        if run.len() == 0 {
            assert(Seq::<Seq<char>>::empty() + tokens(after) == tokens(after));
        }
    } else {
        assert(whole[0] == before[0]);
        assert(whole.drop_first() == before.drop_first() + seq![space] + after);
        if whitespace(before[0]) {
            lemma_tokens_after_split(before.drop_first(), space, after, Seq::empty());
            if run.len() > 0 {
                assert(seq![run] + (tokens_after(before.drop_first(), Seq::empty()) + tokens(
                    after,
                )) == (seq![run] + tokens_after(before.drop_first(), Seq::empty())) + tokens(
                    after,
                ));
            }
        } else {
            lemma_tokens_after_split(before.drop_first(), space, after, run.push(before[0]));
        }
    }
}

/// The tokens of two texts with white space between them are the tokens of
/// the first followed by those of the second.
pub proof fn lemma_tokens_split(before: Seq<char>, space: char, after: Seq<char>)
    requires
        whitespace(space),
    ensures
        tokens(before + seq![space] + after) == tokens(before) + tokens(after),
{
    lemma_tokens_after_split(before, space, after, Seq::empty());
}

/// `parts` joined into one sequence with `sep` between neighbours.
pub open spec fn joined(parts: Seq<Seq<char>>, sep: Seq<char>) -> Seq<char>
    decreases parts.len(),
{
    if parts.len() == 0 {
        Seq::empty()
    } else if parts.len() == 1 {
        parts[0]
    } else {
        joined(parts.drop_last(), sep) + sep + parts.last()
    }
}

/// The characters of `s`, in order.
pub fn chars_of(s: &str) -> (v: Vec<char>)
    ensures
        v@ == s@,
{
    let mut v: Vec<char> = Vec::new();
    for c in it: s.chars()
        invariant
            v@ == it.seq().take(it.index() as int),
            it.seq() == s@,
    {
        v.push(c);
    }
    v
}

/// The string whose characters are `v[from..to]`.
pub fn string_of_range(v: &Vec<char>, from: usize, to: usize) -> (s: String)
    requires
        from <= to <= v.len(),
    ensures
        s@ == v@.subrange(from as int, to as int),
{
    let mut s = String::new();
    let mut i: usize = from;
    while i < to
        invariant
            from <= i <= to <= v.len(),
            s@ == v@.subrange(from as int, i as int),
        decreases to - i,
    {
        s.push(v[i]);
        i = i + 1;
    }
    s
}

/// Whether `a` and `b` hold the same characters.
pub fn same_text(a: &str, b: &str) -> (same: bool)
    ensures
        same == (a@ == b@),
{
    let x = chars_of(a);
    let y = chars_of(b);
    if x.len() != y.len() {
        return false;
    }
    let mut i: usize = 0;
    while i < x.len()
        invariant
            i <= x.len(),
            x.len() == y.len(),
            x@ == a@,
            y@ == b@,
            x@.take(i as int) == y@.take(i as int),
        decreases x.len() - i,
    {
        if x[i] != y[i] {
            return false;
        }
        assert(x@.take(i + 1) == x@.take(i as int).push(x@[i as int]));
        assert(y@.take(i + 1) == y@.take(i as int).push(y@[i as int]));
        i = i + 1;
    }
    assert(x@.take(x.len() as int) == x@);
    assert(y@.take(y.len() as int) == y@);
    true
}

/// Splits `s` at white space into its tokens; runs of white space, and white
/// space at either end, yield no empty token.
pub fn split_whitespace(s: &str) -> (out: Vec<String>)
    ensures
        texts(out@) == tokens(s@),
{
    let chars = chars_of(s);
    let mut out: Vec<String> = Vec::new();
    let mut start: usize = 0;
    let mut i: usize = 0;
    proof {
        assert(chars@.skip(0) == s@);
        assert(chars@.subrange(0, 0) == Seq::<char>::empty());
        assert(texts(out@) == Seq::<Seq<char>>::empty());
        assert(Seq::<Seq<char>>::empty() + tokens(s@) == tokens(s@));
    }
    while i < chars.len()
        invariant
            start <= i <= chars.len(),
            chars@ == s@,
            tokens(s@) == texts(out@) + tokens_after(
                chars@.skip(i as int),
                chars@.subrange(start as int, i as int),
            ),
        decreases chars.len() - i,
    {
        let ghost rest = chars@.skip(i as int);
        let ghost run = chars@.subrange(start as int, i as int);
        let ghost before = texts(out@);
        assert(rest.drop_first() == chars@.skip(i + 1));
        assert(rest[0] == chars@[i as int]);
        if chars[i].is_whitespace() {
            if start < i {
                let token = string_of_range(&chars, start, i);
                out.push(token);
                assert(texts(out@) == before + seq![run]);
                assert(before + (seq![run] + tokens_after(rest.drop_first(), Seq::empty()))
                    == (before + seq![run]) + tokens_after(rest.drop_first(), Seq::empty()));
            }
            start = i + 1;
            assert(chars@.subrange(start as int, i + 1) == Seq::<char>::empty());
        } else {
            assert(run.push(rest[0]) == chars@.subrange(start as int, i + 1));
        }
        i = i + 1;
    }
    let ghost run = chars@.subrange(start as int, i as int);
    let ghost before = texts(out@);
    assert(chars@.skip(i as int).len() == 0);
    if start < i {
        let token = string_of_range(&chars, start, i);
        out.push(token);
        assert(texts(out@) == before + seq![run]);
    } else {
        assert(before + Seq::<Seq<char>>::empty() == before);
    }
    out
}

/// Joins `parts` with `sep` between neighbours.
pub fn join(parts: &Vec<String>, sep: &str) -> (s: String)
    ensures
        s@ == joined(texts(parts@), sep@),
{
    let mut s = String::new();
    let mut i: usize = 0;
    while i < parts.len()
        invariant
            i <= parts.len(),
            s@ == joined(texts(parts@).take(i as int), sep@),
        decreases parts.len() - i,
    {
        let ghost done = texts(parts@).take(i as int);
        let ghost next = texts(parts@).take(i + 1);
        assert(next.drop_last() == done);
        assert(next.last() == parts@[i as int]@);
        if i > 0 {
            s.append(sep);
        } else {
            assert(Seq::<char>::empty() + parts@[i as int]@ == parts@[i as int]@);
        }
        s.append(parts[i].as_str());
        i = i + 1;
    }
    assert(texts(parts@).take(parts.len() as int) == texts(parts@));
    s
}

} // verus!
