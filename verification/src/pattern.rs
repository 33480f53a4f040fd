//! Literal search patterns: text quoted so that the store's regular
//! expression engine matches it character for character.
//!
//! The quoting is done by `regex::escape`, which is taken on trust here.

use vstd::prelude::*;
use vstd::string::StringExecFns;

verus! {

/// The characters that carry meaning in a regular expression.
pub open spec fn is_meta(c: char) -> bool {
    c == '\\' || c == '.' || c == '+' || c == '*' || c == '?' || c == '(' || c == ')' || c == '|'
        || c == '[' || c == ']' || c == '{' || c == '}' || c == '^' || c == '$' || c == '#' || c
        == '&' || c == '-' || c == '~'
}

/// `text` with a backslash put before each meta character.
pub open spec fn escaped(text: Seq<char>) -> Seq<char>
    decreases text.len(),
{
    if text.len() == 0 {
        Seq::empty()
    } else if is_meta(text.last()) {
        escaped(text.drop_last()).push('\\').push(text.last())
    } else {
        escaped(text.drop_last()).push(text.last())
    }
}

/// Text without meta characters is quoted as itself.
pub proof fn lemma_escaped_plain(text: Seq<char>)
    requires
        forall|k: int| 0 <= k < text.len() ==> !is_meta(#[trigger] text[k]),
    ensures
        escaped(text) == text,
    decreases text.len(),
{
    if text.len() > 0 {
        let front = text.drop_last();
        assert forall|k: int| 0 <= k < front.len() implies !is_meta(#[trigger] front[k]) by {
            assert(front[k] == text[k]);
        }
        lemma_escaped_plain(front);
        assert(!is_meta(text[text.len() - 1]));
        assert(front.push(text.last()) == text);
    }
}

/// Quoting goes character by character: the quoting of a concatenation is
/// the concatenation of the quotings.
pub proof fn lemma_escaped_concat(first: Seq<char>, second: Seq<char>)
    ensures
        escaped(first + second) == escaped(first) + escaped(second),
    decreases second.len(),
{
    if second.len() == 0 {
        assert(first + second == first);
        assert(escaped(first) + Seq::<char>::empty() == escaped(first));
    } else {
        let whole = first + second;
        assert(whole.drop_last() == first + second.drop_last());
        assert(whole.last() == second.last());
        lemma_escaped_concat(first, second.drop_last());
        if is_meta(second.last()) {
            assert((escaped(first) + escaped(second.drop_last())).push('\\').push(second.last())
                == escaped(first) + escaped(second.drop_last()).push('\\').push(second.last()));
        } else {
            assert((escaped(first) + escaped(second.drop_last())).push(second.last()) == escaped(
                first,
            ) + escaped(second.drop_last()).push(second.last()));
        }
    }
}

/// `regex::escape` walks the characters of its argument in order and copies
/// each to a fresh string, preceded by a backslash when the character is one
/// of the eighteen meta characters.
pub assume_specification[ regex::escape ](pattern: &str) -> (quoted: String)
    ensures
        quoted@ == escaped(pattern@),
;

/// A regular expression with the two matching options that the engine uses.
#[derive(Debug, PartialEq, Eq)]
pub struct Pattern {
    pub source: String,
    pub ignore_case: bool,
    pub multiline: bool,
}

/// The model of a `Pattern`.
pub struct PatternView {
    pub source: Seq<char>,
    pub ignore_case: bool,
    pub multiline: bool,
}

impl View for Pattern {
    type V = PatternView;

    open spec fn view(&self) -> PatternView {
        PatternView {
            source: self.source@,
            ignore_case: self.ignore_case,
            multiline: self.multiline,
        }
    }
}

/// The pattern that finds `text` anywhere, ignoring case.
pub open spec fn containing(text: Seq<char>, multiline: bool) -> PatternView {
    PatternView { source: escaped(text), ignore_case: true, multiline }
}

/// The pattern that finds `text` at the start only, ignoring case.
pub open spec fn starting_with(text: Seq<char>) -> PatternView {
    PatternView { source: seq!['^'] + escaped(text), ignore_case: true, multiline: false }
}

/// The option letters of a pattern as the store reads them: `i` for
/// ignoring case, then `m` for multiline.
pub open spec fn option_letters(p: PatternView) -> Seq<char> {
    (if p.ignore_case {
        seq!['i']
    } else {
        Seq::empty()
    }) + (if p.multiline {
        seq!['m']
    } else {
        Seq::empty()
    })
}

impl Clone for Pattern {
    fn clone(&self) -> (copy: Pattern)
        ensures
            copy@ == self@,
    {
        Pattern {
            source: self.source.clone(),
            ignore_case: self.ignore_case,
            multiline: self.multiline,
        }
    }
}

impl Pattern {
    /// A case-insensitive pattern that matches wherever `text` occurs.
    pub fn containing(text: &str, multiline: bool) -> (p: Pattern)
        ensures
            p@ == containing(text@, multiline),
    {
        Pattern { source: regex::escape(text), ignore_case: true, multiline }
    }

    /// A case-insensitive pattern that matches where the value starts with
    /// `text`.
    pub fn starting_with(text: &str) -> (p: Pattern)
        ensures
            p@ == starting_with(text@),
    {
        let quoted = regex::escape(text);
        let mut source = String::new();
        source.push('^');
        source.append(quoted.as_str());
        proof {
            assert(source@ == seq!['^'] + escaped(text@));
        }
        Pattern { source, ignore_case: true, multiline: false }
    }

    /// The option letters to hand to the store with the pattern.
    pub fn options(&self) -> (s: String)
        ensures
            s@ == option_letters(self@),
    {
        let mut s = String::new();
        if self.ignore_case {
            s.push('i');
        }
        if self.multiline {
            s.push('m');
        }
        proof {
            assert(s@ == option_letters(self@));
        }
        s
    }
}

} // verus!
