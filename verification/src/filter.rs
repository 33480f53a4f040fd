//! The field filter compiler: from loosely typed key/value filters to the
//! clauses of a conjunction.

use crate::pattern::{containing, starting_with, Pattern, PatternView};
use crate::tags::{parse_tags, tag_expression};
use crate::text::{chars_of, same_text, string_of_range, texts};
use vstd::prelude::*;

verus! {

/// A document field that a clause looks at or that documents are ordered by.
#[derive(Clone, Copy, Debug, PartialEq, Eq, Structural)]
pub enum Field {
    Volume,
    Type,
    Page,
    Note,
    Tags,
    Cause,
    Effects,
    Starred,
    Tsa,
    Tsu,
    Created,
    Updated,
}

/// The name under which the store keeps `field`.
pub open spec fn field_name(field: Field) -> Seq<char> {
    match field {
        Field::Volume => "volume"@,
        Field::Type => "type"@,
        Field::Page => "page"@,
        Field::Note => "note"@,
        Field::Tags => "tags"@,
        Field::Cause => "cause"@,
        Field::Effects => "effects"@,
        Field::Starred => "starred"@,
        Field::Tsa => "tsa"@,
        Field::Tsu => "tsu"@,
        Field::Created => "created"@,
        Field::Updated => "updated"@,
    }
}

/// No two fields share a name.
pub proof fn lemma_field_names_differ(a: Field, b: Field)
    ensures
        field_name(a) == field_name(b) ==> a == b,
{
    reveal_strlit("volume");
    reveal_strlit("type");
    reveal_strlit("page");
    reveal_strlit("note");
    reveal_strlit("tags");
    reveal_strlit("cause");
    reveal_strlit("effects");
    reveal_strlit("starred");
    reveal_strlit("tsa");
    reveal_strlit("tsu");
    reveal_strlit("created");
    reveal_strlit("updated");
    if field_name(a) == field_name(b) {
        assert(field_name(a).len() == field_name(b).len());
        assert(field_name(a)[0] == field_name(b)[0]);
        assert(field_name(a)[1] == field_name(b)[1]);
        assert(field_name(a)[2] == field_name(b)[2]);
    }
}

impl Field {
    /// The name under which the store keeps the field.
    pub fn name(self) -> (name: &'static str)
        ensures
            name@ == field_name(self),
    {
        match self {
            Field::Volume => "volume",
            Field::Type => "type",
            Field::Page => "page",
            Field::Note => "note",
            Field::Tags => "tags",
            Field::Cause => "cause",
            Field::Effects => "effects",
            Field::Starred => "starred",
            Field::Tsa => "tsa",
            Field::Tsu => "tsu",
            Field::Created => "created",
            Field::Updated => "updated",
        }
    }
}

/// The filter keys that the compiler understands.
#[derive(Clone, Copy, Debug, PartialEq, Eq, Structural)]
pub enum FilterKey {
    Volume,
    Type,
    Page,
    Note,
    Text,
    Tags,
    Cause,
    Effects,
    Starred,
}

/// The key that `key` spells, if it is one of the vocabulary.
pub open spec fn key_of(key: Seq<char>) -> Option<FilterKey> {
    if key == "volume"@ {
        Some(FilterKey::Volume)
    } else if key == "type"@ {
        Some(FilterKey::Type)
    } else if key == "page"@ {
        Some(FilterKey::Page)
    } else if key == "note"@ {
        Some(FilterKey::Note)
    } else if key == "text"@ {
        Some(FilterKey::Text)
    } else if key == "tags"@ {
        Some(FilterKey::Tags)
    } else if key == "cause"@ {
        Some(FilterKey::Cause)
    } else if key == "effects"@ {
        Some(FilterKey::Effects)
    } else if key == "starred"@ {
        Some(FilterKey::Starred)
    } else {
        None
    }
}

impl FilterKey {
    /// Resolves a raw key against the vocabulary; `None` for a key outside
    /// it.
    pub fn parse(key: &str) -> (parsed: Option<FilterKey>)
        ensures
            parsed == key_of(key@),
    {
        if same_text(key, "volume") {
            Some(FilterKey::Volume)
        } else if same_text(key, "type") {
            Some(FilterKey::Type)
        } else if same_text(key, "page") {
            Some(FilterKey::Page)
        } else if same_text(key, "note") {
            Some(FilterKey::Note)
        } else if same_text(key, "text") {
            Some(FilterKey::Text)
        } else if same_text(key, "tags") {
            Some(FilterKey::Tags)
        } else if same_text(key, "cause") {
            Some(FilterKey::Cause)
        } else if same_text(key, "effects") {
            Some(FilterKey::Effects)
        } else if same_text(key, "starred") {
            Some(FilterKey::Starred)
        } else {
            None
        }
    }
}

/// An atomic predicate over one field, or over a fixed pair of fields.
#[derive(Clone, Debug, PartialEq, Eq)]
pub enum Clause {
    /// The field equals the value.
    Equals { field: Field, value: String },
    /// The field matches the pattern.
    Matches { field: Field, pattern: Pattern },
    /// The field does not match the pattern.
    Lacks { field: Field, pattern: Pattern },
    /// The first or the second field matches the pattern.
    MatchesEither { first: Field, second: Field, pattern: Pattern },
    /// The field is a list that holds a match for each pattern of `all`, for
    /// at least one of `any` unless `any` is empty, and for none of `none`.
    Tagged { field: Field, all: Vec<Pattern>, any: Vec<Pattern>, none: Vec<Pattern> },
    /// The field is there, or is not.
    Exists { field: Field, present: bool },
    /// The field is the boolean true.
    IsTrue { field: Field },
    /// The field is the boolean false, or is not there.
    FalseOrAbsent { field: Field },
}

/// The model of a `Clause`.
pub enum ClauseView {
    Equals { field: Field, value: Seq<char> },
    Matches { field: Field, pattern: PatternView },
    Lacks { field: Field, pattern: PatternView },
    MatchesEither { first: Field, second: Field, pattern: PatternView },
    Tagged {
        field: Field,
        all: Seq<PatternView>,
        any: Seq<PatternView>,
        none: Seq<PatternView>,
    },
    Exists { field: Field, present: bool },
    IsTrue { field: Field },
    FalseOrAbsent { field: Field },
}

/// The models of a sequence of patterns.
pub open spec fn pattern_views(v: Seq<Pattern>) -> Seq<PatternView> {
    Seq::new(v.len(), |i: int| v[i]@)
}

impl View for Clause {
    type V = ClauseView;

    open spec fn view(&self) -> ClauseView {
        match *self {
            Clause::Equals { field, value } => ClauseView::Equals { field, value: value@ },
            Clause::Matches { field, pattern } => ClauseView::Matches { field, pattern: pattern@ },
            Clause::Lacks { field, pattern } => ClauseView::Lacks { field, pattern: pattern@ },
            Clause::MatchesEither { first, second, pattern } => ClauseView::MatchesEither {
                first,
                second,
                pattern: pattern@,
            },
            Clause::Tagged { field, all, any, none } => ClauseView::Tagged {
                field,
                all: pattern_views(all@),
                any: pattern_views(any@),
                none: pattern_views(none@),
            },
            Clause::Exists { field, present } => ClauseView::Exists { field, present },
            Clause::IsTrue { field } => ClauseView::IsTrue { field },
            Clause::FalseOrAbsent { field } => ClauseView::FalseOrAbsent { field },
        }
    }
}

/// Why an entry of a filter set yields no clause. None of these is an error.
#[derive(Clone, Copy, Debug, PartialEq, Eq, Structural)]
pub enum Skip {
    /// The value is empty: no filter is set for the key.
    EmptyValue,
    /// The key is not in the vocabulary.
    UnknownKey,
    /// A presence filter holds something other than `y` or `n`.
    UnrecognizedToken,
    /// Behind the sigils nothing is left to look for.
    NothingToMatch,
}

/// What one entry of a filter set compiles to.
#[derive(Clone, Debug, PartialEq, Eq)]
pub enum Outcome {
    Clause(Clause),
    Skipped(Skip),
}

/// The model of an `Outcome`.
pub enum OutcomeView {
    Clause(ClauseView),
    Skipped(Skip),
}

impl View for Outcome {
    type V = OutcomeView;

    open spec fn view(&self) -> OutcomeView {
        match *self {
            Outcome::Clause(c) => OutcomeView::Clause(c@),
            Outcome::Skipped(s) => OutcomeView::Skipped(s),
        }
    }
}

/// The affirmative token of a presence filter.
pub open spec fn yes() -> Seq<char> {
    seq!['y']
}

/// The negative token of a presence filter.
pub open spec fn no() -> Seq<char> {
    seq!['n']
}

/// The patterns that find each of `tags`, ignoring case.
pub open spec fn tag_patterns(tags: Seq<Seq<char>>) -> Seq<PatternView> {
    Seq::new(tags.len(), |i: int| containing(tags[i], false))
}

/// What a `note` filter compiles to: a search for the value, or, behind a
/// leading `-`, for the absence of the rest.
pub open spec fn note_outcome(value: Seq<char>) -> OutcomeView {
    if value.len() > 0 && value[0] == '-' {
        if value.len() == 1 {
            OutcomeView::Skipped(Skip::NothingToMatch)
        } else {
            OutcomeView::Clause(
                ClauseView::Lacks { field: Field::Note, pattern: containing(value.skip(1), true) },
            )
        }
    } else {
        OutcomeView::Clause(
            ClauseView::Matches { field: Field::Note, pattern: containing(value, true) },
        )
    }
}

/// What a `tags` filter compiles to: one clause over the three buckets, or
/// nothing where all three are empty.
pub open spec fn tags_outcome(value: Seq<char>) -> OutcomeView {
    let expr = tag_expression(value);
    if expr.required.len() == 0 && expr.optional.len() == 0 && expr.excluded.len() == 0 {
        OutcomeView::Skipped(Skip::NothingToMatch)
    } else {
        OutcomeView::Clause(
            ClauseView::Tagged {
                field: Field::Tags,
                all: tag_patterns(expr.required),
                any: tag_patterns(expr.optional),
                none: tag_patterns(expr.excluded),
            },
        )
    }
}

/// What a `cause` or `effects` filter compiles to: a test for the field
/// being there.
pub open spec fn presence_outcome(field: Field, value: Seq<char>) -> OutcomeView {
    if value == yes() {
        OutcomeView::Clause(ClauseView::Exists { field, present: true })
    } else if value == no() {
        OutcomeView::Clause(ClauseView::Exists { field, present: false })
    } else {
        OutcomeView::Skipped(Skip::UnrecognizedToken)
    }
}

/// What a `starred` filter compiles to: a match of the boolean true, or of
/// false or absent.
pub open spec fn starred_outcome(value: Seq<char>) -> OutcomeView {
    if value == yes() {
        OutcomeView::Clause(ClauseView::IsTrue { field: Field::Starred })
    } else if value == no() {
        OutcomeView::Clause(ClauseView::FalseOrAbsent { field: Field::Starred })
    } else {
        OutcomeView::Skipped(Skip::UnrecognizedToken)
    }
}

/// What the entry `key: value` compiles to.
pub open spec fn outcome_of(key: Seq<char>, value: Seq<char>) -> OutcomeView {
    if value.len() == 0 {
        OutcomeView::Skipped(Skip::EmptyValue)
    } else {
        match key_of(key) {
            None => OutcomeView::Skipped(Skip::UnknownKey),
            Some(FilterKey::Volume) => OutcomeView::Clause(
                ClauseView::Equals { field: Field::Volume, value },
            ),
            Some(FilterKey::Type) => OutcomeView::Clause(
                ClauseView::Equals { field: Field::Type, value },
            ),
            Some(FilterKey::Page) => OutcomeView::Clause(
                ClauseView::Matches { field: Field::Page, pattern: starting_with(value) },
            ),
            Some(FilterKey::Note) => note_outcome(value),
            Some(FilterKey::Text) => OutcomeView::Clause(
                ClauseView::MatchesEither {
                    first: Field::Tsa,
                    second: Field::Tsu,
                    pattern: containing(value, true),
                },
            ),
            Some(FilterKey::Tags) => tags_outcome(value),
            Some(FilterKey::Cause) => presence_outcome(Field::Cause, value),
            Some(FilterKey::Effects) => presence_outcome(Field::Effects, value),
            Some(FilterKey::Starred) => starred_outcome(value),
        }
    }
}

/// The patterns that find each of `tags`, ignoring case.
fn patterns_for(tags: &Vec<String>) -> (out: Vec<Pattern>)
    ensures
        pattern_views(out@) == tag_patterns(texts(tags@)),
{
    let mut out: Vec<Pattern> = Vec::new();
    let mut i: usize = 0;
    while i < tags.len()
        invariant
            i <= tags.len(),
            out.len() == i,
            forall|j: int| 0 <= j < i ==> out@[j]@ == containing(#[trigger] tags@[j]@, false),
        decreases tags.len() - i,
    {
        out.push(Pattern::containing(tags[i].as_str(), false));
        i = i + 1;
    }
    assert(pattern_views(out@) =~= tag_patterns(texts(tags@)));
    out
}

/// Reads a presence token: `Some(true)` for `y`, `Some(false)` for `n`.
fn read_presence(value: &str) -> (present: Option<bool>)
    ensures
        present == if value@ == yes() {
            Some(true)
        } else if value@ == no() {
            Some(false)
        } else {
            None::<bool>
        },
{
    let chars = chars_of(value);
    if chars.len() == 1 && chars[0] == 'y' {
        assert(chars@ =~= yes());
        Some(true)
    } else if chars.len() == 1 && chars[0] == 'n' {
        assert(chars@ =~= no());
        Some(false)
    } else {
        None
    }
}

/// Compiles a `note` filter.
fn compile_note(value: &str) -> (outcome: Outcome)
    ensures
        outcome@ == note_outcome(value@),
{
    let chars = chars_of(value);
    if chars.len() > 0 && chars[0] == '-' {
        if chars.len() == 1 {
            Outcome::Skipped(Skip::NothingToMatch)
        } else {
            let rest = string_of_range(&chars, 1, chars.len());
            Outcome::Clause(
                Clause::Lacks {
                    field: Field::Note,
                    pattern: Pattern::containing(rest.as_str(), true),
                },
            )
        }
    } else {
        Outcome::Clause(
            Clause::Matches { field: Field::Note, pattern: Pattern::containing(value, true) },
        )
    }
}

/// Compiles a `tags` filter.
fn compile_tags(value: &str) -> (outcome: Outcome)
    ensures
        outcome@ == tags_outcome(value@),
{
    let expr = parse_tags(value);
    if expr.is_empty() {
        Outcome::Skipped(Skip::NothingToMatch)
    } else {
        Outcome::Clause(
            Clause::Tagged {
                field: Field::Tags,
                all: patterns_for(&expr.required),
                any: patterns_for(&expr.optional),
                none: patterns_for(&expr.excluded),
            },
        )
    }
}

/// Compiles one entry of a filter set by the semantics of its key.
pub fn compile_entry(key: &str, value: &str) -> (outcome: Outcome)
    ensures
        outcome@ == outcome_of(key@, value@),
{
    if value.is_empty() {
        return Outcome::Skipped(Skip::EmptyValue);
    }
    match FilterKey::parse(key) {
        None => Outcome::Skipped(Skip::UnknownKey),
        Some(FilterKey::Volume) => Outcome::Clause(
            Clause::Equals { field: Field::Volume, value: value.to_owned() },
        ),
        Some(FilterKey::Type) => Outcome::Clause(
            Clause::Equals { field: Field::Type, value: value.to_owned() },
        ),
        Some(FilterKey::Page) => Outcome::Clause(
            Clause::Matches { field: Field::Page, pattern: Pattern::starting_with(value) },
        ),
        Some(FilterKey::Note) => compile_note(value),
        Some(FilterKey::Text) => Outcome::Clause(
            Clause::MatchesEither {
                first: Field::Tsa,
                second: Field::Tsu,
                pattern: Pattern::containing(value, true),
            },
        ),
        Some(FilterKey::Tags) => compile_tags(value),
        Some(FilterKey::Cause) => match read_presence(value) {
            Some(present) => Outcome::Clause(Clause::Exists { field: Field::Cause, present }),
            None => Outcome::Skipped(Skip::UnrecognizedToken),
        },
        Some(FilterKey::Effects) => match read_presence(value) {
            Some(present) => Outcome::Clause(Clause::Exists { field: Field::Effects, present }),
            None => Outcome::Skipped(Skip::UnrecognizedToken),
        },
        Some(FilterKey::Starred) => match read_presence(value) {
            Some(true) => Outcome::Clause(Clause::IsTrue { field: Field::Starred }),
            Some(false) => Outcome::Clause(Clause::FalseOrAbsent { field: Field::Starred }),
            None => Outcome::Skipped(Skip::UnrecognizedToken),
        },
    }
}

} // verus!
