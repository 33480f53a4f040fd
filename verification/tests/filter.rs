use record_query::filter::{compile_entry, Clause, Field, FilterKey, Outcome, Skip};
use record_query::pattern::Pattern;

fn literal(text: &str, multiline: bool) -> Pattern {
    Pattern { source: String::from(text), ignore_case: true, multiline }
}

#[test]
fn field_names() {
    assert_eq!(Field::Volume.name(), "volume");
    assert_eq!(Field::Type.name(), "type");
    assert_eq!(Field::Page.name(), "page");
    assert_eq!(Field::Note.name(), "note");
    assert_eq!(Field::Tags.name(), "tags");
    assert_eq!(Field::Cause.name(), "cause");
    assert_eq!(Field::Effects.name(), "effects");
    assert_eq!(Field::Starred.name(), "starred");
    assert_eq!(Field::Tsa.name(), "tsa");
    assert_eq!(Field::Tsu.name(), "tsu");
    assert_eq!(Field::Created.name(), "created");
}

#[test]
fn filter_key_parse_knows_the_vocabulary() {
    assert_eq!(FilterKey::parse("volume"), Some(FilterKey::Volume));
    assert_eq!(FilterKey::parse("type"), Some(FilterKey::Type));
    assert_eq!(FilterKey::parse("page"), Some(FilterKey::Page));
    assert_eq!(FilterKey::parse("note"), Some(FilterKey::Note));
    assert_eq!(FilterKey::parse("text"), Some(FilterKey::Text));
    assert_eq!(FilterKey::parse("tags"), Some(FilterKey::Tags));
    assert_eq!(FilterKey::parse("cause"), Some(FilterKey::Cause));
    assert_eq!(FilterKey::parse("effects"), Some(FilterKey::Effects));
    assert_eq!(FilterKey::parse("starred"), Some(FilterKey::Starred));
}

#[test]
fn filter_key_parse_refuses_anything_else() {
    assert_eq!(FilterKey::parse(""), None);
    assert_eq!(FilterKey::parse("Volume"), None);
    assert_eq!(FilterKey::parse("volume "), None);
    assert_eq!(FilterKey::parse("tsa"), None);
    assert_eq!(FilterKey::parse("created"), None);
    assert_eq!(FilterKey::parse("colour"), None);
}

#[test]
fn volume_and_type_match_exactly() {
    assert_eq!(
        compile_entry("volume", "12"),
        Outcome::Clause(Clause::Equals { field: Field::Volume, value: String::from("12") })
    );
    assert_eq!(
        compile_entry("type", "ci.vil"),
        Outcome::Clause(Clause::Equals { field: Field::Type, value: String::from("ci.vil") })
    );
}

#[test]
fn page_matches_a_prefix() {
    assert_eq!(
        compile_entry("page", "1.5"),
        Outcome::Clause(Clause::Matches { field: Field::Page, pattern: literal("^1\\.5", false) })
    );
}

#[test]
fn note_matches_a_substring() {
    assert_eq!(
        compile_entry("note", "dog (big)"),
        Outcome::Clause(Clause::Matches {
            field: Field::Note,
            pattern: literal("dog \\(big\\)", true),
        })
    );
}

#[test]
fn note_behind_a_minus_is_negated() {
    assert_eq!(
        compile_entry("note", "-dog"),
        Outcome::Clause(Clause::Lacks { field: Field::Note, pattern: literal("dog", true) })
    );
    assert_eq!(
        compile_entry("note", "--dog"),
        Outcome::Clause(Clause::Lacks { field: Field::Note, pattern: literal("\\-dog", true) })
    );
    assert_eq!(
        compile_entry("note", "do-g"),
        Outcome::Clause(Clause::Matches { field: Field::Note, pattern: literal("do\\-g", true) })
    );
}

#[test]
fn note_of_a_bare_minus_is_passed_over() {
    assert_eq!(compile_entry("note", "-"), Outcome::Skipped(Skip::NothingToMatch));
}

#[test]
fn text_searches_both_fields() {
    assert_eq!(
        compile_entry("text", "a+b"),
        Outcome::Clause(Clause::MatchesEither {
            first: Field::Tsa,
            second: Field::Tsu,
            pattern: literal("a\\+b", true),
        })
    );
}

#[test]
fn tags_compile_to_one_clause_over_three_buckets() {
    assert_eq!(
        compile_entry("tags", "alpha ?beta -gamma"),
        Outcome::Clause(Clause::Tagged {
            field: Field::Tags,
            all: vec![literal("alpha", false)],
            any: vec![literal("beta", false)],
            none: vec![literal("gamma", false)],
        })
    );
}

#[test]
fn tags_quote_each_token() {
    assert_eq!(
        compile_entry("tags", "a.b -c|d"),
        Outcome::Clause(Clause::Tagged {
            field: Field::Tags,
            all: vec![literal("a\\.b", false)],
            any: vec![],
            none: vec![literal("c\\|d", false)],
        })
    );
}

#[test]
fn tags_without_a_tag_are_passed_over() {
    assert_eq!(compile_entry("tags", "   "), Outcome::Skipped(Skip::NothingToMatch));
    assert_eq!(compile_entry("tags", "? -"), Outcome::Skipped(Skip::NothingToMatch));
}

#[test]
fn cause_and_effects_test_for_presence() {
    assert_eq!(
        compile_entry("cause", "y"),
        Outcome::Clause(Clause::Exists { field: Field::Cause, present: true })
    );
    assert_eq!(
        compile_entry("cause", "n"),
        Outcome::Clause(Clause::Exists { field: Field::Cause, present: false })
    );
    assert_eq!(
        compile_entry("effects", "y"),
        Outcome::Clause(Clause::Exists { field: Field::Effects, present: true })
    );
    assert_eq!(
        compile_entry("effects", "n"),
        Outcome::Clause(Clause::Exists { field: Field::Effects, present: false })
    );
}

#[test]
fn starred_matches_the_boolean() {
    assert_eq!(
        compile_entry("starred", "y"),
        Outcome::Clause(Clause::IsTrue { field: Field::Starred })
    );
    assert_eq!(
        compile_entry("starred", "n"),
        Outcome::Clause(Clause::FalseOrAbsent { field: Field::Starred })
    );
}

#[test]
fn presence_filters_ignore_other_tokens() {
    for key in ["cause", "effects", "starred"] {
        for value in ["Y", "N", "yes", "no", "yn", " y", "1", "true"] {
            assert_eq!(compile_entry(key, value), Outcome::Skipped(Skip::UnrecognizedToken));
        }
    }
}

#[test]
fn an_empty_value_is_passed_over_whatever_the_key() {
    for key in ["volume", "type", "page", "note", "text", "tags", "cause", "starred", "colour", ""] {
        assert_eq!(compile_entry(key, ""), Outcome::Skipped(Skip::EmptyValue));
    }
}

#[test]
fn an_unknown_key_is_passed_over() {
    assert_eq!(compile_entry("colour", "red"), Outcome::Skipped(Skip::UnknownKey));
    assert_eq!(compile_entry("", "red"), Outcome::Skipped(Skip::UnknownKey));
    assert_eq!(compile_entry("Tags", "alpha"), Outcome::Skipped(Skip::UnknownKey));
}
