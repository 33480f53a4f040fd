//! Grouping specifications and the pipeline that counts documents per group.

use crate::text::{chars_of, same_text, string_of_range, texts};
use vstd::prelude::*;
use vstd::string::StringExecFns;

verus! {

/// The marker in front of a column whose list values are unwound before
/// grouping.
pub open spec fn unwind_marker() -> Seq<char> {
    seq!['u', 'n', 'w', 'i', 'n', 'd', ':']
}

/// Whether a specifier carries the unwind marker.
pub open spec fn marked(specifier: Seq<char>) -> bool {
    specifier.len() >= 7 && specifier.take(7) == unwind_marker()
}

/// The column that a specifier names: what follows the marker, or all of it.
pub open spec fn bare_name(specifier: Seq<char>) -> Seq<char> {
    if marked(specifier) {
        specifier.skip(7)
    } else {
        specifier
    }
}

/// The column to unwind for a specifier, if it asks for one. An empty
/// specifier asks for nothing.
pub open spec fn unwind_of(specifier: Seq<char>) -> Option<Seq<char>> {
    if marked(specifier) {
        Some(specifier.skip(7))
    } else {
        None
    }
}

/// The column to group by for a specifier; none for an empty specifier.
pub open spec fn key_of_specifier(specifier: Seq<char>) -> Option<Seq<char>> {
    if specifier.len() == 0 {
        None
    } else {
        Some(bare_name(specifier))
    }
}

/// `unwind_of` as a function value.
pub open spec fn unwind_picker() -> spec_fn(Seq<char>) -> Option<Seq<char>> {
    |specifier: Seq<char>| unwind_of(specifier)
}

/// `key_of_specifier` as a function value.
pub open spec fn key_picker() -> spec_fn(Seq<char>) -> Option<Seq<char>> {
    |specifier: Seq<char>| key_of_specifier(specifier)
}

/// `names` with each name kept where it first occurs and dropped where it
/// occurs again.
pub open spec fn distinct(names: Seq<Seq<char>>) -> Seq<Seq<char>>
    decreases names.len(),
{
    if names.len() == 0 {
        Seq::empty()
    } else {
        let before = distinct(names.drop_last());
        if before.contains(names.last()) {
            before
        } else {
            before.push(names.last())
        }
    }
}

/// A sequence with `last` appended holds what it held before, and `last`.
proof fn lemma_push_contains(s: Seq<Seq<char>>, last: Seq<char>, name: Seq<char>)
    ensures
        s.push(last).contains(name) <==> s.contains(name) || name == last,
{
    let grown = s.push(last);
    if grown.contains(name) {
        let i = choose|i: int| 0 <= i < grown.len() && grown[i] == name;
        if i < s.len() {
            assert(s[i] == name);
        }
    }
    if s.contains(name) {
        let i = choose|i: int| 0 <= i < s.len() && s[i] == name;
        assert(grown[i] == name);
    }
    if name == last {
        assert(grown[s.len() as int] == name);
    }
}

/// What `distinct` keeps: every name of the list, and none twice.
pub proof fn lemma_distinct(names: Seq<Seq<char>>)
    ensures
        distinct(names).no_duplicates(),
        forall|name: Seq<char>| distinct(names).contains(name) <==> names.contains(name),
    decreases names.len(),
{
    if names.len() > 0 {
        let rest = names.drop_last();
        let last = names.last();
        let before = distinct(rest);
        lemma_distinct(rest);
        assert(names == rest.push(last));
        assert forall|name: Seq<char>| distinct(names).contains(name) <==> names.contains(
            name,
        ) by {
            lemma_push_contains(rest, last, name);
            lemma_push_contains(before, last, name);
        }
        if !before.contains(last) {
            let grown = before.push(last);
            assert forall|i: int, j: int|
                0 <= i < grown.len() && 0 <= j < grown.len() && i != j implies grown[i]
                != grown[j] by {
                if i == before.len() {
                    assert(before[j] == grown[j]);
                } else if j == before.len() {
                    assert(before[i] == grown[i]);
                }
            }
        }
    }
}

/// The columns to unwind, one per marked specifier, in the order listed.
pub open spec fn unwinds_of(specifiers: Seq<Seq<char>>) -> Seq<Seq<char>> {
    specifiers.filter_map(unwind_picker())
}

/// The columns to group by: the bare names of the specifiers that are not
/// empty, each once, in the order of first mention.
pub open spec fn keys_of(specifiers: Seq<Seq<char>>) -> Seq<Seq<char>> {
    distinct(specifiers.filter_map(key_picker()))
}

/// The columns to group by form an ordered set: none occurs twice.
pub proof fn lemma_keys_are_distinct(specifiers: Seq<Seq<char>>)
    ensures
        keys_of(specifiers).no_duplicates(),
{
    lemma_distinct(specifiers.filter_map(key_picker()));
}

/// What to group by and what to unwind first.
#[derive(Clone, Debug, PartialEq, Eq)]
pub struct GroupSpec {
    pub unwinds: Vec<String>,
    pub keys: Vec<String>,
}

/// One stage of the counting pipeline.
#[derive(Clone, Debug, PartialEq, Eq)]
pub enum Stage {
    /// Replace each document by one copy per element of the list in
    /// `column`; a document without the column, or with an empty list, drops
    /// out.
    Unwind { column: String },
    /// Collapse the documents that agree on every column of `keys` into one
    /// group and count them.
    GroupCount { keys: Vec<String> },
    /// Order the groups by their count, greatest first.
    SortByCountDescending,
}

/// The model of a `Stage`.
pub enum StageView {
    Unwind { column: Seq<char> },
    GroupCount { keys: Seq<Seq<char>> },
    SortByCountDescending,
}

impl View for Stage {
    type V = StageView;

    open spec fn view(&self) -> StageView {
        match *self {
            Stage::Unwind { column } => StageView::Unwind { column: column@ },
            Stage::GroupCount { keys } => StageView::GroupCount { keys: texts(keys@) },
            Stage::SortByCountDescending => StageView::SortByCountDescending,
        }
    }
}

/// The models of a sequence of stages.
pub open spec fn stage_views(v: Seq<Stage>) -> Seq<StageView> {
    Seq::new(v.len(), |i: int| v[i]@)
}

/// One unwind stage per column, in order.
pub open spec fn unwind_stages(columns: Seq<Seq<char>>) -> Seq<StageView> {
    Seq::new(columns.len(), |i: int| StageView::Unwind { column: columns[i] })
}

/// The pipeline for a list of specifiers: the unwind stages, then the
/// grouping with its count, then the ordering by count.
pub open spec fn pipeline_of(specifiers: Seq<Seq<char>>) -> Seq<StageView> {
    unwind_stages(unwinds_of(specifiers)) + seq![
        StageView::GroupCount { keys: keys_of(specifiers) },
        StageView::SortByCountDescending,
    ]
}

/// A pipeline unwinds first, then groups, then orders: every stage but the
/// last two is an unwind stage, the last but one is the grouping and the
/// last is the ordering.
pub proof fn lemma_pipeline_order(specifiers: Seq<Seq<char>>)
    ensures
        pipeline_of(specifiers).len() == unwinds_of(specifiers).len() + 2,
        forall|i: int|
            0 <= i < unwinds_of(specifiers).len() ==> #[trigger] pipeline_of(specifiers)[i]
                == (StageView::Unwind { column: unwinds_of(specifiers)[i] }),
        pipeline_of(specifiers)[pipeline_of(specifiers).len() - 2] == (StageView::GroupCount {
            keys: keys_of(specifiers),
        }),
        pipeline_of(specifiers).last() == StageView::SortByCountDescending,
{
}

/// The path by which the store addresses a column inside a pipeline.
pub open spec fn path_of(column: Seq<char>) -> Seq<char> {
    seq!['$'] + column
}

/// The path by which the store addresses `column` inside a pipeline.
pub fn column_path(column: &str) -> (path: String)
    ensures
        path@ == path_of(column@),
{
    let mut path = String::new();
    path.push('$');
    path.append(column);
    assert(path@ == path_of(column@));
    path
}

/// Whether `names` holds `name`.
fn holds(names: &Vec<String>, name: &str) -> (found: bool)
    ensures
        found == texts(names@).contains(name@),
{
    let mut i: usize = 0;
    while i < names.len()
        invariant
            i <= names.len(),
            forall|j: int| 0 <= j < i ==> texts(names@)[j] != name@,
        decreases names.len() - i,
    {
        if same_text(names[i].as_str(), name) {
            assert(texts(names@)[i as int] == name@);
            return true;
        }
        i = i + 1;
    }
    false
}

/// Reads a list of column specifiers: drops the empty ones, strips the
/// unwind marker and notes which columns carried it.
pub fn read_specifiers(specifiers: &Vec<String>) -> (spec: GroupSpec)
    ensures
        texts(spec.unwinds@) == unwinds_of(texts(specifiers@)),
        texts(spec.keys@) == keys_of(texts(specifiers@)),
{
    let mut unwinds: Vec<String> = Vec::new();
    let mut keys: Vec<String> = Vec::new();
    let ghost all = texts(specifiers@);
    let marker = chars_of("unwind:");
    proof {
        reveal_strlit("unwind:");
        assert(marker@ =~= unwind_marker());
    }
    let mut i: usize = 0;
    while i < specifiers.len()
        invariant
            i <= specifiers.len(),
            all == texts(specifiers@),
            marker@ == unwind_marker(),
            texts(unwinds@) == unwinds_of(all.take(i as int)),
            texts(keys@) == keys_of(all.take(i as int)),
        decreases specifiers.len() - i,
    {
        let ghost had_unwinds = texts(unwinds@);
        let ghost had_keys = texts(keys@);
        let ghost named = all.take(i as int).filter_map(key_picker());
        proof {
            all.lemma_filter_map_take_succ(unwind_picker(), i as int);
            all.lemma_filter_map_take_succ(key_picker(), i as int);
            assert(all[i as int] == specifiers@[i as int]@);
            assert(had_unwinds + Seq::<Seq<char>>::empty() == had_unwinds);
            assert(named + Seq::<Seq<char>>::empty() == named);
        }
        let chars = chars_of(specifiers[i].as_str());
        if chars.len() > 0 {
            let is_marked = starts_with(&chars, &marker);
            let name = if is_marked {
                string_of_range(&chars, 7, chars.len())
            } else {
                specifiers[i].clone()
            };
            proof {
                let grown = named + seq![name@];
                assert(grown.drop_last() == named);
                assert(grown.last() == name@);
            }
            if is_marked {
                unwinds.push(name.clone());
                assert(texts(unwinds@) == had_unwinds + seq![name@]);
            }
            if !holds(&keys, name.as_str()) {
                keys.push(name);
                assert(texts(keys@) == had_keys.push(name@));
            }
        }
        i = i + 1;
    }
    proof {
        assert(all.take(specifiers.len() as int) == all);
    }
    GroupSpec { unwinds, keys }
}

/// Whether `chars` begins with `prefix`.
fn starts_with(chars: &Vec<char>, prefix: &Vec<char>) -> (b: bool)
    ensures
        b == (chars@.len() >= prefix@.len() && chars@.take(prefix@.len() as int) == prefix@),
{
    if chars.len() < prefix.len() {
        return false;
    }
    let mut i: usize = 0;
    while i < prefix.len()
        invariant
            i <= prefix.len() <= chars.len(),
            chars@.take(i as int) == prefix@.take(i as int),
        decreases prefix.len() - i,
    {
        if chars[i] != prefix[i] {
            assert(chars@.take(prefix@.len() as int)[i as int] != prefix@[i as int]);
            return false;
        }
        assert(chars@.take(i + 1) == chars@.take(i as int).push(chars@[i as int]));
        assert(prefix@.take(i + 1) == prefix@.take(i as int).push(prefix@[i as int]));
        i = i + 1;
    }
    assert(prefix@.take(prefix@.len() as int) == prefix@);
    true
}

/// Builds the counting pipeline for a list of column specifiers.
pub fn build_pipeline(specifiers: &Vec<String>) -> (pipeline: Vec<Stage>)
    ensures
        stage_views(pipeline@) == pipeline_of(texts(specifiers@)),
{
    let spec = read_specifiers(specifiers);
    let GroupSpec { unwinds, keys } = spec;
    let mut pipeline: Vec<Stage> = Vec::new();
    let mut i: usize = 0;
    while i < unwinds.len()
        invariant
            i <= unwinds.len(),
            pipeline.len() == i,
            forall|j: int|
                0 <= j < i ==> pipeline@[j]@ == (StageView::Unwind {
                    column: #[trigger] unwinds@[j]@,
                }),
        decreases unwinds.len() - i,
    {
        pipeline.push(Stage::Unwind { column: unwinds[i].clone() });
        i = i + 1;
    }
    pipeline.push(Stage::GroupCount { keys });
    pipeline.push(Stage::SortByCountDescending);
    assert(stage_views(pipeline@) =~= pipeline_of(texts(specifiers@)));
    pipeline
}

} // verus!
