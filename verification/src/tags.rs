//! Tag expressions: a white-space-delimited list of tags, each required,
//! optional (`?tag`) or excluded (`-tag`).

use crate::text::{chars_of, split_whitespace, string_of_range, texts, tokens};
use vstd::prelude::*;

verus! {

/// The sigil in front of an optional tag.
pub const OPTIONAL_SIGIL: char = '?';

/// The sigil in front of an excluded tag.
pub const EXCLUDED_SIGIL: char = '-';

/// The bucket that a token falls into.
#[derive(Clone, Copy, Debug, PartialEq, Eq, Structural)]
pub enum Bucket {
    Required,
    Optional,
    Excluded,
}

/// The bucket of `token` by its first character.
pub open spec fn bucket_of(token: Seq<char>) -> Bucket {
    if token.len() > 0 && token[0] == OPTIONAL_SIGIL {
        Bucket::Optional
    } else if token.len() > 0 && token[0] == EXCLUDED_SIGIL {
        Bucket::Excluded
    } else {
        Bucket::Required
    }
}

/// The tag that `token` contributes to `bucket`, if any: the whole token
/// where it is required, the rest behind the sigil otherwise, and nothing
/// where that rest is empty or the token belongs to another bucket.
pub open spec fn tag_for(bucket: Bucket, token: Seq<char>) -> Option<Seq<char>> {
    if bucket_of(token) != bucket {
        None
    } else if bucket == Bucket::Required {
        Some(token)
    } else if token.len() > 1 {
        Some(token.skip(1))
    } else {
        None
    }
}

/// `tag_for` with its bucket fixed.
pub open spec fn picker(bucket: Bucket) -> spec_fn(Seq<char>) -> Option<Seq<char>> {
    |token: Seq<char>| tag_for(bucket, token)
}

/// The tags that the tokens contribute to `bucket`, in the order given.
pub open spec fn tags_for(bucket: Bucket, tokens: Seq<Seq<char>>) -> Seq<Seq<char>> {
    tokens.filter_map(picker(bucket))
}

/// A sigil with nothing behind it.
pub open spec fn bare_sigil(token: Seq<char>) -> bool {
    token.len() == 1 && (token[0] == OPTIONAL_SIGIL || token[0] == EXCLUDED_SIGIL)
}

/// The buckets are disjoint: a token contributes to no bucket but the one
/// that its first character names, and to that one unless it is a bare
/// sigil.
pub proof fn lemma_one_bucket(token: Seq<char>, bucket: Bucket)
    ensures
        bucket != bucket_of(token) ==> tag_for(bucket, token) is None,
        tag_for(bucket_of(token), token) is None <==> bare_sigil(token),
{
}

/// Which tags a document must hold all of, at least one of, and none of.
#[derive(Clone, Debug, PartialEq, Eq)]
pub struct TagExpression {
    pub required: Vec<String>,
    pub optional: Vec<String>,
    pub excluded: Vec<String>,
}

/// The model of a `TagExpression`.
pub struct TagExpressionView {
    pub required: Seq<Seq<char>>,
    pub optional: Seq<Seq<char>>,
    pub excluded: Seq<Seq<char>>,
}

impl View for TagExpression {
    type V = TagExpressionView;

    open spec fn view(&self) -> TagExpressionView {
        TagExpressionView {
            required: texts(self.required@),
            optional: texts(self.optional@),
            excluded: texts(self.excluded@),
        }
    }
}

/// The tag expression that `value` spells.
pub open spec fn tag_expression(value: Seq<char>) -> TagExpressionView {
    TagExpressionView {
        required: tags_for(Bucket::Required, tokens(value)),
        optional: tags_for(Bucket::Optional, tokens(value)),
        excluded: tags_for(Bucket::Excluded, tokens(value)),
    }
}

impl TagExpression {
    /// No bucket holds a tag.
    pub open spec fn spec_is_empty(&self) -> bool {
        self@.required.len() == 0 && self@.optional.len() == 0 && self@.excluded.len() == 0
    }

    /// Whether no bucket holds a tag, so that the expression constrains
    /// nothing.
    #[verifier::when_used_as_spec(spec_is_empty)]
    pub fn is_empty(&self) -> (b: bool)
        ensures
            b == self.spec_is_empty(),
    {
        self.required.len() == 0 && self.optional.len() == 0 && self.excluded.len() == 0
    }
}

/// Parses a tag filter value into its three buckets.
pub fn parse_tags(value: &str) -> (expr: TagExpression)
    ensures
        expr@ == tag_expression(value@),
{
    let words = split_whitespace(value);
    let mut required: Vec<String> = Vec::new();
    let mut optional: Vec<String> = Vec::new();
    let mut excluded: Vec<String> = Vec::new();
    let ghost all = texts(words@);
    let mut i: usize = 0;
    while i < words.len()
        invariant
            i <= words.len(),
            all == texts(words@),
            texts(required@) == tags_for(Bucket::Required, all.take(i as int)),
            texts(optional@) == tags_for(Bucket::Optional, all.take(i as int)),
            texts(excluded@) == tags_for(Bucket::Excluded, all.take(i as int)),
        decreases words.len() - i,
    {
        let ghost req = texts(required@);
        let ghost opt = texts(optional@);
        let ghost exc = texts(excluded@);
        proof {
            all.lemma_filter_map_take_succ(picker(Bucket::Required), i as int);
            all.lemma_filter_map_take_succ(picker(Bucket::Optional), i as int);
            all.lemma_filter_map_take_succ(picker(Bucket::Excluded), i as int);
            assert(all[i as int] == words@[i as int]@);
        }
        let token = chars_of(words[i].as_str());
        if token.len() > 0 && token[0] == OPTIONAL_SIGIL {
            if token.len() > 1 {
                optional.push(string_of_range(&token, 1, token.len()));
                assert(texts(optional@) == opt + seq![token@.skip(1)]);
            }
        } else if token.len() > 0 && token[0] == EXCLUDED_SIGIL {
            if token.len() > 1 {
                excluded.push(string_of_range(&token, 1, token.len()));
                assert(texts(excluded@) == exc + seq![token@.skip(1)]);
            }
        } else {
            required.push(words[i].clone());
            assert(texts(required@) == req + seq![token@]);
        }
        proof {
            assert(req + Seq::<Seq<char>>::empty() == req);
            assert(opt + Seq::<Seq<char>>::empty() == opt);
            assert(exc + Seq::<Seq<char>>::empty() == exc);
        }
        i = i + 1;
    }
    proof {
        assert(all.take(words.len() as int) == all);
    }
    TagExpression { required, optional, excluded }
}

} // verus!
