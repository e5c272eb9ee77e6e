//! Comment metadata handed to the printer by its caller: the original source
//! text, an ordered side table of comments, and the relocation table for
//! comments that must print at another node's position.

use vstd::prelude::*;
use std::collections::HashMap;

verus! {

#[derive(Clone, Copy, PartialEq, Eq, Structural, Debug)]
pub enum CommentKind {
    SingleLine,
    MultiLine,
}

/// One comment record: the end offset of its body in the source text and its
/// kind. Its start offset is the key under which it is stored.
#[derive(Clone, Copy, PartialEq, Eq, Structural, Debug)]
pub struct Comment {
    pub end: u32,
    pub kind: CommentKind,
}

/// Comment metadata attached to the printer at construction.
pub struct CommentGenRelated {
    /// Comment records keyed by body start offset, ascending by key.
    pub trivials: Vec<(u32, Comment)>,
    /// The text the tree was parsed from; offsets index into it by character.
    pub source_code: String,
    /// The key is a node start position; the value is the start of the
    /// comment to print there, with its record.
    pub move_comment_map: HashMap<u32, (u32, Comment)>,
    /// Start offsets of comments ever registered for relocation: these no
    /// longer qualify as natural leading comments.
    pub relocated: Vec<u32>,
}

/// Mathematical model of the comment metadata.
#[verifier::ext_equal]
pub struct CommentsModel {
    pub trivials: Seq<(u32, Comment)>,
    pub source: Seq<char>,
    pub moved: Map<u32, (u32, Comment)>,
    pub relocated: Seq<u32>,
}

impl View for CommentGenRelated {
    type V = CommentsModel;

    open spec fn view(&self) -> CommentsModel {
        CommentsModel {
            trivials: self.trivials@,
            source: self.source_code@,
            moved: self.move_comment_map@,
            relocated: self.relocated@,
        }
    }
}

/// The nearest comment before `start`: the last table entry whose key is
/// strictly below `start`.
pub open spec fn leading_comment_of(trivials: Seq<(u32, Comment)>, start: u32) -> Option<
    (u32, Comment),
>
    decreases trivials.len(),
{
    if trivials.len() == 0 {
        None
    } else if trivials.last().0 < start {
        Some(trivials.last())
    } else {
        leading_comment_of(trivials.drop_last(), start)
    }
}

/// What `leading_comment_of` returns is an entry of the table, and its start
/// lies strictly before the node.
pub proof fn lemma_leading_comment_member(tr: Seq<(u32, Comment)>, start: u32)
    ensures
        match leading_comment_of(tr, start) {
            Some(p) => tr.contains(p) && p.0 < start,
            None => true,
        },
    decreases tr.len(),
{
    if tr.len() > 0 {
        if tr.last().0 < start {
            assert(tr[tr.len() - 1] == tr.last());
            assert(tr.contains(tr.last()));
        } else {
            lemma_leading_comment_member(tr.drop_last(), start);
            match leading_comment_of(tr.drop_last(), start) {
                Some(p) => {
                    let i = choose|i: int|
                        0 <= i < tr.drop_last().len() && tr.drop_last()[i] == p;
                    assert(tr[i] == p);
                    assert(tr.contains(p));
                },
                None => {},
            }
        }
    }
}

/// Where a comment's text really ends in the source: a multi-line comment's
/// recorded end excludes its two-character closer; a single-line comment ends
/// where its record says.
pub open spec fn comment_real_end(c: Comment) -> int {
    match c.kind {
        CommentKind::SingleLine => c.end as int,
        CommentKind::MultiLine => c.end + 2,
    }
}

/// Offsets into the source that a comment record occupies stay inside it, so
/// that slicing the source at them cannot fail.
pub open spec fn comment_in_source(start: u32, c: Comment, source: Seq<char>) -> bool {
    &&& start <= c.end
    &&& comment_real_end(c) <= source.len()
    &&& comment_real_end(c) <= u32::MAX
}

/// Every table entry lies inside the source and the table is ordered by
/// strictly ascending start offset.
pub open spec fn wf_comments(m: CommentsModel) -> bool {
    &&& forall|i: int|
        0 <= i < m.trivials.len() ==> comment_in_source(
            #[trigger] m.trivials[i].0,
            m.trivials[i].1,
            m.source,
        )
    &&& forall|i: int, j: int|
        0 <= i < j < m.trivials.len() ==> #[trigger] m.trivials[i].0 < #[trigger] m.trivials[j].0
    &&& forall|k: u32|
        m.moved.contains_key(k) ==> comment_in_source(
            (#[trigger] m.moved[k]).0,
            m.moved[k].1,
            m.source,
        )
}

impl CommentGenRelated {
    /// Build the metadata from an ordered comment table and the source text.
    pub fn new(trivials: Vec<(u32, Comment)>, source_code: String) -> (r: CommentGenRelated)
        ensures
            r@.trivials == trivials@,
            r@.source == source_code@,
            r@.moved == Map::<u32, (u32, Comment)>::empty(),
            r@.relocated == Seq::<u32>::empty(),
    {
        broadcast use vstd::std_specs::hash::group_hash_axioms;

        let m: HashMap<u32, (u32, Comment)> = HashMap::new();
        CommentGenRelated { trivials, source_code, move_comment_map: m, relocated: Vec::new() }
    }
}

} // verus!
