//! Leading-comment lookup, side-effect annotation detection, and comment
//! re-emission. A comment is an annotation when its body contains one of four
//! fixed marker strings; it qualifies as leading for a node when only ASCII
//! whitespace separates it from the node's start.

use vstd::prelude::*;
use vstd::string::StrSliceExecFns;
use vstd::string::StringExecFns;
use crate::codegen::{
    app_code, print_indent_s, soft_space_s, take_moved_s, Codegen, CodegenState,
};
use crate::comments::{
    comment_in_source, comment_real_end, leading_comment_of, lemma_leading_comment_member,
    wf_comments, Comment, CommentKind, CommentsModel,
};

verus! {

/// `needle` occurs contiguously somewhere in `hay`.
pub open spec fn contains_seq(hay: Seq<char>, needle: Seq<char>) -> bool {
    exists|i: int|
        0 <= i && i + needle.len() <= hay.len() && #[trigger] hay.subrange(i, i + needle.len())
            == needle
}

/// The four marker strings that make a comment a side-effect annotation.
pub open spec fn annotation_patterns() -> Seq<Seq<char>> {
    seq!["#__NO_SIDE_EFFECTS__"@, "@__NO_SIDE_EFFECTS__"@, "@__PURE__"@, "#__PURE__"@]
}

/// A comment body that contains one of the four annotation markers.
pub open spec fn is_annotation_comment(content: Seq<char>) -> bool {
    exists|k: int|
        0 <= k < annotation_patterns().len() && contains_seq(content, annotation_patterns()[k])
}

/// Relies on `daachorse::DoubleArrayAhoCorasick::new` and `find_iter`: the
/// automaton built over the patterns reports a match exactly when some
/// pattern occurs as a substring of the haystack. The construction fails only
/// on an empty, duplicated or oversized pattern set, which the precondition
/// rules out; the patterns are ASCII, so the byte-level match positions
/// coincide with character positions.
#[verifier::external_body]
fn find_any_pattern(patterns: &Vec<String>, haystack: &str) -> (r: bool)
    requires
        0 < patterns@.len() <= 16,
        forall|k: int| 0 <= k < patterns@.len() ==> 0 < (#[trigger] patterns@[k])@.len() <= 64,
        forall|k: int|
            0 <= k < patterns@.len() ==> vstd::utf8::is_ascii_chars((#[trigger] patterns@[k])@),
        forall|k1: int, k2: int|
            0 <= k1 < k2 < patterns@.len() ==> patterns@[k1]@ != patterns@[k2]@,
    ensures
        r == (exists|k: int| 0 <= k < patterns@.len() && contains_seq(haystack@, patterns@[k]@)),
{
    let pma: daachorse::DoubleArrayAhoCorasick<usize> = daachorse::DoubleArrayAhoCorasick::new(
        patterns.iter().map(|p| p.as_str()),
    ).unwrap();
    pma.find_iter(haystack).next().is_some()
}

/// The annotation markers as runtime strings, in the order of
/// [`annotation_patterns`].
fn annotation_pattern_list() -> (v: Vec<String>)
    ensures
        v@.len() == annotation_patterns().len(),
        forall|k: int| 0 <= k < v@.len() ==> (#[trigger] v@[k])@ == annotation_patterns()[k],
        forall|k: int| 0 <= k < v@.len() ==> 0 < (#[trigger] v@[k])@.len() <= 64,
        forall|k: int| 0 <= k < v@.len() ==> vstd::utf8::is_ascii_chars((#[trigger] v@[k])@),
        forall|k1: int, k2: int| 0 <= k1 < k2 < v@.len() ==> v@[k1]@ != v@[k2]@,
{
    proof {
        reveal_strlit("#__NO_SIDE_EFFECTS__");
        reveal_strlit("@__NO_SIDE_EFFECTS__");
        reveal_strlit("@__PURE__");
        reveal_strlit("#__PURE__");
    }
    let mut v: Vec<String> = Vec::new();
    v.push(String::from_str("#__NO_SIDE_EFFECTS__"));
    v.push(String::from_str("@__NO_SIDE_EFFECTS__"));
    v.push(String::from_str("@__PURE__"));
    v.push(String::from_str("#__PURE__"));
    proof {
        let s0 = "#__NO_SIDE_EFFECTS__"@;
        let s1 = "@__NO_SIDE_EFFECTS__"@;
        let s2 = "@__PURE__"@;
        let s3 = "#__PURE__"@;
        assert(v@.len() == 4);
        assert(v@[0]@ == s0 && v@[1]@ == s1 && v@[2]@ == s2 && v@[3]@ == s3);
        assert(s0[0] != s1[0] && s0 != s1);
        assert(s2[0] != s3[0] && s2 != s3);
        assert(s0.len() != s2.len() && s0 != s2 && s0 != s3 && s1 != s2 && s1 != s3);
    }
    v
}

/// ASCII whitespace: space, tab, newline, carriage return or form feed.
pub open spec fn ascii_whitespace(c: char) -> bool {
    c == ' ' || c == '\t' || c == '\n' || c == '\r' || c == '\u{c}'
}

fn is_ascii_whitespace_exec(c: char) -> (r: bool)
    ensures
        r == ascii_whitespace(c),
{
    c == ' ' || c == '\t' || c == '\n' || c == '\r' || c == '\u{c}'
}

/// The leading annotation comment of the node starting at `node_start`, if
/// any: the nearest comment before the node, not registered for relocation,
/// separated from the node by ASCII whitespace alone, whose body contains an
/// annotation marker.
pub open spec fn leading_annotate_comment_s(st: CodegenState, node_start: u32) -> Option<
    (u32, Comment),
> {
    match st.comments {
        None => None,
        Some(cm) => match leading_comment_of(cm.trivials, node_start) {
            None => None,
            Some(pair) => {
                if cm.relocated.contains(pair.0) {
                    None
                } else if comment_real_end(pair.1) <= node_start && node_start <= cm.source.len()
                    && (forall|i: int|
                    comment_real_end(pair.1) <= i < node_start ==> ascii_whitespace(
                        #[trigger] cm.source[i],
                    )) && is_annotation_comment(
                    cm.source.subrange(pair.0 as int, pair.1.end as int),
                ) {
                    Some(pair)
                } else {
                    None
                }
            },
        },
    }
}

proof fn lemma_annotation_equiv(pats: Seq<String>, hay: Seq<char>)
    requires
        pats.len() == annotation_patterns().len(),
        forall|k: int| 0 <= k < pats.len() ==> (#[trigger] pats[k])@ == annotation_patterns()[k],
    ensures
        (exists|k: int| 0 <= k < pats.len() && contains_seq(hay, pats[k]@)) == is_annotation_comment(
            hay,
        ),
{
    if exists|k: int| 0 <= k < pats.len() && contains_seq(hay, pats[k]@) {
        let k = choose|k: int| 0 <= k < pats.len() && contains_seq(hay, pats[k]@);
        assert(contains_seq(hay, annotation_patterns()[k]));
    }
    if is_annotation_comment(hay) {
        let k = choose|k: int|
            0 <= k < annotation_patterns().len() && contains_seq(hay, annotation_patterns()[k]);
        assert(contains_seq(hay, pats[k]@));
    }
}

/// Find the annotation comment leading the node that starts at `node_start`.
pub fn get_leading_annotate_comment(node_start: u32, codegen: &Codegen) -> (r: Option<
    (u32, Comment),
>)
    requires
        match codegen@.comments {
            Some(cm) => wf_comments(cm),
            None => true,
        },
    ensures
        r == leading_annotate_comment_s(codegen@, node_start),
{
    let pair = match codegen.try_get_leading_comment(node_start) {
        Some(p) => p,
        None => {
            return None;
        },
    };
    proof {
        let cm = codegen@.comments->0;
        lemma_leading_comment_member(cm.trivials, node_start);
        let i = choose|i: int| 0 <= i < cm.trivials.len() && cm.trivials[i] == pair;
        assert(comment_in_source(cm.trivials[i].0, cm.trivials[i].1, cm.source));
        assert(comment_in_source(pair.0, pair.1, cm.source));
    }
    if codegen.is_relocated(pair.0) {
        return None;
    }
    let comment_start = pair.0;
    let comment = pair.1;
    let real_end: u32 = match comment.kind {
        CommentKind::SingleLine => comment.end,
        CommentKind::MultiLine => comment.end + 2,
    };
    let source = match codegen.try_get_sourcecode() {
        Some(s) => s,
        None => {
            return None;
        },
    };
    let slen = source.unicode_len();
    if !(real_end as usize <= node_start as usize && node_start as usize <= slen) {
        return None;
    }
    let mut i: usize = real_end as usize;
    while i < node_start as usize
        invariant
            real_end <= i <= node_start,
            node_start <= source@.len(),
            codegen@.comments is Some,
            source@ == codegen@.comments->0.source,
            leading_comment_of(codegen@.comments->0.trivials, node_start) == Some(pair),
            !codegen@.comments->0.relocated.contains(pair.0),
            comment_start == pair.0,
            comment == pair.1,
            real_end == comment_real_end(pair.1),
            comment_start <= comment.end && comment.end <= source@.len(),
            forall|j: int| real_end <= j < i ==> ascii_whitespace(#[trigger] source@[j]),
        decreases node_start - i,
    {
        let c = source.get_char(i);
        if !is_ascii_whitespace_exec(c) {
            proof {
                assert(!ascii_whitespace(codegen@.comments->0.source[i as int]));
            }
            return None;
        }
        i = i + 1;
    }
    let content = source.substring_char(comment_start as usize, comment.end as usize);
    let pats = annotation_pattern_list();
    let found = find_any_pattern(&pats, content);
    proof {
        lemma_annotation_equiv(pats@, content@);
    }
    if found {
        Some(pair)
    } else {
        None
    }
}

/// Transition and result of `print_comment`: the comment's original body
/// between its delimiters. A single-line comment is closed by an
/// unconditional newline and re-indentation; a multi-line one by a soft
/// space.
pub open spec fn print_comment_s(st: CodegenState, cs: u32, c: Comment) -> (CodegenState, Option<
    (),
>) {
    match st.comments {
        None => (st, None),
        Some(cm) => {
            let content = cm.source.subrange(cs as int, c.end as int);
            match c.kind {
                CommentKind::SingleLine => (
                    print_indent_s(app_code(st, seq!['/', '/'] + content + seq!['\n'])),
                    Some(()),
                ),
                CommentKind::MultiLine => (
                    soft_space_s(app_code(st, seq!['/', '*'] + content + seq!['*', '/'])),
                    Some(()),
                ),
            }
        },
    }
}

/// Re-emit the comment that starts at `comment_start` exactly as it stands in
/// the source. A single-line comment forces a newline in either mode (or what
/// follows would be swallowed into the comment) plus re-indentation; a
/// multi-line comment is followed by a soft space.
pub fn print_comment(comment_start: u32, comment: Comment, p: &mut Codegen) -> (r: Option<()>)
    requires
        match old(p)@.comments {
            Some(cm) => comment_start <= comment.end && comment.end <= cm.source.len(),
            None => true,
        },
    ensures
        final(p)@ == print_comment_s(old(p)@, comment_start, comment).0,
        r == print_comment_s(old(p)@, comment_start, comment).1,
{
    let content: String = match p.try_get_sourcecode() {
        Some(s) => s.substring_char(comment_start as usize, comment.end as usize).to_owned(),
        None => {
            return None;
        },
    };
    match comment.kind {
        CommentKind::SingleLine => {
            p.print('/');
            p.print('/');
            p.print_str(content.as_str());
            p.print('\n');
            p.print_indent();
            proof {
                assert(p@ =~~= print_comment_s(old(p)@, comment_start, comment).0);
            }
        },
        CommentKind::MultiLine => {
            p.print('/');
            p.print('*');
            p.print_str(content.as_str());
            p.print('*');
            p.print('/');
            p.print_soft_space();
            proof {
                assert(p@ =~~= print_comment_s(old(p)@, comment_start, comment).0);
            }
        },
    }
    Some(())
}

/// Transition of `gen_comment`: with annotation preservation on, first any
/// relocated comment registered for this position (consuming the
/// registration), then the natural leading annotation comment.
pub open spec fn gen_comment_s(st: CodegenState, node_start: u32) -> CodegenState {
    if !st.preserve_annotate_comments {
        st
    } else {
        let taken = take_moved_s(st, node_start);
        let st1 = match taken.1 {
            Some(pair) => print_comment_s(taken.0, pair.0, pair.1).0,
            None => taken.0,
        };
        match leading_annotate_comment_s(st1, node_start) {
            Some(pair) => print_comment_s(st1, pair.0, pair.1).0,
            None => st1,
        }
    }
}

/// Emit the comments owed at node position `node_start`: a consumed
/// relocation first, then a qualifying natural leading annotation comment.
pub fn gen_comment(node_start: u32, codegen: &mut Codegen) -> (r: Option<()>)
    requires
        match old(codegen)@.comments {
            Some(cm) => wf_comments(cm),
            None => true,
        },
    ensures
        final(codegen)@ == gen_comment_s(old(codegen)@, node_start),
        r == Some(()),
        match final(codegen)@.comments {
            Some(cm) => wf_comments(cm),
            None => true,
        },
{
    if !codegen.options.preserve_annotate_comments {
        return Some(());
    }
    if let Some(pair) = codegen.try_take_moved_comment(node_start) {
        proof {
            let cm = old(codegen)@.comments->0;
            assert(comment_in_source(cm.moved[node_start].0, cm.moved[node_start].1, cm.source));
            let cm2 = codegen@.comments->0;
            assert forall|k: u32| cm2.moved.contains_key(k) implies comment_in_source(
                (#[trigger] cm2.moved[k]).0,
                cm2.moved[k].1,
                cm2.source,
            ) by {
                assert(cm.moved.contains_key(k));
                assert(cm2.moved[k] == cm.moved[k]);
            }
            assert(wf_comments(cm2));
        }
        print_comment(pair.0, pair.1, codegen);
    }
    proof {
        match codegen@.comments {
            Some(cm2) => {
                assert(wf_comments(cm2));
            },
            None => {},
        }
    }
    let maybe_leading = get_leading_annotate_comment(node_start, codegen);
    if let Some(pair) = maybe_leading {
        proof {
            let cm = codegen@.comments->0;
            lemma_leading_comment_member(cm.trivials, node_start);
            let i = choose|i: int| 0 <= i < cm.trivials.len() && cm.trivials[i] == pair;
            assert(comment_in_source(cm.trivials[i].0, cm.trivials[i].1, cm.source));
        }
        print_comment(pair.0, pair.1, codegen);
    }
    Some(())
}

} // verus!
