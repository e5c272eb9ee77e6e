//! The printer core: the output buffer, the mode flag, indentation, the
//! last-token memory used for token-adjacency disambiguation, and the
//! deferred-semicolon bookkeeping that keeps minified output safe under
//! automatic semicolon insertion.
//!
//! Every mutating helper is specified against a pure transition function on
//! [`CodegenState`], the mathematical model of the printer.

use vstd::prelude::*;
use vstd::string::StrSliceExecFns;
use crate::comments::{Comment, CommentGenRelated, CommentsModel, leading_comment_of};
use crate::operator::{BinaryOperator, Operator, UnaryOperator, UpdateOperator};
use crate::quote::{chosen_quote, escape_with, lemma_escape_take_step, choose_quote};

verus! {

broadcast use vstd::std_specs::hash::group_hash_axioms;

/// Configuration recognized by the printer.
#[derive(Debug, Default, Clone, Copy)]
pub struct CodegenOptions {
    /// When false, TypeScript-only declarations (except enums) are omitted.
    pub enable_typescript: bool,
    /// When true, annotation comments are looked up and re-emitted.
    pub preserve_annotate_comments: bool,
}

/// Separator written after the items of a printed sequence.
#[derive(Debug, Clone, Copy)]
pub enum Separator {
    Comma,
    Semicolon,
    Nothing,
}

/// Mathematical model of one print pass: the printer's entire mutable state.
#[verifier::ext_equal]
pub struct CodegenState {
    pub minify: bool,
    pub enable_typescript: bool,
    pub preserve_annotate_comments: bool,
    pub code: Seq<char>,
    pub needs_semicolon: bool,
    pub prev_op: Option<Operator>,
    pub prev_op_end: int,
    pub prev_reg_exp_end: int,
    pub need_space_before_dot: int,
    pub start_of_stmt: int,
    pub start_of_arrow_expr: int,
    pub start_of_default_export: int,
    pub indentation: int,
    pub comments: Option<CommentsModel>,
}

/// The printer core. One instance drives one print pass; it owns the output
/// buffer and all adjacency/terminator bookkeeping.
pub struct Codegen {
    pub options: CodegenOptions,
    /// Whitespace-minimal output when true, human-readable output when false.
    pub minify: bool,
    /// Output code, built up one character at a time.
    pub code: Vec<char>,
    /// For avoiding `;` if the previous statement ends with `}`.
    pub needs_semicolon: bool,
    pub prev_op: Option<Operator>,
    pub prev_op_end: usize,
    pub prev_reg_exp_end: usize,
    pub need_space_before_dot: usize,
    pub start_of_stmt: usize,
    pub start_of_arrow_expr: usize,
    pub start_of_default_export: usize,
    /// Track the current indentation level.
    pub indentation: usize,
    pub comment_gen_related: Option<CommentGenRelated>,
}

impl View for Codegen {
    type V = CodegenState;

    open spec fn view(&self) -> CodegenState {
        CodegenState {
            minify: self.minify,
            enable_typescript: self.options.enable_typescript,
            preserve_annotate_comments: self.options.preserve_annotate_comments,
            code: self.code@,
            needs_semicolon: self.needs_semicolon,
            prev_op: self.prev_op,
            prev_op_end: self.prev_op_end as int,
            prev_reg_exp_end: self.prev_reg_exp_end as int,
            need_space_before_dot: self.need_space_before_dot as int,
            start_of_stmt: self.start_of_stmt as int,
            start_of_arrow_expr: self.start_of_arrow_expr as int,
            start_of_default_export: self.start_of_default_export as int,
            indentation: self.indentation as int,
            comments: match self.comment_gen_related {
                Some(ref c) => Some(c@),
                None => None,
            },
        }
    }
}

/// Whether `c` may continue an identifier, as the tree's language defines it.
/// The exact Unicode extent is fixed by the lexical grammar; it is pinned on
/// ASCII by [`ascii_identifier_part`].
pub uninterp spec fn identifier_part_char(c: char) -> bool;

/// On ASCII, an identifier-continuation character is a letter, a digit, `_`
/// or `$`.
pub open spec fn ascii_identifier_part(c: char) -> bool {
    ||| ('a' as u32) <= (c as u32) && (c as u32) <= ('z' as u32)
    ||| ('A' as u32) <= (c as u32) && (c as u32) <= ('Z' as u32)
    ||| ('0' as u32) <= (c as u32) && (c as u32) <= ('9' as u32)
    ||| c == '_'
    ||| c == '$'
}

/// Relies on `oxc_syntax::identifier::is_identifier_part`: whether `c` may
/// continue an identifier. Its source answers by a fixed ASCII table
/// (alphanumeric, `_`, `$`) below 128 and by the Unicode tables above.
#[verifier::external_body]
pub(crate) fn is_identifier_part_exec(c: char) -> (r: bool)
    ensures
        r == identifier_part_char(c),
        (c as u32) < 128 ==> r == ascii_identifier_part(c),
{
    oxc_syntax::identifier::is_identifier_part(c)
}

/// Relies on `String::from_iter`: the returned string holds exactly the given
/// characters in order.
#[verifier::external_body]
fn chars_to_string(v: &Vec<char>) -> (s: String)
    ensures
        s@ == v@,
{
    String::from_iter(v.iter().copied())
}

/// `st` with `s` appended to the output buffer; nothing else changes.
pub open spec fn app_code(st: CodegenState, s: Seq<char>) -> CodegenState {
    CodegenState { code: st.code + s, ..st }
}

/// Transition of `print`: push one character.
pub open spec fn print_s(st: CodegenState, c: char) -> CodegenState {
    app_code(st, seq![c])
}

/// Transition of `print_soft_space`: a space in pretty mode, nothing in
/// minified mode.
pub open spec fn soft_space_s(st: CodegenState) -> CodegenState {
    if st.minify {
        st
    } else {
        app_code(st, seq![' '])
    }
}

/// Transition of `print_soft_newline`.
pub open spec fn soft_newline_s(st: CodegenState) -> CodegenState {
    if st.minify {
        st
    } else {
        app_code(st, seq!['\n'])
    }
}

/// The character `n` positions back from the end of the buffer.
pub open spec fn peek_s(st: CodegenState, n: int) -> Option<char> {
    if n < st.code.len() {
        Some(st.code[st.code.len() - 1 - n])
    } else {
        None
    }
}

/// Transition of `print_space_before_identifier`: a hard space exactly when
/// the buffer ends in an identifier-continuation character or at the end of a
/// just-emitted regular-expression literal.
pub open spec fn space_before_identifier_s(st: CodegenState) -> CodegenState {
    if st.code.len() > 0 && (identifier_part_char(st.code.last()) || st.prev_reg_exp_end
        == st.code.len()) {
        app_code(st, seq![' '])
    } else {
        st
    }
}

/// Transition of `indent`.
pub open spec fn indent_s(st: CodegenState) -> CodegenState {
    if st.minify {
        st
    } else if st.indentation < usize::MAX {
        CodegenState { indentation: st.indentation + 1, ..st }
    } else {
        st
    }
}

/// Transition of `dedent`.
pub open spec fn dedent_s(st: CodegenState) -> CodegenState {
    if st.minify {
        st
    } else if st.indentation > 0 {
        CodegenState { indentation: st.indentation - 1, ..st }
    } else {
        st
    }
}

/// `n` tab characters.
pub open spec fn tab_seq(n: int) -> Seq<char> {
    Seq::new(if n >= 0 {
        n as nat
    } else {
        0
    }, |i: int| '\t')
}

/// Transition of `print_indent`: the current indentation as tabs, pretty
/// mode only.
pub open spec fn print_indent_s(st: CodegenState) -> CodegenState {
    if st.minify {
        st
    } else {
        app_code(st, tab_seq(st.indentation))
    }
}

/// Transition of `print_semicolon_after_statement`: defer the terminator in
/// minified mode, emit `;` and a newline eagerly in pretty mode.
pub open spec fn semicolon_after_statement_s(st: CodegenState) -> CodegenState {
    if st.minify {
        CodegenState { needs_semicolon: true, ..st }
    } else {
        app_code(st, seq![';', '\n'])
    }
}

/// Transition of `print_semicolon_if_needed`: flush an owed terminator.
pub open spec fn semicolon_if_needed_s(st: CodegenState) -> CodegenState {
    if st.needs_semicolon {
        CodegenState { needs_semicolon: false, ..app_code(st, seq![';']) }
    } else {
        st
    }
}

/// The fixed table of operator pairs whose lexemes would merge into a
/// different token if printed without an intervening space.
pub open spec fn adjacency_pair(prev: Operator, next: Operator) -> bool {
    ||| ((prev == Operator::Binary(BinaryOperator::Addition) || prev == Operator::Unary(
        UnaryOperator::UnaryPlus,
    )) && (next == Operator::Binary(BinaryOperator::Addition) || next == Operator::Unary(
        UnaryOperator::UnaryPlus,
    ) || next == Operator::Update(UpdateOperator::Increment)))
    ||| ((prev == Operator::Binary(BinaryOperator::Subtraction) || prev == Operator::Unary(
        UnaryOperator::UnaryNegation,
    )) && (next == Operator::Binary(BinaryOperator::Subtraction) || next == Operator::Unary(
        UnaryOperator::UnaryNegation,
    ) || next == Operator::Update(UpdateOperator::Decrement)))
    ||| (prev == Operator::Update(UpdateOperator::Decrement) && next == Operator::Binary(
        BinaryOperator::GreaterThan,
    ))
}

/// Transition of `print_space_before_operator`: a hard space always in pretty
/// mode; in minified mode only when the previous operator ends exactly at the
/// buffer's end and the pair is ambiguous.
pub open spec fn space_before_operator_s(st: CodegenState, next: Operator) -> CodegenState {
    if !st.minify {
        app_code(st, seq![' '])
    } else if st.prev_op_end != st.code.len() {
        st
    } else {
        match st.prev_op {
            None => st,
            Some(prev) => {
                if adjacency_pair(prev, next) || (prev == Operator::Unary(UnaryOperator::LogicalNot)
                    && next == Operator::Update(UpdateOperator::Decrement) && peek_s(st, 1) == Some(
                    '<',
                )) {
                    app_code(st, seq![' '])
                } else {
                    st
                }
            },
        }
    }
}

/// Transition of recording a just-printed operator for adjacency checks.
pub open spec fn set_prev_op_s(st: CodegenState, op: Operator) -> CodegenState {
    CodegenState { prev_op: Some(op), prev_op_end: st.code.len() as int, ..st }
}

/// Transition of `wrap_quote`: the chosen delimiter, the content with that
/// delimiter escaped, the delimiter again.
pub open spec fn wrap_quote_s(st: CodegenState, s: Seq<char>) -> CodegenState {
    app_code(st, seq![chosen_quote(s)] + escape_with(s, chosen_quote(s)) + seq![chosen_quote(s)])
}

/// Transition of `move_comment`: register a relocation.
pub open spec fn move_comment_s(st: CodegenState, position: u32, info: (u32, Comment)) -> CodegenState {
    match st.comments {
        None => st,
        Some(cm) => CodegenState {
            comments: Some(
                CommentsModel {
                    moved: cm.moved.insert(position, info),
                    relocated: cm.relocated.push(info.0),
                    ..cm
                },
            ),
            ..st
        },
    }
}

/// Transition and result of `try_take_moved_comment`: consume a registration
/// at most once.
pub open spec fn take_moved_s(st: CodegenState, node_start: u32) -> (CodegenState, Option<
    (u32, Comment),
>) {
    match st.comments {
        None => (st, None),
        Some(cm) => {
            if cm.moved.contains_key(node_start) {
                (
                    CodegenState {
                        comments: Some(CommentsModel { moved: cm.moved.remove(node_start), ..cm }),
                        ..st
                    },
                    Some(cm.moved[node_start]),
                )
            } else {
                (st, None)
            }
        },
    }
}

impl Codegen {
    /// Create a printer core with zeroed counters and an empty buffer,
    /// pre-sized from the source length (half of it in minified mode).
    pub fn new(
        source_len: usize,
        minify: bool,
        options: CodegenOptions,
        comment_gen_related: Option<CommentGenRelated>,
    ) -> (r: Codegen)
        ensures
            r@.minify == minify,
            r@.enable_typescript == options.enable_typescript,
            r@.preserve_annotate_comments == options.preserve_annotate_comments,
            r@.code == Seq::<char>::empty(),
            r@.needs_semicolon == false,
            r@.prev_op is None,
            r@.prev_op_end == 0,
            r@.prev_reg_exp_end == 0,
            r@.need_space_before_dot == 0,
            r@.start_of_stmt == 0,
            r@.start_of_arrow_expr == 0,
            r@.start_of_default_export == 0,
            r@.indentation == 0,
            r@.comments == (match comment_gen_related {
                Some(ref c) => Some(c@),
                None => None::<CommentsModel>,
            }),
    {
        let capacity = if minify {
            source_len / 2
        } else {
            source_len
        };
        let r = Codegen {
            options,
            minify,
            code: Vec::with_capacity(capacity),
            needs_semicolon: false,
            need_space_before_dot: 0,
            prev_op_end: 0,
            prev_reg_exp_end: 0,
            prev_op: None,
            start_of_stmt: 0,
            start_of_arrow_expr: 0,
            start_of_default_export: 0,
            indentation: 0,
            comment_gen_related,
        };
        proof {
            assert(r@.code =~= Seq::<char>::empty());
        }
        r
    }

    /// Finalize the pass: the accumulated text as an owned string.
    pub fn into_code(self) -> (r: String)
        ensures
            r@ == self@.code,
    {
        chars_to_string(&self.code)
    }

    pub(crate) fn code(&self) -> (r: &Vec<char>)
        ensures
            r@ == self@.code,
    {
        &self.code
    }

    pub(crate) fn code_len(&self) -> (r: usize)
        ensures
            r == self@.code.len(),
    {
        self.code.len()
    }

    /// Push a single character into the buffer.
    pub fn print(&mut self, ch: char)
        ensures
            final(self)@ == print_s(old(self)@, ch),
    {
        self.code.push(ch);
        proof {
            assert(self@ =~~= print_s(old(self)@, ch));
        }
    }

    /// Push a string into the buffer.
    pub fn print_str(&mut self, s: &str)
        ensures
            final(self)@ == app_code(old(self)@, s@),
    {
        let n = s.unicode_len();
        let mut i: usize = 0;
        proof {
            assert(self@ =~~= app_code(old(self)@, s@.take(0)));
        }
        while i < n
            invariant
                i <= n,
                n == s@.len(),
                self@ == app_code(old(self)@, s@.take(i as int)),
            decreases n - i,
        {
            let c = s.get_char(i);
            self.code.push(c);
            proof {
                assert(s@.take(i + 1) =~= s@.take(i as int).push(s@[i as int]));
                assert(self@ =~~= app_code(old(self)@, s@.take(i + 1)));
            }
            i = i + 1;
        }
        proof {
            assert(s@.take(n as int) =~= s@);
            assert(self@ =~~= app_code(old(self)@, s@));
        }
    }

    pub(crate) fn print_soft_space(&mut self)
        ensures
            final(self)@ == soft_space_s(old(self)@),
    {
        if !self.minify {
            self.print(' ');
        }
    }

    pub fn print_hard_space(&mut self)
        ensures
            final(self)@ == print_s(old(self)@, ' '),
    {
        self.print(' ');
    }

    pub(crate) fn print_soft_newline(&mut self)
        ensures
            final(self)@ == soft_newline_s(old(self)@),
    {
        if !self.minify {
            self.print('\n');
        }
    }

    pub(crate) fn print_semicolon(&mut self)
        ensures
            final(self)@ == print_s(old(self)@, ';'),
    {
        self.print(';');
    }

    pub(crate) fn print_comma(&mut self)
        ensures
            final(self)@ == print_s(old(self)@, ','),
    {
        self.print(',');
    }

    pub fn print_colon(&mut self)
        ensures
            final(self)@ == print_s(old(self)@, ':'),
    {
        self.print(':');
    }

    pub(crate) fn print_equal(&mut self)
        ensures
            final(self)@ == print_s(old(self)@, '='),
    {
        self.print('=');
    }

    pub(crate) fn print_ellipsis(&mut self)
        ensures
            final(self)@ == app_code(old(self)@, seq!['.', '.', '.']),
    {
        self.print('.');
        self.print('.');
        self.print('.');
        proof {
            assert(self@ =~~= app_code(old(self)@, seq!['.', '.', '.']));
        }
    }

    /// The character `n` places back from the end of the buffer, if any.
    pub(crate) fn peek_nth(&self, n: usize) -> (r: Option<char>)
        ensures
            r == peek_s(self@, n as int),
    {
        if n < self.code.len() {
            Some(self.code[self.code.len() - 1 - n])
        } else {
            None
        }
    }

    /// A hard space when the next token is identifier-like and the buffer
    /// ends in an identifier-continuation character (or a just-finished
    /// regular-expression literal), so the two tokens cannot merge.
    pub(crate) fn print_space_before_identifier(&mut self)
        ensures
            final(self)@ == space_before_identifier_s(old(self)@),
    {
        let need = match self.peek_nth(0) {
            Some(ch) => is_identifier_part_exec(ch) || self.prev_reg_exp_end == self.code.len(),
            None => false,
        };
        if need {
            self.print_hard_space();
        }
    }

    pub(crate) fn indent(&mut self)
        ensures
            final(self)@ == indent_s(old(self)@),
    {
        if !self.minify {
            if self.indentation < usize::MAX {
                self.indentation = self.indentation + 1;
            }
        }
    }

    pub(crate) fn dedent(&mut self)
        ensures
            final(self)@ == dedent_s(old(self)@),
    {
        if !self.minify {
            if self.indentation > 0 {
                self.indentation = self.indentation - 1;
            }
        }
    }

    pub(crate) fn print_indent(&mut self)
        ensures
            final(self)@ == print_indent_s(old(self)@),
    {
        if !self.minify {
            let n = self.indentation;
            let mut i: usize = 0;
            proof {
                assert(self@ =~~= app_code(old(self)@, tab_seq(0)));
            }
            while i < n
                invariant
                    i <= n,
                    !self.minify,
                    n == old(self)@.indentation,
                    self@ == app_code(old(self)@, tab_seq(i as int)),
                decreases n - i,
            {
                self.code.push('\t');
                proof {
                    assert(tab_seq(i + 1) =~= tab_seq(i as int).push('\t'));
                    assert(self@ =~~= app_code(old(self)@, tab_seq(i + 1)));
                }
                i = i + 1;
            }
        }
    }

    /// Record that a statement terminator is owed. Deferred in minified mode;
    /// eager `;` plus newline in pretty mode.
    pub(crate) fn print_semicolon_after_statement(&mut self)
        ensures
            final(self)@ == semicolon_after_statement_s(old(self)@),
    {
        if self.minify {
            self.needs_semicolon = true;
            proof {
                assert(self@ =~~= semicolon_after_statement_s(old(self)@));
            }
        } else {
            self.print(';');
            self.print('\n');
            proof {
                assert(self@ =~~= semicolon_after_statement_s(old(self)@));
            }
        }
    }

    /// Flush an owed statement terminator.
    pub(crate) fn print_semicolon_if_needed(&mut self)
        ensures
            final(self)@ == semicolon_if_needed_s(old(self)@),
    {
        if self.needs_semicolon {
            self.print_semicolon();
            self.needs_semicolon = false;
            proof {
                assert(self@ =~~= semicolon_if_needed_s(old(self)@));
            }
        }
    }

    /// A space between two operators exactly when omitting it would let the
    /// lexemes merge into a different token.
    pub(crate) fn print_space_before_operator(&mut self, next: Operator)
        ensures
            final(self)@ == space_before_operator_s(old(self)@, next),
    {
        if !self.minify {
            self.print_hard_space();
            return ;
        }
        if self.prev_op_end != self.code.len() {
            return ;
        }
        let prev = match self.prev_op {
            Some(p) => p,
            None => {
                return ;
            },
        };
        let bin_op_add = Operator::Binary(BinaryOperator::Addition);
        let bin_op_sub = Operator::Binary(BinaryOperator::Subtraction);
        let un_op_pos = Operator::Unary(UnaryOperator::UnaryPlus);
        let un_op_pre_inc = Operator::Update(UpdateOperator::Increment);
        let un_op_neg = Operator::Unary(UnaryOperator::UnaryNegation);
        let un_op_pre_dec = Operator::Update(UpdateOperator::Decrement);
        let un_op_post_dec = Operator::Update(UpdateOperator::Decrement);
        let bin_op_gt = Operator::Binary(BinaryOperator::GreaterThan);
        let un_op_not = Operator::Unary(UnaryOperator::LogicalNot);
        let peek_lt = match self.peek_nth(1) {
            Some(c) => c == '<',
            None => false,
        };
        if ((prev == bin_op_add || prev == un_op_pos) && (next == bin_op_add || next == un_op_pos
            || next == un_op_pre_inc)) || ((prev == bin_op_sub || prev == un_op_neg) && (next
            == bin_op_sub || next == un_op_neg || next == un_op_pre_dec)) || (prev == un_op_post_dec
            && next == bin_op_gt) || (prev == un_op_not && next == un_op_pre_dec && peek_lt) {
            self.print_hard_space();
        }
    }

    /// Record the operator just printed and where it ended.
    pub(crate) fn set_prev_op(&mut self, op: Operator)
        ensures
            final(self)@ == set_prev_op_s(old(self)@, op),
    {
        self.prev_op = Some(op);
        self.prev_op_end = self.code.len();
        proof {
            assert(self@ =~~= set_prev_op_s(old(self)@, op));
        }
    }

    /// Print a string literal's content between the delimiters chosen by
    /// [`choose_quote`], escaping the chosen delimiter inside the content.
    pub(crate) fn wrap_quote(&mut self, s: &str)
        ensures
            final(self)@ == wrap_quote_s(old(self)@, s@),
    {
        let quote = choose_quote(s);
        self.print(quote);
        let ghost st_mid = self@;
        let n = s.unicode_len();
        let mut i: usize = 0;
        proof {
            assert(self@ =~~= app_code(st_mid, escape_with(s@.take(0), chosen_quote(s@))));
        }
        while i < n
            invariant
                i <= n,
                n == s@.len(),
                quote == chosen_quote(s@),
                self@ == app_code(st_mid, escape_with(s@.take(i as int), chosen_quote(s@))),
            decreases n - i,
        {
            let c = s.get_char(i);
            if c == quote {
                self.code.push('\\');
            }
            self.code.push(c);
            proof {
                lemma_escape_take_step(s@, chosen_quote(s@), i as int);
                assert(self@ =~~= app_code(st_mid, escape_with(s@.take(i + 1), chosen_quote(s@))));
            }
            i = i + 1;
        }
        self.print(quote);
        proof {
            assert(s@.take(n as int) =~= s@);
            assert(self@ =~~= wrap_quote_s(old(self)@, s@));
        }
    }

    /// Register that the comment starting at `info.0` must print at node
    /// position `position` instead of its natural place.
    pub fn move_comment(&mut self, position: u32, info: (u32, Comment))
        requires
            match old(self)@.comments {
                Some(cm) => crate::comments::comment_in_source(info.0, info.1, cm.source),
                None => true,
            },
        ensures
            final(self)@ == move_comment_s(old(self)@, position, info),
    {
        match &mut self.comment_gen_related {
            Some(c) => {
                c.move_comment_map.insert(position, info);
                c.relocated.push(info.0);
                proof {
                    assert(self@ =~~= move_comment_s(old(self)@, position, info));
                }
            },
            None => {
                proof {
                    assert(self@ =~~= move_comment_s(old(self)@, position, info));
                }
            },
        }
    }

    /// The nearest comment that starts strictly before `start`.
    pub fn try_get_leading_comment(&self, start: u32) -> (r: Option<(u32, Comment)>)
        ensures
            r == (match self@.comments {
                None => None::<(u32, Comment)>,
                Some(cm) => leading_comment_of(cm.trivials, start),
            }),
    {
        match &self.comment_gen_related {
            None => None,
            Some(c) => {
                let mut idx: usize = c.trivials.len();
                proof {
                    assert(c.trivials@.take(idx as int) =~= c.trivials@);
                }
                while idx > 0
                    invariant
                        idx <= c.trivials@.len(),
                        self@.comments == Some(c@),
                        leading_comment_of(c.trivials@, start) == leading_comment_of(
                            c.trivials@.take(idx as int),
                            start,
                        ),
                    decreases idx,
                {
                    let pair = c.trivials[idx - 1];
                    if pair.0 < start {
                        proof {
                            assert(c.trivials@.take(idx as int).last() == c.trivials@[idx - 1]);
                            assert(leading_comment_of(c.trivials@.take(idx as int), start) == Some(
                                c.trivials@[idx - 1],
                            ));
                        }
                        return Some(pair);
                    }
                    proof {
                        assert(c.trivials@.take(idx as int).drop_last() =~= c.trivials@.take(
                            idx - 1,
                        ));
                    }
                    idx = idx - 1;
                }
                None
            },
        }
    }

    /// The source text the tree was parsed from, when comment metadata was
    /// supplied.
    pub fn try_get_sourcecode(&self) -> (r: Option<&str>)
        ensures
            match self@.comments {
                None => r is None,
                Some(cm) => r is Some && r->0@ == cm.source,
            },
    {
        match &self.comment_gen_related {
            Some(c) => Some(c.source_code.as_str()),
            None => None,
        }
    }

    /// Consume the relocation registered for node position `node_start`, if
    /// any; a second call for the same position finds nothing.
    pub fn try_take_moved_comment(&mut self, node_start: u32) -> (r: Option<(u32, Comment)>)
        ensures
            final(self)@ == take_moved_s(old(self)@, node_start).0,
            r == take_moved_s(old(self)@, node_start).1,
    {
        let r = match &mut self.comment_gen_related {
            Some(c) => c.move_comment_map.remove(&node_start),
            None => None,
        };
        proof {
            assert(self@ =~~= take_moved_s(old(self)@, node_start).0);
        }
        r
    }

    /// Look at the relocation registered for `start` without consuming it.
    pub fn try_get_leading_comment_from_move_map(&self, start: u32) -> (r: Option<(u32, Comment)>)
        ensures
            r == (match self@.comments {
                None => None::<(u32, Comment)>,
                Some(cm) => if cm.moved.contains_key(start) {
                    Some(cm.moved[start])
                } else {
                    None
                },
            }),
    {
        match &self.comment_gen_related {
            Some(c) => {
                match c.move_comment_map.get(&start) {
                    Some(v) => Some(*v),
                    None => None,
                }
            },
            None => None,
        }
    }

    /// Whether the comment starting at `comment_start` was ever registered
    /// for relocation: such a comment no longer prints at its natural place.
    pub fn is_relocated(&self, comment_start: u32) -> (r: bool)
        ensures
            r == (match self@.comments {
                None => false,
                Some(cm) => cm.relocated.contains(comment_start),
            }),
    {
        match &self.comment_gen_related {
            None => false,
            Some(c) => {
                let mut i: usize = 0;
                while i < c.relocated.len()
                    invariant
                        i <= c.relocated@.len(),
                        self@.comments == Some(c@),
                        forall|j: int| 0 <= j < i ==> c.relocated@[j] != comment_start,
                    decreases c.relocated@.len() - i,
                {
                    if c.relocated[i] == comment_start {
                        proof {
                            assert(self@.comments == Some(c@));
                            assert(c.relocated@.contains(comment_start)) by {
                                assert(c.relocated@[i as int] == comment_start);
                            }
                        }
                        return true;
                    }
                    i = i + 1;
                }
                false
            },
        }
    }
}

} // verus!
