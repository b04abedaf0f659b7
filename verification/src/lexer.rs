//! The comment lexer: splits a document into code blocks and comments, using
//! the comment delimiters of the document's language.

use vstd::prelude::*;

use crate::commands::{CommandError, CommandResult};
use crate::comment_str::{
    comment_syntax, delimiter_ok, get_comment_string_info, lemma_table_delimiters, syntax_ok,
    CommentStrInfo, CommentSyntax,
};
use crate::text::{
    char_is_whitespace, chars_of, is_whitespace_char, 
    string_from_chars, utf8_len,
};

verus! {

/// A position in a document: zero-based line and character.
#[derive(Debug, Clone, Copy, PartialEq, Eq, Structural)]
pub struct Position {
    pub line: u32,
    pub character: u32,
}

/// A span of a document between two positions.
#[derive(Debug, Clone, Copy, PartialEq, Eq, Structural)]
pub struct Range {
    pub start: Position,
    pub end: Position,
}

/// A comment found in a document, with where its text begins and ends.
#[derive(Debug, PartialEq, Eq)]
pub struct ParsedComment {
    pub content: String,
    pub range: Range,
}

/// What the lexer produces.
#[derive(Debug, PartialEq, Eq)]
pub enum Token {
    /// A comment delimiter.
    CommentStr,
    Comment(ParsedComment),
    /// Text outside comments.
    Block(String),
    End,
}

/// A token with its text as a sequence of characters.
pub enum TokenView {
    CommentStr,
    Comment(Seq<char>, Range),
    Block(Seq<char>),
    End,
}

impl View for Token {
    type V = TokenView;

    open spec fn view(&self) -> TokenView {
        match self {
            Token::CommentStr => TokenView::CommentStr,
            Token::Comment(c) => TokenView::Comment(c.content@, c.range),
            Token::Block(b) => TokenView::Block(b@),
            Token::End => TokenView::End,
        }
    }
}

pub open spec fn tokens_view(v: Seq<Token>) -> Seq<TokenView> {
    v.map_values(|t: Token| t@)
}

/// Where the lexer stands in its input: the reading position (one past the
/// current character), the current character, and the line and column
/// counters.
pub struct Cursor {
    pub rp: nat,
    pub ch: Option<char>,
    pub line: nat,
    pub col: nat,
}

pub open spec fn char_at(s: Seq<char>, i: nat) -> Option<char> {
    if i < s.len() {
        Some(s[i as int])
    } else {
        None
    }
}

/// One step forward: a line feed as current character starts a new line.
pub open spec fn advance(input: Seq<char>, c: Cursor) -> Cursor {
    Cursor {
        rp: c.rp + 1,
        ch: char_at(input, c.rp),
        line: if c.ch == Some('\n') {
            c.line + 1
        } else {
            c.line
        },
        col: (if c.ch == Some('\n') {
            0
        } else {
            c.col
        }) + 1,
    }
}

pub open spec fn advance_n(input: Seq<char>, c: Cursor, n: nat) -> Cursor
    decreases n,
{
    if n == 0 {
        c
    } else {
        advance_n(input, advance(input, c), (n - 1) as nat)
    }
}

pub open spec fn position_of(c: Cursor) -> Position {
    Position { line: c.line as u32, character: c.col as u32 }
}

/// Whether the current character starts `slice`: it is the slice's first
/// character and each later character of the slice is the input's next one.
/// A slice of one single-byte character needs nothing more; for any other
/// slice, the input character following the slice, if there is one, must be
/// whitespace.
pub open spec fn at_beginning_of(input: Seq<char>, c: Cursor, slice: Seq<char>) -> bool {
    &&& slice.len() > 0
    &&& c.ch == Some(slice[0])
    &&& (utf8_len(slice) == 1 || {
        &&& forall|i: int|
            0 <= i < slice.len() - 1 ==> match #[trigger] char_at(input, (c.rp + i) as nat) {
                Some(p) => p == slice[i + 1],
                None => false,
            }
        &&& match char_at(input, (c.rp + slice.len() - 1) as nat) {
            Some(n) => is_whitespace_char(n),
            None => true,
        }
    })
}

/// The state of a lexing run between two steps.
pub struct LexState {
    pub cur: Cursor,
    pub buf: Seq<char>,
    pub end: Option<Position>,
    pub out: Seq<TokenView>,
}

/// Reading a comment's text after its opening delimiter, until the closing
/// delimiter is met or the input runs out. `None` where the lexer faults (no
/// current character while input remains).
pub open spec fn scan_comment(
    input: Seq<char>,
    c: Cursor,
    buf: Seq<char>,
    close: Seq<char>,
    end: Option<Position>,
) -> Option<(Cursor, Seq<char>, Option<Position>)>
    decreases input.len() - c.rp,
{
    match char_at(input, c.rp) {
        None => Some((c, buf, end)),
        Some(peek) => match c.ch {
            None => None,
            Some(ch) => {
                let buf2 = buf.push(ch);
                let c2 = advance(input, c);
                if close.len() > 0 && peek == close[0] && at_beginning_of(input, c2, close) {
                    Some(
                        (
                            advance_n(input, c2, (utf8_len(close) - 1) as nat),
                            buf2,
                            Some(position_of(c2)),
                        ),
                    )
                } else {
                    scan_comment(input, c2, buf2, close, end)
                }
            },
        },
    }
}

/// Collecting a run of line feeds into the buffer.
pub open spec fn newline_run(input: Seq<char>, c: Cursor, buf: Seq<char>) -> (Cursor, Seq<char>)
    decreases input.len() - c.rp,
{
    if char_at(input, c.rp) == Some('\n') {
        newline_run(input, advance(input, c), buf.push('\n'))
    } else {
        (c, buf)
    }
}

pub open spec fn flush(out: Seq<TokenView>, buf: Seq<char>) -> Seq<TokenView> {
    if buf.len() > 0 {
        out.push(TokenView::Block(buf))
    } else {
        out
    }
}

/// One round of the lexer on its current character `c`.
pub open spec fn lex_step(input: Seq<char>, syn: CommentSyntax, st: LexState, c: char) -> Option<
    LexState,
> {
    let single = syn.singleline;
    let opens_multi = match syn.multiline {
        Some((start, _)) => start.len() > 0 && c == start[0],
        None => false,
    };
    if (single.len() > 0 && c == single[0]) || opens_multi {
        let ss = at_beginning_of(input, st.cur, single);
        let mm = match syn.multiline {
            Some((start, _)) => at_beginning_of(input, st.cur, start),
            None => false,
        };
        if !ss && !mm {
            Some(LexState { cur: advance(input, st.cur), buf: st.buf.push(c), ..st })
        } else {
            let open = if ss {
                single
            } else {
                syn.multiline.unwrap().0
            };
            let close = if ss {
                seq!['\n']
            } else {
                syn.multiline.unwrap().1
            };
            let out1 = flush(st.out, st.buf).push(TokenView::CommentStr);
            let c1 = advance_n(input, st.cur, utf8_len(open));
            let start = position_of(c1);
            match scan_comment(input, c1, seq![], close, st.end) {
                None => None,
                Some((c3, buf3, end3)) => match end3 {
                    None => None,
                    Some(e) => {
                        let out2 = out1.push(TokenView::Comment(buf3, Range { start, end: e }));
                        let out3 = if mm {
                            out2.push(TokenView::CommentStr)
                        } else {
                            out2
                        };
                        Some(
                            LexState {
                                cur: advance(input, c3),
                                buf: seq![],
                                end: end3,
                                out: out3,
                            },
                        )
                    },
                },
            }
        }
    } else if c == '\n' {
        let buf1 = st.buf.push('\n');
        if char_at(input, st.cur.rp) == Some('\n') {
            let (c2, buf2) = newline_run(input, st.cur, buf1);
            Some(
                LexState {
                    cur: advance(input, c2),
                    buf: seq![],
                    end: st.end,
                    out: st.out.push(TokenView::Block(buf2)),
                },
            )
        } else {
            Some(LexState { cur: advance(input, st.cur), buf: buf1, ..st })
        }
    } else {
        Some(LexState { cur: advance(input, st.cur), buf: st.buf.push(c), ..st })
    }
}

pub open spec fn remaining(input: Seq<char>, rp: nat) -> nat {
    if rp <= input.len() + 1 {
        (input.len() + 2 - rp) as nat
    } else {
        0
    }
}

/// Rounds of the lexer until it runs out of characters; `None` where it
/// faults.
pub open spec fn lex_run(input: Seq<char>, syn: CommentSyntax, st: LexState) -> Option<LexState>
    decreases remaining(input, st.cur.rp),
{
    match st.cur.ch {
        None => Some(st),
        Some(c) => if st.cur.rp > input.len() + 1 {
            Some(st)
        } else {
            match lex_step(input, syn, st, c) {
                None => None,
                Some(st2) => if st2.cur.rp > st.cur.rp {
                    lex_run(input, syn, st2)
                } else {
                    None
                },
            }
        },
    }
}

/// The tokens a finished run yields: the pending text, if any, then `End`.
pub open spec fn finish(st: LexState) -> Seq<TokenView> {
    flush(st.out, st.buf).push(TokenView::End)
}

pub open spec fn initial_state(c: Cursor) -> LexState {
    LexState { cur: c, buf: seq![], end: None, out: seq![] }
}

/// The input characters of `s`, lexed with `syn`: the final state of the run,
/// or `None` where the lexer faults.
pub open spec fn lex_spec(input: Seq<char>, syn: CommentSyntax, c: Cursor) -> Option<LexState> {
    lex_run(input, syn, initial_state(c))
}

/// The message of the lexer's error when a comment's end is missing.
pub open spec fn lexer_gave_up() -> Seq<char> {
    "end opt should be some at this point"@
}

/// Splits a document into code blocks and comments.
#[derive(Debug)]
pub struct Lexer {
    input: Vec<char>,
    position: usize,
    read_position: usize,
    ch: Option<char>,
    comment_str_info: CommentStrInfo,
    current_line: usize,
    current_char: usize,
}

} // verus!

verus! {

impl Lexer {
    pub closed spec fn input_view(&self) -> Seq<char> {
        self.input@
    }

    pub closed spec fn syntax(&self) -> CommentSyntax {
        self.comment_str_info.syntax()
    }

    pub closed spec fn cursor(&self) -> Cursor {
        Cursor {
            rp: self.read_position as nat,
            ch: self.ch,
            line: self.current_line as nat,
            col: self.current_char as nat,
        }
    }

    /// The lexer's internal consistency: the position trails the reading
    /// position by one, the current character is the input character before
    /// the reading position, and the counters stay below it.
    pub closed spec fn wf(&self) -> bool {
        &&& self.read_position >= 1
        &&& self.position + 1 == self.read_position
        &&& self.current_line < self.read_position
        &&& self.current_char < self.read_position
        &&& self.ch == char_at(self.input@, (self.read_position - 1) as nat)
        &&& self.input@.len() + 16 < usize::MAX
        &&& syntax_ok(self.syntax())
    }

    /// A lexer over `input` for the language of extension `ext`, standing on
    /// its first character.
    pub fn new(input: &str, ext: &str) -> (l: Lexer)
        requires
            comment_syntax(ext@) is Some,
            input@.len() + 16 < usize::MAX,
        ensures
            l.wf(),
            l.input_view() == input@,
            l.syntax() == comment_syntax(ext@).unwrap(),
            l.cursor() == (Cursor { rp: 1, ch: char_at(input@, 0), line: 0, col: 0 }),
    {
        proof {
            lemma_table_delimiters(ext@);
        }
        let comment_str_info = get_comment_string_info(ext).unwrap();
        let chars = chars_of(input);
        let ch = if chars.len() > 0 {
            Some(chars[0])
        } else {
            None
        };
        Lexer {
            input: chars,
            position: 0,
            read_position: 1,
            ch,
            comment_str_info,
            current_line: 0,
            current_char: 0,
        }
    }

    /// The character at the reading position.
    pub fn peek(&self) -> (r: Option<char>)
        ensures
            r == char_at(self.input_view(), self.cursor().rp),
    {
        if self.read_position < self.input.len() {
            Some(self.input[self.read_position])
        } else {
            None
        }
    }

    /// The character `offset` places after the reading position.
    pub fn peek_offset(&self, offset: usize) -> (r: Option<char>)
        requires
            self.cursor().rp + offset <= usize::MAX,
        ensures
            r == char_at(self.input_view(), (self.cursor().rp + offset) as nat),
    {
        let i = self.read_position + offset;
        if i < self.input.len() {
            Some(self.input[i])
        } else {
            None
        }
    }

    /// The delimiter asked for: the line comment marker for `None`, the block
    /// comment opener for `Some(true)` and its closer for `Some(false)`.
    pub fn comment_str(&self, multiline_start: Option<bool>) -> (r: Option<&str>)
        ensures
            match multiline_start {
                None => r is Some && r.unwrap()@ == self.syntax().singleline,
                Some(is_start) => match self.syntax().multiline {
                    Some((start, end)) => r is Some && r.unwrap()@ == (if is_start {
                        start
                    } else {
                        end
                    }),
                    None => r is None,
                },
            },
    {
        match multiline_start {
            None => Some(self.comment_str_info.singleline()),
            Some(is_start) => {
                if is_start {
                    self.comment_str_info.multiline_start()
                } else {
                    self.comment_str_info.multiline_end()
                }
            },
        }
    }

    pub fn current_position(&self) -> (p: Position)
        ensures
            p == position_of(self.cursor()),
    {
        Position { line: self.current_line as u32, character: self.current_char as u32 }
    }

    /// Moves to the next character; a line feed left behind starts a new line.
    pub fn progress_char(&mut self)
        requires
            old(self).wf(),
            old(self).cursor().rp + 1 < usize::MAX,
        ensures
            final(self).wf(),
            final(self).input_view() == old(self).input_view(),
            final(self).syntax() == old(self).syntax(),
            final(self).cursor() == advance(old(self).input_view(), old(self).cursor()),
    {
        if self.ch == Some('\n') {
            self.current_line = self.current_line + 1;
            self.current_char = 0;
        }
        self.ch = if self.read_position < self.input.len() {
            Some(self.input[self.read_position])
        } else {
            None
        };
        self.position = self.read_position;
        self.current_char = self.current_char + 1;
        self.read_position = self.read_position + 1;
    }

    fn at_beginning_of_chars(&self, slice: &Vec<char>, slice_bytes: usize) -> (r: bool)
        requires
            slice@.len() > 0,
            slice_bytes == utf8_len(slice@),
            self.cursor().rp + slice@.len() <= usize::MAX,
        ensures
            r == at_beginning_of(self.input_view(), self.cursor(), slice@),
    {
        let first = slice[0];
        match self.ch {
            Some(c) => {
                if c != first {
                    return false;
                }
            },
            None => {
                return false;
            },
        }
        if slice_bytes == 1 {
            return true;
        }
        let mut i: usize = 0;
        while i + 1 < slice.len()
            invariant
                i + 1 <= slice@.len(),
                self.cursor().rp + slice@.len() <= usize::MAX,
                slice_bytes == utf8_len(slice@),
                slice_bytes != 1,
                self.cursor().ch == Some(slice@[0]),
                forall|j: int|
                    0 <= j < i ==> match #[trigger] char_at(
                        self.input_view(),
                        (self.cursor().rp + j) as nat,
                    ) {
                        Some(p) => p == slice@[j + 1],
                        None => false,
                    },
            decreases slice@.len() - i,
        {
            match self.peek_offset(i) {
                Some(p) => {
                    if p != slice[i + 1] {
                        assert(char_at(self.input_view(), (self.cursor().rp + i) as nat) == Some(p));
                        return false;
                    }
                },
                None => {
                    return false;
                },
            }
            i = i + 1;
        }
        match self.peek_offset(i) {
            Some(n) => char_is_whitespace(n),
            None => true,
        }
    }

    /// Whether the current character is the beginning of `slice` (see
    /// [`at_beginning_of`]).
    pub fn at_beginning_of_slice(&self, slice: &str) -> (r: bool)
        requires
            slice@.len() > 0,
            utf8_len(slice@) <= usize::MAX,
            self.cursor().rp + slice@.len() <= usize::MAX,
        ensures
            r == at_beginning_of(self.input_view(), self.cursor(), slice@),
    {
        let chars = chars_of(slice);
        let bytes = slice.len();
        self.at_beginning_of_chars(&chars, bytes)
    }
}

} // verus!

verus! {

proof fn lemma_advance_n_succ(input: Seq<char>, c: Cursor, n: nat)
    ensures
        advance_n(input, c, n + 1) == advance(input, advance_n(input, c, n)),
        advance_n(input, c, n).rp == c.rp + n,
    decreases n,
{
    if n > 0 {
        lemma_advance_n_succ(input, advance(input, c), (n - 1) as nat);
    } else {
        assert(advance_n(input, advance(input, c), 0) == advance(input, c));
    }
}

proof fn lemma_newline_len()
    ensures
        utf8_len(seq!['\n']) == 1,
{
    reveal_with_fuel(vstd::utf8::encode_utf8, 2);
    assert(seq!['\n'].drop_first().len() == 0);
}

proof fn lemma_tokens_push(v: Seq<Token>, t: Token)
    ensures
        tokens_view(v.push(t)) == tokens_view(v).push(t@),
{
    assert(tokens_view(v.push(t)) =~= tokens_view(v).push(t@));
}

impl Lexer {
    pub closed spec fn state(&self, buf: Seq<char>, end: Option<Position>, out: Seq<Token>) -> LexState {
        LexState { cur: self.cursor(), buf, end, out: tokens_view(out) }
    }

    fn advance_by(&mut self, n: usize)
        requires
            old(self).wf(),
            old(self).cursor().rp + n + 1 < usize::MAX,
        ensures
            final(self).wf(),
            final(self).input_view() == old(self).input_view(),
            final(self).syntax() == old(self).syntax(),
            final(self).cursor() == advance_n(old(self).input_view(), old(self).cursor(), n as nat),
    {
        let ghost c0 = self.cursor();
        let mut k: usize = 0;
        proof {
            lemma_advance_n_succ(self.input_view(), c0, 0);
        }
        while k < n
            invariant
                k <= n,
                self.wf(),
                self.input_view() == old(self).input_view(),
                self.syntax() == old(self).syntax(),
                c0.rp + n + 1 < usize::MAX,
                self.cursor() == advance_n(self.input_view(), c0, k as nat),
            decreases n - k,
        {
            proof {
                lemma_advance_n_succ(self.input_view(), c0, k as nat);
            }
            self.progress_char();
            k = k + 1;
        }
    }

    fn scan_comment_chars(
        &mut self,
        close: &Vec<char>,
        close_bytes: usize,
        buffer: &mut Vec<char>,
        end_opt: &mut Option<Position>,
    ) -> (ok: bool)
        requires
            old(self).wf(),
            delimiter_ok(close@),
            close_bytes == utf8_len(close@),
            old(self).cursor().rp <= old(self).input_view().len() + 5,
        ensures
            final(self).wf(),
            final(self).input_view() == old(self).input_view(),
            final(self).syntax() == old(self).syntax(),
            final(self).cursor().rp <= old(self).input_view().len() + 5,
            final(self).cursor().rp >= old(self).cursor().rp,
            match scan_comment(
                old(self).input_view(),
                old(self).cursor(),
                old(buffer)@,
                close@,
                *old(end_opt),
            ) {
                None => !ok,
                Some((c, b, e)) => ok && final(self).cursor() == c && final(buffer)@ == b
                    && *final(end_opt) == e,
            },
    {
        let ghost target = scan_comment(
            self.input_view(),
            self.cursor(),
            buffer@,
            close@,
            *end_opt,
        );
        let ghost rp0 = self.cursor().rp;
        loop
            invariant
                self.wf(),
                self.input_view() == old(self).input_view(),
                self.syntax() == old(self).syntax(),
                delimiter_ok(close@),
                close_bytes == utf8_len(close@),
                rp0 == old(self).cursor().rp,
                target == scan_comment(
                    old(self).input_view(),
                    old(self).cursor(),
                    old(buffer)@,
                    close@,
                    *old(end_opt),
                ),
                rp0 <= self.cursor().rp <= self.input_view().len() + 5,
                scan_comment(self.input_view(), self.cursor(), buffer@, close@, *end_opt)
                    == target,
            decreases self.input_view().len() + 5 - self.cursor().rp,
        {
            match self.peek() {
                None => {
                    return true;
                },
                Some(peek) => {
                    match self.ch {
                        None => {
                            return false;
                        },
                        Some(ch) => {
                            buffer.push(ch);
                            self.progress_char();
                            if peek == close[0] && self.at_beginning_of_chars(close, close_bytes) {
                                *end_opt = Some(self.current_position());
                                let ghost cb = self.cursor();
                                self.advance_by(close_bytes - 1);
                                proof {
                                    lemma_advance_n_succ(
                                        self.input_view(),
                                        cb,
                                        (close_bytes - 1) as nat,
                                    );
                                }
                                return true;
                            }
                        },
                    }
                },
            }
        }
    }

    fn newline_run_chars(&mut self, buffer: &mut Vec<char>)
        requires
            old(self).wf(),
            old(self).cursor().rp <= old(self).input_view().len() + 1,
        ensures
            final(self).wf(),
            final(self).input_view() == old(self).input_view(),
            final(self).syntax() == old(self).syntax(),
            final(self).cursor().rp <= old(self).input_view().len() + 1,
            final(self).cursor().rp >= old(self).cursor().rp,
            (final(self).cursor(), final(buffer)@) == newline_run(
                old(self).input_view(),
                old(self).cursor(),
                old(buffer)@,
            ),
    {
        let ghost target = newline_run(self.input_view(), self.cursor(), buffer@);
        loop
            invariant
                self.wf(),
                self.input_view() == old(self).input_view(),
                self.syntax() == old(self).syntax(),
                self.cursor().rp <= self.input_view().len() + 1,
                self.cursor().rp >= old(self).cursor().rp,
                newline_run(self.input_view(), self.cursor(), buffer@) == target,
                target == newline_run(old(self).input_view(), old(self).cursor(), old(buffer)@),
            decreases self.input_view().len() + 1 - self.cursor().rp,
        {
            match self.peek() {
                Some(p) => {
                    if p != '\n' {
                        return ;
                    }
                },
                None => {
                    return ;
                },
            }
            self.progress_char();
            buffer.push(self.ch.unwrap());
        }
    }
}

} // verus!

verus! {

/// The block comment delimiters of a syntax as characters with their byte
/// lengths, as the lexer keeps them while running.
pub open spec fn multi_matches(
    multi: Option<(Vec<char>, usize, Vec<char>, usize)>,
    syn: CommentSyntax,
) -> bool {
    match syn.multiline {
        Some((start, end)) => multi is Some && multi.unwrap().0@ == start && multi.unwrap().1
            == utf8_len(start) && multi.unwrap().2@ == end && multi.unwrap().3 == utf8_len(end),
        None => multi is None,
    }
}

impl Lexer {
    fn lex_round(
        &mut self,
        c: char,
        single: &Vec<char>,
        single_bytes: usize,
        multi: &Option<(Vec<char>, usize, Vec<char>, usize)>,
        newline: &Vec<char>,
        buffer: &mut Vec<char>,
        end_opt: &mut Option<Position>,
        output: &mut Vec<Token>,
    ) -> (ok: bool)
        requires
            old(self).wf(),
            old(self).cursor().ch == Some(c),
            old(self).cursor().rp <= old(self).input_view().len() + 1,
            single@ == old(self).syntax().singleline,
            single_bytes == utf8_len(single@),
            multi_matches(*multi, old(self).syntax()),
            newline@ == seq!['\n'],
        ensures
            final(self).wf(),
            final(self).input_view() == old(self).input_view(),
            final(self).syntax() == old(self).syntax(),
            match lex_step(
                old(self).input_view(),
                old(self).syntax(),
                old(self).state(old(buffer)@, *old(end_opt), old(output)@),
                c,
            ) {
                None => !ok,
                Some(st2) => ok && final(self).state(final(buffer)@, *final(end_opt), final(output)@)
                    == st2 && st2.cur.rp > old(self).cursor().rp && st2.cur.rp
                    <= old(self).input_view().len() + 8,
            },
    {
        let ghost input = self.input_view();
        let ghost syn = self.syntax();
        let ghost st = self.state(buffer@, *end_opt, output@);
        proof {
            lemma_newline_len();
        }
        let opens_multi = match multi {
            Some(m) => c == m.0[0],
            None => false,
        };
        if c == single[0] || opens_multi {
            let ss = self.at_beginning_of_chars(single, single_bytes);
            let mm = match multi {
                Some(m) => self.at_beginning_of_chars(&m.0, m.1),
                None => false,
            };
            if !ss && !mm {
                buffer.push(c);
                self.progress_char();
                return true;
            }
            let open_bytes: usize = if ss {
                single_bytes
            } else {
                multi.as_ref().unwrap().1
            };
            let close: &Vec<char> = if ss {
                newline
            } else {
                &multi.as_ref().unwrap().2
            };
            let close_bytes: usize = if ss {
                1
            } else {
                multi.as_ref().unwrap().3
            };
            if buffer.len() > 0 {
                let block = Token::Block(string_from_chars(buffer.as_slice()));
                proof {
                    lemma_tokens_push(output@, block);
                }
                output.push(block);
                *buffer = Vec::new();
            }
            assert(buffer@ =~= seq![]);
            proof {
                lemma_tokens_push(output@, Token::CommentStr);
            }
            output.push(Token::CommentStr);
            let ghost cb = self.cursor();
            self.advance_by(open_bytes);
            proof {
                lemma_advance_n_succ(input, cb, open_bytes as nat);
            }
            let start = self.current_position();
            let ok = self.scan_comment_chars(close, close_bytes, buffer, end_opt);
            if !ok {
                return false;
            }
            match *end_opt {
                None => {
                    return false;
                },
                Some(e) => {
                    let comment = Token::Comment(
                        ParsedComment {
                            content: string_from_chars(buffer.as_slice()),
                            range: Range { start, end: e },
                        },
                    );
                    proof {
                        lemma_tokens_push(output@, comment);
                    }
                    output.push(comment);
                    *buffer = Vec::new();
                    assert(buffer@ =~= seq![]);
                    if mm {
                        proof {
                            lemma_tokens_push(output@, Token::CommentStr);
                        }
                        output.push(Token::CommentStr);
                    }
                },
            }
            self.progress_char();
            true
        } else if c == '\n' {
            buffer.push(c);
            match self.peek() {
                Some(p) => {
                    if p == '\n' {
                        self.newline_run_chars(buffer);
                        let block = Token::Block(string_from_chars(buffer.as_slice()));
                        proof {
                            lemma_tokens_push(output@, block);
                        }
                        output.push(block);
                        *buffer = Vec::new();
                        assert(buffer@ =~= seq![]);
                    }
                },
                None => {},
            }
            self.progress_char();
            true
        } else {
            buffer.push(c);
            self.progress_char();
            true
        }
    }

    /// Lexes the rest of the input; `None` where the lexer faults (a comment
    /// whose end is never found, with no earlier comment end to fall back on).
    pub fn try_lex_input(&mut self) -> (r: Option<Vec<Token>>)
        requires
            old(self).wf(),
        ensures
            final(self).wf(),
            final(self).input_view() == old(self).input_view(),
            final(self).syntax() == old(self).syntax(),
            match lex_spec(old(self).input_view(), old(self).syntax(), old(self).cursor()) {
                None => r is None,
                Some(st) => r is Some && tokens_view(r.unwrap()@) == finish(st)
                    && final(self).cursor() == st.cur,
            },
    {
        let ghost input = self.input_view();
        let ghost syn = self.syntax();
        let ghost target = lex_spec(input, syn, self.cursor());
        let single_str: &str = self.comment_str_info.singleline();
        let single = chars_of(single_str);
        let single_bytes = single_str.len();
        let multi: Option<(Vec<char>, usize, Vec<char>, usize)> = match self.comment_str(
            Some(true),
        ) {
            Some(s) => match self.comment_str(Some(false)) {
                Some(e) => Some((chars_of(s), s.len(), chars_of(e), e.len())),
                None => None,
            },
            None => None,
        };
        let newline: Vec<char> = vec!['\n'];
        let mut output: Vec<Token> = Vec::new();
        let mut end_opt: Option<Position> = None;
        let mut buffer: Vec<char> = Vec::new();
        assert(tokens_view(output@) =~= seq![]);
        while self.ch.is_some()
            invariant
                self.wf(),
                self.input_view() == input,
                self.syntax() == syn,
                single@ == syn.singleline,
                single_bytes == utf8_len(single@),
                multi_matches(multi, syn),
                newline@ == seq!['\n'],
                input == old(self).input_view(),
                syn == old(self).syntax(),
                target == lex_spec(old(self).input_view(), old(self).syntax(), old(self).cursor()),
                lex_run(input, syn, self.state(buffer@, end_opt, output@)) == target,
            decreases remaining(input, self.cursor().rp),
        {
            let c = self.ch.unwrap();
            assert(self.cursor().rp <= input.len() + 1);
            let ok = self.lex_round(
                c,
                &single,
                single_bytes,
                &multi,
                &newline,
                &mut buffer,
                &mut end_opt,
                &mut output,
            );
            if !ok {
                return None;
            }
        }
        if buffer.len() > 0 {
            let block = Token::Block(string_from_chars(buffer.as_slice()));
            proof {
                lemma_tokens_push(output@, block);
            }
            output.push(block);
        }
        proof {
            lemma_tokens_push(output@, Token::End);
        }
        output.push(Token::End);
        Some(output)
    }

    /// Lexes the rest of the input into blocks, comment delimiters and
    /// comments, ending with `End`. Where a comment's end is never found and
    /// no earlier comment end can stand in for it, the lexer gives up with an
    /// error saying so.
    pub fn lex_input(&mut self) -> (r: CommandResult<Vec<Token>>)
        requires
            old(self).wf(),
        ensures
            final(self).wf(),
            r is Ok <==> lex_spec(old(self).input_view(), old(self).syntax(), old(self).cursor()) is Some,
            r matches Ok(t) ==> tokens_view(t@) == finish(
                lex_spec(old(self).input_view(), old(self).syntax(), old(self).cursor()).unwrap(),
            ),
            r matches Err(e) ==> (e matches CommandError::Undefined(m) && m@ == lexer_gave_up()),
    {
        match self.try_lex_input() {
            Some(tokens) => Ok(tokens),
            None => Err(CommandError::Undefined("end opt should be some at this point".to_owned())),
        }
    }
}


/// The tokens before the final one: no `End`, no empty block, and every
/// comment right after a comment delimiter.
pub open spec fn tokens_ok(out: Seq<TokenView>) -> bool {
    &&& forall|i: int| 0 <= i < out.len() ==> !((#[trigger] out[i]) is End)
    &&& forall|i: int|
        0 <= i < out.len() ==> ((#[trigger] out[i]) matches TokenView::Block(b) ==> b.len() > 0)
    &&& forall|i: int|
        0 <= i < out.len() ==> ((#[trigger] out[i]) is Comment ==> i > 0 && out[i - 1] is CommentStr)
}

/// What a finished run yields: `End` last and nowhere else, no empty block,
/// and every comment right after a comment delimiter.
pub open spec fn lexed_tokens_well_formed(t: Seq<TokenView>) -> bool {
    &&& t.len() > 0
    &&& t.last() is End
    &&& tokens_ok(t.drop_last())
}

proof fn lemma_push_ok(out: Seq<TokenView>, t: TokenView)
    requires
        tokens_ok(out),
        !(t is End),
        t matches TokenView::Block(b) ==> b.len() > 0,
        t is Comment ==> out.len() > 0 && out.last() is CommentStr,
    ensures
        tokens_ok(out.push(t)),
{
    let o = out.push(t);
    assert forall|i: int| 0 <= i < o.len() implies !((#[trigger] o[i]) is End) by {
        if i < out.len() {
            assert(o[i] == out[i]);
        }
    }
    assert forall|i: int| 0 <= i < o.len() implies ((#[trigger] o[i]) matches TokenView::Block(b)
        ==> b.len() > 0) by {
        if i < out.len() {
            assert(o[i] == out[i]);
        }
    }
    assert forall|i: int| 0 <= i < o.len() implies ((#[trigger] o[i]) is Comment ==> i > 0 && o[i
        - 1] is CommentStr) by {
        if i < out.len() {
            assert(o[i] == out[i]);
            if out[i] is Comment {
                assert(o[i - 1] == out[i - 1]);
            }
        } else if t is Comment {
            assert(o[i - 1] == out.last());
        }
    }
}

proof fn lemma_flush_ok(out: Seq<TokenView>, buf: Seq<char>)
    requires
        tokens_ok(out),
    ensures
        tokens_ok(flush(out, buf)),
{
    if buf.len() > 0 {
        lemma_push_ok(out, TokenView::Block(buf));
    }
}

proof fn lemma_newline_run_grows(input: Seq<char>, c: Cursor, buf: Seq<char>)
    ensures
        newline_run(input, c, buf).1.len() >= buf.len(),
    decreases input.len() - c.rp,
{
    if char_at(input, c.rp) == Some('\n') {
        lemma_newline_run_grows(input, advance(input, c), buf.push('\n'));
    }
}

proof fn lemma_step_ok(input: Seq<char>, syn: CommentSyntax, st: LexState, c: char)
    requires
        tokens_ok(st.out),
        lex_step(input, syn, st, c) is Some,
    ensures
        tokens_ok(lex_step(input, syn, st, c).unwrap().out),
{
    let single = syn.singleline;
    let opens_multi = match syn.multiline {
        Some((start, _)) => start.len() > 0 && c == start[0],
        None => false,
    };
    if (single.len() > 0 && c == single[0]) || opens_multi {
        let ss = at_beginning_of(input, st.cur, single);
        let mm = match syn.multiline {
            Some((start, _)) => at_beginning_of(input, st.cur, start),
            None => false,
        };
        if ss || mm {
            lemma_flush_ok(st.out, st.buf);
            let out1 = flush(st.out, st.buf).push(TokenView::CommentStr);
            lemma_push_ok(flush(st.out, st.buf), TokenView::CommentStr);
            let open = if ss { single } else { syn.multiline.unwrap().0 };
            let close = if ss { seq!['\n'] } else { syn.multiline.unwrap().1 };
            let c1 = advance_n(input, st.cur, utf8_len(open));
            let start = position_of(c1);
            let r = scan_comment(input, c1, seq![], close, st.end).unwrap();
            let e = r.2.unwrap();
            let cm = TokenView::Comment(r.1, Range { start, end: e });
            lemma_push_ok(out1, cm);
            if mm {
                lemma_push_ok(out1.push(cm), TokenView::CommentStr);
            }
        }
    } else if c == '\n' {
        if char_at(input, st.cur.rp) == Some('\n') {
            let buf1 = st.buf.push('\n');
            lemma_newline_run_grows(input, st.cur, buf1);
            let (c2, buf2) = newline_run(input, st.cur, buf1);
            lemma_push_ok(st.out, TokenView::Block(buf2));
        }
    }
}

proof fn lemma_run_ok(input: Seq<char>, syn: CommentSyntax, st: LexState)
    requires
        tokens_ok(st.out),
        lex_run(input, syn, st) is Some,
    ensures
        tokens_ok(lex_run(input, syn, st).unwrap().out),
    decreases remaining(input, st.cur.rp),
{
    match st.cur.ch {
        None => {},
        Some(c) => if st.cur.rp > input.len() + 1 {
        } else {
            let st2 = lex_step(input, syn, st, c).unwrap();
            lemma_step_ok(input, syn, st, c);
            if st2.cur.rp > st.cur.rp {
                lemma_run_ok(input, syn, st2);
            }
        },
    }
}

/// A run that completes yields `End` last and nowhere else, no empty block,
/// and every comment right after a comment delimiter.
pub proof fn lemma_lexed_tokens_well_formed(input: Seq<char>, syn: CommentSyntax, c: Cursor)
    requires
        lex_spec(input, syn, c) is Some,
    ensures
        lexed_tokens_well_formed(finish(lex_spec(input, syn, c).unwrap())),
{
    lemma_run_ok(input, syn, initial_state(c));
    let st = lex_spec(input, syn, c).unwrap();
    lemma_flush_ok(st.out, st.buf);
    assert(finish(st).drop_last() =~= flush(st.out, st.buf));
}

} // verus!
