use crate::lexer::state::State;
use crate::lexer::token::{Position, Token, TokenType};
use crate::lexer::util;
use vstd::prelude::*;

verus! {

/// Relies on `String::push`: appends one character.
#[verifier::external_body]
fn push_char(s: &mut String, c: char)
    ensures
        final(s)@ == old(s)@.push(c),
{
    s.push(c)
}

/// A scanner over one source text. Offsets count characters.
pub struct Lexer {
    cursor: usize,
    length: usize,
    pub file: String,
    file_vec: Vec<char>,
    line: usize,
    column: usize,
    last_line: usize,
    last_column: usize,
}

/// The kind of a one-character token.
pub open spec fn single_char_kind(c: char) -> TokenType {
    if c == '+' {
        TokenType::Plus
    } else if c == '*' {
        TokenType::Multiply
    } else if c == '-' {
        TokenType::Minus
    } else if c == '(' {
        TokenType::Lparen
    } else if c == ')' {
        TokenType::Rparen
    } else if c == ';' {
        TokenType::Semi
    } else if c == ',' {
        TokenType::Comma
    } else if c == '[' {
        TokenType::Lbrack
    } else if c == ']' {
        TokenType::Rbrack
    } else if c == '{' {
        TokenType::Lbrace
    } else if c == '}' {
        TokenType::Rbrace
    } else if c == '<' {
        TokenType::Lt
    } else if c == '>' {
        TokenType::Gt
    } else if c == '=' {
        TokenType::Assign
    } else if c == '/' {
        TokenType::Times
    } else {
        TokenType::Error
    }
}

/// A closed comment: `/*`, anything, `*/`.
pub open spec fn is_closed_comment(c: Seq<char>) -> bool {
    c.len() >= 4 && c[0] == '/' && c[1] == '*' && c[c.len() - 2] == '*' && c[c.len() - 1] == '/'
}

/// The kind of a token, which its text alone decides.
pub open spec fn text_kind(c: Seq<char>) -> TokenType {
    if c.len() == 0 {
        TokenType::Error
    } else if util::spec_is_digit(c[0]) {
        TokenType::NumberLiteral
    } else if util::spec_is_letter(c[0]) {
        util::word_kind(c)
    } else if c.len() == 1 {
        single_char_kind(c[0])
    } else if c.len() == 2 && c[1] == '=' && c[0] == '<' {
        TokenType::Le
    } else if c.len() == 2 && c[1] == '=' && c[0] == '>' {
        TokenType::Ge
    } else if c.len() == 2 && c[1] == '=' && c[0] == '=' {
        TokenType::Eq
    } else if c.len() == 2 && c[1] == '=' && c[0] == '!' {
        TokenType::Ne
    } else if is_closed_comment(c) {
        TokenType::Comment
    } else {
        TokenType::Error
    }
}

/// What the text read so far holds in each state of the scanner.
spec fn state_text(state: State, r: Seq<char>) -> bool {
    match state {
        State::InLess => r == seq!['<'],
        State::InGreat => r == seq!['>'],
        State::InAssign => r == seq!['='],
        State::InNotEqual => r == seq!['!'],
        State::InDivide => r == seq!['/'],
        State::InNum => r.len() >= 1 && forall|i: int| 0 <= i < r.len() ==> util::spec_is_digit(#[trigger] r[i]),
        State::InId => r.len() >= 1 && forall|i: int| 0 <= i < r.len() ==> util::spec_is_letter(#[trigger] r[i]),
        State::InComment => r.len() >= 2 && r[0] == '/' && r[1] == '*' && (r.len() == 2 || r.last() != '*')
            && no_close_within(r, r.len() as int),
        State::InEndComment => r.len() >= 3 && r[0] == '/' && r[1] == '*' && r.last() == '*'
            && no_close_within(r, r.len() as int),
        _ => true,
    }
}

/// Every character of `src` in `a..b` is whitespace.
pub open spec fn all_whitespace(src: Seq<char>, a: int, b: int) -> bool {
    forall|i: int| a <= i < b ==> util::spec_is_whitespace(#[trigger] src[i])
}

/// No `*/` lies wholly within the first `k` characters of `c`, after its
/// opening `/*`.
pub open spec fn no_close_within(c: Seq<char>, k: int) -> bool {
    forall|j: int| 2 <= j && j + 1 < k ==> !(#[trigger] c[j] == '*' && c[j + 1] == '/')
}

/// `src` holds, from `s` to its end, a comment that is never closed.
pub open spec fn unclosed_comment(src: Seq<char>, s: int) -> bool {
    &&& 0 <= s
    &&& s + 2 <= src.len()
    &&& src[s] == '/'
    &&& src[s + 1] == '*'
    &&& no_close_within(src.subrange(s, src.len() as int), src.len() - s)
}

/// What the scanner may leave unread at `a`: only whitespace, or
/// whitespace and then a comment that is never closed.
pub open spec fn tail_skipped(src: Seq<char>, a: int) -> bool {
    all_whitespace(src, a, src.len() as int) || exists|s: int|
        a <= s && all_whitespace(src, a, s) && #[trigger] unclosed_comment(src, s)
}

/// A token is as long as the scanner can make it: a number or a word is
/// not followed by another digit or letter, `<`, `>`, `=` and `!` alone are
/// not followed by `=`, a lone `/` is not followed by `*`, and a comment
/// ends at its first `*/` (one that is never closed runs to the end).
pub open spec fn token_maximal(t: Token, src: Seq<char>) -> bool {
    let c = t.content@;
    let e = t.end_index as int;
    &&& (util::spec_is_digit(c[0]) ==> e == src.len() || !util::spec_is_digit(src[e]))
    &&& (util::spec_is_letter(c[0]) ==> e == src.len() || !util::spec_is_letter(src[e]))
    &&& (c.len() == 1 && (c[0] == '<' || c[0] == '>' || c[0] == '=' || c[0] == '!') ==> e
        == src.len() || src[e] != '=')
    &&& (c == seq!['/'] ==> e == src.len() || src[e] != '*')
    &&& (c.len() >= 2 && c[0] == '/' && c[1] == '*' ==> if is_closed_comment(c) {
        no_close_within(c, c.len() - 1)
    } else {
        e == src.len() && no_close_within(c, c.len() as int)
    })
}

/// Where the gap before the `k`-th token starts: the end of the token
/// before it, or `first` for the first one.
pub open spec fn gap_start(ts: Seq<Token>, k: int, first: int) -> int {
    if k == 0 {
        first
    } else {
        ts[k - 1].end_index as int
    }
}

/// A token's text is the source between its offsets, and it is not empty.
pub open spec fn token_in_source(t: Token, src: Seq<char>) -> bool {
    &&& t.start_index < t.end_index <= src.len()
    &&& t.content@ == src.subrange(t.start_index as int, t.end_index as int)
    &&& t.token_type == text_kind(t.content@)
}

impl Lexer {
    /// The source text as characters.
    pub closed spec fn source(&self) -> Seq<char> {
        self.file_vec@
    }

    /// The offset of the next character to read.
    pub closed spec fn offset(&self) -> nat {
        self.cursor as nat
    }

    pub closed spec fn wf(&self) -> bool {
        &&& self.length == self.file_vec@.len()
        &&& self.cursor <= self.length
        &&& self.line + self.column <= self.cursor
        &&& self.last_line + self.last_column <= self.cursor
    }

    pub fn new(file: &str) -> (r: Self)
        ensures
            r.wf(),
            r.source() == file@,
            r.offset() == 0,
    {
        let file_vec = util::chars_of(file);
        let length = file_vec.len();
        Lexer {
            cursor: 0,
            length,
            file: file.to_owned(),
            file_vec,
            line: 0,
            column: 0,
            last_line: 0,
            last_column: 0,
        }
    }

    /// Reads the rest of the source into tokens, in order and without overlap,
    /// each as long as it can be; between them only whitespace is skipped,
    /// and after the last one only whitespace or a comment never closed.
    pub fn lex(&mut self) -> (r: Vec<Token>)
        requires
            old(self).wf(),
        ensures
            final(self).wf(),
            final(self).source() == old(self).source(),
            final(self).offset() == old(self).source().len(),
            forall|i: int| 0 <= i < r@.len() ==> token_in_source(#[trigger] r@[i], old(self).source()),
            forall|i: int| 0 <= i < r@.len() ==> old(self).offset() <= #[trigger] r@[i].start_index,
            forall|i: int, j: int| 0 <= i < j < r@.len() ==> #[trigger] r@[i].end_index <= #[trigger] r@[j].start_index,
            forall|i: int| 0 <= i < r@.len() ==> token_maximal(#[trigger] r@[i], old(self).source()),
            forall|i: int|
                0 <= i < r@.len() ==> all_whitespace(
                    old(self).source(),
                    gap_start(r@, i, old(self).offset() as int),
                    (#[trigger] r@[i]).start_index as int,
                ),
            tail_skipped(old(self).source(), gap_start(r@, r@.len() as int, old(self).offset() as int)),
    {
        let mut token_list: Vec<Token> = Vec::new();
        loop
            invariant_except_break
                self.offset() == gap_start(token_list@, token_list@.len() as int, old(self).offset() as int),
            invariant
                self.wf(),
                self.source() == old(self).source(),
                old(self).offset() <= self.offset(),
                forall|i: int| 0 <= i < token_list@.len() ==> token_in_source(#[trigger] token_list@[i], old(self).source()),
                forall|i: int| 0 <= i < token_list@.len() ==> old(self).offset() <= #[trigger] token_list@[i].start_index,
                forall|i: int| 0 <= i < token_list@.len() ==> #[trigger] token_list@[i].end_index <= self.offset(),
                forall|i: int, j: int| 0 <= i < j < token_list@.len() ==> #[trigger] token_list@[i].end_index <= #[trigger] token_list@[j].start_index,
                forall|i: int| 0 <= i < token_list@.len() ==> token_maximal(#[trigger] token_list@[i], old(self).source()),
                forall|i: int|
                    0 <= i < token_list@.len() ==> all_whitespace(
                        old(self).source(),
                        gap_start(token_list@, i, old(self).offset() as int),
                        (#[trigger] token_list@[i]).start_index as int,
                    ),
            ensures
                self.wf(),
                self.source() == old(self).source(),
                self.offset() == old(self).source().len(),
                forall|i: int| 0 <= i < token_list@.len() ==> token_in_source(#[trigger] token_list@[i], old(self).source()),
                forall|i: int| 0 <= i < token_list@.len() ==> old(self).offset() <= #[trigger] token_list@[i].start_index,
                forall|i: int, j: int| 0 <= i < j < token_list@.len() ==> #[trigger] token_list@[i].end_index <= #[trigger] token_list@[j].start_index,
                forall|i: int| 0 <= i < token_list@.len() ==> token_maximal(#[trigger] token_list@[i], old(self).source()),
                forall|i: int|
                    0 <= i < token_list@.len() ==> all_whitespace(
                        old(self).source(),
                        gap_start(token_list@, i, old(self).offset() as int),
                        (#[trigger] token_list@[i]).start_index as int,
                    ),
                tail_skipped(old(self).source(), gap_start(token_list@, token_list@.len() as int, old(self).offset() as int)),
            decreases self.source().len() - self.offset(),
        {
            match self.get_token() {
                Some(token) => {
                    token_list.push(token);
                },
                None => {
                    break;
                },
            }
        }
        token_list
    }

    fn keyword_or_id_token(s: &str) -> (r: TokenType)
        ensures
            r == util::word_kind(s@),
    {
        util::keyword_or_id(s)
    }

    /// Steps back over the character just read.
    fn unget_next_char(&mut self)
        requires
            old(self).cursor > 0,
            old(self).last_line + old(self).last_column < old(self).cursor,
        ensures
            final(self).cursor == old(self).cursor - 1,
            final(self).line == old(self).last_line,
            final(self).column == old(self).last_column,
            final(self).last_line == old(self).last_line,
            final(self).last_column == old(self).last_column,
            final(self).length == old(self).length,
            final(self).file_vec == old(self).file_vec,
            final(self).file == old(self).file,
    {
        self.cursor -= 1;
        self.column = self.last_column;
        self.line = self.last_line;
    }

    /// Moves past the current character.
    fn next_char(&mut self)
        requires
            old(self).cursor < old(self).length,
            old(self).line + old(self).column <= old(self).cursor,
        ensures
            final(self).cursor == old(self).cursor + 1,
            final(self).last_line == old(self).line,
            final(self).last_column == old(self).column,
            final(self).line == old(self).line,
            final(self).column == old(self).column + 1,
            final(self).length == old(self).length,
            final(self).file_vec == old(self).file_vec,
            final(self).file == old(self).file,
    {
        self.cursor += 1;
        self.last_line = self.line;
        self.last_column = self.column;
        self.column += 1;
    }

    /// Moves to the start of the next line, after a newline was read.
    fn new_line(&mut self)
        requires
            old(self).line + old(self).column <= old(self).cursor,
            old(self).column >= 1,
        ensures
            final(self).line == old(self).line + 1,
            final(self).column == 0,
            final(self).last_line == old(self).line,
            final(self).last_column == old(self).last_column,
            final(self).cursor == old(self).cursor,
            final(self).length == old(self).length,
            final(self).file_vec == old(self).file_vec,
            final(self).file == old(self).file,
    {
        self.last_line = self.line;
        self.line += 1;
        self.column = 0;
    }

    /// Reads the next token; `None` once only whitespace, or an unterminated
    /// comment that ends in `*`, is left.
    fn get_token(&mut self) -> (r: Option<Token>)
        requires
            old(self).wf(),
        ensures
            final(self).wf(),
            final(self).source() == old(self).source(),
            old(self).offset() <= final(self).offset(),
            match r {
                Some(t) => {
                    &&& token_in_source(t, old(self).source())
                    &&& token_maximal(t, old(self).source())
                    &&& old(self).offset() <= t.start_index
                    &&& all_whitespace(old(self).source(), old(self).offset() as int, t.start_index as int)
                    &&& t.end_index == final(self).offset()
                },
                None => {
                    &&& final(self).offset() == old(self).source().len()
                    &&& tail_skipped(old(self).source(), old(self).offset() as int)
                },
            },
    {
        if self.cursor == self.length {
            return None;
        }
        let ghost src = self.file_vec@;
        let ghost first = self.cursor;
        let mut result = String::new();
        let mut state = State::Start;
        let mut cur_token_type = TokenType::Error;
        let mut cur_line: usize = 0;
        let mut cur_column: usize = 0;
        let mut flag = false;
        let mut start_index = self.cursor;
        while state != State::Done && self.cursor < self.length
            invariant
                self.wf(),
                self.file_vec@ == src,
                src == old(self).source(),
                first == old(self).offset(),
                first <= self.cursor,
                !flag ==> state == State::Start && result@.len() == 0,
                flag ==> state != State::Start && first <= start_index < self.cursor,
                flag && state != State::Done ==> result@ == src.subrange(start_index as int, self.cursor as int),
                state_text(state, result@),
                state == State::Done ==> result@.len() == 0 && self.cursor == self.length,
                !flag ==> all_whitespace(src, first as int, self.cursor as int),
                flag ==> all_whitespace(src, first as int, start_index as int),
                state == State::Done ==> all_whitespace(src, first as int, self.cursor as int),
                self.cursor == self.length && state != State::Done ==> state == State::InComment
                    || state == State::InEndComment,
            decreases (self.length - self.cursor) * 2 + if state == State::Done { 0int } else { 1int },
        {
            let cur_char = self.file_vec[self.cursor];
            let ghost c0 = self.cursor as int;
            let ghost prev = result@;
            let ghost prev_state = state;
            proof {
                if flag {
                    assert(src.subrange(start_index as int, c0 + 1) =~= src.subrange(start_index as int, c0).push(cur_char));
                }
                assert(src.subrange(c0, c0 + 1) =~= seq![cur_char]);
                assert(seq![cur_char] =~= Seq::<char>::empty().push(cur_char));
            }
            self.next_char();
            let mut save = true;
            let at_end = self.cursor == self.length;
            match state {
                State::Start => {
                    if cur_char == '<' {
                        state = State::InLess;
                        if at_end {
                            state = State::Done;
                            cur_token_type = TokenType::Lt;
                        }
                    } else if cur_char == '/' {
                        state = State::InDivide;
                        if at_end {
                            state = State::Done;
                            cur_token_type = TokenType::Times;
                        }
                    } else if cur_char == '>' {
                        state = State::InGreat;
                        if at_end {
                            state = State::Done;
                            cur_token_type = TokenType::Gt;
                        }
                    } else if cur_char == '!' {
                        state = State::InNotEqual;
                        if at_end {
                            state = State::Done;
                            cur_token_type = TokenType::Error;
                        }
                    } else if cur_char == '=' {
                        state = State::InAssign;
                        if at_end {
                            state = State::Done;
                            cur_token_type = TokenType::Assign;
                        }
                    } else if util::is_digit(cur_char) {
                        state = State::InNum;
                        if at_end {
                            state = State::Done;
                            cur_token_type = TokenType::NumberLiteral;
                        }
                    } else if util::is_letter(cur_char) {
                        state = State::InId;
                        if at_end {
                            state = State::Done;
                            cur_token_type = TokenType::Id;
                        }
                    } else if cur_char == '\n' {
                        self.new_line();
                        save = false;
                        if at_end {
                            state = State::Done;
                        }
                    } else if util::is_whitespace(cur_char) {
                        save = false;
                        if at_end {
                            state = State::Done;
                        }
                    } else {
                        state = State::Done;
                        cur_token_type = match cur_char {
                            '+' => TokenType::Plus,
                            '*' => TokenType::Multiply,
                            '-' => TokenType::Minus,
                            '(' => TokenType::Lparen,
                            ')' => TokenType::Rparen,
                            ';' => TokenType::Semi,
                            ',' => TokenType::Comma,
                            '[' => TokenType::Lbrack,
                            ']' => TokenType::Rbrack,
                            '{' => TokenType::Lbrace,
                            '}' => TokenType::Rbrace,
                            _ => TokenType::Error,
                        };
                    }
                },
                State::InDivide => {
                    if cur_char == '*' {
                        state = State::InComment;
                        if at_end {
                            state = State::Done;
                            cur_token_type = TokenType::Error;
                        }
                    } else {
                        state = State::Done;
                        self.unget_next_char();
                        save = false;
                        cur_token_type = TokenType::Times;
                    }
                },
                State::InNum => {
                    if !util::is_digit(cur_char) {
                        self.unget_next_char();
                        save = false;
                        state = State::Done;
                        cur_token_type = TokenType::NumberLiteral;
                    } else if at_end {
                        state = State::Done;
                        cur_token_type = TokenType::NumberLiteral;
                    }
                },
                State::InId => {
                    if !util::is_letter(cur_char) {
                        self.unget_next_char();
                        save = false;
                        state = State::Done;
                        cur_token_type = TokenType::Id;
                    } else if at_end {
                        state = State::Done;
                        cur_token_type = TokenType::Id;
                    }
                },
                State::InLess | State::InGreat | State::InAssign | State::InNotEqual => {
                    let (with_eq, alone) = match state {
                        State::InLess => (TokenType::Le, TokenType::Lt),
                        State::InGreat => (TokenType::Ge, TokenType::Gt),
                        State::InAssign => (TokenType::Eq, TokenType::Assign),
                        _ => (TokenType::Ne, TokenType::Error),
                    };
                    state = State::Done;
                    if cur_char == '=' {
                        cur_token_type = with_eq;
                    } else {
                        self.unget_next_char();
                        save = false;
                        cur_token_type = alone;
                    }
                },
                State::InComment => {
                    if cur_char == '\n' {
                        self.new_line();
                        if at_end {
                            state = State::Done;
                        }
                    }
                    if cur_char == '*' {
                        state = State::InEndComment;
                    }
                    if at_end {
                        state = State::Done;
                        cur_token_type = TokenType::Error;
                    }
                },
                State::InEndComment => {
                    if cur_char == '/' {
                        state = State::Done;
                        cur_token_type = TokenType::Comment;
                    } else if cur_char != '*' {
                        state = State::InComment;
                        if cur_char == '\n' {
                            self.new_line();
                        }
                    }
                },
                State::Done => {},
            }
            if save {
                push_char(&mut result, cur_char);
            }
            proof {
                if save {
                    assert(result@ == prev.push(cur_char));
                    assert(result@.len() == prev.len() + 1);
                    assert(result@.last() == cur_char);
                    assert(forall|i: int| 0 <= i < prev.len() ==> result@[i] == prev[i]);
                    if prev.len() == 0 {
                        assert(result@ =~= seq![cur_char]);
                    }
                    if prev_state == State::InNum && state == State::InNum {
                        assert forall|i: int| 0 <= i < result@.len() implies util::spec_is_digit(#[trigger] result@[i]) by {
                            if i < prev.len() {
                                assert(result@[i] == prev[i]);
                            }
                        }
                    }
                    if prev_state == State::InId && state == State::InId {
                        assert forall|i: int| 0 <= i < result@.len() implies util::spec_is_letter(#[trigger] result@[i]) by {
                            if i < prev.len() {
                                assert(result@[i] == prev[i]);
                            }
                        }
                    }
                } else {
                    assert(result@ == prev);
                }
                assert(state_text(state, result@));
            }
            if state != State::Start && !flag {
                cur_line = self.last_line;
                cur_column = self.last_column;
                start_index = self.cursor - 1;
                flag = true;
            }
            if state == State::Done && !result.as_str().is_empty() {
                if cur_token_type == TokenType::Id {
                    cur_token_type = Self::keyword_or_id_token(result.as_str());
                }
                assert(first <= start_index);
                assert(start_index < self.cursor);
                assert(self.cursor <= src.len());
                assert(result@ == src.subrange(start_index as int, self.cursor as int));
                return Some(
                    Token::new(
                        cur_token_type,
                        result,
                        Position::new(cur_line, cur_column),
                        Position::new(self.line, self.column),
                        start_index,
                        self.cursor,
                    ),
                );
            }
        }
        proof {
            if state != State::Done {
                assert(result@ == src.subrange(start_index as int, src.len() as int));
                assert(unclosed_comment(src, start_index as int));
            }
        }
        None
    }
}

} // verus!
