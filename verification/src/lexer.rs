//! The lexer: turns source text into positioned tokens.
use vstd::prelude::*;
use crate::text::{chars_of, push_char, str_eq};
use crate::token::{PositionedToken, SPosToken, SToken, Token, tokens_view};
use crate::unicode::{ascii_digit, is_alphabetic, is_alphanumeric, is_ascii_digit, is_whitespace,
    unicode_alphabetic, unicode_alphanumeric, unicode_whitespace};

verus! {

/// Where the lexer stands: the index of the next character, and the line
/// and column of that character (both counted from 1).
pub struct LexState {
    pub pos: int,
    pub line: int,
    pub column: int,
}

/// The character after the one at `pos`, if any.
pub open spec fn peek_char(chars: Seq<char>, pos: int) -> Option<char> {
    if pos + 1 < chars.len() {
        Some(chars[pos + 1])
    } else {
        None
    }
}

/// Steps over one character: a newline starts the next line at column 1,
/// anything else moves one column right. At the end nothing changes.
pub open spec fn advance(chars: Seq<char>, st: LexState) -> LexState {
    if 0 <= st.pos < chars.len() {
        if chars[st.pos] == '\n' {
            LexState { pos: st.pos + 1, line: st.line + 1, column: 1 }
        } else {
            LexState { pos: st.pos + 1, line: st.line, column: st.column + 1 }
        }
    } else {
        st
    }
}

/// Skips to the next newline (which stays unread) or the end.
pub open spec fn skip_line(chars: Seq<char>, st: LexState) -> LexState
    decreases chars.len() - st.pos,
{
    if 0 <= st.pos < chars.len() && chars[st.pos] != '\n' {
        skip_line(chars, advance(chars, st))
    } else {
        st
    }
}

/// Skips the rest of a block comment, up to and including `*/`, or to the
/// end when it is not closed.
pub open spec fn skip_block(chars: Seq<char>, st: LexState) -> LexState
    decreases chars.len() - st.pos,
{
    if 0 <= st.pos < chars.len() {
        if chars[st.pos] == '*' && peek_char(chars, st.pos) == Some('/') {
            advance(chars, advance(chars, st))
        } else {
            skip_block(chars, advance(chars, st))
        }
    } else {
        st
    }
}

/// Reads the body of a string literal up to the closing quote (left
/// unread) or the end.
pub open spec fn scan_string(chars: Seq<char>, st: LexState, acc: Seq<char>) -> (Seq<char>, LexState)
    decreases chars.len() - st.pos,
{
    if 0 <= st.pos < chars.len() && chars[st.pos] != '"' {
        scan_string(chars, advance(chars, st), acc.push(chars[st.pos]))
    } else {
        (acc, st)
    }
}

/// Reads digits and at most one decimal point.
pub open spec fn scan_number(chars: Seq<char>, st: LexState, acc: Seq<char>, has_decimal: bool) -> (Seq<char>, LexState)
    decreases chars.len() - st.pos,
{
    if 0 <= st.pos < chars.len() {
        let c = chars[st.pos];
        if c == '.' && !has_decimal {
            scan_number(chars, advance(chars, st), acc.push(c), true)
        } else if ascii_digit(c) {
            scan_number(chars, advance(chars, st), acc.push(c), has_decimal)
        } else {
            (acc, st)
        }
    } else {
        (acc, st)
    }
}

/// Reads letters, digits and underscores.
pub open spec fn scan_ident(chars: Seq<char>, st: LexState, acc: Seq<char>) -> (Seq<char>, LexState)
    decreases chars.len() - st.pos,
{
    if 0 <= st.pos < chars.len() && (unicode_alphanumeric(chars[st.pos]) || chars[st.pos] == '_') {
        scan_ident(chars, advance(chars, st), acc.push(chars[st.pos]))
    } else {
        (acc, st)
    }
}

/// The keyword a word spells, or an identifier.
pub open spec fn keyword_token(s: Seq<char>) -> SToken {
    if s == "START"@ {
        SToken::Start
    } else if s == "END"@ {
        SToken::End
    } else if s == "INPUT"@ {
        SToken::Input
    } else if s == "OUTPUT"@ {
        SToken::Output
    } else if s == "IF"@ {
        SToken::If
    } else if s == "THEN"@ {
        SToken::Then
    } else if s == "ELSE"@ {
        SToken::Else
    } else if s == "ELSEIF"@ {
        SToken::ElseIf
    } else if s == "ENDIF"@ {
        SToken::EndIf
    } else if s == "FOR"@ {
        SToken::For
    } else if s == "TO"@ {
        SToken::To
    } else if s == "ENDFOR"@ {
        SToken::EndFor
    } else if s == "WHILE"@ {
        SToken::While
    } else if s == "ENDWHILE"@ {
        SToken::EndWhile
    } else if s == "DECLARE"@ {
        SToken::Declare
    } else if s == "AND"@ {
        SToken::And
    } else if s == "OR"@ {
        SToken::Or
    } else if s == "NOT"@ {
        SToken::Not
    } else if s == "TRUE"@ {
        SToken::Boolean(true)
    } else if s == "FALSE"@ {
        SToken::Boolean(false)
    } else if s == "FUNCTION"@ {
        SToken::Function
    } else if s == "ENDFUNCTION"@ {
        SToken::EndFunction
    } else if s == "RETURN"@ {
        SToken::Return
    } else if s == "IMPORT"@ {
        SToken::Import
    } else if s == "PUB"@ {
        SToken::Pub
    } else if s == "CONST"@ {
        SToken::Const
    } else if s == "STATIC"@ {
        SToken::Static
    } else {
        SToken::Identifier(s)
    }
}

/// An operator or punctuation token starting at `st`, and where the lexer
/// stands after it; an unknown character is skipped and gives no token.
pub open spec fn operator_token(chars: Seq<char>, st: LexState) -> (Option<SToken>, LexState) {
    let ch = chars[st.pos];
    let one = advance(chars, st);
    let two = advance(chars, one);
    let next_is_eq = peek_char(chars, st.pos) == Some('=');
    if ch == '+' {
        (Some(SToken::Plus), one)
    } else if ch == '-' {
        (Some(SToken::Minus), one)
    } else if ch == '*' {
        (Some(SToken::Star), one)
    } else if ch == '/' {
        (Some(SToken::Slash), one)
    } else if ch == '%' {
        (Some(SToken::Percent), one)
    } else if ch == '^' {
        (Some(SToken::Caret), one)
    } else if ch == '=' {
        if next_is_eq { (Some(SToken::Eq), two) } else { (Some(SToken::Assign), one) }
    } else if ch == '<' {
        if next_is_eq { (Some(SToken::LessEqual), two) } else { (Some(SToken::LessThan), one) }
    } else if ch == '>' {
        if next_is_eq { (Some(SToken::GreaterEqual), two) } else { (Some(SToken::GreaterThan), one) }
    } else if ch == '!' {
        if next_is_eq { (Some(SToken::NotEqual), two) } else { (Some(SToken::Not), one) }
    } else if ch == '[' {
        (Some(SToken::LeftBracket), one)
    } else if ch == ']' {
        (Some(SToken::RightBracket), one)
    } else if ch == ',' {
        (Some(SToken::Comma), one)
    } else if ch == '(' {
        (Some(SToken::LeftParen), one)
    } else if ch == ')' {
        (Some(SToken::RightParen), one)
    } else {
        (None, one)
    }
}

/// A token placed at `st`.
pub open spec fn at(t: SToken, st: LexState) -> SPosToken {
    SPosToken { token: t, line: st.line as usize, column: st.column as usize }
}

/// Whether a number literal starts at `pos`: a digit, or a point followed
/// by a digit.
pub open spec fn starts_number(chars: Seq<char>, pos: int) -> bool {
    ascii_digit(chars[pos]) || (chars[pos] == '.' && match peek_char(chars, pos) {
        Some(c) => ascii_digit(c),
        None => false,
    })
}

/// Whether `after` lies strictly past `st` and within the input.
pub open spec fn progressed(chars: Seq<char>, st: LexState, after: LexState) -> bool {
    st.pos < after.pos <= chars.len()
}

/// The tokens of `chars` from `st` on, ending with `EOF` at the position
/// where the input ends. Whitespace other than newlines and comments (`//`,
/// `#` and `/* */`) give no token; every newline gives a `Newline`.
///
/// Every branch reads at least one character; the `pos` comparisons make
/// that visible to the termination measure and are always true.
pub open spec fn lex_from(chars: Seq<char>, st: LexState) -> Seq<SPosToken>
    decreases chars.len() - st.pos,
{
    if st.pos < 0 || st.pos >= chars.len() {
        seq![at(SToken::EOF, st)]
    } else {
        let ch = chars[st.pos];
        let next = advance(chars, st);
        if unicode_whitespace(ch) && ch != '\n' {
            lex_from(chars, next)
        } else if ch == '\n' {
            seq![at(SToken::Newline, st)] + lex_from(chars, next)
        } else if ch == '/' && peek_char(chars, st.pos) == Some('/') || ch == '#' {
            let after = skip_line(chars, st);
            if progressed(chars, st, after) { lex_from(chars, after) } else { seq![at(SToken::EOF, st)] }
        } else if ch == '/' && peek_char(chars, st.pos) == Some('*') {
            let after = skip_block(chars, advance(chars, next));
            if progressed(chars, st, after) { lex_from(chars, after) } else { seq![at(SToken::EOF, st)] }
        } else if ch == '"' {
            let (body, close) = scan_string(chars, next, Seq::empty());
            let after = if close.pos < chars.len() { advance(chars, close) } else { close };
            if progressed(chars, st, after) {
                seq![at(SToken::StringLiteral(body), st)] + lex_from(chars, after)
            } else {
                seq![at(SToken::EOF, st)]
            }
        } else if starts_number(chars, st.pos) {
            let (digits, after) = scan_number(chars, st, Seq::empty(), false);
            if progressed(chars, st, after) {
                seq![at(SToken::Number(digits), st)] + lex_from(chars, after)
            } else {
                seq![at(SToken::EOF, st)]
            }
        } else if unicode_alphabetic(ch) || ch == '_' {
            let (word, after) = scan_ident(chars, st, Seq::empty());
            if progressed(chars, st, after) {
                seq![at(keyword_token(word), st)] + lex_from(chars, after)
            } else {
                seq![at(SToken::EOF, st)]
            }
        } else {
            let (tok, after) = operator_token(chars, st);
            if progressed(chars, st, after) {
                match tok {
                    Some(t) => seq![at(t, st)] + lex_from(chars, after),
                    None => lex_from(chars, after),
                }
            } else {
                seq![at(SToken::EOF, st)]
            }
        }
    }
}

/// The tokens of a whole source text.
pub open spec fn tokenize_spec(source: Seq<char>) -> Seq<SPosToken> {
    lex_from(source, LexState { pos: 0, line: 1, column: 1 })
}

/// Scans source text character by character.
pub struct Lexer {
    position: usize,
    chars: Vec<char>,
    line: usize,
    column: usize,
}

impl Lexer {
    /// The characters being scanned.
    pub closed spec fn source(&self) -> Seq<char> {
        self.chars@
    }

    /// Where the lexer stands.
    pub closed spec fn state(&self) -> LexState {
        LexState { pos: self.position as int, line: self.line as int, column: self.column as int }
    }

    /// The lexer's own bookkeeping is consistent and no line or column
    /// count can overflow before the input ends.
    pub closed spec fn wf(&self) -> bool {
        &&& self.position <= self.chars.len()
        &&& self.line >= 1
        &&& self.column >= 1
        &&& self.line + (self.chars.len() - self.position) <= usize::MAX
        &&& self.column + (self.chars.len() - self.position) <= usize::MAX
    }

    /// A lexer at the start of `input` (line 1, column 1).
    pub fn new(input: String) -> (r: Self)
        requires
            input@.len() < usize::MAX,
        ensures
            r.wf(),
            r.source() == input@,
            r.state() == (LexState { pos: 0, line: 1, column: 1 }),
    {
        let chars = chars_of(input.as_str());
        Lexer { position: 0, chars, line: 1, column: 1 }
    }

    /// The tokens of the rest of the input, ending with `EOF`.
    pub fn tokenize(&mut self) -> (tokens: Vec<PositionedToken>)
        requires
            old(self).wf(),
        ensures
            final(self).wf(),
            final(self).source() == old(self).source(),
            tokens_view(tokens@) == lex_from(old(self).source(), old(self).state()),
    {
        let ghost chars = self.chars@;
        let ghost start = self.state();
        let mut tokens: Vec<PositionedToken> = Vec::new();
        while self.position < self.chars.len()
            invariant
                self.wf(),
                self.chars@ == chars,
                tokens_view(tokens@) + lex_from(chars, self.state()) == lex_from(chars, start),
            decreases self.chars.len() - self.position,
        {
            let ghost before = self.state();
            let ghost emitted = tokens_view(tokens@);
            let ghost old_tokens = tokens@;
            let ch = self.chars[self.position];
            if is_whitespace(ch) && ch != '\n' {
                self.advance_char();
                continue;
            }
            if ch == '\n' {
                let line = self.line;
                let column = self.column;
                self.advance_char();
                tokens.push(PositionedToken { token: Token::Newline, line, column });
                proof { lemma_emit(old_tokens, tokens@, emitted, lex_from(chars, self.state()), tokens@.last()); }
                continue;
            }
            let next = self.peek();
            if ch == '/' && next == Some('/') || ch == '#' {
                while self.position < self.chars.len() && self.chars[self.position] != '\n'
                    invariant
                        self.wf(),
                        self.chars@ == chars,
                        self.position >= before.pos,
                        skip_line(chars, self.state()) == skip_line(chars, before),
                    decreases self.chars.len() - self.position,
                {
                    self.advance_char();
                }
                continue;
            }
            if ch == '/' && next == Some('*') {
                self.advance_char();
                self.advance_char();
                let ghost opened = self.state();
                loop
                    invariant_except_break
                        self.wf(),
                        self.chars@ == chars,
                        self.position > before.pos,
                        skip_block(chars, self.state()) == skip_block(chars, opened),
                    ensures
                        self.wf(),
                        self.chars@ == chars,
                        self.position > before.pos,
                        self.state() == skip_block(chars, opened),
                    decreases self.chars.len() - self.position,
                {
                    if self.position >= self.chars.len() {
                        break;
                    }
                    if self.chars[self.position] == '*' && self.peek() == Some('/') {
                        self.advance_char();
                        self.advance_char();
                        break;
                    }
                    self.advance_char();
                }
                continue;
            }
            if ch == '"' {
                let line = self.line;
                let column = self.column;
                let mut body = String::new();
                self.advance_char();
                let ghost opened = self.state();
                while self.position < self.chars.len() && self.chars[self.position] != '"'
                    invariant
                        self.wf(),
                        self.chars@ == chars,
                        self.position > before.pos,
                        scan_string(chars, self.state(), body@) == scan_string(chars, opened, Seq::empty()),
                    decreases self.chars.len() - self.position,
                {
                    push_char(&mut body, self.chars[self.position]);
                    self.advance_char();
                }
                if self.position < self.chars.len() {
                    self.advance_char();
                }
                tokens.push(PositionedToken { token: Token::StringLiteral(body), line, column });
                proof { lemma_emit(old_tokens, tokens@, emitted, lex_from(chars, self.state()), tokens@.last()); }
                continue;
            }
            let number_start = is_ascii_digit(ch) || (ch == '.' && match next {
                Some(c) => is_ascii_digit(c),
                None => false,
            });
            if number_start {
                let line = self.line;
                let column = self.column;
                let mut digits = String::new();
                let mut has_decimal = false;
                loop
                    invariant_except_break
                        self.wf(),
                        self.chars@ == chars,
                        self.position >= before.pos,
                        has_decimal ==> self.position > before.pos,
                        self.position == before.pos ==> digits@.len() == 0 && !has_decimal,
                        0 <= before.pos < chars.len(),
                        chars[before.pos] == ch,
                        ascii_digit(ch) || ch == '.',
                        scan_number(chars, self.state(), digits@, has_decimal) == scan_number(chars, before, Seq::empty(), false),
                    ensures
                        self.wf(),
                        self.chars@ == chars,
                        self.position > before.pos,
                        (digits@, self.state()) == scan_number(chars, before, Seq::empty(), false),
                    decreases self.chars.len() - self.position,
                {
                    if self.position >= self.chars.len() {
                        break;
                    }
                    let c = self.chars[self.position];
                    if c == '.' && !has_decimal {
                        push_char(&mut digits, c);
                        has_decimal = true;
                        self.advance_char();
                    } else if is_ascii_digit(c) {
                        push_char(&mut digits, c);
                        self.advance_char();
                    } else {
                        break;
                    }
                }
                tokens.push(PositionedToken { token: Token::Number(digits), line, column });
                proof { lemma_emit(old_tokens, tokens@, emitted, lex_from(chars, self.state()), tokens@.last()); }
                continue;
            }
            if is_alphabetic(ch) || ch == '_' {
                let line = self.line;
                let column = self.column;
                let mut word = String::new();
                loop
                    invariant_except_break
                        self.wf(),
                        self.chars@ == chars,
                        self.position >= before.pos,
                        self.position == before.pos ==> word@.len() == 0,
                        0 <= before.pos < chars.len(),
                        chars[before.pos] == ch,
                        unicode_alphabetic(ch) || ch == '_',
                        scan_ident(chars, self.state(), word@) == scan_ident(chars, before, Seq::empty()),
                    ensures
                        self.wf(),
                        self.chars@ == chars,
                        self.position > before.pos,
                        (word@, self.state()) == scan_ident(chars, before, Seq::empty()),
                    decreases self.chars.len() - self.position,
                {
                    if self.position >= self.chars.len() {
                        break;
                    }
                    let c = self.chars[self.position];
                    if is_alphanumeric(c) || c == '_' {
                        push_char(&mut word, c);
                        self.advance_char();
                    } else {
                        break;
                    }
                }
                let token = keyword_or_identifier(word);
                tokens.push(PositionedToken { token, line, column });
                proof { lemma_emit(old_tokens, tokens@, emitted, lex_from(chars, self.state()), tokens@.last()); }
                continue;
            }
            let line = self.line;
            let column = self.column;
            match self.operator() {
                Some(token) => {
                    tokens.push(PositionedToken { token, line, column });
                    proof { lemma_emit(old_tokens, tokens@, emitted, lex_from(chars, self.state()), tokens@.last()); }
                },
                None => {},
            }
        }
        tokens.push(PositionedToken { token: Token::EOF, line: self.line, column: self.column });
        tokens
    }


    /// Reads an operator or punctuation character (see `operator_token`).
    fn operator(&mut self) -> (r: Option<Token>)
        requires
            old(self).wf(),
            old(self).position < old(self).chars.len(),
        ensures
            final(self).wf(),
            final(self).chars@ == old(self).chars@,
            (match r { Some(t) => Some(t@), None => None::<SToken> }, final(self).state())
                == operator_token(old(self).chars@, old(self).state()),
    {
        let ch = self.chars[self.position];
        let next_is_eq = self.peek() == Some('=');
        if ch == '+' || ch == '-' || ch == '*' || ch == '/' || ch == '%' || ch == '^' || ch == '['
            || ch == ']' || ch == ',' || ch == '(' || ch == ')' {
            self.advance_char();
            Some(if ch == '+' {
                Token::Plus
            } else if ch == '-' {
                Token::Minus
            } else if ch == '*' {
                Token::Star
            } else if ch == '/' {
                Token::Slash
            } else if ch == '%' {
                Token::Percent
            } else if ch == '^' {
                Token::Caret
            } else if ch == '[' {
                Token::LeftBracket
            } else if ch == ']' {
                Token::RightBracket
            } else if ch == ',' {
                Token::Comma
            } else if ch == '(' {
                Token::LeftParen
            } else {
                Token::RightParen
            })
        } else if ch == '=' || ch == '<' || ch == '>' || ch == '!' {
            self.advance_char();
            if next_is_eq {
                self.advance_char();
            }
            Some(if ch == '=' {
                if next_is_eq { Token::Eq } else { Token::Assign }
            } else if ch == '<' {
                if next_is_eq { Token::LessEqual } else { Token::LessThan }
            } else if ch == '>' {
                if next_is_eq { Token::GreaterEqual } else { Token::GreaterThan }
            } else {
                if next_is_eq { Token::NotEqual } else { Token::Not }
            })
        } else {
            self.advance_char();
            None
        }
    }

    /// The character after the current one, if any.
    pub fn peek(&self) -> (r: Option<char>)
        requires
            self.wf(),
        ensures
            r == peek_char(self.source(), self.state().pos as int),
    {
        if self.position < self.chars.len() && self.chars.len() - self.position > 1 {
            Some(self.chars[self.position + 1])
        } else {
            None
        }
    }

    /// Advances position by one character, updating line/column tracking.
    pub fn advance_char(&mut self)
        requires
            old(self).wf(),
        ensures
            final(self).wf(),
            final(self).source() == old(self).source(),
            final(self).state() == advance(old(self).source(), old(self).state()),
    {
        if self.position < self.chars.len() {
            if self.chars[self.position] == '\n' {
                self.line = self.line + 1;
                self.column = 1;
            } else {
                self.column = self.column + 1;
            }
            self.position = self.position + 1;
        }
    }
}

/// Pushing one token onto the emitted ones.
proof fn lemma_emit(old_tokens: Seq<PositionedToken>, tokens: Seq<PositionedToken>, emitted: Seq<SPosToken>, rest: Seq<SPosToken>, x: PositionedToken)
    requires
        emitted == tokens_view(old_tokens),
        tokens == old_tokens.push(x),
    ensures
        tokens_view(tokens) + rest == emitted + (seq![tokens.last()@] + rest),
{
    assert(tokens_view(tokens) =~= tokens_view(old_tokens).push(tokens.last()@));
    assert(emitted.push(tokens.last()@) + rest =~= emitted + (seq![tokens.last()@] + rest));
}

/// The keyword a word spells, or an identifier holding the word.
pub fn keyword_or_identifier(ident: String) -> (t: Token)
    ensures
        t@ == keyword_token(ident@),
{
    let s = ident.as_str();
    if str_eq(s, "START") {
        Token::Start
    } else if str_eq(s, "END") {
        Token::End
    } else if str_eq(s, "INPUT") {
        Token::Input
    } else if str_eq(s, "OUTPUT") {
        Token::Output
    } else if str_eq(s, "IF") {
        Token::If
    } else if str_eq(s, "THEN") {
        Token::Then
    } else if str_eq(s, "ELSE") {
        Token::Else
    } else if str_eq(s, "ELSEIF") {
        Token::ElseIf
    } else if str_eq(s, "ENDIF") {
        Token::EndIf
    } else if str_eq(s, "FOR") {
        Token::For
    } else if str_eq(s, "TO") {
        Token::To
    } else if str_eq(s, "ENDFOR") {
        Token::EndFor
    } else if str_eq(s, "WHILE") {
        Token::While
    } else if str_eq(s, "ENDWHILE") {
        Token::EndWhile
    } else if str_eq(s, "DECLARE") {
        Token::Declare
    } else if str_eq(s, "AND") {
        Token::And
    } else if str_eq(s, "OR") {
        Token::Or
    } else if str_eq(s, "NOT") {
        Token::Not
    } else if str_eq(s, "TRUE") {
        Token::Boolean(true)
    } else if str_eq(s, "FALSE") {
        Token::Boolean(false)
    } else if str_eq(s, "FUNCTION") {
        Token::Function
    } else if str_eq(s, "ENDFUNCTION") {
        Token::EndFunction
    } else if str_eq(s, "RETURN") {
        Token::Return
    } else if str_eq(s, "IMPORT") {
        Token::Import
    } else if str_eq(s, "PUB") {
        Token::Pub
    } else if str_eq(s, "CONST") {
        Token::Const
    } else if str_eq(s, "STATIC") {
        Token::Static
    } else {
        Token::Identifier(ident)
    }
}

} // verus!

verus! {

/// The tokens of any input, from any position, end with exactly one `EOF`:
/// the last token is `EOF` and no earlier token is.
pub proof fn lemma_single_trailing_eof(chars: Seq<char>, st: LexState)
    ensures
        lex_from(chars, st).len() >= 1,
        lex_from(chars, st).last().token == SToken::EOF,
        forall|i: int| 0 <= i < lex_from(chars, st).len() - 1 ==> lex_from(chars, st)[i].token != SToken::EOF,
    decreases chars.len() - st.pos,
{
    if st.pos < 0 || st.pos >= chars.len() {
    } else {
        let ch = chars[st.pos];
        let next = advance(chars, st);
        if unicode_whitespace(ch) && ch != '\n' {
            lemma_single_trailing_eof(chars, next);
        } else if ch == '\n' {
            lemma_single_trailing_eof(chars, next);
            lemma_prepend_keeps_eof(at(SToken::Newline, st), lex_from(chars, next));
        } else if ch == '/' && peek_char(chars, st.pos) == Some('/') || ch == '#' {
            let after = skip_line(chars, st);
            if progressed(chars, st, after) {
                lemma_single_trailing_eof(chars, after);
            }
        } else if ch == '/' && peek_char(chars, st.pos) == Some('*') {
            let after = skip_block(chars, advance(chars, next));
            if progressed(chars, st, after) {
                lemma_single_trailing_eof(chars, after);
            }
        } else if ch == '"' {
            let (body, close) = scan_string(chars, next, Seq::empty());
            let after = if close.pos < chars.len() { advance(chars, close) } else { close };
            if progressed(chars, st, after) {
                lemma_single_trailing_eof(chars, after);
                lemma_prepend_keeps_eof(at(SToken::StringLiteral(body), st), lex_from(chars, after));
            }
        } else if starts_number(chars, st.pos) {
            let (digits, after) = scan_number(chars, st, Seq::empty(), false);
            if progressed(chars, st, after) {
                lemma_single_trailing_eof(chars, after);
                lemma_prepend_keeps_eof(at(SToken::Number(digits), st), lex_from(chars, after));
            }
        } else if unicode_alphabetic(ch) || ch == '_' {
            let (word, after) = scan_ident(chars, st, Seq::empty());
            if progressed(chars, st, after) {
                lemma_single_trailing_eof(chars, after);
                lemma_prepend_keeps_eof(at(keyword_token(word), st), lex_from(chars, after));
            }
        } else {
            let (tok, after) = operator_token(chars, st);
            if progressed(chars, st, after) {
                lemma_single_trailing_eof(chars, after);
                if let Some(t) = tok {
                    lemma_prepend_keeps_eof(at(t, st), lex_from(chars, after));
                }
            }
        }
    }
}

proof fn lemma_prepend_keeps_eof(t: SPosToken, rest: Seq<SPosToken>)
    requires
        t.token != SToken::EOF,
        rest.len() >= 1,
        rest.last().token == SToken::EOF,
        forall|i: int| 0 <= i < rest.len() - 1 ==> rest[i].token != SToken::EOF,
    ensures
        (seq![t] + rest).len() >= 1,
        (seq![t] + rest).last().token == SToken::EOF,
        forall|i: int| 0 <= i < (seq![t] + rest).len() - 1 ==> (seq![t] + rest)[i].token != SToken::EOF,
{
    assert forall|i: int| 0 <= i < (seq![t] + rest).len() - 1 implies (seq![t] + rest)[i].token != SToken::EOF by {
        if i > 0 {
            assert((seq![t] + rest)[i] == rest[i - 1]);
        }
    }
}

/// Each operator or punctuation token is spelled by exactly the characters
/// it was read from: the lexer steps over the token's own text (one or two
/// characters) and no further. The one exception is a lone `!`, which reads
/// as `NOT`. An unknown character gives no token and is stepped over alone.
pub proof fn lemma_operator_spelling(chars: Seq<char>, st: LexState)
    requires
        0 <= st.pos < chars.len(),
    ensures
        ({
            let (tok, after) = operator_token(chars, st);
            match tok {
                Some(t) => after.pos <= chars.len() && if t == SToken::Not {
                    chars[st.pos] == '!' && after.pos == st.pos + 1
                } else {
                    chars.subrange(st.pos, after.pos) == t.text()
                },
                None => after.pos == st.pos + 1,
            }
        }),
{
    reveal_strlit("+");
    reveal_strlit("-");
    reveal_strlit("*");
    reveal_strlit("/");
    reveal_strlit("%");
    reveal_strlit("^");
    reveal_strlit("==");
    reveal_strlit("=");
    reveal_strlit("<=");
    reveal_strlit("<");
    reveal_strlit(">=");
    reveal_strlit(">");
    reveal_strlit("!=");
    reveal_strlit("!");
    reveal_strlit("[");
    reveal_strlit("]");
    reveal_strlit(",");
    reveal_strlit("(");
    reveal_strlit(")");
    let (tok, after) = operator_token(chars, st);
    let ch = chars[st.pos];
    if let Some(t) = tok {
        if after.pos == st.pos + 1 {
            if ch == '+' {
                assert(t.text() =~= seq![ch]);
            } else if ch == '-' {
                assert(t.text() =~= seq![ch]);
            } else if ch == '*' {
                assert(t.text() =~= seq![ch]);
            } else if ch == '/' {
                assert(t.text() =~= seq![ch]);
            } else if ch == '%' {
                assert(t.text() =~= seq![ch]);
            } else if ch == '^' {
                assert(t.text() =~= seq![ch]);
            } else if ch == '=' {
                assert(t.text() =~= seq![ch]);
            } else if ch == '<' {
                assert(t.text() =~= seq![ch]);
            } else if ch == '>' {
                assert(t.text() =~= seq![ch]);
            } else if ch == '[' {
                assert(t.text() =~= seq![ch]);
            } else if ch == ']' {
                assert(t.text() =~= seq![ch]);
            } else if ch == ',' {
                assert(t.text() =~= seq![ch]);
            } else if ch == '(' {
                assert(t.text() =~= seq![ch]);
            } else if ch == ')' {
                assert(t.text() =~= seq![ch]);
            }
            assert(chars.subrange(st.pos, after.pos) =~= seq![ch]);
        } else {
            assert(peek_char(chars, st.pos) == Some('='));
            assert(t.text() =~= seq![ch, '=']);
            assert(chars.subrange(st.pos, after.pos) =~= seq![ch, chars[st.pos + 1]]);
        }
    }
}

/// A word reads as the keyword it spells, and as an identifier of itself
/// when it spells none: the token's text is the word. The two truth
/// values, written `TRUE` and `FALSE`, read as booleans.
pub proof fn lemma_keyword_spelling(s: Seq<char>)
    ensures
        match keyword_token(s) {
            SToken::Boolean(b) => s == (if b { "TRUE"@ } else { "FALSE"@ }),
            t => t.text() == s,
        },
{
}

} // verus!
