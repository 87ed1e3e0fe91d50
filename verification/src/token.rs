//! Tokens of the language, their positions and their printed form.
use vstd::prelude::*;
use vstd::string::StringExecFns;
use crate::number::{display_number, number_display};

verus! {

/// One token. Keywords and operators carry nothing; identifiers, string
/// literals and number literals carry their text as written (a number
/// literal is its digits, with at most one decimal point).
#[derive(Debug, Clone, PartialEq)]
pub enum Token {
    // Keywords
    Start,
    End,
    Input,
    Output,
    If,
    Then,
    Else,
    ElseIf,
    EndIf,
    For,
    To,
    EndFor,
    While,
    EndWhile,
    Declare,
    Function,
    EndFunction,
    Return,
    Import,
    Pub,
    Const,
    Static,
    // Operators
    Plus,
    Minus,
    Star,
    Slash,
    Percent,
    Caret,
    Eq,
    Assign,
    LessThan,
    GreaterThan,
    LessEqual,
    GreaterEqual,
    NotEqual,
    // Brackets and punctuation
    LeftBracket,
    RightBracket,
    LeftParen,
    RightParen,
    Comma,
    // Logical
    And,
    Or,
    Not,
    // Values
    Identifier(String),
    Number(String),
    StringLiteral(String),
    Boolean(bool),
    // Structure
    Newline,
    EOF,
}

/// A token together with the line and column where it starts.
#[derive(Debug, Clone, PartialEq)]
pub struct PositionedToken {
    pub token: Token,
    pub line: usize,
    pub column: usize,
}

/// The mathematical value of a token: the same variants, with text as
/// character sequences.
pub enum SToken {
    Start,
    End,
    Input,
    Output,
    If,
    Then,
    Else,
    ElseIf,
    EndIf,
    For,
    To,
    EndFor,
    While,
    EndWhile,
    Declare,
    Function,
    EndFunction,
    Return,
    Import,
    Pub,
    Const,
    Static,
    Plus,
    Minus,
    Star,
    Slash,
    Percent,
    Caret,
    Eq,
    Assign,
    LessThan,
    GreaterThan,
    LessEqual,
    GreaterEqual,
    NotEqual,
    LeftBracket,
    RightBracket,
    LeftParen,
    RightParen,
    Comma,
    And,
    Or,
    Not,
    Identifier(Seq<char>),
    Number(Seq<char>),
    StringLiteral(Seq<char>),
    Boolean(bool),
    Newline,
    EOF,
}

/// The mathematical value of a positioned token.
pub struct SPosToken {
    pub token: SToken,
    pub line: usize,
    pub column: usize,
}

impl View for Token {
    type V = SToken;

    open spec fn view(&self) -> SToken {
        match self {
            Token::Start => SToken::Start,
            Token::End => SToken::End,
            Token::Input => SToken::Input,
            Token::Output => SToken::Output,
            Token::If => SToken::If,
            Token::Then => SToken::Then,
            Token::Else => SToken::Else,
            Token::ElseIf => SToken::ElseIf,
            Token::EndIf => SToken::EndIf,
            Token::For => SToken::For,
            Token::To => SToken::To,
            Token::EndFor => SToken::EndFor,
            Token::While => SToken::While,
            Token::EndWhile => SToken::EndWhile,
            Token::Declare => SToken::Declare,
            Token::Function => SToken::Function,
            Token::EndFunction => SToken::EndFunction,
            Token::Return => SToken::Return,
            Token::Import => SToken::Import,
            Token::Pub => SToken::Pub,
            Token::Const => SToken::Const,
            Token::Static => SToken::Static,
            Token::Plus => SToken::Plus,
            Token::Minus => SToken::Minus,
            Token::Star => SToken::Star,
            Token::Slash => SToken::Slash,
            Token::Percent => SToken::Percent,
            Token::Caret => SToken::Caret,
            Token::Eq => SToken::Eq,
            Token::Assign => SToken::Assign,
            Token::LessThan => SToken::LessThan,
            Token::GreaterThan => SToken::GreaterThan,
            Token::LessEqual => SToken::LessEqual,
            Token::GreaterEqual => SToken::GreaterEqual,
            Token::NotEqual => SToken::NotEqual,
            Token::LeftBracket => SToken::LeftBracket,
            Token::RightBracket => SToken::RightBracket,
            Token::LeftParen => SToken::LeftParen,
            Token::RightParen => SToken::RightParen,
            Token::Comma => SToken::Comma,
            Token::And => SToken::And,
            Token::Or => SToken::Or,
            Token::Not => SToken::Not,
            Token::Identifier(s) => SToken::Identifier(s@),
            Token::Number(s) => SToken::Number(s@),
            Token::StringLiteral(s) => SToken::StringLiteral(s@),
            Token::Boolean(b) => SToken::Boolean(*b),
            Token::Newline => SToken::Newline,
            Token::EOF => SToken::EOF,
        }
    }
}

impl View for PositionedToken {
    type V = SPosToken;

    open spec fn view(&self) -> SPosToken {
        SPosToken { token: self.token@, line: self.line, column: self.column }
    }
}

/// The views of a sequence of positioned tokens.
pub open spec fn tokens_view(v: Seq<PositionedToken>) -> Seq<SPosToken> {
    v.map_values(|t: PositionedToken| t@)
}

impl SToken {
    /// Tokens that carry no text.
    pub open spec fn is_plain(self) -> bool {
        !(self is Identifier || self is Number || self is StringLiteral || self is Boolean)
    }

    /// A number for each variant.
    pub open spec fn tag(self) -> u8 {
        match self {
            SToken::Start => 0u8,
            SToken::End => 1u8,
            SToken::Input => 2u8,
            SToken::Output => 3u8,
            SToken::If => 4u8,
            SToken::Then => 5u8,
            SToken::Else => 6u8,
            SToken::ElseIf => 7u8,
            SToken::EndIf => 8u8,
            SToken::For => 9u8,
            SToken::To => 10u8,
            SToken::EndFor => 11u8,
            SToken::While => 12u8,
            SToken::EndWhile => 13u8,
            SToken::Declare => 14u8,
            SToken::Function => 15u8,
            SToken::EndFunction => 16u8,
            SToken::Return => 17u8,
            SToken::Import => 18u8,
            SToken::Pub => 19u8,
            SToken::Const => 20u8,
            SToken::Static => 21u8,
            SToken::Plus => 22u8,
            SToken::Minus => 23u8,
            SToken::Star => 24u8,
            SToken::Slash => 25u8,
            SToken::Percent => 26u8,
            SToken::Caret => 27u8,
            SToken::Eq => 28u8,
            SToken::Assign => 29u8,
            SToken::LessThan => 30u8,
            SToken::GreaterThan => 31u8,
            SToken::LessEqual => 32u8,
            SToken::GreaterEqual => 33u8,
            SToken::NotEqual => 34u8,
            SToken::LeftBracket => 35u8,
            SToken::RightBracket => 36u8,
            SToken::LeftParen => 37u8,
            SToken::RightParen => 38u8,
            SToken::Comma => 39u8,
            SToken::And => 40u8,
            SToken::Or => 41u8,
            SToken::Not => 42u8,
            SToken::Identifier(_) => 43u8,
            SToken::Number(_) => 44u8,
            SToken::StringLiteral(_) => 45u8,
            SToken::Boolean(_) => 46u8,
            SToken::Newline => 47u8,
            SToken::EOF => 48u8,
        }
    }

    /// How the token prints.
    pub open spec fn text(self) -> Seq<char> {
        match self {
            SToken::Start => "START"@,
            SToken::End => "END"@,
            SToken::Input => "INPUT"@,
            SToken::Output => "OUTPUT"@,
            SToken::If => "IF"@,
            SToken::Then => "THEN"@,
            SToken::Else => "ELSE"@,
            SToken::ElseIf => "ELSEIF"@,
            SToken::EndIf => "ENDIF"@,
            SToken::For => "FOR"@,
            SToken::To => "TO"@,
            SToken::EndFor => "ENDFOR"@,
            SToken::While => "WHILE"@,
            SToken::EndWhile => "ENDWHILE"@,
            SToken::Declare => "DECLARE"@,
            SToken::Function => "FUNCTION"@,
            SToken::EndFunction => "ENDFUNCTION"@,
            SToken::Return => "RETURN"@,
            SToken::Import => "IMPORT"@,
            SToken::Pub => "PUB"@,
            SToken::Const => "CONST"@,
            SToken::Static => "STATIC"@,
            SToken::Plus => "+"@,
            SToken::Minus => "-"@,
            SToken::Star => "*"@,
            SToken::Slash => "/"@,
            SToken::Percent => "%"@,
            SToken::Caret => "^"@,
            SToken::Eq => "=="@,
            SToken::Assign => "="@,
            SToken::LessThan => "<"@,
            SToken::GreaterThan => ">"@,
            SToken::LessEqual => "<="@,
            SToken::GreaterEqual => ">="@,
            SToken::NotEqual => "!="@,
            SToken::LeftBracket => "["@,
            SToken::RightBracket => "]"@,
            SToken::LeftParen => "("@,
            SToken::RightParen => ")"@,
            SToken::Comma => ","@,
            SToken::And => "AND"@,
            SToken::Or => "OR"@,
            SToken::Not => "NOT"@,
            SToken::Identifier(s) => s,
            SToken::Number(s) => number_display(s),
            SToken::StringLiteral(s) => "\""@ + s + "\""@,
            SToken::Boolean(b) => if b { "true"@ } else { "false"@ },
            SToken::Newline => "\\n"@,
            SToken::EOF => "EOF"@,
        }
    }
}

impl Token {
    /// The variant number of the token (see `SToken::tag`).
    pub fn tag(&self) -> (r: u8)
        ensures
            r == self@.tag(),
    {
        match self {
            Token::Start => 0,
            Token::End => 1,
            Token::Input => 2,
            Token::Output => 3,
            Token::If => 4,
            Token::Then => 5,
            Token::Else => 6,
            Token::ElseIf => 7,
            Token::EndIf => 8,
            Token::For => 9,
            Token::To => 10,
            Token::EndFor => 11,
            Token::While => 12,
            Token::EndWhile => 13,
            Token::Declare => 14,
            Token::Function => 15,
            Token::EndFunction => 16,
            Token::Return => 17,
            Token::Import => 18,
            Token::Pub => 19,
            Token::Const => 20,
            Token::Static => 21,
            Token::Plus => 22,
            Token::Minus => 23,
            Token::Star => 24,
            Token::Slash => 25,
            Token::Percent => 26,
            Token::Caret => 27,
            Token::Eq => 28,
            Token::Assign => 29,
            Token::LessThan => 30,
            Token::GreaterThan => 31,
            Token::LessEqual => 32,
            Token::GreaterEqual => 33,
            Token::NotEqual => 34,
            Token::LeftBracket => 35,
            Token::RightBracket => 36,
            Token::LeftParen => 37,
            Token::RightParen => 38,
            Token::Comma => 39,
            Token::And => 40,
            Token::Or => 41,
            Token::Not => 42,
            Token::Identifier(_) => 43,
            Token::Number(_) => 44,
            Token::StringLiteral(_) => 45,
            Token::Boolean(_) => 46,
            Token::Newline => 47,
            Token::EOF => 48,
        }
    }

    /// Whether this token equals `plain`, a token that carries no text.
    pub fn is(&self, plain: &Token) -> (r: bool)
        requires
            plain@.is_plain(),
        ensures
            r == (self@ == plain@),
    {
        self.tag() == plain.tag()
    }

    /// A copy of the token.
    pub fn duplicate(&self) -> (r: Token)
        ensures
            r@ == self@,
    {
        match self {
            Token::Start => Token::Start,
            Token::End => Token::End,
            Token::Input => Token::Input,
            Token::Output => Token::Output,
            Token::If => Token::If,
            Token::Then => Token::Then,
            Token::Else => Token::Else,
            Token::ElseIf => Token::ElseIf,
            Token::EndIf => Token::EndIf,
            Token::For => Token::For,
            Token::To => Token::To,
            Token::EndFor => Token::EndFor,
            Token::While => Token::While,
            Token::EndWhile => Token::EndWhile,
            Token::Declare => Token::Declare,
            Token::Function => Token::Function,
            Token::EndFunction => Token::EndFunction,
            Token::Return => Token::Return,
            Token::Import => Token::Import,
            Token::Pub => Token::Pub,
            Token::Const => Token::Const,
            Token::Static => Token::Static,
            Token::Plus => Token::Plus,
            Token::Minus => Token::Minus,
            Token::Star => Token::Star,
            Token::Slash => Token::Slash,
            Token::Percent => Token::Percent,
            Token::Caret => Token::Caret,
            Token::Eq => Token::Eq,
            Token::Assign => Token::Assign,
            Token::LessThan => Token::LessThan,
            Token::GreaterThan => Token::GreaterThan,
            Token::LessEqual => Token::LessEqual,
            Token::GreaterEqual => Token::GreaterEqual,
            Token::NotEqual => Token::NotEqual,
            Token::LeftBracket => Token::LeftBracket,
            Token::RightBracket => Token::RightBracket,
            Token::LeftParen => Token::LeftParen,
            Token::RightParen => Token::RightParen,
            Token::Comma => Token::Comma,
            Token::And => Token::And,
            Token::Or => Token::Or,
            Token::Not => Token::Not,
            Token::Identifier(s) => Token::Identifier(s.clone()),
            Token::Number(s) => Token::Number(s.clone()),
            Token::StringLiteral(s) => Token::StringLiteral(s.clone()),
            Token::Boolean(b) => Token::Boolean(*b),
            Token::Newline => Token::Newline,
            Token::EOF => Token::EOF,
        }
    }

    /// How the token prints (its `Display` form).
    pub fn to_text(&self) -> (r: String)
        ensures
            r@ == self@.text(),
    {
        match self {
            Token::Start => String::from_str("START"),
            Token::End => String::from_str("END"),
            Token::Input => String::from_str("INPUT"),
            Token::Output => String::from_str("OUTPUT"),
            Token::If => String::from_str("IF"),
            Token::Then => String::from_str("THEN"),
            Token::Else => String::from_str("ELSE"),
            Token::ElseIf => String::from_str("ELSEIF"),
            Token::EndIf => String::from_str("ENDIF"),
            Token::For => String::from_str("FOR"),
            Token::To => String::from_str("TO"),
            Token::EndFor => String::from_str("ENDFOR"),
            Token::While => String::from_str("WHILE"),
            Token::EndWhile => String::from_str("ENDWHILE"),
            Token::Declare => String::from_str("DECLARE"),
            Token::Function => String::from_str("FUNCTION"),
            Token::EndFunction => String::from_str("ENDFUNCTION"),
            Token::Return => String::from_str("RETURN"),
            Token::Import => String::from_str("IMPORT"),
            Token::Pub => String::from_str("PUB"),
            Token::Const => String::from_str("CONST"),
            Token::Static => String::from_str("STATIC"),
            Token::Plus => String::from_str("+"),
            Token::Minus => String::from_str("-"),
            Token::Star => String::from_str("*"),
            Token::Slash => String::from_str("/"),
            Token::Percent => String::from_str("%"),
            Token::Caret => String::from_str("^"),
            Token::Eq => String::from_str("=="),
            Token::Assign => String::from_str("="),
            Token::LessThan => String::from_str("<"),
            Token::GreaterThan => String::from_str(">"),
            Token::LessEqual => String::from_str("<="),
            Token::GreaterEqual => String::from_str(">="),
            Token::NotEqual => String::from_str("!="),
            Token::LeftBracket => String::from_str("["),
            Token::RightBracket => String::from_str("]"),
            Token::LeftParen => String::from_str("("),
            Token::RightParen => String::from_str(")"),
            Token::Comma => String::from_str(","),
            Token::And => String::from_str("AND"),
            Token::Or => String::from_str("OR"),
            Token::Not => String::from_str("NOT"),
            Token::Identifier(s) => s.clone(),
            Token::Number(s) => display_number(s.as_str()),
            Token::StringLiteral(s) => {
                let mut r = String::from_str("\"");
                r.append(s.as_str());
                r.append("\"");
                r
            },
            Token::Boolean(b) => if *b { String::from_str("true") } else { String::from_str("false") },
            Token::Newline => String::from_str("\\n"),
            Token::EOF => String::from_str("EOF"),
        }
    }
}

impl PositionedToken {
    /// A copy of the positioned token.
    pub fn duplicate(&self) -> (r: PositionedToken)
        ensures
            r@ == self@,
    {
        PositionedToken { token: self.token.duplicate(), line: self.line, column: self.column }
    }
}

} // verus!
