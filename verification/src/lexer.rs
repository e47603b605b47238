//! Tokens, and the lexer that cuts source text into them one at a time.

use vstd::prelude::*;
use vstd::std_specs::cmp::PartialEqSpecImpl;
use vstd::string::{StrSliceExecFns, StringExecFns};
use crate::chars::{
    blank, digit, is_blank, is_digit, unicode_alphabetic, unicode_alphanumeric, value_of_digit,
};
use crate::decimal::{decimal_string, decimal_text, decimal_value};

verus! {

/// The smallest named unit of source text.
#[derive(Debug)]
pub enum Token {
    Assign,
    Output,
    Identifier(String),
    Number(i64),
    String(String),
    Plus,
    Minus,
    Star,
    Slash,
    LParen,
    RParen,
    Comma,
    If,
    Then,
    Else,
    EndIf,
    Loop,
    EndLoop,
    While,
    NotEqual,
    GreaterThan,
    GreaterThanOrEqual,
    LessThan,
    LessThanOrEqual,
    And,
    Or,
    Not,
    Mod,
    Div,
    Eof,
}

/// The mathematical value of a [`Token`]: the same variants, with text as a
/// sequence of characters.
pub enum TokenView {
    Assign,
    Output,
    Identifier(Seq<char>),
    Number(i64),
    String(Seq<char>),
    Plus,
    Minus,
    Star,
    Slash,
    LParen,
    RParen,
    Comma,
    If,
    Then,
    Else,
    EndIf,
    Loop,
    EndLoop,
    While,
    NotEqual,
    GreaterThan,
    GreaterThanOrEqual,
    LessThan,
    LessThanOrEqual,
    And,
    Or,
    Not,
    Mod,
    Div,
    Eof,
}

impl View for Token {
    type V = TokenView;

    open spec fn view(&self) -> TokenView {
        match self {
            Token::Assign => TokenView::Assign,
            Token::Output => TokenView::Output,
            Token::Identifier(name) => TokenView::Identifier(name@),
            Token::Number(value) => TokenView::Number(*value),
            Token::String(text) => TokenView::String(text@),
            Token::Plus => TokenView::Plus,
            Token::Minus => TokenView::Minus,
            Token::Star => TokenView::Star,
            Token::Slash => TokenView::Slash,
            Token::LParen => TokenView::LParen,
            Token::RParen => TokenView::RParen,
            Token::Comma => TokenView::Comma,
            Token::If => TokenView::If,
            Token::Then => TokenView::Then,
            Token::Else => TokenView::Else,
            Token::EndIf => TokenView::EndIf,
            Token::Loop => TokenView::Loop,
            Token::EndLoop => TokenView::EndLoop,
            Token::While => TokenView::While,
            Token::NotEqual => TokenView::NotEqual,
            Token::GreaterThan => TokenView::GreaterThan,
            Token::GreaterThanOrEqual => TokenView::GreaterThanOrEqual,
            Token::LessThan => TokenView::LessThan,
            Token::LessThanOrEqual => TokenView::LessThanOrEqual,
            Token::And => TokenView::And,
            Token::Or => TokenView::Or,
            Token::Not => TokenView::Not,
            Token::Mod => TokenView::Mod,
            Token::Div => TokenView::Div,
            Token::Eof => TokenView::Eof,
        }
    }
}

impl Clone for Token {
    fn clone(&self) -> (copy: Token)
        ensures
            copy@ == self@,
    {
        match self {
            Token::Assign => Token::Assign,
            Token::Output => Token::Output,
            Token::Identifier(name) => Token::Identifier(name.clone()),
            Token::Number(value) => Token::Number(*value),
            Token::String(text) => Token::String(text.clone()),
            Token::Plus => Token::Plus,
            Token::Minus => Token::Minus,
            Token::Star => Token::Star,
            Token::Slash => Token::Slash,
            Token::LParen => Token::LParen,
            Token::RParen => Token::RParen,
            Token::Comma => Token::Comma,
            Token::If => Token::If,
            Token::Then => Token::Then,
            Token::Else => Token::Else,
            Token::EndIf => Token::EndIf,
            Token::Loop => Token::Loop,
            Token::EndLoop => Token::EndLoop,
            Token::While => Token::While,
            Token::NotEqual => Token::NotEqual,
            Token::GreaterThan => Token::GreaterThan,
            Token::GreaterThanOrEqual => Token::GreaterThanOrEqual,
            Token::LessThan => Token::LessThan,
            Token::LessThanOrEqual => Token::LessThanOrEqual,
            Token::And => Token::And,
            Token::Or => Token::Or,
            Token::Not => Token::Not,
            Token::Mod => Token::Mod,
            Token::Div => Token::Div,
            Token::Eof => Token::Eof,
        }
    }
}

impl PartialEq for Token {
    /// Structural equality: the same variant carrying the same text or number.
    fn eq(&self, other: &Token) -> (same: bool) {
        match self {
            Token::Assign => matches!(other, Token::Assign),
            Token::Output => matches!(other, Token::Output),
            Token::Identifier(name) => match other {
                Token::Identifier(other_name) => *name == *other_name,
                _ => false,
            },
            Token::Number(value) => match other {
                Token::Number(other_value) => *value == *other_value,
                _ => false,
            },
            Token::String(text) => match other {
                Token::String(other_text) => *text == *other_text,
                _ => false,
            },
            Token::Plus => matches!(other, Token::Plus),
            Token::Minus => matches!(other, Token::Minus),
            Token::Star => matches!(other, Token::Star),
            Token::Slash => matches!(other, Token::Slash),
            Token::LParen => matches!(other, Token::LParen),
            Token::RParen => matches!(other, Token::RParen),
            Token::Comma => matches!(other, Token::Comma),
            Token::If => matches!(other, Token::If),
            Token::Then => matches!(other, Token::Then),
            Token::Else => matches!(other, Token::Else),
            Token::EndIf => matches!(other, Token::EndIf),
            Token::Loop => matches!(other, Token::Loop),
            Token::EndLoop => matches!(other, Token::EndLoop),
            Token::While => matches!(other, Token::While),
            Token::NotEqual => matches!(other, Token::NotEqual),
            Token::GreaterThan => matches!(other, Token::GreaterThan),
            Token::GreaterThanOrEqual => matches!(other, Token::GreaterThanOrEqual),
            Token::LessThan => matches!(other, Token::LessThan),
            Token::LessThanOrEqual => matches!(other, Token::LessThanOrEqual),
            Token::And => matches!(other, Token::And),
            Token::Or => matches!(other, Token::Or),
            Token::Not => matches!(other, Token::Not),
            Token::Mod => matches!(other, Token::Mod),
            Token::Div => matches!(other, Token::Div),
            Token::Eof => matches!(other, Token::Eof),
        }
    }
}

impl PartialEqSpecImpl for Token {
    open spec fn obeys_eq_spec() -> bool {
        true
    }

    open spec fn eq_spec(&self, other: &Token) -> bool {
        self@ == other@
    }
}

/// The text that `Debug` prints for a string: the string between double
/// quotes, with the characters that need it escaped. The rules of escaping
/// are not modelled.
pub uninterp spec fn debug_text(text: Seq<char>) -> Seq<char>;

/// Formats a string with `Debug`. Assumed: the result is a function of the
/// string's characters alone, named [`debug_text`].
#[verifier::external_body]
fn debug_string(text: &String) -> (quoted: String)
    ensures
        quoted@ == debug_text(text@),
{
    format!("{:?}", text)
}

/// The name under which a token is printed: the name of its kind, followed
/// in brackets by what it carries, if it carries anything.
pub open spec fn token_name(token: TokenView) -> Seq<char> {
    match token {
        TokenView::Assign => "Assign"@,
        TokenView::Output => "Output"@,
        TokenView::Identifier(name) => "Identifier"@ + "("@ + debug_text(name) + ")"@,
        TokenView::Number(value) => "Number"@ + "("@ + decimal_text(value as int) + ")"@,
        TokenView::String(text) => "String"@ + "("@ + debug_text(text) + ")"@,
        TokenView::Plus => "Plus"@,
        TokenView::Minus => "Minus"@,
        TokenView::Star => "Star"@,
        TokenView::Slash => "Slash"@,
        TokenView::LParen => "LParen"@,
        TokenView::RParen => "RParen"@,
        TokenView::Comma => "Comma"@,
        TokenView::If => "If"@,
        TokenView::Then => "Then"@,
        TokenView::Else => "Else"@,
        TokenView::EndIf => "EndIf"@,
        TokenView::Loop => "Loop"@,
        TokenView::EndLoop => "EndLoop"@,
        TokenView::While => "While"@,
        TokenView::NotEqual => "NotEqual"@,
        TokenView::GreaterThan => "GreaterThan"@,
        TokenView::GreaterThanOrEqual => "GreaterThanOrEqual"@,
        TokenView::LessThan => "LessThan"@,
        TokenView::LessThanOrEqual => "LessThanOrEqual"@,
        TokenView::And => "And"@,
        TokenView::Or => "Or"@,
        TokenView::Not => "Not"@,
        TokenView::Mod => "Mod"@,
        TokenView::Div => "Div"@,
        TokenView::Eof => "Eof"@,
    }
}

/// The name of a token that carries something: `kind`, and `content` in
/// round brackets.
pub fn bracketed(kind: &str, content: &str) -> (name: String)
    ensures
        name@ == kind@ + "("@ + content@ + ")"@,
{
    let mut name = kind.to_owned();
    name.append("(");
    name.append(content);
    name.append(")");
    name
}

/// The name under which a token is printed: what `Debug` gives for it.
pub fn name_of(token: &Token) -> (name: String)
    ensures
        name@ == token_name(token@),
{
    match token {
        Token::Assign => "Assign".to_owned(),
        Token::Output => "Output".to_owned(),
        Token::Identifier(text) => bracketed("Identifier", debug_string(text).as_str()),
        Token::Number(value) => bracketed("Number", decimal_string(*value).as_str()),
        Token::String(text) => bracketed("String", debug_string(text).as_str()),
        Token::Plus => "Plus".to_owned(),
        Token::Minus => "Minus".to_owned(),
        Token::Star => "Star".to_owned(),
        Token::Slash => "Slash".to_owned(),
        Token::LParen => "LParen".to_owned(),
        Token::RParen => "RParen".to_owned(),
        Token::Comma => "Comma".to_owned(),
        Token::If => "If".to_owned(),
        Token::Then => "Then".to_owned(),
        Token::Else => "Else".to_owned(),
        Token::EndIf => "EndIf".to_owned(),
        Token::Loop => "Loop".to_owned(),
        Token::EndLoop => "EndLoop".to_owned(),
        Token::While => "While".to_owned(),
        Token::NotEqual => "NotEqual".to_owned(),
        Token::GreaterThan => "GreaterThan".to_owned(),
        Token::GreaterThanOrEqual => "GreaterThanOrEqual".to_owned(),
        Token::LessThan => "LessThan".to_owned(),
        Token::LessThanOrEqual => "LessThanOrEqual".to_owned(),
        Token::And => "And".to_owned(),
        Token::Or => "Or".to_owned(),
        Token::Not => "Not".to_owned(),
        Token::Mod => "Mod".to_owned(),
        Token::Div => "Div".to_owned(),
        Token::Eof => "Eof".to_owned(),
    }
}

/// A token with the place where the lexer stood when it had read it.
#[derive(Debug)]
pub struct TokenInfo {
    pub token: Token,
    pub line: usize,
    pub column: usize,
}

/// The mathematical value of a [`TokenInfo`].
pub struct TokenInfoView {
    pub token: TokenView,
    pub line: nat,
    pub column: nat,
}

impl View for TokenInfo {
    type V = TokenInfoView;

    open spec fn view(&self) -> TokenInfoView {
        TokenInfoView { token: self.token@, line: self.line as nat, column: self.column as nat }
    }
}

impl Clone for TokenInfo {
    fn clone(&self) -> (copy: TokenInfo)
        ensures
            copy@ == self@,
    {
        TokenInfo { token: self.token.clone(), line: self.line, column: self.column }
    }
}

/// Why the lexer could not produce a token.
#[derive(Debug, Clone, Copy, PartialEq, Eq, Structural)]
pub enum LexError {
    /// A character that starts no token; a `!` that no `=` follows is reported as `!`.
    UnexpectedCharacter(char),
    /// A run of digits whose value does not fit a 64-bit signed integer.
    NumberTooLarge,
}

impl LexError {
    /// The diagnostic for this error.
    pub open spec fn text(self) -> Seq<char> {
        match self {
            LexError::UnexpectedCharacter(c) => "Unexpected character: "@.push(c),
            LexError::NumberTooLarge => "Number too large for a 64-bit integer"@,
        }
    }

    /// The diagnostic for this error.
    pub fn message(&self) -> (message: String)
        ensures
            message@ == self.text(),
    {
        match self {
            LexError::UnexpectedCharacter(c) => {
                let mut message = "Unexpected character: ".to_owned();
                message.push(*c);
                message
            },
            LexError::NumberTooLarge => "Number too large for a 64-bit integer".to_owned(),
        }
    }
}

/// The keyword that a word spells, or the identifier that it names.
pub open spec fn word_token(word: Seq<char>) -> TokenView {
    if word == "output"@ {
        TokenView::Output
    } else if word == "if"@ {
        TokenView::If
    } else if word == "then"@ {
        TokenView::Then
    } else if word == "else"@ {
        TokenView::Else
    } else if word == "endif"@ {
        TokenView::EndIf
    } else if word == "loop"@ {
        TokenView::Loop
    } else if word == "endloop"@ {
        TokenView::EndLoop
    } else if word == "while"@ {
        TokenView::While
    } else if word == "and"@ {
        TokenView::And
    } else if word == "or"@ {
        TokenView::Or
    } else if word == "not"@ {
        TokenView::Not
    } else if word == "mod"@ {
        TokenView::Mod
    } else if word == "div"@ {
        TokenView::Div
    } else {
        TokenView::Identifier(word)
    }
}

/// The token that a single character spells whatever follows it, if it spells one.
pub open spec fn punctuation(c: char) -> Option<TokenView> {
    if c == '=' {
        Some(TokenView::Assign)
    } else if c == '+' {
        Some(TokenView::Plus)
    } else if c == '-' {
        Some(TokenView::Minus)
    } else if c == '*' {
        Some(TokenView::Star)
    } else if c == '/' {
        Some(TokenView::Slash)
    } else if c == '(' {
        Some(TokenView::LParen)
    } else if c == ')' {
        Some(TokenView::RParen)
    } else if c == ',' {
        Some(TokenView::Comma)
    } else {
        None
    }
}

/// The kinds of character runs that the lexer steps over in one go.
#[derive(Debug, Clone, Copy, PartialEq, Eq, Structural)]
pub enum Run {
    /// Blanks between tokens.
    Blanks,
    /// The digits of a number.
    Digits,
    /// The letters and digits of a word.
    Word,
    /// The inside of a string literal: everything up to the next double quote.
    StringBody,
}

impl Run {
    /// Whether `c` belongs to a run of this kind.
    pub open spec fn holds(self, c: char) -> bool {
        match self {
            Run::Blanks => is_blank(c),
            Run::Digits => is_digit(c),
            Run::Word => unicode_alphanumeric(c),
            Run::StringBody => c != '"',
        }
    }

    fn accepts(self, c: char) -> (b: bool)
        ensures
            b == self.holds(c),
    {
        match self {
            Run::Blanks => blank(c),
            Run::Digits => digit(c),
            Run::Word => c.is_alphanumeric(),
            Run::StringBody => c != '"',
        }
    }
}

/// What one request for a token gives: the token or the error, and the lexer
/// as it stands afterwards.
pub struct Lexed {
    pub result: Result<TokenInfoView, LexError>,
    pub rest: LexerView,
}

/// The mathematical state of a [`Lexer`]: the whole input, how many characters
/// of it are behind the lexer, and the line and column counters.
pub struct LexerView {
    pub input: Seq<char>,
    pub pos: nat,
    pub line: nat,
    pub column: nat,
}

impl LexerView {
    /// The lexer before it has read anything of `input`.
    pub open spec fn start(input: Seq<char>) -> LexerView {
        LexerView { input, pos: 0, line: 1, column: 0 }
    }

    /// The character under the lexer, if any input is left.
    pub open spec fn current(self) -> Option<char> {
        if self.pos < self.input.len() {
            Some(self.input[self.pos as int])
        } else {
            None
        }
    }

    /// How many characters are still to be read.
    pub open spec fn remaining(self) -> nat {
        if self.pos <= self.input.len() {
            (self.input.len() - self.pos) as nat
        } else {
            0
        }
    }

    /// Steps over the current character. A line feed starts a new line at column
    /// zero, any other character moves one column on. At the end of the input
    /// nothing changes.
    pub open spec fn advance(self) -> LexerView {
        match self.current() {
            Some(c) => if c == '\n' {
                LexerView { pos: self.pos + 1, line: self.line + 1, column: 0, ..self }
            } else {
                LexerView { pos: self.pos + 1, column: self.column + 1, ..self }
            },
            None => self,
        }
    }

    /// Steps over the longest run of the given kind that starts at the current
    /// character.
    pub open spec fn advance_while(self, run: Run) -> LexerView
        decreases self.remaining(),
    {
        match self.current() {
            Some(c) => if run.holds(c) {
                self.advance().advance_while(run)
            } else {
                self
            },
            None => self,
        }
    }

    /// The characters between an earlier state of this lexer and this one.
    pub open spec fn text_since(self, earlier: LexerView) -> Seq<char> {
        self.input.subrange(earlier.pos as int, self.pos as int)
    }

    /// This state, handing out `token` stamped with the line and column reached.
    pub open spec fn emit(self, token: TokenView) -> Lexed {
        Lexed {
            result: Ok(TokenInfoView { token, line: self.line, column: self.column }),
            rest: self,
        }
    }

    /// This state, failing with `error`.
    pub open spec fn fail(self, error: LexError) -> Lexed {
        Lexed { result: Err(error), rest: self }
    }

    /// After a `<` or `>`: the longer token if an `=` follows, else the shorter.
    pub open spec fn with_equals(self, longer: TokenView, shorter: TokenView) -> Lexed {
        if self.current() == Some('=') {
            self.advance().emit(longer)
        } else {
            self.emit(shorter)
        }
    }

    /// The next token of the input and the state after it.
    ///
    /// Blanks before the token are skipped. At the end of the input the token is
    /// `Eof`, and stays so. A string literal runs from its opening quote to the
    /// next quote or, if there is none, to the end of the input. A number is the
    /// longest run of digits; a word is the longest run of alphanumeric
    /// characters after a letter, and is a keyword if it spells one.
    pub open spec fn next_token(self) -> Lexed {
        let at = self.advance_while(Run::Blanks);
        match at.current() {
            None => at.emit(TokenView::Eof),
            Some(c) => if punctuation(c) is Some {
                at.advance().emit(punctuation(c)->0)
            } else if c == '>' {
                at.advance().with_equals(TokenView::GreaterThanOrEqual, TokenView::GreaterThan)
            } else if c == '<' {
                at.advance().with_equals(TokenView::LessThanOrEqual, TokenView::LessThan)
            } else if c == '!' {
                let after = at.advance();
                if after.current() == Some('=') {
                    after.advance().emit(TokenView::NotEqual)
                } else {
                    after.fail(LexError::UnexpectedCharacter('!'))
                }
            } else if c == '"' {
                let open = at.advance();
                let close = open.advance_while(Run::StringBody);
                close.advance().emit(TokenView::String(close.text_since(open)))
            } else if is_digit(c) {
                let end = at.advance_while(Run::Digits);
                let value = decimal_value(end.text_since(at));
                if value <= i64::MAX {
                    end.emit(TokenView::Number(value as i64))
                } else {
                    end.fail(LexError::NumberTooLarge)
                }
            } else if unicode_alphabetic(c) {
                let end = at.advance_while(Run::Word);
                end.emit(word_token(end.text_since(at)))
            } else {
                at.fail(LexError::UnexpectedCharacter(c))
            },
        }
    }
}

/// What a token request gives, as a mathematical value.
pub open spec fn lexed_view(lexed: Result<TokenInfo, LexError>) -> Result<TokenInfoView, LexError> {
    match lexed {
        Ok(info) => Ok(info@),
        Err(error) => Err(error),
    }
}

/// A run ends where it says: every character stepped over belongs to the run,
/// and the character after it, if there is one, does not. The input is untouched.
pub proof fn lemma_run(from: LexerView, run: Run)
    ensures
        ({
            let to = from.advance_while(run);
            &&& to.input == from.input
            &&& from.pos <= to.pos
            &&& from.pos <= from.input.len() ==> to.pos <= from.input.len()
            &&& forall|i: int| from.pos <= i < to.pos ==> run.holds(#[trigger] from.input[i])
            &&& to.current() matches Some(c) ==> !run.holds(c)
        }),
    decreases from.remaining(),
{
    if from.current() is Some && run.holds(from.current()->0) {
        lemma_run(from.advance(), run);
    }
}

/// A token other than `Eof` uses up at least one character, and no request
/// moves the lexer backwards or changes the input.
pub proof fn lemma_next_token_progress(lexer: LexerView)
    ensures
        ({
            let lexed = lexer.next_token();
            &&& lexed.rest.input == lexer.input
            &&& lexer.pos <= lexed.rest.pos
            &&& lexer.pos <= lexer.input.len() ==> lexed.rest.pos <= lexer.input.len()
            &&& (lexed.result matches Ok(info) && info.token != TokenView::Eof) ==> lexer.pos
                < lexed.rest.pos <= lexer.input.len()
        }),
{
    let at = lexer.advance_while(Run::Blanks);
    lemma_run(lexer, Run::Blanks);
    if at.current() is Some {
        let c = at.current()->0;
        lemma_run(at.advance(), Run::StringBody);
        lemma_run(at, Run::Digits);
        lemma_run(at, Run::Word);
        if is_digit(c) {
            assert(at.advance_while(Run::Digits) == at.advance().advance_while(Run::Digits));
            lemma_run(at.advance(), Run::Digits);
        }
        if unicode_alphabetic(c) {
            assert(at.advance_while(Run::Word) == at.advance().advance_while(Run::Word));
            lemma_run(at.advance(), Run::Word);
        }
    }
}

/// What a lexer hands out at one request: a token with its place, or an error.
pub type Scanned = Result<TokenInfoView, LexError>;

/// Whether the lexer still has something to give after `scanned`: it does
/// after every token but `Eof`, and nothing comes after an error.
pub open spec fn more_after(scanned: Scanned) -> bool {
    scanned matches Ok(info) && info.token != TokenView::Eof
}

/// Everything that a lexer hands out from this state on, request by request,
/// up to and including the first `Eof` or the first error.
pub open spec fn tokens_from(lexer: LexerView) -> Seq<Scanned>
    decreases lexer.remaining(),
{
    let lexed = lexer.next_token();
    if more_after(lexed.result) {
        proof {
            lemma_next_token_progress(lexer);
        }
        seq![lexed.result] + tokens_from(lexed.rest)
    } else {
        seq![lexed.result]
    }
}

/// Whether two pieces of text hold the same characters.
fn same_text(a: &str, b: &str) -> (same: bool)
    ensures
        same == (a@ == b@),
{
    let n = a.unicode_len();
    if n != b.unicode_len() {
        return false;
    }
    let mut i: usize = 0;
    while i < n
        invariant
            i <= n,
            n == a@.len(),
            n == b@.len(),
            forall|j: int| 0 <= j < i ==> a@[j] == b@[j],
        decreases n - i,
    {
        if a.get_char(i) != b.get_char(i) {
            return false;
        }
        i = i + 1;
    }
    assert(a@ =~= b@);
    true
}

/// The token that a single character spells whatever follows it, if it spells one.
fn punctuation_token(c: char) -> (token: Option<Token>)
    ensures
        match token {
            Some(t) => punctuation(c) == Some(t@),
            None => punctuation(c) is None,
        },
{
    if c == '=' {
        Some(Token::Assign)
    } else if c == '+' {
        Some(Token::Plus)
    } else if c == '-' {
        Some(Token::Minus)
    } else if c == '*' {
        Some(Token::Star)
    } else if c == '/' {
        Some(Token::Slash)
    } else if c == '(' {
        Some(Token::LParen)
    } else if c == ')' {
        Some(Token::RParen)
    } else if c == ',' {
        Some(Token::Comma)
    } else {
        None
    }
}

/// The keyword that `word` spells, or the identifier that it names.
pub fn keyword_or_identifier(word: String) -> (token: Token)
    ensures
        token@ == word_token(word@),
{
    let text = word.as_str();
    if same_text(text, "output") {
        Token::Output
    } else if same_text(text, "if") {
        Token::If
    } else if same_text(text, "then") {
        Token::Then
    } else if same_text(text, "else") {
        Token::Else
    } else if same_text(text, "endif") {
        Token::EndIf
    } else if same_text(text, "loop") {
        Token::Loop
    } else if same_text(text, "endloop") {
        Token::EndLoop
    } else if same_text(text, "while") {
        Token::While
    } else if same_text(text, "and") {
        Token::And
    } else if same_text(text, "or") {
        Token::Or
    } else if same_text(text, "not") {
        Token::Not
    } else if same_text(text, "mod") {
        Token::Mod
    } else if same_text(text, "div") {
        Token::Div
    } else {
        Token::Identifier(word)
    }
}

/// Cuts source text into tokens, one at each request.
pub struct Lexer {
    input: Vec<char>,
    pos: usize,
    line: usize,
    column: usize,
}

impl View for Lexer {
    type V = LexerView;

    closed spec fn view(&self) -> LexerView {
        LexerView {
            input: self.input@,
            pos: self.pos as nat,
            line: self.line as nat,
            column: self.column as nat,
        }
    }
}

impl Lexer {
    /// The counters never run ahead of the position, and the position never
    /// past the input, so none of them can overflow.
    #[verifier::type_invariant]
    spec fn well_formed(self) -> bool {
        &&& self.pos <= self.input@.len()
        &&& self.input@.len() < usize::MAX
        &&& self.line <= self.pos + 1
        &&& self.column <= self.pos
    }

    /// A lexer at the start of `input`: line 1, column 0.
    pub fn new(input: &str) -> (lexer: Lexer)
        ensures
            lexer@ == LexerView::start(input@),
    {
        let mut chars: Vec<char> = Vec::new();
        for c in it: input.chars()
            invariant
                it.seq() == input@,
                chars@ == it.seq().take(it.index() as int),
        {
            chars.push(c);
        }
        // One element more fits in a vector, so the length is below `usize::MAX`.
        chars.push(' ');
        let grown: usize = chars.len();
        chars.pop();
        assert(chars@ =~= input@);
        assert(chars@.len() + 1 == grown);
        Lexer { input: chars, pos: 0, line: 1, column: 0 }
    }

    /// The character under the lexer, if any input is left.
    fn current_char(&self) -> (c: Option<char>)
        ensures
            c == self@.current(),
    {
        proof {
            use_type_invariant(self);
        }
        if self.pos < self.input.len() {
            Some(self.input[self.pos])
        } else {
            None
        }
    }

    /// Steps over the current character, counting lines and columns.
    fn advance(&mut self)
        ensures
            final(self)@ == old(self)@.advance(),
    {
        proof {
            use_type_invariant(&*self);
        }
        if self.pos < self.input.len() {
            let c = self.input[self.pos];
            self.pos = self.pos + 1;
            if c == '\n' {
                self.column = 0;
                self.line = self.line + 1;
            } else {
                self.column = self.column + 1;
            }
        }
    }
    /// Steps over the longest run of the given kind.
    fn skip(&mut self, run: Run)
        ensures
            final(self)@ == old(self)@.advance_while(run),
    {
        loop
            invariant
                self@.advance_while(run) == old(self)@.advance_while(run),
            ensures
                self@ == old(self)@.advance_while(run),
            decreases self@.remaining(),
        {
            proof {
                use_type_invariant(&*self);
            }
            match self.current_char() {
                Some(c) => {
                    if run.accepts(c) {
                        self.advance();
                    } else {
                        break ;
                    }
                },
                None => {
                    break ;
                },
            }
        }
    }

    /// The input from `start` up to the current position, as a string.
    fn text_from(&self, start: usize) -> (text: String)
        requires
            start <= self@.pos,
        ensures
            text@ == self@.input.subrange(start as int, self@.pos as int),
    {
        proof {
            use_type_invariant(self);
        }
        let mut text = String::new();
        let mut i: usize = start;
        while i < self.pos
            invariant
                start <= i <= self.pos <= self.input@.len(),
                text@ == self.input@.subrange(start as int, i as int),
            decreases self.pos - i,
        {
            text.push(self.input[i]);
            i = i + 1;
            assert(text@ =~= self.input@.subrange(start as int, i as int));
        }
        text
    }

    /// The value of the digits from `start` up to the current position, if it
    /// fits a 64-bit signed integer.
    fn value_from(&self, start: usize) -> (value: Result<i64, LexError>)
        requires
            start <= self.pos <= self.input@.len(),
            forall|i: int| start <= i < self.pos ==> is_digit(#[trigger] self.input@[i]),
        ensures
            ({
                let exact = decimal_value(self@.input.subrange(start as int, self@.pos as int));
                match value {
                    Ok(v) => exact == v,
                    Err(error) => exact > i64::MAX && error == LexError::NumberTooLarge,
                }
            }),
    {
        proof {
            use_type_invariant(self);
        }
        let mut total: i64 = 0;
        let mut fits = true;
        let mut i: usize = start;
        assert(self.input@.subrange(start as int, start as int) =~= Seq::<char>::empty());
        while i < self.pos
            invariant
                start <= i <= self.pos <= self.input@.len(),
                forall|j: int| start <= j < self.pos ==> is_digit(#[trigger] self.input@[j]),
                0 <= total,
                fits ==> total == decimal_value(self.input@.subrange(start as int, i as int)),
                !fits ==> decimal_value(self.input@.subrange(start as int, i as int)) > i64::MAX,
            decreases self.pos - i,
        {
            let d = value_of_digit(self.input[i]);
            proof {
                let longer = self.input@.subrange(start as int, i + 1);
                assert(longer.drop_last() =~= self.input@.subrange(start as int, i as int));
                assert(longer.last() == self.input@[i as int]);
            }
            if fits {
                match total.checked_mul(10) {
                    Some(tens) => match tens.checked_add(d) {
                        Some(sum) => {
                            total = sum;
                        },
                        None => {
                            fits = false;
                        },
                    },
                    None => {
                        fits = false;
                    },
                }
            }
            i = i + 1;
        }
        if fits {
            Ok(total)
        } else {
            Err(LexError::NumberTooLarge)
        }
    }

    /// Reads a word: the longest run of letters and digits.
    fn identifier(&mut self) -> (word: String)
        ensures
            final(self)@ == old(self)@.advance_while(Run::Word),
            word@ == final(self)@.text_since(old(self)@),
    {
        proof {
            use_type_invariant(&*self);
            lemma_run(self@, Run::Word);
        }
        let start = self.pos;
        self.skip(Run::Word);
        self.text_from(start)
    }

    /// Reads a number: the longest run of digits, by its value.
    fn number(&mut self) -> (value: Result<i64, LexError>)
        ensures
            final(self)@ == old(self)@.advance_while(Run::Digits),
            ({
                let exact = decimal_value(final(self)@.text_since(old(self)@));
                match value {
                    Ok(v) => exact == v,
                    Err(error) => exact > i64::MAX && error == LexError::NumberTooLarge,
                }
            }),
    {
        proof {
            use_type_invariant(&*self);
            lemma_run(self@, Run::Digits);
        }
        let start = self.pos;
        self.skip(Run::Digits);
        self.value_from(start)
    }

    /// Reads a string literal from its opening quote on: the text up to the next
    /// quote, or up to the end of the input if there is none.
    fn string(&mut self) -> (text: String)
        ensures
            ({
                let open = old(self)@.advance();
                let close = open.advance_while(Run::StringBody);
                &&& final(self)@ == close.advance()
                &&& text@ == close.text_since(open)
            }),
    {
        self.advance();
        proof {
            use_type_invariant(&*self);
            lemma_run(self@, Run::StringBody);
        }
        let start = self.pos;
        self.skip(Run::StringBody);
        let text = self.text_from(start);
        self.advance();
        text
    }

    /// After a `<` or `>`: the longer token if an `=` follows, else the shorter.
    fn with_equals(&mut self, longer: Token, shorter: Token) -> (token: Token)
        ensures
            ({
                let lexed = old(self)@.with_equals(longer@, shorter@);
                &&& final(self)@ == lexed.rest
                &&& lexed.result == Ok::<TokenInfoView, LexError>(
                    TokenInfoView {
                        token: token@,
                        line: final(self)@.line,
                        column: final(self)@.column,
                    },
                )
            }),
    {
        match self.current_char() {
            Some(c) => {
                if c == '=' {
                    self.advance();
                    longer
                } else {
                    shorter
                }
            },
            None => shorter,
        }
    }

    /// The next token of the input, or the reason why there is none.
    ///
    /// Once the input is used up every request gives `Eof`.
    pub fn get_next_token(&mut self) -> (lexed: Result<TokenInfo, LexError>)
        ensures
            lexed_view(lexed) == old(self)@.next_token().result,
            final(self)@ == old(self)@.next_token().rest,
    {
        self.skip(Run::Blanks);
        let token = match self.current_char() {
            None => Token::Eof,
            Some(c) => {
                if let Some(token) = punctuation_token(c) {
                    self.advance();
                    token
                } else if c == '>' {
                    self.advance();
                    self.with_equals(Token::GreaterThanOrEqual, Token::GreaterThan)
                } else if c == '<' {
                    self.advance();
                    self.with_equals(Token::LessThanOrEqual, Token::LessThan)
                } else if c == '!' {
                    self.advance();
                    match self.current_char() {
                        Some('=') => {
                            self.advance();
                            Token::NotEqual
                        },
                        _ => {
                            return Err(LexError::UnexpectedCharacter('!'));
                        },
                    }
                } else if c == '"' {
                    Token::String(self.string())
                } else if digit(c) {
                    match self.number() {
                        Ok(value) => Token::Number(value),
                        Err(error) => {
                            return Err(error);
                        },
                    }
                } else if c.is_alphabetic() {
                    keyword_or_identifier(self.identifier())
                } else {
                    return Err(LexError::UnexpectedCharacter(c));
                }
            },
        };
        proof {
            use_type_invariant(&*self);
        }
        Ok(TokenInfo { token, line: self.line, column: self.column })
    }
}

} // verus!
