//! Lexical analysis: source text to tokens.
//!
//! The lexer works on the text as a sequence of characters and keeps a cursor
//! into it. What one step produces is fixed by [`token_at`], a function of the
//! text and the cursor alone; [`Lexer::next_token`] is proved to compute it.
use vstd::prelude::*;
use vstd::std_specs::iter::IteratorSpec;
use vstd::string::*;

verus! {

/// Binary, comparison and assignment operators.
#[derive(Debug, PartialEq, Eq, Clone, Copy, Structural)]
pub enum Operator {
    /// `+`
    Plus,
    /// `-`
    Minus,
    /// `*`
    Multiply,
    /// `/`
    Divide,
    /// `>=`
    GreaterOrEqual,
    /// `>`
    Greater,
    /// `<`
    Less,
    /// `<=`
    LessOrEqual,
    /// `=`
    Equal,
    /// `<>`
    NotEqual,
    /// `==`
    EqualBool,
    /// `:`
    Colon,
    /// `:=`
    Assignment,
}

impl Operator {
    /// Binding strength in expressions: multiplicative 3, additive 2,
    /// relational 1, equality and inequality 0; every other operator -1,
    /// which no expression accepts.
    pub open spec fn spec_precedence(&self) -> i32 {
        match self {
            Operator::Multiply | Operator::Divide => 3,
            Operator::Plus | Operator::Minus => 2,
            Operator::Greater | Operator::Less | Operator::GreaterOrEqual | Operator::LessOrEqual => 1,
            Operator::EqualBool | Operator::NotEqual => 0,
            _ => -1i32,
        }
    }

    #[verifier::when_used_as_spec(spec_precedence)]
    pub fn precedence(&self) -> (p: i32)
        ensures
            p == self.spec_precedence(),
    {
        match self {
            Operator::Multiply | Operator::Divide => 3,
            Operator::Plus | Operator::Minus => 2,
            Operator::Greater | Operator::Less | Operator::GreaterOrEqual | Operator::LessOrEqual => 1,
            Operator::EqualBool | Operator::NotEqual => 0,
            _ => -1,
        }
    }
}

#[derive(Debug, PartialEq, Eq, Clone, Copy, Structural)]
pub enum Delimiter {
    /// `.`
    Period,
    /// `,`
    Comma,
    /// `;`
    Semicolon,
    /// `(`
    ParenthesisOpen,
    /// `)`
    ParenthesisClose,
}

#[derive(Debug, PartialEq, Eq, Clone, Copy, Structural)]
pub enum Keyword {
    Function(Function),
    TypeDef(TypeDefinition),
    Condition(Condition),
    Loop(Loop),
    Range(Range),
    IO(IO),
}

/// Keywords of algorithm declarations and namespace imports.
#[derive(Debug, PartialEq, Eq, Clone, Copy, Structural)]
pub enum Function {
    /// `алг`
    Alg,
    /// `нач`
    Start,
    /// `кон`
    Stop,
    /// `использовать`
    ImportNamespace,
    /// `арг`, `рез`, `аргрез`
    FunctionParamType(FunctionParamType),
}

/// How a parameter passes its value.
#[derive(Debug, PartialEq, Eq, Clone, Copy, Structural)]
pub enum FunctionParamType {
    /// value in (`арг`, the default)
    ArgumentParam,
    /// value out (`рез`)
    ResultParam,
    /// value in and out (`аргрез`, or `арг рез`)
    ArgumentResultParam,
}

#[derive(Debug, PartialEq, Eq, Clone, Copy, Structural)]
pub enum Condition {
    /// `если`
    If,
    /// `все`
    EndCondition,
    /// `то`
    Then,
    /// `иначе`
    Else,
}

#[derive(Debug, PartialEq, Eq, Clone, Copy, Structural)]
pub enum Loop {
    /// `нц`
    Start,
    /// `кц`
    End,
    /// `кц_при`
    EndIf,
    /// `пока`
    While,
    /// `выход`
    Break,
    /// `раз`
    Times,
}

#[derive(Debug, PartialEq, Eq, Clone, Copy, Structural)]
pub enum Range {
    /// `для`
    For,
    /// `от`
    From,
    /// `до`
    To,
}

#[derive(Debug, PartialEq, Eq, Clone, Copy, Structural)]
pub enum IO {
    /// `ввод`
    Input,
    /// `нс`
    ChangeLine,
    /// `вывод`
    Output,
}

#[derive(Debug, PartialEq, Eq, Clone, Copy, Structural)]
pub enum TypeDefinition {
    /// `цел`
    Int,
    /// `лог`
    Bool,
    /// `вещ`
    Float,
    /// `лит`
    String,
    /// `сим`
    Char,
}

/// The keyword that a word spells, if it spells one.
pub open spec fn keyword_of(word: Seq<char>) -> Option<Keyword> {
    if word == "алг"@ {
        Some(Keyword::Function(Function::Alg))
    } else if word == "нач"@ {
        Some(Keyword::Function(Function::Start))
    } else if word == "кон"@ {
        Some(Keyword::Function(Function::Stop))
    } else if word == "использовать"@ {
        Some(Keyword::Function(Function::ImportNamespace))
    } else if word == "арг"@ {
        Some(Keyword::Function(Function::FunctionParamType(FunctionParamType::ArgumentParam)))
    } else if word == "рез"@ {
        Some(Keyword::Function(Function::FunctionParamType(FunctionParamType::ResultParam)))
    } else if word == "аргрез"@ {
        Some(Keyword::Function(Function::FunctionParamType(FunctionParamType::ArgumentResultParam)))
    } else if word == "цел"@ {
        Some(Keyword::TypeDef(TypeDefinition::Int))
    } else if word == "вещ"@ {
        Some(Keyword::TypeDef(TypeDefinition::Float))
    } else if word == "лог"@ {
        Some(Keyword::TypeDef(TypeDefinition::Bool))
    } else if word == "сим"@ {
        Some(Keyword::TypeDef(TypeDefinition::Char))
    } else if word == "лит"@ {
        Some(Keyword::TypeDef(TypeDefinition::String))
    } else if word == "если"@ {
        Some(Keyword::Condition(Condition::If))
    } else if word == "все"@ {
        Some(Keyword::Condition(Condition::EndCondition))
    } else if word == "то"@ {
        Some(Keyword::Condition(Condition::Then))
    } else if word == "иначе"@ {
        Some(Keyword::Condition(Condition::Else))
    } else if word == "нц"@ {
        Some(Keyword::Loop(Loop::Start))
    } else if word == "кц_при"@ {
        Some(Keyword::Loop(Loop::EndIf))
    } else if word == "кц"@ {
        Some(Keyword::Loop(Loop::End))
    } else if word == "пока"@ {
        Some(Keyword::Loop(Loop::While))
    } else if word == "выход"@ {
        Some(Keyword::Loop(Loop::Break))
    } else if word == "раз"@ {
        Some(Keyword::Loop(Loop::Times))
    } else if word == "для"@ {
        Some(Keyword::Range(Range::For))
    } else if word == "от"@ {
        Some(Keyword::Range(Range::From))
    } else if word == "до"@ {
        Some(Keyword::Range(Range::To))
    } else if word == "ввод"@ {
        Some(Keyword::IO(IO::Input))
    } else if word == "нс"@ {
        Some(Keyword::IO(IO::ChangeLine))
    } else if word == "вывод"@ {
        Some(Keyword::IO(IO::Output))
    } else {
        None
    }
}

/// Whether two texts hold the same characters.
pub fn same_text(a: &str, b: &str) -> (same: bool)
    ensures
        same == (a@ == b@),
{
    let n = a.unicode_len();
    if n != b.unicode_len() {
        return false;
    }
    let mut i: usize = 0;
    while i < n
        invariant
            n == a@.len(),
            n == b@.len(),
            i <= n,
            forall|j: int| 0 <= j < i ==> a@[j] == b@[j],
        decreases n - i,
    {
        if a.get_char(i) != b.get_char(i) {
            return false;
        }
        i += 1;
    }
    assert(a@ =~= b@);
    true
}

impl Keyword {
    /// Looks a word up in the keyword table.
    pub fn from_word(word: &str) -> (keyword: Option<Keyword>)
        ensures
            keyword == keyword_of(word@),
    {
        if same_text(word, "алг") {
            Some(Keyword::Function(Function::Alg))
        } else if same_text(word, "нач") {
            Some(Keyword::Function(Function::Start))
        } else if same_text(word, "кон") {
            Some(Keyword::Function(Function::Stop))
        } else if same_text(word, "использовать") {
            Some(Keyword::Function(Function::ImportNamespace))
        } else if same_text(word, "арг") {
            Some(Keyword::Function(Function::FunctionParamType(FunctionParamType::ArgumentParam)))
        } else if same_text(word, "рез") {
            Some(Keyword::Function(Function::FunctionParamType(FunctionParamType::ResultParam)))
        } else if same_text(word, "аргрез") {
            Some(
                Keyword::Function(
                    Function::FunctionParamType(FunctionParamType::ArgumentResultParam),
                ),
            )
        } else if same_text(word, "цел") {
            Some(Keyword::TypeDef(TypeDefinition::Int))
        } else if same_text(word, "вещ") {
            Some(Keyword::TypeDef(TypeDefinition::Float))
        } else if same_text(word, "лог") {
            Some(Keyword::TypeDef(TypeDefinition::Bool))
        } else if same_text(word, "сим") {
            Some(Keyword::TypeDef(TypeDefinition::Char))
        } else if same_text(word, "лит") {
            Some(Keyword::TypeDef(TypeDefinition::String))
        } else if same_text(word, "если") {
            Some(Keyword::Condition(Condition::If))
        } else if same_text(word, "все") {
            Some(Keyword::Condition(Condition::EndCondition))
        } else if same_text(word, "то") {
            Some(Keyword::Condition(Condition::Then))
        } else if same_text(word, "иначе") {
            Some(Keyword::Condition(Condition::Else))
        } else if same_text(word, "нц") {
            Some(Keyword::Loop(Loop::Start))
        } else if same_text(word, "кц_при") {
            Some(Keyword::Loop(Loop::EndIf))
        } else if same_text(word, "кц") {
            Some(Keyword::Loop(Loop::End))
        } else if same_text(word, "пока") {
            Some(Keyword::Loop(Loop::While))
        } else if same_text(word, "выход") {
            Some(Keyword::Loop(Loop::Break))
        } else if same_text(word, "раз") {
            Some(Keyword::Loop(Loop::Times))
        } else if same_text(word, "для") {
            Some(Keyword::Range(Range::For))
        } else if same_text(word, "от") {
            Some(Keyword::Range(Range::From))
        } else if same_text(word, "до") {
            Some(Keyword::Range(Range::To))
        } else if same_text(word, "ввод") {
            Some(Keyword::IO(IO::Input))
        } else if same_text(word, "нс") {
            Some(Keyword::IO(IO::ChangeLine))
        } else if same_text(word, "вывод") {
            Some(Keyword::IO(IO::Output))
        } else {
            None
        }
    }
}

/// One lexical unit. A real-number literal keeps its text as written: the
/// library holds no floating-point values, the host reads them.
#[derive(Debug, PartialEq)]
pub enum Token {
    Keyword(Keyword),
    Identifier(String),
    Int(i32),
    Float(String),
    Operator(Operator),
    Delimiter(Delimiter),
    String(String),
    Char(char),
    Bool(bool),
    Eof,
}

/// A token with its texts as character sequences.
pub enum TokenView {
    Keyword(Keyword),
    Identifier(Seq<char>),
    Int(i32),
    Float(Seq<char>),
    Operator(Operator),
    Delimiter(Delimiter),
    String(Seq<char>),
    Char(char),
    Bool(bool),
    Eof,
}

impl View for Token {
    type V = TokenView;

    open spec fn view(&self) -> TokenView {
        match self {
            Token::Keyword(k) => TokenView::Keyword(*k),
            Token::Identifier(s) => TokenView::Identifier(s@),
            Token::Int(i) => TokenView::Int(*i),
            Token::Float(s) => TokenView::Float(s@),
            Token::Operator(o) => TokenView::Operator(*o),
            Token::Delimiter(d) => TokenView::Delimiter(*d),
            Token::String(s) => TokenView::String(s@),
            Token::Char(c) => TokenView::Char(*c),
            Token::Bool(b) => TokenView::Bool(*b),
            Token::Eof => TokenView::Eof,
        }
    }
}

impl Clone for Token {
    fn clone(&self) -> (copy: Self)
        ensures
            copy == *self,
    {
        match self {
            Token::Keyword(keyword) => Token::Keyword(*keyword),
            Token::Identifier(name) => Token::Identifier(name.clone()),
            Token::Int(value) => Token::Int(*value),
            Token::Float(text) => Token::Float(text.clone()),
            Token::Operator(operator) => Token::Operator(*operator),
            Token::Delimiter(delimiter) => Token::Delimiter(*delimiter),
            Token::String(text) => Token::String(text.clone()),
            Token::Char(value) => Token::Char(*value),
            Token::Bool(value) => Token::Bool(*value),
            Token::Eof => Token::Eof,
        }
    }
}

impl Token {
    pub fn as_operator(&self) -> (op: Option<Operator>)
        ensures
            op == (match self@ {
                TokenView::Operator(o) => Some(o),
                _ => None,
            }),
    {
        match self {
            Token::Operator(op) => Some(*op),
            _ => None,
        }
    }

    pub fn is_operator(&self, operator: Operator) -> (b: bool)
        ensures
            b == (self@ == TokenView::Operator(operator)),
    {
        match self {
            Token::Operator(op) => *op == operator,
            _ => false,
        }
    }

    pub fn is_delimiter(&self, delimiter: Delimiter) -> (b: bool)
        ensures
            b == (self@ == TokenView::Delimiter(delimiter)),
    {
        match self {
            Token::Delimiter(d) => *d == delimiter,
            _ => false,
        }
    }

    pub fn is_keyword(&self, keyword: Keyword) -> (b: bool)
        ensures
            b == (self@ == TokenView::Keyword(keyword)),
    {
        match self {
            Token::Keyword(k) => *k == keyword,
            _ => false,
        }
    }

    pub fn is_eof(&self) -> (b: bool)
        ensures
            b == (self@ == TokenView::Eof),
    {
        match self {
            Token::Eof => true,
            _ => false,
        }
    }

    /// The name, if the token is an identifier.
    pub fn identifier(&self) -> (name: Option<String>)
        ensures
            match self {
                Token::Identifier(s) => name == Some(*s),
                _ => name is None,
            },
    {
        match self {
            Token::Identifier(name) => Some(name.clone()),
            _ => None,
        }
    }
}

/// A number as the lexer reads it: the text of a real, the value of an integer.
#[derive(Debug, PartialEq, Clone)]
pub enum Number {
    Float(String),
    Int(i32),
}

/// Why a piece of text is no token.
#[derive(Debug, PartialEq, Eq, Clone, Copy, Structural)]
pub enum LexError {
    /// The text ends inside a string or character literal.
    UnterminatedLiteral,
    /// A character literal holds more than one character.
    InvalidCharLiteral,
    /// The character starts no token.
    UnknownCharacter(char),
}

/// What `char::is_alphabetic` answers: the Unicode property `Alphabetic`.
pub uninterp spec fn unicode_alphabetic(c: char) -> bool;

/// What `char::is_numeric` answers: the Unicode general categories for numbers.
pub uninterp spec fn unicode_numeric(c: char) -> bool;

/// What `char::is_whitespace` answers: the Unicode property `White_Space`.
pub uninterp spec fn unicode_whitespace(c: char) -> bool;

/// `char::is_alphabetic` is a function of the character alone; its table is
/// not restated here.
pub assume_specification[ char::is_alphabetic ](c: char) -> (b: bool)
    ensures
        b == unicode_alphabetic(c),
;

/// `char::is_alphanumeric` holds exactly of the characters that are
/// alphabetic or numeric, as its documentation defines it.
pub assume_specification[ char::is_alphanumeric ](c: char) -> (b: bool)
    ensures
        b == (unicode_alphabetic(c) || unicode_numeric(c)),
;

/// `char::is_whitespace` is a function of the character alone.
pub assume_specification[ char::is_whitespace ](c: char) -> (b: bool)
    ensures
        b == unicode_whitespace(c),
;

/// `String::push` appends one character.
pub assume_specification[ std::string::String::push ](s: &mut std::string::String, c: char)
    ensures
        final(s)@ == old(s)@.push(c),
;

pub open spec fn is_digit(c: char) -> bool {
    '0' <= c <= '9'
}

pub open spec fn is_word_start(c: char) -> bool {
    unicode_alphabetic(c) || c == '_'
}

pub open spec fn is_word_char(c: char) -> bool {
    unicode_alphabetic(c) || unicode_numeric(c) || c == '_'
}

pub open spec fn is_number_char(c: char) -> bool {
    is_digit(c) || c == '.'
}

pub open spec fn is_operator_char(c: char) -> bool {
    c == '+' || c == '-' || c == '*' || c == '/' || c == '=' || c == '>' || c == '<' || c == ':'
}

pub open spec fn delimiter_of(c: char) -> Option<Delimiter> {
    if c == '.' {
        Some(Delimiter::Period)
    } else if c == ',' {
        Some(Delimiter::Comma)
    } else if c == ';' {
        Some(Delimiter::Semicolon)
    } else if c == '(' {
        Some(Delimiter::ParenthesisOpen)
    } else if c == ')' {
        Some(Delimiter::ParenthesisClose)
    } else {
        None
    }
}

/// The operator that starts with `c` when `next` follows it, and how many
/// characters it takes.
pub open spec fn operator_of(c: char, next: Option<char>) -> Option<(Operator, int)> {
    if c == '<' && next == Some('>') {
        Some((Operator::NotEqual, 2))
    } else if c == '>' && next == Some('=') {
        Some((Operator::GreaterOrEqual, 2))
    } else if c == '<' && next == Some('=') {
        Some((Operator::LessOrEqual, 2))
    } else if c == '=' && next == Some('=') {
        Some((Operator::EqualBool, 2))
    } else if c == ':' && next == Some('=') {
        Some((Operator::Assignment, 2))
    } else if c == '=' {
        Some((Operator::Equal, 1))
    } else if c == ':' {
        Some((Operator::Colon, 1))
    } else if c == '>' {
        Some((Operator::Greater, 1))
    } else if c == '<' {
        Some((Operator::Less, 1))
    } else if c == '+' {
        Some((Operator::Plus, 1))
    } else if c == '-' {
        Some((Operator::Minus, 1))
    } else if c == '*' {
        Some((Operator::Multiply, 1))
    } else if c == '/' {
        Some((Operator::Divide, 1))
    } else {
        None
    }
}

/// The character at `pos`, if the text reaches that far.
pub open spec fn char_at(s: Seq<char>, pos: int) -> Option<char> {
    if 0 <= pos < s.len() {
        Some(s[pos])
    } else {
        None
    }
}

/// End of the run of whitespace that starts at `from`.
pub open spec fn whitespace_end(s: Seq<char>, from: int) -> int
    decreases s.len() - from,
{
    if 0 <= from < s.len() && unicode_whitespace(s[from]) {
        whitespace_end(s, from + 1)
    } else {
        from
    }
}

/// End of the run of word characters that starts at `from`.
pub open spec fn word_end(s: Seq<char>, from: int) -> int
    decreases s.len() - from,
{
    if 0 <= from < s.len() && is_word_char(s[from]) {
        word_end(s, from + 1)
    } else {
        from
    }
}

/// End of the run of digits and dots that starts at `from`.
pub open spec fn number_end(s: Seq<char>, from: int) -> int
    decreases s.len() - from,
{
    if 0 <= from < s.len() && is_number_char(s[from]) {
        number_end(s, from + 1)
    } else {
        from
    }
}

/// Position of the first `"` at or after `from`, or the length of the text.
pub open spec fn quote_position(s: Seq<char>, from: int) -> int
    decreases s.len() - from,
{
    if 0 <= from < s.len() && s[from] != '"' {
        quote_position(s, from + 1)
    } else {
        from
    }
}

/// Position after the line that `from` lies in: after the next line feed, or
/// the length of the text.
pub open spec fn line_end(s: Seq<char>, from: int) -> int
    decreases s.len() - from,
{
    if 0 <= from < s.len() {
        if s[from] == '\n' {
            from + 1
        } else {
            line_end(s, from + 1)
        }
    } else {
        from
    }
}

/// Position of the first character at or after `from` that is neither
/// whitespace nor part of a comment; a comment runs from `|` to the end of
/// its line.
pub open spec fn blank_end(s: Seq<char>, from: int) -> int
    decreases s.len() - from,
{
    let p = whitespace_end(s, from);
    let q = line_end(s, p + 1);
    if 0 <= from && from <= p && p < s.len() && s[p] == '|' && p < q && q <= s.len() {
        blank_end(s, q)
    } else {
        p
    }
}

pub open spec fn digit_value(c: char) -> nat {
    (c as u32 - '0' as u32) as nat
}

/// The number that a sequence of decimal digits writes.
pub open spec fn decimal_value(digits: Seq<char>) -> nat
    decreases digits.len(),
{
    if digits.len() == 0 {
        0
    } else {
        10 * decimal_value(digits.drop_last()) + digit_value(digits.last())
    }
}

/// The token that a run of word characters makes.
pub open spec fn word_token(word: Seq<char>) -> TokenView {
    match keyword_of(word) {
        Some(k) => TokenView::Keyword(k),
        None => if word == "да"@ {
            TokenView::Bool(true)
        } else if word == "нет"@ {
            TokenView::Bool(false)
        } else {
            TokenView::Identifier(word)
        },
    }
}

/// The value of an integer literal: what its digits write, or 0 where that
/// is more than an `i32` holds.
pub open spec fn int_literal_value(digits: Seq<char>) -> i32 {
    if decimal_value(digits) <= i32::MAX {
        decimal_value(digits) as i32
    } else {
        0
    }
}

/// The token that a run of digits and dots makes: a real where a dot is in
/// it, else an integer.
pub open spec fn number_token(text: Seq<char>) -> TokenView {
    if text.contains('.') {
        TokenView::Float(text)
    } else {
        TokenView::Int(int_literal_value(text))
    }
}

/// One step of the lexer: the token or the error, and where the cursor stands
/// afterwards.
pub struct Lexed {
    pub token: Result<TokenView, LexError>,
    pub end: int,
}

/// The token that starts at `pos` (a character that is no blank), for each
/// kind of first character.
pub open spec fn token_from(s: Seq<char>, p: int) -> Lexed
    recommends
        0 <= p < s.len(),
{
    let c = s[p];
    if is_word_start(c) {
        let e = word_end(s, p);
        Lexed { token: Ok(word_token(s.subrange(p, e))), end: e }
    } else if is_digit(c) {
        let e = number_end(s, p);
        Lexed { token: Ok(number_token(s.subrange(p, e))), end: e }
    } else if is_operator_char(c) {
        match operator_of(c, char_at(s, p + 1)) {
            Some((op, n)) => Lexed { token: Ok(TokenView::Operator(op)), end: p + n },
            None => Lexed { token: Err(LexError::UnknownCharacter(c)), end: p },
        }
    } else if delimiter_of(c) is Some {
        Lexed { token: Ok(TokenView::Delimiter(delimiter_of(c)->0)), end: p + 1 }
    } else if c == '"' {
        let q = quote_position(s, p + 1);
        if q < s.len() {
            Lexed { token: Ok(TokenView::String(s.subrange(p + 1, q))), end: q + 1 }
        } else {
            Lexed { token: Err(LexError::UnterminatedLiteral), end: q }
        }
    } else if c == '\'' {
        if p + 2 >= s.len() {
            Lexed { token: Err(LexError::UnterminatedLiteral), end: s.len() as int }
        } else if s[p + 2] == '\'' {
            Lexed { token: Ok(TokenView::Char(s[p + 1])), end: p + 3 }
        } else {
            Lexed { token: Err(LexError::InvalidCharLiteral), end: p + 3 }
        }
    } else {
        Lexed { token: Err(LexError::UnknownCharacter(c)), end: p }
    }
}

/// What the lexer yields when its cursor stands at `pos`: blanks and comments
/// are passed over, then one token is read; at the end of the text the token
/// is `Eof`.
pub open spec fn token_at(s: Seq<char>, pos: int) -> Lexed {
    let p = blank_end(s, pos);
    if 0 <= p < s.len() {
        token_from(s, p)
    } else {
        Lexed { token: Ok(TokenView::Eof), end: p }
    }
}

/// A lexing result with its texts as character sequences.
pub open spec fn token_result_view(r: Result<Token, LexError>) -> Result<TokenView, LexError> {
    match r {
        Ok(t) => Ok(t@),
        Err(e) => Err(e),
    }
}

pub proof fn lemma_whitespace_end_bounds(s: Seq<char>, from: int)
    requires
        0 <= from <= s.len(),
    ensures
        from <= whitespace_end(s, from) <= s.len(),
        whitespace_end(s, from) < s.len() ==> !unicode_whitespace(s[whitespace_end(s, from)]),
    decreases s.len() - from,
{
    if from < s.len() && unicode_whitespace(s[from]) {
        lemma_whitespace_end_bounds(s, from + 1);
    }
}

pub proof fn lemma_line_end_bounds(s: Seq<char>, from: int)
    requires
        0 <= from <= s.len(),
    ensures
        from <= line_end(s, from) <= s.len(),
        from < s.len() ==> from < line_end(s, from),
    decreases s.len() - from,
{
    if from < s.len() && s[from] != '\n' {
        lemma_line_end_bounds(s, from + 1);
    }
}

pub proof fn lemma_blank_end_bounds(s: Seq<char>, from: int)
    requires
        0 <= from <= s.len(),
    ensures
        from <= blank_end(s, from) <= s.len(),
        blank_end(s, from) < s.len() ==> !unicode_whitespace(s[blank_end(s, from)]) && s[blank_end(
            s,
            from,
        )] != '|',
    decreases s.len() - from,
{
    lemma_whitespace_end_bounds(s, from);
    let p = whitespace_end(s, from);
    if p < s.len() && s[p] == '|' {
        lemma_line_end_bounds(s, p + 1);
        lemma_blank_end_bounds(s, line_end(s, p + 1));
    }
}

pub proof fn lemma_word_end_bounds(s: Seq<char>, from: int)
    requires
        0 <= from <= s.len(),
    ensures
        from <= word_end(s, from) <= s.len(),
        from < s.len() && is_word_char(s[from]) ==> from < word_end(s, from),
    decreases s.len() - from,
{
    if from < s.len() && is_word_char(s[from]) {
        lemma_word_end_bounds(s, from + 1);
    }
}

pub proof fn lemma_number_end_bounds(s: Seq<char>, from: int)
    requires
        0 <= from <= s.len(),
    ensures
        from <= number_end(s, from) <= s.len(),
        from < s.len() && is_number_char(s[from]) ==> from < number_end(s, from),
    decreases s.len() - from,
{
    if from < s.len() && is_number_char(s[from]) {
        lemma_number_end_bounds(s, from + 1);
    }
}

pub proof fn lemma_quote_position_bounds(s: Seq<char>, from: int)
    requires
        0 <= from <= s.len(),
    ensures
        from <= quote_position(s, from) <= s.len(),
    decreases s.len() - from,
{
    if from < s.len() && s[from] != '"' {
        lemma_quote_position_bounds(s, from + 1);
    }
}

/// Every token but `Eof` takes at least one character, and the cursor never
/// leaves the text.
pub proof fn lemma_token_at_progress(s: Seq<char>, pos: int)
    requires
        0 <= pos <= s.len(),
    ensures
        pos <= token_at(s, pos).end <= s.len(),
        token_at(s, pos).token is Ok && token_at(s, pos).token != Ok::<TokenView, LexError>(
            TokenView::Eof,
        ) ==> pos < token_at(s, pos).end,
{
    lemma_blank_end_bounds(s, pos);
    let p = blank_end(s, pos);
    if p < s.len() {
        lemma_word_end_bounds(s, p);
        lemma_number_end_bounds(s, p);
        lemma_quote_position_bounds(s, p + 1);
    }
}

/// The characters of a text, in order.
fn chars_of(input: &str) -> (chars: Vec<char>)
    ensures
        chars@ == input@,
{
    let mut chars: Vec<char> = Vec::new();
    let source = input.chars();
    for c in it: source
        invariant
            it.seq() == input@,
            chars@ == it.seq().take(it.index()),
    {
        chars.push(c);
    }
    chars
}

/// A cursor over the characters of a source text.
pub struct Lexer {
    input: Vec<char>,
    position: usize,
}

impl Lexer {
    #[verifier::type_invariant]
    spec fn wf(self) -> bool {
        self.position <= self.input.len()
    }

    /// The text being read.
    pub closed spec fn source(&self) -> Seq<char> {
        self.input@
    }

    /// Index of the character under the cursor; the length of the text once
    /// the text is used up.
    pub closed spec fn cursor(&self) -> int {
        self.position as int
    }

    /// The character under the cursor.
    pub open spec fn current(&self) -> Option<char> {
        char_at(self.source(), self.cursor())
    }

    pub fn new(input: &str) -> (lexer: Lexer)
        ensures
            lexer.source() == input@,
            lexer.cursor() == 0,
            0 <= lexer.cursor() <= lexer.source().len(),
    {
        Lexer { input: chars_of(input), position: 0 }
    }

    /// The character under the cursor, `None` at the end of the text.
    pub fn current_char(&self) -> (c: Option<char>)
        ensures
            c == self.current(),
            0 <= self.cursor() <= self.source().len(),
    {
        proof {
            use_type_invariant(self);
        }
        if self.position < self.input.len() {
            Some(self.input[self.position])
        } else {
            None
        }
    }

    /// Moves the cursor one character on; at the end of the text it stays.
    pub fn advance(&mut self)
        ensures
            final(self).source() == old(self).source(),
            final(self).cursor() == if old(self).cursor() < old(self).source().len() {
                old(self).cursor() + 1
            } else {
                old(self).cursor()
            },
            0 <= old(self).cursor() <= old(self).source().len(),
            0 <= final(self).cursor() <= final(self).source().len(),
    {
        proof {
            use_type_invariant(&*self);
        }
        if self.position < self.input.len() {
            self.position += 1;
        }
    }

    /// Passes over whitespace.
    pub fn skip_whitespace(&mut self)
        ensures
            final(self).source() == old(self).source(),
            final(self).cursor() == whitespace_end(old(self).source(), old(self).cursor()),
    {
        proof {
            use_type_invariant(&*self);
        }
        loop
            invariant
                self.position <= self.input.len(),
                self.input@ == old(self).input@,
                old(self).position <= self.position,
                whitespace_end(self.input@, self.position as int) == whitespace_end(
                    old(self).input@,
                    old(self).position as int,
                ),
            ensures
                self.position <= self.input.len(),
                self.input@ == old(self).input@,
                self.position as int == whitespace_end(
                    old(self).input@,
                    old(self).position as int,
                ),
            decreases self.input.len() - self.position,
        {
            match self.current_char() {
                Some(c) => {
                    if c.is_whitespace() {
                        self.advance();
                    } else {
                        break ;
                    }
                },
                None => {
                    break ;
                },
            }
        }
    }

    /// Passes over the rest of the line, its line feed included.
    pub fn skip_string(&mut self)
        ensures
            final(self).source() == old(self).source(),
            final(self).cursor() == line_end(old(self).source(), old(self).cursor()),
    {
        proof {
            use_type_invariant(&*self);
        }
        loop
            invariant_except_break
                line_end(self.input@, self.position as int) == line_end(
                    old(self).input@,
                    old(self).position as int,
                ),
            invariant
                self.position <= self.input.len(),
                self.input@ == old(self).input@,
            ensures
                self.position <= self.input.len(),
                self.input@ == old(self).input@,
                self.position as int == line_end(old(self).input@, old(self).position as int),
            decreases self.input.len() - self.position,
        {
            match self.current_char() {
                Some(c) => {
                    self.advance();
                    if c == '\n' {
                        break ;
                    }
                },
                None => {
                    break ;
                },
            }
        }
    }

    /// Passes over whitespace and comments.
    pub fn skip_blanks(&mut self)
        ensures
            final(self).source() == old(self).source(),
            final(self).cursor() == blank_end(old(self).source(), old(self).cursor()),
    {
        proof {
            use_type_invariant(&*self);
        }
        loop
            invariant
                self.position <= self.input.len(),
                self.input@ == old(self).input@,
                blank_end(self.input@, self.position as int) == blank_end(
                    old(self).input@,
                    old(self).position as int,
                ),
            ensures
                self.position <= self.input.len(),
                self.input@ == old(self).input@,
                self.position as int == blank_end(old(self).input@, old(self).position as int),
            decreases self.input.len() - self.position,
        {
            let ghost before = self.position as int;
            self.skip_whitespace();
            proof {
                lemma_whitespace_end_bounds(self.input@, before);
            }
            match self.current_char() {
                Some(c) => {
                    if c == '|' {
                        self.advance();
                        self.skip_string();
                        proof {
                            lemma_line_end_bounds(self.input@, whitespace_end(self.input@, before) + 1);
                            use_type_invariant(&*self);
                        }
                    } else {
                        break ;
                    }
                },
                None => {
                    break ;
                },
            }
        }
    }

    /// Reads the word under the cursor: the run of letters, digits and `_`.
    pub fn collect_word(&mut self) -> (word: String)
        ensures
            final(self).source() == old(self).source(),
            final(self).cursor() == word_end(old(self).source(), old(self).cursor()),
            word@ == old(self).source().subrange(old(self).cursor(), final(self).cursor()),
    {
        proof {
            use_type_invariant(&*self);
        }
        let mut word = String::new();
        loop
            invariant
                self.position <= self.input.len(),
                self.input@ == old(self).input@,
                old(self).position <= self.position,
                word_end(self.input@, self.position as int) == word_end(
                    old(self).input@,
                    old(self).position as int,
                ),
                word@ == self.input@.subrange(old(self).position as int, self.position as int),
            ensures
                self.position <= self.input.len(),
                self.input@ == old(self).input@,
                old(self).position <= self.position,
                self.position as int == word_end(old(self).input@, old(self).position as int),
                word@ == self.input@.subrange(old(self).position as int, self.position as int),
            decreases self.input.len() - self.position,
        {
            match self.current_char() {
                Some(c) => {
                    if c.is_alphanumeric() || c == '_' {
                        word.push(c);
                        self.advance();
                        assert(word@ =~= self.input@.subrange(
                            old(self).position as int,
                            self.position as int,
                        ));
                    } else {
                        break ;
                    }
                },
                None => {
                    break ;
                },
            }
        }
        word
    }

    /// Reads up to the next `"`, which it passes over. `None` where the text
    /// ends first.
    pub fn collect_string(&mut self) -> (text: Option<String>)
        ensures
            final(self).source() == old(self).source(),
            ({
                let q = quote_position(old(self).source(), old(self).cursor());
                if q < old(self).source().len() {
                    &&& text is Some
                    &&& text->0@ == old(self).source().subrange(old(self).cursor(), q)
                    &&& final(self).cursor() == q + 1
                } else {
                    &&& text is None
                    &&& final(self).cursor() == q
                }
            }),
    {
        proof {
            use_type_invariant(&*self);
        }
        let mut text = String::new();
        loop
            invariant
                self.position <= self.input.len(),
                self.input@ == old(self).input@,
                old(self).position <= self.position,
                quote_position(self.input@, self.position as int) == quote_position(
                    old(self).input@,
                    old(self).position as int,
                ),
                text@ == self.input@.subrange(old(self).position as int, self.position as int),
            ensures
                self.position <= self.input.len(),
                self.input@ == old(self).input@,
                old(self).position <= self.position,
                self.position as int == quote_position(
                    old(self).input@,
                    old(self).position as int,
                ),
                text@ == self.input@.subrange(old(self).position as int, self.position as int),
            decreases self.input.len() - self.position,
        {
            match self.current_char() {
                Some(c) => {
                    if c != '"' {
                        text.push(c);
                        self.advance();
                        assert(text@ =~= self.input@.subrange(
                            old(self).position as int,
                            self.position as int,
                        ));
                    } else {
                        break ;
                    }
                },
                None => {
                    break ;
                },
            }
        }
        if self.current_char().is_some() {
            self.advance();
            Some(text)
        } else {
            None
        }
    }

    /// Reads a character literal whose opening quote has been passed: one
    /// character and the closing quote, on which the cursor is left.
    pub fn collect_char(&mut self) -> (token: Result<Token, LexError>)
        ensures
            final(self).source() == old(self).source(),
            ({
                let s = old(self).source();
                let p = old(self).cursor();
                if p + 1 >= s.len() {
                    &&& token == Err::<Token, LexError>(LexError::UnterminatedLiteral)
                    &&& final(self).cursor() == s.len()
                } else {
                    &&& final(self).cursor() == p + 1
                    &&& token == if s[p + 1] == '\'' {
                        Ok::<Token, LexError>(Token::Char(s[p]))
                    } else {
                        Err::<Token, LexError>(LexError::InvalidCharLiteral)
                    }
                }
            }),
    {
        proof {
            use_type_invariant(&*self);
        }
        match self.current_char() {
            None => Err(LexError::UnterminatedLiteral),
            Some(c) => {
                self.advance();
                match self.current_char() {
                    None => Err(LexError::UnterminatedLiteral),
                    Some(close) => {
                        if close == '\'' {
                            Ok(Token::Char(c))
                        } else {
                            Err(LexError::InvalidCharLiteral)
                        }
                    },
                }
            },
        }
    }

    /// Reads the operator that starts with `c`, the character under the
    /// cursor, and leaves the cursor on the operator's last character.
    pub fn collect_operator(&mut self, c: &char) -> (token: Result<Token, LexError>)
        ensures
            final(self).source() == old(self).source(),
            match operator_of(*c, char_at(old(self).source(), old(self).cursor() + 1)) {
                Some((op, n)) => {
                    &&& token == Ok::<Token, LexError>(Token::Operator(op))
                    &&& final(self).cursor() == if old(self).cursor() < old(self).source().len() {
                        old(self).cursor() + n - 1
                    } else {
                        old(self).cursor()
                    }
                },
                None => {
                    &&& token == Err::<Token, LexError>(LexError::UnknownCharacter(*c))
                    &&& final(self).cursor() == old(self).cursor()
                },
            },
    {
        proof {
            use_type_invariant(&*self);
        }
        let c = *c;
        let next = if self.position < self.input.len() && self.position + 1 < self.input.len() {
            Some(self.input[self.position + 1])
        } else {
            None
        };
        let two = match next {
            Some(n) => if c == '<' && n == '>' {
                Some(Operator::NotEqual)
            } else if c == '>' && n == '=' {
                Some(Operator::GreaterOrEqual)
            } else if c == '<' && n == '=' {
                Some(Operator::LessOrEqual)
            } else if c == '=' && n == '=' {
                Some(Operator::EqualBool)
            } else if c == ':' && n == '=' {
                Some(Operator::Assignment)
            } else {
                None
            },
            None => None,
        };
        match two {
            Some(op) => {
                self.advance();
                Ok(Token::Operator(op))
            },
            None => {
                if c == '=' {
                    Ok(Token::Operator(Operator::Equal))
                } else if c == ':' {
                    Ok(Token::Operator(Operator::Colon))
                } else if c == '>' {
                    Ok(Token::Operator(Operator::Greater))
                } else if c == '<' {
                    Ok(Token::Operator(Operator::Less))
                } else if c == '+' {
                    Ok(Token::Operator(Operator::Plus))
                } else if c == '-' {
                    Ok(Token::Operator(Operator::Minus))
                } else if c == '*' {
                    Ok(Token::Operator(Operator::Multiply))
                } else if c == '/' {
                    Ok(Token::Operator(Operator::Divide))
                } else {
                    Err(LexError::UnknownCharacter(c))
                }
            },
        }
    }

    /// Reads the number under the cursor: the run of digits and dots. With a
    /// dot in it the number is a real and keeps its text; without, it is an
    /// integer, 0 where the digits write more than an `i32` holds.
    pub fn collect_number(&mut self) -> (number: Number)
        ensures
            final(self).source() == old(self).source(),
            final(self).cursor() == number_end(old(self).source(), old(self).cursor()),
            ({
                let text = old(self).source().subrange(old(self).cursor(), final(self).cursor());
                match number {
                    Number::Float(t) => text.contains('.') && t@ == text,
                    Number::Int(i) => !text.contains('.') && i == int_literal_value(text),
                }
            }),
    {
        proof {
            use_type_invariant(&*self);
        }
        let mut text = String::new();
        let mut is_float = false;
        let mut value: u64 = 0;
        let mut fits = true;
        loop
            invariant
                self.position <= self.input.len(),
                self.input@ == old(self).input@,
                old(self).position <= self.position,
                number_end(self.input@, self.position as int) == number_end(
                    old(self).input@,
                    old(self).position as int,
                ),
                text@ == self.input@.subrange(old(self).position as int, self.position as int),
                is_float == text@.contains('.'),
                !is_float ==> forall|j: int| 0 <= j < text@.len() ==> is_digit(#[trigger] text@[j]),
                !is_float && fits ==> value == decimal_value(text@) && value <= i32::MAX,
                !is_float && !fits ==> decimal_value(text@) > i32::MAX,
            ensures
                self.position <= self.input.len(),
                self.input@ == old(self).input@,
                old(self).position <= self.position,
                self.position as int == number_end(old(self).input@, old(self).position as int),
                text@ == self.input@.subrange(old(self).position as int, self.position as int),
                is_float == text@.contains('.'),
                !is_float && fits ==> value == decimal_value(text@) && value <= i32::MAX,
                !is_float && !fits ==> decimal_value(text@) > i32::MAX,
            decreases self.input.len() - self.position,
        {
            match self.current_char() {
                Some(c) => {
                    if (c >= '0' && c <= '9') || c == '.' {
                        let ghost before = text@;
                        text.push(c);
                        self.advance();
                        assert(text@ =~= self.input@.subrange(
                            old(self).position as int,
                            self.position as int,
                        ));
                        assert(text@.drop_last() =~= before);
                        assert(text@.last() == c);
                        if c == '.' {
                            is_float = true;
                            assert(text@[text@.len() - 1] == '.');
                        } else {
                            assert(text@.contains('.') == before.contains('.')) by {
                                if before.contains('.') {
                                    let k = choose|k: int| 0 <= k < before.len() && before[k] == '.';
                                    assert(text@[k] == '.');
                                }
                                if text@.contains('.') {
                                    let k = choose|k: int| 0 <= k < text@.len() && text@[k] == '.';
                                    assert(before[k] == '.');
                                }
                            }
                            if !is_float {
                                let d: u64 = (c as u32 - '0' as u32) as u64;
                                assert(d == digit_value(c));
                                assert(decimal_value(text@) == 10 * decimal_value(before) + d);
                                if fits {
                                    let next: u64 = value * 10 + d;
                                    if next <= 0x7fff_ffff {
                                        value = next;
                                    } else {
                                        fits = false;
                                    }
                                }
                            }
                        }
                    } else {
                        break ;
                    }
                },
                None => {
                    break ;
                },
            }
        }
        if is_float {
            Number::Float(text)
        } else if fits {
            Number::Int(value as i32)
        } else {
            Number::Int(0)
        }
    }

    /// Reads the next token.
    pub fn next_token(&mut self) -> (token: Result<Token, LexError>)
        ensures
            final(self).source() == old(self).source(),
            token_result_view(token) == token_at(old(self).source(), old(self).cursor()).token,
            final(self).cursor() == token_at(old(self).source(), old(self).cursor()).end,
    {
        proof {
            use_type_invariant(&*self);
            lemma_blank_end_bounds(self.input@, self.position as int);
        }
        self.skip_blanks();
        proof {
            use_type_invariant(&*self);
        }
        let ghost s = self.input@;
        let ghost p = self.position as int;
        match self.current_char() {
            None => Ok(Token::Eof),
            Some(c) => {
                if c.is_alphabetic() || c == '_' {
                    let word = self.collect_word();
                    match Keyword::from_word(word.as_str()) {
                        Some(k) => Ok(Token::Keyword(k)),
                        None => {
                            if same_text(word.as_str(), "да") {
                                Ok(Token::Bool(true))
                            } else if same_text(word.as_str(), "нет") {
                                Ok(Token::Bool(false))
                            } else {
                                Ok(Token::Identifier(word))
                            }
                        },
                    }
                } else if c >= '0' && c <= '9' {
                    match self.collect_number() {
                        Number::Float(text) => Ok(Token::Float(text)),
                        Number::Int(i) => Ok(Token::Int(i)),
                    }
                } else if c == '+' || c == '-' || c == '*' || c == '/' || c == '=' || c == '>' || c
                    == '<' || c == ':' {
                    let operator = self.collect_operator(&c);
                    self.advance();
                    operator
                } else if c == '.' || c == ',' || c == ';' || c == '(' || c == ')' {
                    let delimiter = if c == '.' {
                        Delimiter::Period
                    } else if c == ',' {
                        Delimiter::Comma
                    } else if c == ';' {
                        Delimiter::Semicolon
                    } else if c == '(' {
                        Delimiter::ParenthesisOpen
                    } else {
                        Delimiter::ParenthesisClose
                    };
                    self.advance();
                    Ok(Token::Delimiter(delimiter))
                } else if c == '"' {
                    self.advance();
                    proof {
                        lemma_quote_position_bounds(s, p + 1);
                    }
                    match self.collect_string() {
                        Some(text) => Ok(Token::String(text)),
                        None => Err(LexError::UnterminatedLiteral),
                    }
                } else if c == '\'' {
                    self.advance();
                    let token = self.collect_char();
                    self.advance();
                    token
                } else {
                    Err(LexError::UnknownCharacter(c))
                }
            },
        }
    }
}

/// The views of a sequence of tokens.
pub open spec fn token_views(tokens: Seq<Token>) -> Seq<TokenView> {
    tokens.map_values(|token: Token| token@)
}

/// The tokens of a text from `pos` on, up to its end: the `Eof` that ends
/// them is left out. The first error ends the reading.
pub open spec fn tokens_from(s: Seq<char>, pos: int) -> Result<Seq<TokenView>, LexError>
    decreases s.len() - pos,
{
    let step = token_at(s, pos);
    match step.token {
        Err(error) => Err(error),
        Ok(TokenView::Eof) => Ok(Seq::empty()),
        Ok(token) => if pos < step.end <= s.len() {
            match tokens_from(s, step.end) {
                Ok(rest) => Ok(seq![token] + rest),
                Err(error) => Err(error),
            }
        } else {
            Ok(seq![token])
        },
    }
}

/// A result of [`tokens_from`] with tokens put in front.
pub open spec fn tokens_after(read: Seq<TokenView>, rest: Result<Seq<TokenView>, LexError>) -> Result<
    Seq<TokenView>,
    LexError,
> {
    match rest {
        Ok(rest) => Ok(read + rest),
        Err(error) => Err(error),
    }
}

/// Reads a whole text into tokens.
pub fn tokenize(input: &str) -> (tokens: Result<Vec<Token>, LexError>)
    ensures
        match tokens_from(input@, 0) {
            Ok(views) => tokens is Ok && token_views(tokens->Ok_0@) == views,
            Err(error) => tokens == Err::<Vec<Token>, LexError>(error),
        },
{
    let mut lexer = Lexer::new(input);
    let mut tokens: Vec<Token> = Vec::new();
    assert(token_views(tokens@) =~= Seq::<TokenView>::empty());
    assert(tokens_after(token_views(tokens@), tokens_from(input@, 0)) == tokens_from(input@, 0)) by {
        match tokens_from(input@, 0) {
            Ok(rest) => {
                assert(Seq::<TokenView>::empty() + rest =~= rest);
            },
            Err(_) => {},
        }
    }
    loop
        invariant
            lexer.source() == input@,
            0 <= lexer.cursor() <= input@.len(),
            tokens_after(token_views(tokens@), tokens_from(input@, lexer.cursor())) == tokens_from(
                input@,
                0,
            ),
        decreases input@.len() - lexer.cursor(),
    {
        let ghost pos = lexer.cursor();
        let ghost read = token_views(tokens@);
        proof {
            lemma_token_at_progress(input@, pos);
        }
        match lexer.next_token() {
            Err(error) => {
                return Err(error);
            },
            Ok(Token::Eof) => {
                assert(read + Seq::<TokenView>::empty() =~= read);
                return Ok(tokens);
            },
            Ok(token) => {
                tokens.push(token);
                proof {
                    assert(token_views(tokens@) =~= read.push(token@));
                    match tokens_from(input@, lexer.cursor()) {
                        Ok(rest) => {
                            assert(read + (seq![token@] + rest) =~= read.push(token@) + rest);
                        },
                        Err(_) => {},
                    }
                }
            },
        }
    }
}

} // verus!
