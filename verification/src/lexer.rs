//! The lexer: from text to tokens.

use vstd::prelude::*;
use vstd::slice::slice_subrange;
use crate::float::{Facts, FloatFacts, FloatQuery, FloatQueryView};
use crate::keyword::Keyword;
use crate::op::Op;
use crate::text::{
    all_digits, chars_of, is_ascii_digit, is_digit, is_letter, letter, numeral, numeral_value,
    push_char, push_numeral, push_text, read_numeral, string_of,
};
use crate::token::{lexemes, Kind, Lexeme, Token, TT};
use crate::types::Type;

verus! {

/// Why a text is no run of tokens.
#[derive(Clone, Debug, PartialEq, Eq)]
pub enum LexError {
    /// A second decimal point in one literal; the literal up to that point.
    SecondDot(String),
    /// An integer literal above `i128::MAX`.
    IntTooLarge(String),
    /// A float literal that the host could not read.
    BadFloat(String),
    /// A single `|`.
    ExpectedPipe,
    /// A single `&`.
    ExpectedAmpersand,
    /// A character that starts no token.
    InvalidCharacter(char),
    /// Lexing stopped at a float literal of which the table of float facts
    /// has no value yet.
    AskFloat(String),
}

pub enum LexErrorView {
    SecondDot(Seq<char>),
    IntTooLarge(Seq<char>),
    BadFloat(Seq<char>),
    ExpectedPipe,
    ExpectedAmpersand,
    InvalidCharacter(char),
    AskFloat(Seq<char>),
}

impl View for LexError {
    type V = LexErrorView;

    open spec fn view(&self) -> LexErrorView {
        match self {
            LexError::SecondDot(literal) => LexErrorView::SecondDot(literal@),
            LexError::IntTooLarge(literal) => LexErrorView::IntTooLarge(literal@),
            LexError::BadFloat(literal) => LexErrorView::BadFloat(literal@),
            LexError::ExpectedPipe => LexErrorView::ExpectedPipe,
            LexError::ExpectedAmpersand => LexErrorView::ExpectedAmpersand,
            LexError::InvalidCharacter(c) => LexErrorView::InvalidCharacter(*c),
            LexError::AskFloat(literal) => LexErrorView::AskFloat(literal@),
        }
    }
}

impl LexErrorView {
    pub open spec fn message(self) -> Seq<char> {
        match self {
            LexErrorView::SecondDot(literal) =>
                "can't float can have only 1 dot can't add one more to "@ + literal,
            LexErrorView::IntTooLarge(literal) => "can't parse "@ + literal
                + " as i128 due to number too large to fit in target type"@,
            LexErrorView::BadFloat(literal) => "can't parse "@ + literal
                + " as f64 due to invalid float literal"@,
            LexErrorView::ExpectedPipe => "expected '|'"@,
            LexErrorView::ExpectedAmpersand => "expected '&'"@,
            LexErrorView::InvalidCharacter(c) => "invalid character '"@.push(c) + "'"@,
            LexErrorView::AskFloat(literal) => "the value of "@ + literal + " is not known yet"@,
        }
    }
}

impl LexError {
    /// The float literal whose value the host is asked for, where the error
    /// is such a request.
    pub fn query(&self) -> (q: Option<FloatQuery>)
        ensures
            match q {
                Some(q) => self@ matches LexErrorView::AskFloat(literal) && q@
                    == FloatQueryView::Literal(literal),
                None => !(self@ is AskFloat),
            },
    {
        match self {
            LexError::AskFloat(literal) => Some(FloatQuery::Literal(literal.clone())),
            _ => None,
        }
    }

    pub fn message(&self) -> (s: String)
        ensures
            s@ == self@.message(),
    {
        match self {
            LexError::SecondDot(literal) => {
                let mut s = String::from_str(
                    "can't float can have only 1 dot can't add one more to ",
                );
                push_text(&mut s, literal.as_str());
                s
            },
            LexError::IntTooLarge(literal) => {
                let mut s = String::from_str("can't parse ");
                push_text(&mut s, literal.as_str());
                push_text(&mut s, " as i128 due to number too large to fit in target type");
                s
            },
            LexError::BadFloat(literal) => {
                let mut s = String::from_str("can't parse ");
                push_text(&mut s, literal.as_str());
                push_text(&mut s, " as f64 due to invalid float literal");
                s
            },
            LexError::ExpectedPipe => String::from_str("expected '|'"),
            LexError::ExpectedAmpersand => String::from_str("expected '&'"),
            LexError::InvalidCharacter(c) => {
                let mut s = String::from_str("invalid character '");
                push_char(&mut s, *c);
                push_text(&mut s, "'");
                s
            },
            LexError::AskFloat(literal) => {
                let mut s = String::from_str("the value of ");
                push_text(&mut s, literal.as_str());
                push_text(&mut s, " is not known yet");
                s
            },
        }
    }
}

/// The first index at or after `pos` that holds no decimal digit.
pub open spec fn digits_end(text: Seq<char>, pos: int) -> int
    decreases text.len() - pos,
{
    if 0 <= pos < text.len() && is_digit(text[pos]) {
        digits_end(text, pos + 1)
    } else {
        pos
    }
}

/// A character of an identifier: a letter, a decimal digit or `_`.
pub open spec fn is_word_char(c: char) -> bool {
    is_letter(c) || is_digit(c) || c == '_'
}

/// The first index at or after `pos` that holds no character of an
/// identifier.
pub open spec fn word_end(text: Seq<char>, pos: int) -> int
    decreases text.len() - pos,
{
    if 0 <= pos < text.len() && is_word_char(text[pos]) {
        word_end(text, pos + 1)
    } else {
        pos
    }
}

/// What stands at one place of the text: a token that ends at `.1`, or an
/// error with the index at which reading stopped.
pub enum Scan {
    Token(Kind, int),
    Failure(LexErrorView, int),
}

/// Whether the character after `pos` is `c`.
pub open spec fn followed_by(text: Seq<char>, pos: int, c: char) -> bool {
    pos + 1 < text.len() && text[pos + 1] == c
}

/// A number: digits, then at most one point and more digits. Without a point
/// it is an integer, with one a float, whose value `facts` holds.
pub open spec fn scan_number(text: Seq<char>, pos: int, facts: Facts) -> Scan {
    let whole = digits_end(text, pos);
    if whole < text.len() && text[whole] == '.' {
        let end = digits_end(text, whole + 1);
        let literal = text.subrange(pos, end);
        if end < text.len() && text[end] == '.' {
            Scan::Failure(LexErrorView::SecondDot(literal), end)
        } else {
            match facts.literal(literal) {
                Some(Some(bits)) => Scan::Token(Kind::Type(Type::Float(bits)), end),
                Some(None) => Scan::Failure(LexErrorView::BadFloat(literal), end),
                None => Scan::Failure(LexErrorView::AskFloat(literal), end),
            }
        }
    } else {
        let literal = text.subrange(pos, whole);
        if numeral_value(literal) <= i128::MAX {
            Scan::Token(Kind::Type(Type::Int(numeral_value(literal) as i128)), whole)
        } else {
            Scan::Failure(LexErrorView::IntTooLarge(literal), whole)
        }
    }
}

/// A keyword or an identifier.
pub open spec fn scan_word(text: Seq<char>, pos: int) -> Scan {
    let end = word_end(text, pos);
    let word = text.subrange(pos, end);
    match Keyword::spelled(word) {
        Some(keyword) => Scan::Token(Kind::Keyword(keyword), end),
        None => Scan::Token(Kind::Indenifier(word), end),
    }
}

/// A token of one or two characters that may be followed by `=`.
pub open spec fn with_equals(text: Seq<char>, pos: int, alone: Kind, paired: Kind) -> Scan {
    if followed_by(text, pos, '=') {
        Scan::Token(paired, pos + 2)
    } else {
        Scan::Token(alone, pos + 1)
    }
}

/// An operator, a parenthesis or the assignment sign.
pub open spec fn scan_symbol(text: Seq<char>, pos: int) -> Scan {
    let c = text[pos];
    if c == '+' {
        Scan::Token(Kind::Op(Op::Add), pos + 1)
    } else if c == '-' {
        Scan::Token(Kind::Op(Op::Sub), pos + 1)
    } else if c == '/' {
        Scan::Token(Kind::Op(Op::Devd), pos + 1)
    } else if c == '*' {
        Scan::Token(Kind::Op(Op::Mult), pos + 1)
    } else if c == '^' {
        Scan::Token(Kind::Op(Op::Pow), pos + 1)
    } else if c == '%' {
        Scan::Token(Kind::Op(Op::Remain), pos + 1)
    } else if c == '(' {
        Scan::Token(Kind::LPR, pos + 1)
    } else if c == ')' {
        Scan::Token(Kind::RPR, pos + 1)
    } else if c == '=' {
        with_equals(text, pos, Kind::EQ, Kind::Op(Op::Eq))
    } else if c == '<' {
        with_equals(text, pos, Kind::Op(Op::LT), Kind::Op(Op::LTE))
    } else if c == '>' {
        with_equals(text, pos, Kind::Op(Op::GT), Kind::Op(Op::GTE))
    } else if c == '!' {
        with_equals(text, pos, Kind::Op(Op::Not), Kind::Op(Op::NE))
    } else if c == '|' {
        if followed_by(text, pos, '|') {
            Scan::Token(Kind::Op(Op::Or), pos + 2)
        } else {
            Scan::Failure(LexErrorView::ExpectedPipe, pos + 1)
        }
    } else if c == '&' {
        if followed_by(text, pos, '&') {
            Scan::Token(Kind::Op(Op::And), pos + 2)
        } else {
            Scan::Failure(LexErrorView::ExpectedAmpersand, pos + 1)
        }
    } else {
        Scan::Failure(LexErrorView::InvalidCharacter(c), pos)
    }
}

/// The token that starts at `pos`, which holds a character that is no blank.
/// A digit starts a number; a letter or `_` starts a word; anything else is a
/// symbol or an error.
pub open spec fn scan(text: Seq<char>, pos: int, facts: Facts) -> Scan
    recommends
        0 <= pos < text.len(),
{
    let c = text[pos];
    if is_digit(c) {
        scan_number(text, pos, facts)
    } else if is_letter(c) || c == '_' {
        scan_word(text, pos)
    } else {
        scan_symbol(text, pos)
    }
}

/// A space or a tab: what stands between tokens.
pub open spec fn is_blank(c: char) -> bool {
    c == ' ' || c == '\t'
}

/// The tokens of `text` from `pos` on, the last of them the end-of-input
/// token; or the first error, with the index at which reading stopped.
pub open spec fn lex(text: Seq<char>, pos: int, facts: Facts) -> Result<
    Seq<Lexeme>,
    (LexErrorView, int),
>
    decreases text.len() - pos,
{
    if pos < 0 || pos >= text.len() {
        Ok(seq![Lexeme { tt: Kind::EOF, start: pos as usize, end: pos as usize }])
    } else if is_blank(text[pos]) {
        lex(text, pos + 1, facts)
    } else {
        match scan(text, pos, facts) {
            Scan::Token(tt, end) => {
                proof {
                    scan_advances(text, pos, facts);
                }
                after(Lexeme { tt, start: pos as usize, end: end as usize }, lex(text, end, facts))
            },
            Scan::Failure(error, stop) => Err((error, stop)),
        }
    }
}

/// `first` in front of the tokens that follow, where there is no error.
pub open spec fn after(first: Lexeme, rest: Result<Seq<Lexeme>, (LexErrorView, int)>) -> Result<
    Seq<Lexeme>,
    (LexErrorView, int),
> {
    match rest {
        Ok(tokens) => Ok(seq![first] + tokens),
        Err(e) => Err(e),
    }
}

/// `done` in front of the tokens that follow, where there is no error.
pub open spec fn after_all(done: Seq<Lexeme>, rest: Result<Seq<Lexeme>, (LexErrorView, int)>)
    -> Result<Seq<Lexeme>, (LexErrorView, int)> {
    match rest {
        Ok(tokens) => Ok(done + tokens),
        Err(e) => Err(e),
    }
}

/// A run of digits lies in the text, is not empty where it starts at a
/// digit, holds digits only and ends before a character that is none.
pub proof fn digits_end_bounds(text: Seq<char>, pos: int)
    requires
        0 <= pos <= text.len(),
    ensures
        pos <= digits_end(text, pos) <= text.len(),
        pos < text.len() && is_digit(text[pos]) ==> pos < digits_end(text, pos),
        all_digits(text.subrange(pos, digits_end(text, pos))),
        digits_end(text, pos) < text.len() ==> !is_digit(text[digits_end(text, pos)]),
    decreases text.len() - pos,
{
    if pos < text.len() && is_digit(text[pos]) {
        digits_end_bounds(text, pos + 1);
        let end = digits_end(text, pos);
        assert forall|i: int| 0 <= i < end - pos implies is_digit(
            #[trigger] text.subrange(pos, end)[i],
        ) by {
            if i > 0 {
                assert(text.subrange(pos, end)[i] == text.subrange(pos + 1, end)[i - 1]);
            }
        }
    }
}

/// A word lies in the text and is not empty where it starts at one of its
/// characters.
pub proof fn word_end_bounds(text: Seq<char>, pos: int)
    requires
        0 <= pos <= text.len(),
    ensures
        pos <= word_end(text, pos) <= text.len(),
        pos < text.len() && is_word_char(text[pos]) ==> pos < word_end(text, pos),
    decreases text.len() - pos,
{
    if pos < text.len() && is_word_char(text[pos]) {
        word_end_bounds(text, pos + 1);
    }
}

/// A token is at least one character long and ends inside the text.
pub proof fn scan_advances(text: Seq<char>, pos: int, facts: Facts)
    requires
        0 <= pos < text.len(),
    ensures
        scan(text, pos, facts) matches Scan::Token(_, end) ==> pos < end <= text.len(),
        scan(text, pos, facts) matches Scan::Failure(_, stop) ==> pos <= stop <= text.len(),
{
    digits_end_bounds(text, pos);
    let whole = digits_end(text, pos);
    if whole < text.len() {
        digits_end_bounds(text, whole + 1);
    }
    word_end_bounds(text, pos);
}

/// Every token lies inside the text, behind the place from which it was
/// read.
pub proof fn lex_spans(text: Seq<char>, pos: int, facts: Facts)
    requires
        0 <= pos <= text.len() <= usize::MAX,
    ensures
        lex(text, pos, facts) matches Ok(all) ==> all.len() > 0 && forall|i: int|
            0 <= i < all.len() ==> pos <= (#[trigger] all[i]).start <= all[i].end <= text.len(),
    decreases text.len() - pos,
{
    if pos >= text.len() {
    } else if is_blank(text[pos]) {
        lex_spans(text, pos + 1, facts);
    } else {
        scan_advances(text, pos, facts);
        match scan(text, pos, facts) {
            Scan::Token(tt, end) => {
                lex_spans(text, end, facts);
            },
            Scan::Failure(_, _) => {},
        }
    }
}

/// The tokens of a text end with the end-of-input token, which stands at the
/// end of the text, and no token before it is an end-of-input token.
pub proof fn lex_ends_with_eof(text: Seq<char>, pos: int, facts: Facts)
    requires
        0 <= pos <= text.len() <= usize::MAX,
    ensures
        lex(text, pos, facts) matches Ok(all) ==> all.len() > 0 && all.last() == (Lexeme {
            tt: Kind::EOF,
            start: text.len() as usize,
            end: text.len() as usize,
        }) && forall|i: int| 0 <= i < all.len() - 1 ==> (#[trigger] all[i]).tt != Kind::EOF,
    decreases text.len() - pos,
{
    if pos >= text.len() {
    } else if is_blank(text[pos]) {
        lex_ends_with_eof(text, pos + 1, facts);
    } else {
        scan_advances(text, pos, facts);
        match scan(text, pos, facts) {
            Scan::Token(tt, end) => {
                lex_ends_with_eof(text, end, facts);
                assert(tt != Kind::EOF);
            },
            Scan::Failure(_, _) => {},
        }
    }
}

/// The place at which lexing from `pos` ends where it meets no error: the end
/// of the text, or `pos` itself where that lies behind the end.
pub open spec fn lexed_to(text: Seq<char>, pos: int) -> int {
    if pos < text.len() {
        text.len() as int
    } else {
        pos
    }
}

/// The character at `pos`, if there is one.
pub open spec fn current(text: Seq<char>, pos: int) -> Option<char> {
    if 0 <= pos < text.len() {
        Some(text[pos])
    } else {
        None
    }
}

/// The number of line breaks before `pos`. Behind the end of the text there
/// are no more of them.
pub open spec fn line_of(text: Seq<char>, pos: int) -> int
    decreases pos,
{
    if pos <= 0 {
        0
    } else if current(text, pos - 1) == Some('\n') {
        line_of(text, pos - 1) + 1
    } else {
        line_of(text, pos - 1)
    }
}

/// The number of places between the last line break before `pos`, or the
/// start of the text, and `pos`. Behind the end of the text the places count
/// on.
pub open spec fn col_of(text: Seq<char>, pos: int) -> int
    decreases pos,
{
    if pos <= 0 {
        0
    } else if current(text, pos - 1) == Some('\n') {
        0
    } else {
        col_of(text, pos - 1) + 1
    }
}

/// The index at which the line that holds `index` starts.
pub open spec fn line_start(s: Seq<char>, index: int) -> int
    decreases index,
{
    if index <= 0 || index > s.len() {
        0
    } else if s[index - 1] == '\n' {
        index
    } else {
        line_start(s, index - 1)
    }
}

/// The index of the first line break at or after `from`, or the length of
/// the text.
pub open spec fn line_end(s: Seq<char>, from: int) -> int
    decreases s.len() - from,
{
    if from < 0 || from >= s.len() {
        s.len() as int
    } else if s[from] == '\n' {
        from
    } else {
        line_end(s, from + 1)
    }
}

/// The line of `s` in which `index` lies, without its line break; nothing
/// where that line is empty.
pub open spec fn line_at(s: Seq<char>, index: int) -> Option<Seq<char>> {
    let start = line_start(s, index);
    let end = line_end(s, start);
    if end > start {
        Some(s.subrange(start, end))
    } else {
        None
    }
}

/// The line of `s` in which `index` lies, without its line break; nothing
/// where that line is empty.
pub fn get_line_by_char_index<'c>(s: &'c [char], index: usize) -> (line: Option<&'c [char]>)
    requires
        index <= s@.len(),
    ensures
        match line {
            Some(l) => line_at(s@, index as int) == Some(l@),
            None => line_at(s@, index as int) is None,
        },
{
    let mut start: usize = index;
    while start > 0 && s[start - 1] != '\n'
        invariant
            start <= index <= s@.len(),
            line_start(s@, index as int) == line_start(s@, start as int),
        decreases start,
    {
        start -= 1;
    }
    let mut end: usize = start;
    while end < s.len() && s[end] != '\n'
        invariant
            start <= end <= s@.len(),
            line_end(s@, start as int) == line_end(s@, end as int),
        decreases s@.len() - end,
    {
        end += 1;
    }
    if end > start {
        Some(slice_subrange(s, start, end))
    } else {
        None
    }
}

/// The line and the column of a place are at most the place itself.
pub proof fn line_and_col_bounds(text: Seq<char>, pos: int)
    ensures
        0 <= line_of(text, pos) <= pos || pos <= 0,
        0 <= col_of(text, pos) <= pos || pos <= 0,
        pos <= 0 ==> line_of(text, pos) == 0 && col_of(text, pos) == 0,
    decreases pos,
{
    if 0 < pos {
        line_and_col_bounds(text, pos - 1);
    }
}

/// A row of `n` carets.
pub open spec fn carets(n: nat) -> Seq<char> {
    Seq::new(n, |i: int| '^')
}

/// Appends a row of `n` carets to `s`.
pub fn push_carets(s: &mut String, n: usize)
    ensures
        final(s)@ == old(s)@ + carets(n as nat),
{
    let mut i: usize = 0;
    assert(carets(0) =~= Seq::empty());
    while i < n
        invariant
            i <= n,
            s@ == old(s)@ + carets(i as nat),
        decreases n - i,
    {
        push_char(s, '^');
        assert(carets((i + 1) as nat) =~= carets(i as nat).push('^'));
        i += 1;
    }
}

/// A lexing error with its place: the line and column (both counted from
/// zero) at which reading stopped, and the text of that line.
#[derive(Clone, Debug, PartialEq, Eq)]
pub struct LexFailure {
    pub error: LexError,
    pub line: usize,
    pub col: usize,
    pub source: Vec<char>,
}

pub struct LexFailureView {
    pub error: LexErrorView,
    pub line: int,
    pub col: int,
    pub source: Seq<char>,
}

impl View for LexFailure {
    type V = LexFailureView;

    open spec fn view(&self) -> LexFailureView {
        LexFailureView {
            error: self.error@,
            line: self.line as int,
            col: self.col as int,
            source: self.source@,
        }
    }
}

/// The line of `text` in which `index` lies, or no characters where that
/// line is empty.
pub open spec fn source_line(text: Seq<char>, index: int) -> Seq<char> {
    match line_at(text, index) {
        Some(line) => line,
        None => Seq::empty(),
    }
}

/// The failure that `error` makes when reading of `text` stopped at `stop`.
pub open spec fn failure_at(text: Seq<char>, error: LexErrorView, stop: int) -> LexFailureView {
    LexFailureView {
        error,
        line: line_of(text, stop),
        col: col_of(text, stop),
        source: source_line(text, stop),
    }
}

impl LexFailureView {
    /// The offending line, a caret under each of its characters, then the
    /// line and column, counted from one, and the message of the error.
    pub open spec fn message(self) -> Seq<char> {
        "...\n"@ + self.source + "\n"@ + carets(self.source.len()) + "\nLexer error on line - "@
            + numeral((self.line + 1) as nat) + ", column - "@ + numeral((self.col + 1) as nat)
            + ": "@ + self.error.message() + "\n..."@
    }
}

impl LexFailure {
    pub fn message(&self) -> (s: String)
        ensures
            s@ == self@.message(),
    {
        let mut s = String::from_str("...\n");
        let source = string_of(self.source.as_slice(), 0, self.source.len());
        assert(source@ == self.source@);
        push_text(&mut s, source.as_str());
        push_text(&mut s, "\n");
        push_carets(&mut s, self.source.len());
        push_text(&mut s, "\nLexer error on line - ");
        push_numeral(&mut s, self.line as u128 + 1);
        push_text(&mut s, ", column - ");
        push_numeral(&mut s, self.col as u128 + 1);
        push_text(&mut s, ": ");
        push_text(&mut s, self.error.message().as_str());
        push_text(&mut s, "\n...");
        s
    }
}

/// A lexer: a text and a place in it.
pub struct Lexer {
    text: Vec<char>,
    pos: usize,
    line: usize,
    col: usize,
    cc: Option<char>,
}

impl Lexer {
    /// The text that is read.
    pub closed spec fn text(&self) -> Seq<char> {
        self.text@
    }

    /// The index of the current character.
    pub closed spec fn pos(&self) -> int {
        self.pos as int
    }

    /// The number of line breaks before the current character.
    pub closed spec fn line(&self) -> int {
        self.line as int
    }

    /// The number of characters between the start of the line and the
    /// current character.
    pub closed spec fn col(&self) -> int {
        self.col as int
    }

    /// The current character; nothing at the end of the text.
    pub closed spec fn cc(&self) -> Option<char> {
        self.cc
    }

    /// The current character, the line and the column are those of the
    /// place. The place may lie behind the end of the text, where there is no
    /// current character.
    pub open spec fn wf(&self) -> bool {
        &&& self.text().len() <= usize::MAX
        &&& 0 <= self.pos()
        &&& self.cc() == current(self.text(), self.pos())
        &&& self.line() == line_of(self.text(), self.pos())
        &&& self.col() == col_of(self.text(), self.pos())
    }

    /// A lexer at the start of `text`.
    pub fn new(text: &str) -> (lexer: Self)
        ensures
            lexer.wf(),
            lexer.text() == text@,
            lexer.pos() == 0,
    {
        let text: Vec<char> = chars_of(text);
        let cc = if text.len() > 0 {
            Some(text[0])
        } else {
            None
        };
        Self { text, line: 0, col: 0, pos: 0, cc }
    }

    /// Moves to the next place, also at the end of the text and behind it.
    /// The column grows by one; behind a line break the line grows by one
    /// and the column starts again at zero.
    pub fn step(&mut self)
        requires
            old(self).wf(),
            old(self).pos() < usize::MAX,
        ensures
            final(self).wf(),
            final(self).text() == old(self).text(),
            final(self).pos() == old(self).pos() + 1,
            final(self).line() == (if old(self).cc() == Some('\n') {
                old(self).line() + 1
            } else {
                old(self).line()
            }),
            final(self).col() == (if old(self).cc() == Some('\n') {
                0
            } else {
                old(self).col() + 1
            }),
    {
        proof {
            line_and_col_bounds(self.text@, self.pos as int);
        }
        let newline = match self.cc {
            Some(c) => c == '\n',
            None => false,
        };
        self.pos += 1;
        self.col += 1;
        if newline {
            self.line += 1;
            self.col = 0;
        }
        self.cc = if self.pos < self.text.len() {
            Some(self.text[self.pos])
        } else {
            None
        };
    }

    /// Moves past the decimal digits at the current place.
    fn skip_digits(&mut self)
        requires
            old(self).wf(),
        ensures
            final(self).wf(),
            final(self).text() == old(self).text(),
            final(self).pos() == digits_end(old(self).text(), old(self).pos()),
    {
        while self.pos < self.text.len() && is_ascii_digit(self.text[self.pos])
            invariant
                self.wf(),
                self.text() == old(self).text(),
                old(self).pos() <= self.pos(),
                digits_end(self.text(), self.pos()) == digits_end(
                    old(self).text(),
                    old(self).pos(),
                ),
            decreases self.text@.len() - self.pos,
        {
            self.step();
        }
    }

    fn read_number(&mut self, facts: &FloatFacts) -> (r: Result<TT, LexError>)
        requires
            old(self).wf(),
            old(self).cc() matches Some(c) && is_digit(c),
        ensures
            final(self).wf(),
            final(self).text() == old(self).text(),
            match scan_number(old(self).text(), old(self).pos(), facts@) {
                Scan::Token(kind, end) => r matches Ok(tt) && tt@ == kind && final(self).pos()
                    == end,
                Scan::Failure(error, stop) => r matches Err(e) && e@ == error && final(self).pos()
                    == stop,
            },
    {
        let start = self.pos;
        proof {
            digits_end_bounds(self.text@, start as int);
        }
        self.skip_digits();
        let whole = self.pos;
        let is_point = match self.cc {
            Some(c) => c == '.',
            None => false,
        };
        if !is_point {
            return match read_numeral(self.text.as_slice(), start, whole) {
                Some(i) => Ok(TT::Type(Type::Int(i))),
                None => Err(
                    LexError::IntTooLarge(string_of(self.text.as_slice(), start, whole)),
                ),
            };
        }
        self.step();
        proof {
            digits_end_bounds(self.text@, whole + 1);
        }
        self.skip_digits();
        let literal = string_of(self.text.as_slice(), start, self.pos);
        let second_point = match self.cc {
            Some(c) => c == '.',
            None => false,
        };
        if second_point {
            return Err(LexError::SecondDot(literal));
        }
        match facts.literal(&literal) {
            Some(Some(bits)) => Ok(TT::Type(Type::Float(bits))),
            Some(None) => Err(LexError::BadFloat(literal)),
            None => Err(LexError::AskFloat(literal)),
        }
    }

    fn read_indenifier(&mut self) -> (tt: TT)
        requires
            old(self).wf(),
            old(self).pos() < old(self).text().len(),
        ensures
            final(self).wf(),
            final(self).text() == old(self).text(),
            scan_word(old(self).text(), old(self).pos()) == Scan::Token(tt@, final(self).pos()),
    {
        let start = self.pos;
        proof {
            word_end_bounds(self.text@, start as int);
        }
        loop
            invariant
                self.wf(),
                self.text() == old(self).text(),
                old(self).pos() <= self.pos(),
                word_end(self.text(), self.pos()) == word_end(old(self).text(), old(self).pos()),
            ensures
                self.pos() == word_end(old(self).text(), old(self).pos()),
            decreases self.text@.len() - self.pos,
        {
            let cc = match self.cc {
                Some(c) => c,
                None => {
                    break ;
                },
            };
            if !letter(cc) && !is_ascii_digit(cc) && cc != '_' {
                break ;
            }
            self.step();
        }
        let indenifier = string_of(self.text.as_slice(), start, self.pos);
        match Keyword::lookup(&indenifier) {
            Some(keyword) => TT::Keyword(keyword),
            None => TT::Indenifier(indenifier),
        }
    }

    /// Reads a token that may be followed by `=`: `alone` without it,
    /// `paired` with it.
    fn read_with_equals(&mut self, alone: TT, paired: TT) -> (tt: TT)
        requires
            old(self).wf(),
            old(self).pos() < old(self).text().len(),
        ensures
            final(self).wf(),
            final(self).text() == old(self).text(),
            with_equals(old(self).text(), old(self).pos(), alone@, paired@) == Scan::Token(
                tt@,
                final(self).pos(),
            ),
    {
        self.step();
        if let Some('=') = self.cc {
            self.step();
            return paired;
        }
        alone
    }

    fn read_lt(&mut self) -> (tt: TT)
        requires
            old(self).wf(),
            old(self).pos() < old(self).text().len(),
        ensures
            final(self).wf(),
            final(self).text() == old(self).text(),
            with_equals(old(self).text(), old(self).pos(), Kind::Op(Op::LT), Kind::Op(Op::LTE))
                == Scan::Token(tt@, final(self).pos()),
    {
        self.read_with_equals(TT::Op(Op::LT), TT::Op(Op::LTE))
    }

    fn read_gt(&mut self) -> (tt: TT)
        requires
            old(self).wf(),
            old(self).pos() < old(self).text().len(),
        ensures
            final(self).wf(),
            final(self).text() == old(self).text(),
            with_equals(old(self).text(), old(self).pos(), Kind::Op(Op::GT), Kind::Op(Op::GTE))
                == Scan::Token(tt@, final(self).pos()),
    {
        self.read_with_equals(TT::Op(Op::GT), TT::Op(Op::GTE))
    }

    fn read_not(&mut self) -> (tt: TT)
        requires
            old(self).wf(),
            old(self).pos() < old(self).text().len(),
        ensures
            final(self).wf(),
            final(self).text() == old(self).text(),
            with_equals(old(self).text(), old(self).pos(), Kind::Op(Op::Not), Kind::Op(Op::NE))
                == Scan::Token(tt@, final(self).pos()),
    {
        self.read_with_equals(TT::Op(Op::Not), TT::Op(Op::NE))
    }

    fn read_eq(&mut self) -> (tt: TT)
        requires
            old(self).wf(),
            old(self).pos() < old(self).text().len(),
        ensures
            final(self).wf(),
            final(self).text() == old(self).text(),
            with_equals(old(self).text(), old(self).pos(), Kind::EQ, Kind::Op(Op::Eq))
                == Scan::Token(tt@, final(self).pos()),
    {
        self.read_with_equals(TT::EQ, TT::Op(Op::Eq))
    }

    fn read_or(&mut self) -> (r: Result<TT, LexError>)
        requires
            old(self).wf(),
            old(self).pos() < old(self).text().len(),
        ensures
            final(self).wf(),
            final(self).text() == old(self).text(),
            match r {
                Ok(tt) => followed_by(old(self).text(), old(self).pos(), '|') && tt@ == Kind::Op(
                    Op::Or,
                ) && final(self).pos() == old(self).pos() + 2,
                Err(e) => !followed_by(old(self).text(), old(self).pos(), '|') && e@
                    == LexErrorView::ExpectedPipe && final(self).pos() == old(self).pos() + 1,
            },
    {
        self.step();
        if let Some('|') = self.cc {
            self.step();
            return Ok(TT::Op(Op::Or));
        }
        Err(LexError::ExpectedPipe)
    }

    fn read_and(&mut self) -> (r: Result<TT, LexError>)
        requires
            old(self).wf(),
            old(self).pos() < old(self).text().len(),
        ensures
            final(self).wf(),
            final(self).text() == old(self).text(),
            match r {
                Ok(tt) => followed_by(old(self).text(), old(self).pos(), '&') && tt@ == Kind::Op(
                    Op::And,
                ) && final(self).pos() == old(self).pos() + 2,
                Err(e) => !followed_by(old(self).text(), old(self).pos(), '&') && e@
                    == LexErrorView::ExpectedAmpersand && final(self).pos() == old(self).pos()
                    + 1,
            },
    {
        self.step();
        if let Some('&') = self.cc {
            self.step();
            return Ok(TT::Op(Op::And));
        }
        Err(LexError::ExpectedAmpersand)
    }
    /// Adds the token that was read from `start` to the current place.
    fn push_token(&self, tokens: &mut Vec<Token>, start: usize, tt: TT)
        ensures
            lexemes(final(tokens)@) == lexemes(old(tokens)@).push(
                Lexeme { tt: tt@, start, end: self.pos() as usize },
            ),
    {
        tokens.push(Token::new(start, self.pos, tt));
        assert(lexemes(final(tokens)@) =~= lexemes(old(tokens)@).push(
            Lexeme { tt: tt@, start, end: self.pos() as usize },
        ));
    }

    /// Reads the symbol at the current place: an operator, a parenthesis or
    /// the assignment sign.
    fn read_symbol(&mut self, cc: char) -> (r: Result<TT, LexError>)
        requires
            old(self).wf(),
            old(self).cc() == Some(cc),
        ensures
            final(self).wf(),
            final(self).text() == old(self).text(),
            match scan_symbol(old(self).text(), old(self).pos()) {
                Scan::Token(kind, end) => r matches Ok(tt) && tt@ == kind && final(self).pos()
                    == end,
                Scan::Failure(error, stop) => r matches Err(e) && e@ == error && final(self).pos()
                    == stop,
            },
    {
        let single = match cc {
            '+' => Some(TT::Op(Op::Add)),
            '-' => Some(TT::Op(Op::Sub)),
            '/' => Some(TT::Op(Op::Devd)),
            '*' => Some(TT::Op(Op::Mult)),
            '^' => Some(TT::Op(Op::Pow)),
            '%' => Some(TT::Op(Op::Remain)),
            '(' => Some(TT::LPR),
            ')' => Some(TT::RPR),
            _ => None,
        };
        match single {
            Some(tt) => {
                self.step();
                Ok(tt)
            },
            None => match cc {
                '=' => Ok(self.read_eq()),
                '|' => self.read_or(),
                '&' => self.read_and(),
                '<' => Ok(self.read_lt()),
                '>' => Ok(self.read_gt()),
                '!' => Ok(self.read_not()),
                _ => Err(LexError::InvalidCharacter(cc)),
            },
        }
    }

    /// Reads the tokens from the current place to the end of the text. After
    /// an error the lexer stands where reading stopped.
    fn _tokenize(&mut self, facts: &FloatFacts) -> (r: Result<Vec<Token>, LexError>)
        requires
            old(self).wf(),
        ensures
            final(self).wf(),
            final(self).text() == old(self).text(),
            match lex(old(self).text(), old(self).pos(), facts@) {
                Ok(all) => r matches Ok(tokens) && lexemes(tokens@) == all && final(self).pos()
                    == lexed_to(old(self).text(), old(self).pos()),
                Err((error, stop)) => r matches Err(e) && e@ == error && final(self).pos()
                    == stop && stop <= old(self).text().len(),
            },
    {
        let mut tokens: Vec<Token> = Vec::new();
        assert(lexemes(tokens@) =~= Seq::empty());
        assert(after_all(Seq::empty(), lex(self.text(), self.pos(), facts@)) == lex(
            self.text(),
            self.pos(),
            facts@,
        )) by {
            match lex(self.text(), self.pos(), facts@) {
                Ok(rest) => {
                    assert(Seq::<Lexeme>::empty() + rest =~= rest);
                },
                Err(_) => {},
            }
        }
        loop
            invariant
                self.wf(),
                self.text() == old(self).text(),
                lex(old(self).text(), old(self).pos(), facts@) == after_all(
                    lexemes(tokens@),
                    lex(self.text(), self.pos(), facts@),
                ),
                old(self).pos() <= self.pos() <= lexed_to(old(self).text(), old(self).pos()),
            ensures
                self.pos() == lexed_to(old(self).text(), old(self).pos()),
            decreases self.text().len() - self.pos(),
        {
            let cc = match self.cc {
                Some(c) => c,
                None => {
                    break ;
                },
            };
            if cc == ' ' || cc == '\t' {
                self.step();
                continue ;
            }
            let start = self.pos;
            let ghost before = lexemes(tokens@);
            let ghost rest = lex(self.text(), self.pos(), facts@);
            proof {
                scan_advances(self.text(), self.pos(), facts@);
            }
            let read = if is_ascii_digit(cc) {
                self.read_number(facts)
            } else if letter(cc) || cc == '_' {
                Ok(self.read_indenifier())
            } else {
                self.read_symbol(cc)
            };
            match read {
                Ok(tt) => {
                    self.push_token(&mut tokens, start, tt);
                    proof {
                        let first = Lexeme { tt: tt@, start, end: self.pos() as usize };
                        let next = lex(self.text(), self.pos(), facts@);
                        assert(rest == after(first, next));
                        match next {
                            Ok(more) => {
                                assert(before + (seq![first] + more) =~= before.push(first)
                                    + more);
                            },
                            Err(_) => {},
                        }
                    }
                },
                Err(e) => {
                    return Err(e);
                },
            }
        }
        let end = self.pos;
        let ghost before = lexemes(tokens@);
        self.push_token(&mut tokens, end, TT::EOF);
        proof {
            let last = Lexeme { tt: Kind::EOF, start: end, end };
            assert(lex(self.text(), self.pos(), facts@) == Ok::<
                Seq<Lexeme>,
                (LexErrorView, int),
            >(seq![last]));
            assert(lexemes(tokens@) =~= before + seq![last]);
        }
        Ok(tokens)
    }

    /// Reads the tokens from the current place to the end of the text. The
    /// last token is the end-of-input token. An error comes with the line and
    /// column at which reading stopped and with the text of that line.
    pub fn tokenize(&mut self, facts: &FloatFacts) -> (r: Result<Vec<Token>, LexFailure>)
        requires
            old(self).wf(),
        ensures
            final(self).wf(),
            final(self).text() == old(self).text(),
            match lex(old(self).text(), old(self).pos(), facts@) {
                Ok(all) => r matches Ok(tokens) && lexemes(tokens@) == all && final(self).pos()
                    == lexed_to(old(self).text(), old(self).pos()),
                Err((error, stop)) => r matches Err(failure) && failure@ == failure_at(
                    old(self).text(),
                    error,
                    stop,
                ) && final(self).pos() == stop,
            },
    {
        match self._tokenize(facts) {
            Ok(tokens) => Ok(tokens),
            Err(error) => {
                let source = match get_line_by_char_index(self.text.as_slice(), self.pos) {
                    Some(line) => {
                        let mut copy: Vec<char> = Vec::new();
                        let mut i: usize = 0;
                        while i < line.len()
                            invariant
                                i <= line@.len(),
                                copy@ == line@.take(i as int),
                            decreases line@.len() - i,
                        {
                            copy.push(line[i]);
                            i += 1;
                        }
                        assert(line@.take(line@.len() as int) == line@);
                        copy
                    },
                    None => Vec::new(),
                };
                Err(LexFailure { error, line: self.line, col: self.col, source })
            },
        }
    }
}

} // verus!
