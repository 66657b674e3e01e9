//! The scanner. It walks the source text as a vector of characters and
//! produces the token sequence that the parser consumes: identifiers,
//! numeric literals (stored as binary64 bit patterns), ten single-character
//! operators, the two single-codepoint keywords for abstraction and
//! recursion, comments, and one final end marker.
//!
//! `spec_get_token` and `spec_tokens` are the scanner's specification: the
//! executable scanner is proved to produce exactly the tokens they describe.
use vstd::prelude::*;

use crate::numerics::decimal_bits_of;
use crate::numerics::f64_bits_parse_decimal;

verus! {

/// The single-character operators of the language.
#[derive(Debug, Clone, Copy, PartialEq, Eq, Structural)]
pub enum Operator {
    Plus,
    Minus,
    Asterisk,
    Slash,
    Equal,
    LeftParen,
    RightParen,
    Dot,
    BitAnd,
    BitOr,
}

/// A token. Numeric literals carry the bit pattern of the binary64 value
/// denoted by the numeral's text.
#[derive(Debug)]
pub enum TokenKind {
    Comment(String),
    Lamda,
    Recursion,
    Identifier(String),
    Literal(u64),
    Operator(Operator),
    Eof,
}

/// The mathematical shape of a token: text is a sequence of characters.
pub enum TokenView {
    Comment(Seq<char>),
    Lamda,
    Recursion,
    Identifier(Seq<char>),
    Literal(u64),
    Operator(Operator),
    Eof,
}

impl View for TokenKind {
    type V = TokenView;

    open spec fn view(&self) -> TokenView {
        match self {
            TokenKind::Comment(text) => TokenView::Comment(text@),
            TokenKind::Lamda => TokenView::Lamda,
            TokenKind::Recursion => TokenView::Recursion,
            TokenKind::Identifier(name) => TokenView::Identifier(name@),
            TokenKind::Literal(bits) => TokenView::Literal(*bits),
            TokenKind::Operator(op) => TokenView::Operator(*op),
            TokenKind::Eof => TokenView::Eof,
        }
    }
}

/// A scanning failure. The offset is the position just past the character
/// the scanner stopped at; rows and columns are not reliably tracked.
#[derive(Debug, Clone, Copy, PartialEq, Eq, Structural)]
pub enum LexError {
    MalformedNumber { offset: usize },
    UnrecognizedCharacter { found: char, offset: usize },
}

/// The abstraction keyword, a single codepoint.
pub const LAMBDA_CHAR: char = '\u{03BB}';

/// The recursion keyword, a single codepoint.
pub const RECURSION_CHAR: char = '\u{1D453}';

/// The character sets the scanner consumes runs of.
#[derive(Clone, Copy)]
pub enum CharClass {
    Whitespace,
    NotNewline,
    IdentifierPart,
}

/// The Unicode `White_Space` characters.
pub open spec fn spec_is_whitespace(c: char) -> bool {
    ('\u{0009}' <= c && c <= '\u{000D}') || c == ' ' || c == '\u{0085}' || c == '\u{00A0}'
        || c == '\u{1680}' || ('\u{2000}' <= c && c <= '\u{200A}') || c == '\u{2028}'
        || c == '\u{2029}' || c == '\u{202F}' || c == '\u{205F}' || c == '\u{3000}'
}

pub open spec fn spec_is_ascii_digit(c: char) -> bool {
    '0' <= c && c <= '9'
}

pub open spec fn spec_is_identifier_start(c: char) -> bool {
    ('a' <= c && c <= 'z') || ('A' <= c && c <= 'Z') || c == '_'
}

pub open spec fn spec_is_identifier_part(c: char) -> bool {
    spec_is_identifier_start(c) || spec_is_ascii_digit(c)
}

pub open spec fn spec_char_in_class(class: CharClass, c: char) -> bool {
    match class {
        CharClass::Whitespace => spec_is_whitespace(c),
        CharClass::NotNewline => c != '\n',
        CharClass::IdentifierPart => spec_is_identifier_part(c),
    }
}

pub fn is_ascii_digit_char(c: char) -> (r: bool)
    ensures
        r == spec_is_ascii_digit(c),
{
    '0' <= c && c <= '9'
}

pub fn char_in_class(class: CharClass, c: char) -> (r: bool)
    ensures
        r == spec_char_in_class(class, c),
{
    match class {
        CharClass::Whitespace => {
            ('\u{0009}' <= c && c <= '\u{000D}') || c == ' ' || c == '\u{0085}' || c
                == '\u{00A0}' || c == '\u{1680}' || ('\u{2000}' <= c && c <= '\u{200A}') || c
                == '\u{2028}' || c == '\u{2029}' || c == '\u{202F}' || c == '\u{205F}' || c
                == '\u{3000}'
        },
        CharClass::NotNewline => c != '\n',
        CharClass::IdentifierPart => {
            ('a' <= c && c <= 'z') || ('A' <= c && c <= 'Z') || c == '_' || ('0' <= c && c <= '9')
        },
    }
}

/// Relies on `str::chars`: the characters of the text, in order.
#[verifier::external_body]
pub(crate) fn chars_of_str(text: &str) -> (r: Vec<char>)
    ensures
        r@ == text@,
{
    text.chars().collect()
}

/// Relies on `String`'s `FromIterator` over characters: the collected text
/// holds exactly the given characters, in order.
#[verifier::external_body]
pub(crate) fn string_from_chars(chars: &Vec<char>) -> (r: String)
    ensures
        r@ == chars@,
{
    chars.iter().collect()
}

/// The offset after moving one character forward; offsets never wrap.
pub open spec fn spec_advance_offset(offset: usize) -> usize {
    if offset < usize::MAX {
        (offset + 1) as usize
    } else {
        offset
    }
}

/// The character under the cursor, if the cursor is inside the text.
pub open spec fn spec_peek(chars: Seq<char>, offset: usize) -> Option<char> {
    if offset < chars.len() {
        Some(chars[offset as int])
    } else {
        None
    }
}

/// The run of characters of one class starting at `offset`, and the offset
/// the cursor rests at afterwards (one past the run's terminator, stepped
/// back onto it, exactly as the scanner moves).
pub open spec fn spec_consume_while(class: CharClass, chars: Seq<char>, offset: usize) -> (Seq<
    char,
>, usize)
    decreases chars.len() - offset,
{
    match spec_peek(chars, offset) {
        None => (Seq::empty(), spec_advance_offset(offset)),
        Some(c) => {
            if spec_char_in_class(class, c) {
                if offset < usize::MAX {
                    let (rest, end) = spec_consume_while(class, chars, (offset + 1) as usize);
                    (seq![c] + rest, end)
                } else {
                    (Seq::empty(), offset)
                }
            } else {
                ((Seq::empty(), offset))
            }
        },
    }
}

/// The run of digits and separating underscores starting at `offset`:
/// a second consecutive underscore ends the run.
pub open spec fn spec_consume_digits(chars: Seq<char>, offset: usize, last_underscore: bool) -> (
    Seq<char>,
    usize,
)
    decreases chars.len() - offset,
{
    match spec_peek(chars, offset) {
        None => (Seq::empty(), spec_advance_offset(offset)),
        Some(c) => {
            if last_underscore && c == '_' {
                ((Seq::empty(), offset))
            } else if spec_is_ascii_digit(c) || c == '_' {
                if offset < usize::MAX {
                    let (rest, end) = spec_consume_digits(chars, (offset + 1) as usize, c == '_');
                    (seq![c] + rest, end)
                } else {
                    (Seq::empty(), offset)
                }
            } else {
                ((Seq::empty(), offset))
            }
        },
    }
}

/// The given characters with every underscore removed, from index `i` on.
pub open spec fn spec_strip_underscores_from(text: Seq<char>, i: int) -> Seq<char>
    decreases text.len() - i,
{
    if i < 0 || i >= text.len() {
        Seq::empty()
    } else if text[i] == '_' {
        spec_strip_underscores_from(text, i + 1)
    } else {
        seq![text[i]] + spec_strip_underscores_from(text, i + 1)
    }
}

/// The given characters with every underscore removed.
pub open spec fn spec_strip_underscores(text: Seq<char>) -> Seq<char> {
    spec_strip_underscores_from(text, 0)
}

pub struct Lexer {
    pub tokens: Vec<char>,
    pub offset: usize,
    pub row: usize,
    pub col: usize,
}

/// One scanning step: the token beginning at `offset` (skipping leading
/// whitespace) or a scanning error, with the offset the cursor rests at
/// afterwards.
pub open spec fn spec_get_token(chars: Seq<char>, offset: usize) -> (Result<TokenView, LexError>,
    usize,
) {
    let (ws, o1) = spec_consume_while(CharClass::Whitespace, chars, offset);
    let o2 = spec_advance_offset(o1);
    match spec_peek(chars, o1) {
        None => (Ok(TokenView::Eof), o2),
        Some(c) => {
            if c == '(' {
                (Ok(TokenView::Operator(Operator::LeftParen)), o2)
            } else if c == ')' {
                (Ok(TokenView::Operator(Operator::RightParen)), o2)
            } else if c == '*' {
                (Ok(TokenView::Operator(Operator::Asterisk)), o2)
            } else if c == '/' {
                match spec_peek(chars, o2) {
                    Some('/') => {
                        let o3 = spec_advance_offset(o2);
                        let (text, o4) = spec_consume_while(CharClass::NotNewline, chars, o3);
                        let comment = if text.len() > 0 && text.last() == '\r' {
                            text.drop_last()
                        } else {
                            text
                        };
                        (Ok(TokenView::Comment(comment)), o4)
                    },
                    _ => (Ok(TokenView::Operator(Operator::Slash)), o2),
                }
            } else if c == '-' {
                (Ok(TokenView::Operator(Operator::Minus)), o2)
            } else if c == '+' {
                (Ok(TokenView::Operator(Operator::Plus)), o2)
            } else if c == '=' {
                (Ok(TokenView::Operator(Operator::Equal)), o2)
            } else if c == '.' {
                (Ok(TokenView::Operator(Operator::Dot)), o2)
            } else if c == '&' {
                (Ok(TokenView::Operator(Operator::BitAnd)), o2)
            } else if c == '|' {
                (Ok(TokenView::Operator(Operator::BitOr)), o2)
            } else if c == LAMBDA_CHAR {
                (Ok(TokenView::Lamda), o2)
            } else if c == RECURSION_CHAR {
                (Ok(TokenView::Recursion), o2)
            } else if spec_is_identifier_start(c) {
                let (rest, o3) = spec_consume_while(CharClass::IdentifierPart, chars, o2);
                (Ok(TokenView::Identifier(seq![c] + rest)), o3)
            } else if spec_is_ascii_digit(c) {
                spec_scan_number(chars, c, o2)
            } else {
                (Err(LexError::UnrecognizedCharacter { found: c, offset: o2 }), o2)
            }
        },
    }
}

/// The numeric-literal scan, after its first digit `c` was consumed:
/// an integer part, an optional fraction part after a dot, an optional
/// exponent with an optional sign, whose digits must not be empty.
/// Underscores are stripped before the numeral is read as a number.
pub open spec fn spec_scan_number(chars: Seq<char>, c: char, o2: usize) -> (Result<
    TokenView,
    LexError,
>, usize) {
    let (int_part, o3) = spec_consume_digits(chars, o2, false);
    let text1 = seq![c] + int_part;
    let (text2, o5) = if spec_peek(chars, o3) == Some('.') {
        let o4 = spec_advance_offset(o3);
        let (frac, o5) = spec_consume_digits(chars, o4, false);
        (text1 + seq!['.'] + frac, o5)
    } else {
        (text1, o3)
    };
    if spec_peek(chars, o5) == Some('e') || spec_peek(chars, o5) == Some('E') {
        let o6 = spec_advance_offset(o5);
        let (text3, o7) = match spec_peek(chars, o6) {
            Some(s) => if s == '+' || s == '-' {
                (text2 + seq!['E'] + seq![s], spec_advance_offset(o6))
            } else {
                (text2 + seq!['E'], o6)
            },
            None => (text2 + seq!['E'], o6),
        };
        let (exp_digits, o8) = spec_consume_digits(chars, o7, false);
        if exp_digits.len() == 0 {
            (Err(LexError::MalformedNumber { offset: o8 }), o8)
        } else {
            spec_number_token(text3 + exp_digits, o8)
        }
    } else {
        spec_number_token(text2, o5)
    }
}

/// The token a finished numeral's text denotes: its value's bit pattern,
/// or a malformed-number error when it denotes none.
pub open spec fn spec_number_token(text: Seq<char>, offset: usize) -> (Result<
    TokenView,
    LexError,
>, usize) {
    match decimal_bits_of(spec_strip_underscores(text)) {
        Some(bits) => (Ok(TokenView::Literal(bits)), offset),
        None => (Err(LexError::MalformedNumber { offset }), offset),
    }
}

/// The token sequence from `offset` on: tokens up to and including the end
/// marker, or the first scanning error. `None` only when the step budget is
/// smaller than the number of tokens, which no actual scan reaches.
pub open spec fn spec_tokens_from(
    chars: Seq<char>,
    offset: usize,
    fuel: nat,
    acc: Seq<TokenView>,
) -> Option<Result<Seq<TokenView>, LexError>>
    decreases fuel,
{
    if fuel == 0 {
        None
    } else {
        let (r, o2) = spec_get_token(chars, offset);
        match r {
            Err(e) => Some(Err(e)),
            Ok(TokenView::Eof) => Some(Ok(acc + seq![TokenView::Eof])),
            Ok(t) => spec_tokens_from(chars, o2, (fuel - 1) as nat, acc + seq![t]),
        }
    }
}

/// The whole token sequence of the text, or its first scanning error.
pub open spec fn spec_tokens(chars: Seq<char>) -> Option<Result<Seq<TokenView>, LexError>> {
    spec_tokens_from(chars, 0, (chars.len() + 2) as nat, Seq::empty())
}

impl Lexer {
    /// A scanner over the given source text, with the cursor at the start.
    pub fn new(source: &str) -> (r: Self)
        ensures
            r.tokens@ == source@,
            r.offset == 0,
    {
        Lexer { tokens: chars_of_str(source), offset: 0, row: 1, col: 1 }
    }

    /// The character at the cursor, when `n` and the cursor are both inside
    /// the text; the position argument only gates the lookup.
    pub fn get_ch_at(&self, n: usize) -> (r: Option<char>)
        ensures
            r == (if n < self.tokens@.len() {
                spec_peek(self.tokens@, self.offset)
            } else {
                Option::<char>::None
            }),
    {
        if n < self.tokens.len() {
            if self.offset < self.tokens.len() {
                Some(self.tokens[self.offset])
            } else {
                None
            }
        } else {
            None
        }
    }

    /// The character at the cursor, without moving it.
    pub fn look_ahead(&self) -> (r: Option<char>)
        ensures
            r == spec_peek(self.tokens@, self.offset),
    {
        self.get_ch_at(self.offset)
    }

    /// The character the cursor has most recently moved past, two steps back.
    pub fn look_back(&self) -> (r: Option<char>)
        ensures
            r == (if self.offset - 2 < self.tokens@.len() as int {
                spec_peek(self.tokens@, self.offset)
            } else {
                Option::<char>::None
            }),
    {
        self.get_ch_at(if self.offset >= 2 {
            self.offset - 2
        } else {
            0
        })
    }

    /// The character three steps before position `n`; the position argument
    /// only gates the lookup.
    pub fn look_back_at(&self, n: usize) -> (r: Option<char>)
        ensures
            r == (if n - 3 < self.tokens@.len() as int {
                spec_peek(self.tokens@, self.offset)
            } else {
                Option::<char>::None
            }),
    {
        self.get_ch_at(if n >= 3 {
            n - 3
        } else {
            0
        })
    }

    /// The character one step before position `n`; the position argument
    /// only gates the lookup.
    pub fn look_ahead_at(&self, n: usize) -> (r: Option<char>)
        ensures
            r == (if n - 1 < self.tokens@.len() as int {
                spec_peek(self.tokens@, self.offset)
            } else {
                Option::<char>::None
            }),
    {
        self.get_ch_at(if n >= 1 {
            n - 1
        } else {
            0
        })
    }

    /// Move the cursor one character forward.
    pub fn advance(&mut self)
        ensures
            final(self).tokens@ == old(self).tokens@,
            final(self).offset == spec_advance_offset(old(self).offset),
    {
        if self.offset < usize::MAX {
            self.offset = self.offset + 1;
        }
    }

    /// Move the cursor `n` characters forward.
    pub fn advance_by(&mut self, n: usize)
        ensures
            final(self).tokens@ == old(self).tokens@,
            final(self).offset == (if old(self).offset + n <= usize::MAX {
                old(self).offset + n
            } else {
                usize::MAX as int
            }),
    {
        if self.offset <= usize::MAX - n {
            self.offset = self.offset + n;
        } else {
            self.offset = usize::MAX;
        }
    }

    /// The character at the cursor; the cursor then moves one forward.
    pub fn consume(&mut self) -> (r: Option<char>)
        ensures
            final(self).tokens@ == old(self).tokens@,
            final(self).offset == spec_advance_offset(old(self).offset),
            r == spec_peek(old(self).tokens@, old(self).offset),
    {
        let ch = self.get_ch_at(self.offset);
        self.advance();
        ch
    }

    /// Consume the run of characters of one class at the cursor and hand
    /// its text back; the cursor rests on the character that ended the run.
    pub fn consume_while(&mut self, class: CharClass) -> (r: String)
        ensures
            final(self).tokens@ == old(self).tokens@,
            old(self).offset <= final(self).offset,
            (r@, final(self).offset) == spec_consume_while(
                class,
                old(self).tokens@,
                old(self).offset,
            ),
    {
        let total: usize = self.tokens.len();
        let ghost chars = self.tokens@;
        let ghost offset0 = self.offset;
        let mut out: Vec<char> = Vec::new();
        loop
            invariant_except_break
                spec_consume_while(class, chars, offset0) == {
                    let (rest, end) = spec_consume_while(class, chars, self.offset);
                    (out@ + rest, end)
                },
            invariant
                self.tokens@ == chars,
                chars.len() <= usize::MAX,
                offset0 <= self.offset,
            ensures
                self.tokens@ == chars,
                offset0 <= self.offset,
                spec_consume_while(class, chars, offset0) == (out@, self.offset),
            decreases chars.len() - self.offset,
        {
            let ghost off_here = self.offset;
            let ghost out0 = out@;
            match self.consume() {
                Some(ch) => {
                    if char_in_class(class, ch) {
                        out.push(ch);
                        proof {
                            let (rest, end) = spec_consume_while(class, chars, self.offset);
                            assert(out@ =~= out0 + seq![ch]);
                            assert(out0 + (seq![ch] + rest) =~= out@ + rest);
                        }
                    } else {
                        self.offset = if self.offset >= 1 {
                            self.offset - 1
                        } else {
                            0
                        };
                        proof {
                            assert(off_here < chars.len());
                            assert(self.offset == off_here);
                            assert(spec_consume_while(class, chars, off_here) == (
                                Seq::<char>::empty(),
                                off_here,
                            ));
                            assert(out@ + Seq::<char>::empty() =~= out@);
                        }
                        break ;
                    }
                },
                None => {
                    proof {
                        assert(out@ + Seq::<char>::empty() =~= out@);
                    }
                    break ;
                },
            }
        }
        string_from_chars(&out)
    }

    /// Consume the run of digits and separating underscores at the cursor,
    /// as the numeric-literal scan does.
    pub fn consume_digits(&mut self) -> (r: Vec<char>)
        ensures
            final(self).tokens@ == old(self).tokens@,
            old(self).offset <= final(self).offset,
            (r@, final(self).offset) == spec_consume_digits(
                old(self).tokens@,
                old(self).offset,
                false,
            ),
    {
        let total: usize = self.tokens.len();
        let ghost chars = self.tokens@;
        let ghost offset0 = self.offset;
        let mut last_underscore: bool = false;
        let mut out: Vec<char> = Vec::new();
        loop
            invariant_except_break
                spec_consume_digits(chars, offset0, false) == {
                    let (rest, end) = spec_consume_digits(chars, self.offset, last_underscore);
                    (out@ + rest, end)
                },
            invariant
                self.tokens@ == chars,
                chars.len() <= usize::MAX,
                offset0 <= self.offset,
            ensures
                self.tokens@ == chars,
                offset0 <= self.offset,
                spec_consume_digits(chars, offset0, false) == (out@, self.offset),
            decreases chars.len() - self.offset,
        {
            let ghost off_here = self.offset;
            let ghost last0 = last_underscore;
            let ghost out0 = out@;
            match self.consume() {
                Some(ch) => {
                    let stop_double = last_underscore && ch == '_';
                    let valid = is_ascii_digit_char(ch) || ch == '_';
                    if stop_double || !valid {
                        self.offset = if self.offset >= 1 {
                            self.offset - 1
                        } else {
                            0
                        };
                        proof {
                            assert(off_here < chars.len());
                            assert(self.offset == off_here);
                            assert(spec_consume_digits(chars, off_here, last0) == (
                                Seq::<char>::empty(),
                                off_here,
                            ));
                            assert(out@ + Seq::<char>::empty() =~= out@);
                        }
                        break ;
                    } else {
                        out.push(ch);
                        last_underscore = ch == '_';
                        proof {
                            let (rest, end) = spec_consume_digits(
                                chars,
                                self.offset,
                                last_underscore,
                            );
                            assert(out@ =~= out0 + seq![ch]);
                            assert(out0 + (seq![ch] + rest) =~= out@ + rest);
                        }
                    }
                },
                None => {
                    proof {
                        assert(out@ + Seq::<char>::empty() =~= out@);
                    }
                    break ;
                },
            }
        }
        out
    }

    /// The given characters with every underscore removed.
    fn strip_underscores(text: &Vec<char>) -> (r: Vec<char>)
        ensures
            r@ == spec_strip_underscores(text@),
    {
        let mut out: Vec<char> = Vec::new();
        let mut i: usize = 0;
        while i < text.len()
            invariant
                i <= text@.len(),
                spec_strip_underscores(text@) == out@ + spec_strip_underscores_from(
                    text@,
                    i as int,
                ),
            decreases text@.len() - i,
        {
            if text[i] != '_' {
                out.push(text[i]);
            }
            i = i + 1;
        }
        proof {
            assert(spec_strip_underscores_from(text@, i as int) == Seq::<char>::empty());
            assert(out@ + Seq::<char>::empty() == out@);
        }
        out
    }

    /// Read the numeral that began with digit `first`, whose first digit the
    /// cursor has moved past, and build its literal token.
    fn scan_number(&mut self, first: char) -> (r: Result<TokenKind, LexError>)
        requires
            spec_is_ascii_digit(first),
        ensures
            final(self).tokens@ == old(self).tokens@,
            old(self).offset <= final(self).offset,
            ({
                let (sr, so) = spec_scan_number(old(self).tokens@, first, old(self).offset);
                res_view(r) == sr && final(self).offset == so
            }),
    {
        let ghost chars = self.tokens@;
        let ghost off0 = self.offset;
        let mut text: Vec<char> = Vec::new();
        text.push(first);
        let mut int_part = self.consume_digits();
        let ghost int_part_g = int_part@;
        text.append(&mut int_part);
        let ghost text1 = seq![first] + int_part_g;
        proof {
            assert(text@ =~= text1);
        }
        let is_dot = match self.look_ahead() {
            Some(c) => c == '.',
            None => false,
        };
        if is_dot {
            text.push('.');
            self.advance();
            let mut frac = self.consume_digits();
            let ghost frac_g = frac@;
            text.append(&mut frac);
            proof {
                assert(text@ =~= text1 + seq!['.'] + frac_g);
            }
        }
        let ghost text2 = text@;
        let is_exp = match self.look_ahead() {
            Some(c) => c == 'e' || c == 'E',
            None => false,
        };
        if is_exp {
            text.push('E');
            self.advance();
            match self.look_ahead() {
                Some(sign) => {
                    if sign == '+' || sign == '-' {
                        text.push(sign);
                        self.advance();
                        proof {
                            assert(text@ =~= text2 + seq!['E'] + seq![sign]);
                        }
                    } else {
                        proof {
                            assert(text@ =~= text2 + seq!['E']);
                        }
                    }
                },
                None => {
                    proof {
                        assert(text@ =~= text2 + seq!['E']);
                    }
                },
            }
            let ghost text3 = text@;
            let mut exp_digits = self.consume_digits();
            let ghost exp_g = exp_digits@;
            if exp_digits.len() == 0 {
                return Err(LexError::MalformedNumber { offset: self.offset });
            }
            text.append(&mut exp_digits);
            proof {
                assert(text@ =~= text3 + exp_g);
            }
        }
        let stripped = Lexer::strip_underscores(&text);
        let stripped_text = string_from_chars(&stripped);
        match f64_bits_parse_decimal(stripped_text.as_str()) {
            Some(bits) => Ok(TokenKind::Literal(bits)),
            None => Err(LexError::MalformedNumber { offset: self.offset }),
        }
    }

    /// Scan one token at the cursor, skipping whitespace before it.
    fn get_token(&mut self) -> (r: Result<TokenKind, LexError>)
        ensures
            final(self).tokens@ == old(self).tokens@,
            ({
                let (sr, so) = spec_get_token(old(self).tokens@, old(self).offset);
                res_view(r) == sr && final(self).offset == so
            }),
            (r matches Ok(t) && !(t is Eof)) ==> old(self).offset < final(self).offset
                && old(self).offset < old(self).tokens@.len(),
    {
        let total: usize = self.tokens.len();
        let ghost chars = self.tokens@;
        proof {
            assert(chars.len() <= usize::MAX);
        }
        let _ws = self.consume_while(CharClass::Whitespace);
        match self.consume() {
            None => Ok(TokenKind::Eof),
            Some(ch) => {
                if ch == '(' {
                    Ok(TokenKind::Operator(Operator::LeftParen))
                } else if ch == ')' {
                    Ok(TokenKind::Operator(Operator::RightParen))
                } else if ch == '*' {
                    Ok(TokenKind::Operator(Operator::Asterisk))
                } else if ch == '/' {
                    let second_slash = match self.look_ahead() {
                        Some(c) => c == '/',
                        None => false,
                    };
                    if second_slash {
                        self.advance();
                        let comment = self.consume_while(CharClass::NotNewline);
                        let ghost text_g = comment@;
                        let comment_chars = chars_of_str(comment.as_str());
                        if comment_chars.len() > 0 && comment_chars[comment_chars.len() - 1]
                            == '\r' {
                            let mut trimmed = comment_chars;
                            trimmed.pop();
                            proof {
                                assert(trimmed@ =~= text_g.drop_last());
                            }
                            Ok(TokenKind::Comment(string_from_chars(&trimmed)))
                        } else {
                            Ok(TokenKind::Comment(comment))
                        }
                    } else {
                        Ok(TokenKind::Operator(Operator::Slash))
                    }
                } else if ch == '-' {
                    Ok(TokenKind::Operator(Operator::Minus))
                } else if ch == '+' {
                    Ok(TokenKind::Operator(Operator::Plus))
                } else if ch == '=' {
                    Ok(TokenKind::Operator(Operator::Equal))
                } else if ch == '.' {
                    Ok(TokenKind::Operator(Operator::Dot))
                } else if ch == '&' {
                    Ok(TokenKind::Operator(Operator::BitAnd))
                } else if ch == '|' {
                    Ok(TokenKind::Operator(Operator::BitOr))
                } else if ch == LAMBDA_CHAR {
                    Ok(TokenKind::Lamda)
                } else if ch == RECURSION_CHAR {
                    Ok(TokenKind::Recursion)
                } else if ('a' <= ch && ch <= 'z') || ('A' <= ch && ch <= 'Z') || ch == '_' {
                    let mut name: Vec<char> = Vec::new();
                    name.push(ch);
                    let rest = self.consume_while(CharClass::IdentifierPart);
                    let ghost rest_g = rest@;
                    let mut rest_chars = chars_of_str(rest.as_str());
                    name.append(&mut rest_chars);
                    proof {
                        assert(name@ =~= seq![ch] + rest_g);
                    }
                    Ok(TokenKind::Identifier(string_from_chars(&name)))
                } else if is_ascii_digit_char(ch) {
                    self.scan_number(ch)
                } else {
                    Err(LexError::UnrecognizedCharacter { found: ch, offset: self.offset })
                }
            },
        }
    }

    /// Scan the whole text: the tokens up to and including the end marker,
    /// or the first scanning error.
    pub fn get_tokens(self) -> (r: Result<Vec<TokenKind>, LexError>)
        requires
            self.offset == 0,
        ensures
            match r {
                Ok(tokens) => spec_tokens(self.tokens@) == Some(
                    Ok::<Seq<TokenView>, LexError>(tokens@.map_values(|t: TokenKind| t@)),
                ),
                Err(e) => spec_tokens(self.tokens@) == Some(Err::<Seq<TokenView>, _>(e)),
            },
    {
        let ghost chars = self.tokens@;
        let mut this = self;
        proof {
            assert(this.tokens@ == chars);
        }
        let ghost full_fuel = (chars.len() + 2) as nat;
        let mut tokens: Vec<TokenKind> = Vec::new();
        proof {
            assert(tokens@.map_values(|t: TokenKind| t@) =~= Seq::<TokenView>::empty());
        }
        loop
            invariant
                this.tokens@ == chars,
                chars == self.tokens@,
                full_fuel == (chars.len() + 2) as nat,
                tokens@.len() <= this.offset,
                tokens@.len() <= chars.len(),
                spec_tokens(chars) == spec_tokens_from(
                    chars,
                    this.offset,
                    (full_fuel - tokens@.len()) as nat,
                    tokens@.map_values(|t: TokenKind| t@),
                ),
            decreases chars.len() - tokens@.len(),
        {
            let ghost acc0 = tokens@.map_values(|t: TokenKind| t@);
            let ghost fuel0 = (full_fuel - tokens@.len()) as nat;
            let ghost off_top = this.offset;
            proof {
                assert(fuel0 >= 2);
            }
            match this.get_token() {
                Err(e) => {
                    proof {
                        assert(spec_get_token(chars, off_top).0 == Err::<TokenView, LexError>(e));
                        assert(spec_tokens_from(chars, off_top, fuel0, acc0) == Some(
                            Err::<Seq<TokenView>, LexError>(e),
                        ));
                        assert(chars == self.tokens@);
                        assert(spec_tokens(chars) == Some(Err::<Seq<TokenView>, LexError>(e)));
                    }
                    return Err(e);
                },
                Ok(token) => {
                    let is_eof = match token {
                        TokenKind::Eof => true,
                        _ => false,
                    };
                    let ghost tv = token@;
                    tokens.push(token);
                    proof {
                        assert(tokens@.map_values(|t: TokenKind| t@) =~= acc0 + seq![tv]);
                        assert(spec_get_token(chars, off_top).0 == Ok::<TokenView, LexError>(tv));
                        if is_eof {
                            assert(spec_tokens_from(chars, off_top, fuel0, acc0) == Some(
                                Ok::<Seq<TokenView>, LexError>(acc0 + seq![TokenView::Eof]),
                            ));
                        } else {
                            assert(spec_tokens_from(chars, off_top, fuel0, acc0)
                                == spec_tokens_from(
                                chars,
                                this.offset,
                                (fuel0 - 1) as nat,
                                acc0 + seq![tv],
                            ));
                        }
                    }
                    if is_eof {
                        return Ok(tokens);
                    }
                },
            }
        }
    }
}

/// The view of a scanning result.
pub open spec fn res_view(r: Result<TokenKind, LexError>) -> Result<TokenView, LexError> {
    match r {
        Ok(t) => Ok(t@),
        Err(e) => Err(e),
    }
}

} // verus!
