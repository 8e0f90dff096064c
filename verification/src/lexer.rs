//! The tokenizer: a character scanner with one character of lookahead.
//!
//! The lexical grammar is written down once, as the spec function
//! [`token_at`]: given the characters of the input and a position, it
//! says which token starts at that position (after skipping whitespace),
//! where the token ends, and whether the scan fails there.  The
//! executable scanner is proved to follow it step by step.

use vstd::prelude::*;

use crate::error::ParserError;
use crate::token::{Token, SpecTok, tok_view};

verus! {

/// Unicode `White_Space`, written out.
pub open spec fn is_ws_char(c: char) -> bool {
    let u = c as u32;
    (9 <= u && u <= 13) || u == 32 || u == 0x85 || u == 0xa0 || u == 0x1680
        || (0x2000 <= u && u <= 0x200a) || u == 0x2028 || u == 0x2029 || u == 0x202f
        || u == 0x205f || u == 0x3000
}

/// An ASCII decimal digit.
pub open spec fn is_digit_char(c: char) -> bool {
    48 <= c as u32 && c as u32 <= 57
}

/// An ASCII letter.
pub open spec fn is_ascii_letter(c: char) -> bool {
    let u = c as u32;
    (97 <= u && u <= 122) || (65 <= u && u <= 90)
}

/// Whether a character beyond ASCII has the Unicode `Alphabetic`
/// property; named here, decided by the standard library.
pub uninterp spec fn char_alpha(c: char) -> bool;

/// A character that may open an identifier: alphabetic or `_`.
pub open spec fn is_ident_start(c: char) -> bool {
    if (c as u32) < 128 {
        is_ascii_letter(c) || c == '_'
    } else {
        char_alpha(c)
    }
}

/// A character that may continue an identifier: alphabetic, a digit,
/// `_`, `?` or `!`.
pub open spec fn is_ident_cont(c: char) -> bool {
    if (c as u32) < 128 {
        is_ascii_letter(c) || is_digit_char(c) || c == '_' || c == '?' || c == '!'
    } else {
        char_alpha(c)
    }
}

/// A character that may continue a numeric run: a digit or `.`.
pub open spec fn is_num_cont(c: char) -> bool {
    is_digit_char(c) || c == '.'
}

/// First position at or after `i` holding a non-whitespace character.
pub open spec fn ws_end(s: Seq<char>, i: int) -> int
    decreases s.len() - i,
{
    if 0 <= i && i < s.len() && is_ws_char(s[i]) {
        ws_end(s, i + 1)
    } else {
        i
    }
}

/// End of the maximal identifier run beginning at `i`.
pub open spec fn ident_end(s: Seq<char>, i: int) -> int
    decreases s.len() - i,
{
    if 0 <= i && i < s.len() && is_ident_cont(s[i]) {
        ident_end(s, i + 1)
    } else {
        i
    }
}

/// End of the maximal numeric run beginning at `i`.
pub open spec fn num_end(s: Seq<char>, i: int) -> int
    decreases s.len() - i,
{
    if 0 <= i && i < s.len() && is_num_cont(s[i]) {
        num_end(s, i + 1)
    } else {
        i
    }
}

/// How many `.` characters stand in `s[i..j)`.
pub open spec fn dot_count(s: Seq<char>, i: int, j: int) -> int
    decreases j - i,
{
    if j <= i {
        0
    } else {
        dot_count(s, i, j - 1) + if s[j - 1] == '.' { 1int } else { 0int }
    }
}

/// Numeric value of a digit character.
pub open spec fn digit_of(c: char) -> int {
    c as u32 - 48
}

/// Value of the digit run `s[i..j)` read in base ten.
pub open spec fn digits_val(s: Seq<char>, i: int, j: int) -> int
    decreases j - i,
{
    if j <= i {
        0
    } else {
        digits_val(s, i, j - 1) * 10 + digit_of(s[j - 1])
    }
}

/// The token an identifier run spells: one of the fixed keywords, or an
/// identifier.  Keyword matching is exact and case-sensitive.
pub open spec fn keyword_of(s: Seq<char>) -> SpecTok {
    if s == "func"@ {
        SpecTok::Simple(Token::Function)
    } else if s == "lambda"@ {
        SpecTok::Simple(Token::Lambda)
    } else if s == "if"@ {
        SpecTok::Simple(Token::If)
    } else if s == "unless"@ {
        SpecTok::Simple(Token::Unless)
    } else if s == "else"@ {
        SpecTok::Simple(Token::Else)
    } else if s == "return"@ {
        SpecTok::Simple(Token::Return)
    } else if s == "end"@ {
        SpecTok::Simple(Token::End)
    } else if s == "true"@ {
        SpecTok::Simple(Token::True)
    } else if s == "false"@ {
        SpecTok::Simple(Token::False)
    } else {
        SpecTok::Identifier(s)
    }
}

/// What one step of the scanner does at a position: the input is
/// exhausted, a token is produced and the scan stands at its end, or a
/// malformed numeric run ends the scan there.
pub enum LexStep {
    End,
    Tok(SpecTok, int),
    Bad(int),
}

/// The lexical grammar.  `token_at(s, pos)` is the step the scanner
/// takes from `pos`: whitespace is skipped, two-character operators are
/// resolved by one character of lookahead, identifier runs are matched
/// against the keyword table, and a numeric run becomes an integer when
/// it has no point and fits `i64`, a float kept as text when it has at
/// most one point, and a scan failure otherwise.
pub open spec fn token_at(s: Seq<char>, pos: int) -> LexStep {
    let i = ws_end(s, pos);
    if i >= s.len() {
        LexStep::End
    } else {
        let c = s[i];
        if c == '=' {
            if i + 1 < s.len() && s[i + 1] == '=' {
                LexStep::Tok(SpecTok::Simple(Token::EqualTo), i + 2)
            } else {
                LexStep::Tok(SpecTok::Simple(Token::Assign), i + 1)
            }
        } else if c == '-' {
            if i + 1 < s.len() && s[i + 1] == '>' {
                LexStep::Tok(SpecTok::Simple(Token::Arrow), i + 2)
            } else {
                LexStep::Tok(SpecTok::Simple(Token::Minus), i + 1)
            }
        } else if c == '~' {
            if i + 1 < s.len() && s[i + 1] == '=' {
                LexStep::Tok(SpecTok::Simple(Token::NotEqualTo), i + 2)
            } else {
                LexStep::Tok(SpecTok::Simple(Token::Denial), i + 1)
            }
        } else if c == '&' {
            if i + 1 < s.len() && s[i + 1] == '&' {
                LexStep::Tok(SpecTok::Simple(Token::And), i + 2)
            } else {
                LexStep::Tok(SpecTok::Simple(Token::BinaryAnd), i + 1)
            }
        } else if c == '+' {
            LexStep::Tok(SpecTok::Simple(Token::Plus), i + 1)
        } else if c == '*' {
            LexStep::Tok(SpecTok::Simple(Token::Asterix), i + 1)
        } else if c == '/' {
            LexStep::Tok(SpecTok::Simple(Token::Slash), i + 1)
        } else if c == '<' {
            LexStep::Tok(SpecTok::Simple(Token::LessThan), i + 1)
        } else if c == '>' {
            LexStep::Tok(SpecTok::Simple(Token::GreaterThan), i + 1)
        } else if c == ',' {
            LexStep::Tok(SpecTok::Simple(Token::Comma), i + 1)
        } else if c == '.' {
            LexStep::Tok(SpecTok::Simple(Token::Period), i + 1)
        } else if c == ':' {
            LexStep::Tok(SpecTok::Simple(Token::Colon), i + 1)
        } else if c == '(' {
            LexStep::Tok(SpecTok::Simple(Token::LParen), i + 1)
        } else if c == ')' {
            LexStep::Tok(SpecTok::Simple(Token::RParen), i + 1)
        } else if c == '{' {
            LexStep::Tok(SpecTok::Simple(Token::LBrace), i + 1)
        } else if c == '}' {
            LexStep::Tok(SpecTok::Simple(Token::RBrace), i + 1)
        } else if is_ident_start(c) {
            let j = ident_end(s, i + 1);
            LexStep::Tok(keyword_of(s.subrange(i, j)), j)
        } else if is_digit_char(c) {
            let j = num_end(s, i + 1);
            if dot_count(s, i, j) == 0 && digits_val(s, i, j) <= i64::MAX {
                LexStep::Tok(SpecTok::Integer(digits_val(s, i, j)), j)
            } else if dot_count(s, i, j) <= 1 {
                LexStep::Tok(SpecTok::Float(s.subrange(i, j)), j)
            } else {
                LexStep::Bad(j)
            }
        } else {
            LexStep::Tok(SpecTok::Invalid(c), i + 1)
        }
    }
}

/// The three scan ends stay within the input.
pub proof fn lemma_scan_end_bounds(s: Seq<char>, i: int)
    requires
        0 <= i <= s.len(),
    ensures
        i <= ws_end(s, i) <= s.len(),
        i <= ident_end(s, i) <= s.len(),
        i <= num_end(s, i) <= s.len(),
    decreases s.len() - i,
{
    if i < s.len() {
        lemma_scan_end_bounds(s, i + 1);
    }
}

/// A produced token always stands strictly ahead of where the scan
/// started, and never beyond the input.
pub proof fn lemma_token_at_advances(s: Seq<char>, pos: int)
    requires
        0 <= pos <= s.len(),
    ensures
        match token_at(s, pos) {
            LexStep::End => true,
            LexStep::Tok(_, p) => pos < p <= s.len(),
            LexStep::Bad(p) => pos < p <= s.len(),
        },
{
    lemma_scan_end_bounds(s, pos);
    let i = ws_end(s, pos);
    if i < s.len() {
        lemma_scan_end_bounds(s, i + 1);
    }
}

/// Each keyword, alone, is one token of its own kind and then the end
/// of the input.
pub proof fn lemma_keyword_lexemes()
    ensures
        token_at("func"@, 0) == LexStep::Tok(SpecTok::Simple(Token::Function), 4),
        token_at("func"@, 4) == LexStep::End,
        token_at("lambda"@, 0) == LexStep::Tok(SpecTok::Simple(Token::Lambda), 6),
        token_at("lambda"@, 6) == LexStep::End,
        token_at("if"@, 0) == LexStep::Tok(SpecTok::Simple(Token::If), 2),
        token_at("if"@, 2) == LexStep::End,
        token_at("unless"@, 0) == LexStep::Tok(SpecTok::Simple(Token::Unless), 6),
        token_at("unless"@, 6) == LexStep::End,
        token_at("else"@, 0) == LexStep::Tok(SpecTok::Simple(Token::Else), 4),
        token_at("else"@, 4) == LexStep::End,
        token_at("return"@, 0) == LexStep::Tok(SpecTok::Simple(Token::Return), 6),
        token_at("return"@, 6) == LexStep::End,
        token_at("end"@, 0) == LexStep::Tok(SpecTok::Simple(Token::End), 3),
        token_at("end"@, 3) == LexStep::End,
        token_at("true"@, 0) == LexStep::Tok(SpecTok::Simple(Token::True), 4),
        token_at("true"@, 4) == LexStep::End,
        token_at("false"@, 0) == LexStep::Tok(SpecTok::Simple(Token::False), 5),
        token_at("false"@, 5) == LexStep::End,
{
    reveal_strlit("func");
    reveal_strlit("lambda");
    reveal_strlit("if");
    reveal_strlit("unless");
    reveal_strlit("else");
    reveal_strlit("return");
    reveal_strlit("end");
    reveal_strlit("true");
    reveal_strlit("false");
    reveal_with_fuel(ident_end, 8);
    assert(ident_end("func"@, 1) == 4);
    assert("func"@.subrange(0, 4) =~= "func"@);
    assert(ident_end("lambda"@, 1) == 6);
    assert("lambda"@.subrange(0, 6) =~= "lambda"@);
    assert(ident_end("if"@, 1) == 2);
    assert("if"@.subrange(0, 2) =~= "if"@);
    assert(ident_end("unless"@, 1) == 6);
    assert("unless"@.subrange(0, 6) =~= "unless"@);
    assert(ident_end("else"@, 1) == 4);
    assert("else"@.subrange(0, 4) =~= "else"@);
    assert(ident_end("return"@, 1) == 6);
    assert("return"@.subrange(0, 6) =~= "return"@);
    assert(ident_end("end"@, 1) == 3);
    assert("end"@.subrange(0, 3) =~= "end"@);
    assert(ident_end("true"@, 1) == 4);
    assert("true"@.subrange(0, 4) =~= "true"@);
    assert(ident_end("false"@, 1) == 5);
    assert("false"@.subrange(0, 5) =~= "false"@);
}

/// Each operator and punctuation mark, alone, is one token of its own
/// kind and then the end of the input.
pub proof fn lemma_operator_lexemes()
    ensures
        token_at("="@, 0) == LexStep::Tok(SpecTok::Simple(Token::Assign), 1),
        token_at("=="@, 0) == LexStep::Tok(SpecTok::Simple(Token::EqualTo), 2),
        token_at("~"@, 0) == LexStep::Tok(SpecTok::Simple(Token::Denial), 1),
        token_at("~="@, 0) == LexStep::Tok(SpecTok::Simple(Token::NotEqualTo), 2),
        token_at("&"@, 0) == LexStep::Tok(SpecTok::Simple(Token::BinaryAnd), 1),
        token_at("&&"@, 0) == LexStep::Tok(SpecTok::Simple(Token::And), 2),
        token_at("+"@, 0) == LexStep::Tok(SpecTok::Simple(Token::Plus), 1),
        token_at("-"@, 0) == LexStep::Tok(SpecTok::Simple(Token::Minus), 1),
        token_at("->"@, 0) == LexStep::Tok(SpecTok::Simple(Token::Arrow), 2),
        token_at("*"@, 0) == LexStep::Tok(SpecTok::Simple(Token::Asterix), 1),
        token_at("/"@, 0) == LexStep::Tok(SpecTok::Simple(Token::Slash), 1),
        token_at("<"@, 0) == LexStep::Tok(SpecTok::Simple(Token::LessThan), 1),
        token_at(">"@, 0) == LexStep::Tok(SpecTok::Simple(Token::GreaterThan), 1),
        token_at(","@, 0) == LexStep::Tok(SpecTok::Simple(Token::Comma), 1),
        token_at("."@, 0) == LexStep::Tok(SpecTok::Simple(Token::Period), 1),
        token_at(":"@, 0) == LexStep::Tok(SpecTok::Simple(Token::Colon), 1),
        token_at("("@, 0) == LexStep::Tok(SpecTok::Simple(Token::LParen), 1),
        token_at(")"@, 0) == LexStep::Tok(SpecTok::Simple(Token::RParen), 1),
        token_at("{"@, 0) == LexStep::Tok(SpecTok::Simple(Token::LBrace), 1),
        token_at("}"@, 0) == LexStep::Tok(SpecTok::Simple(Token::RBrace), 1),
{
    reveal_strlit("=");
    reveal_strlit("==");
    reveal_strlit("~");
    reveal_strlit("~=");
    reveal_strlit("&");
    reveal_strlit("&&");
    reveal_strlit("+");
    reveal_strlit("-");
    reveal_strlit("->");
    reveal_strlit("*");
    reveal_strlit("/");
    reveal_strlit("<");
    reveal_strlit(">");
    reveal_strlit(",");
    reveal_strlit(".");
    reveal_strlit(":");
    reveal_strlit("(");
    reveal_strlit(")");
    reveal_strlit("{");
    reveal_strlit("}");
}

/// A digit run with a point is one float token carrying exactly that
/// run; the same digits without the point are one integer token with
/// their value.
pub proof fn lemma_number_lexemes()
    ensures
        token_at("133.7"@, 0) == LexStep::Tok(SpecTok::Float("133.7"@), 5),
        token_at("133.7"@, 5) == LexStep::End,
        token_at("133"@, 0) == LexStep::Tok(SpecTok::Integer(133), 3),
        token_at("133"@, 3) == LexStep::End,
{
    reveal_strlit("133.7");
    reveal_strlit("133");
    reveal_with_fuel(num_end, 7);
    reveal_with_fuel(dot_count, 7);
    reveal_with_fuel(digits_val, 5);
    assert(num_end("133.7"@, 1) == 5);
    assert("133.7"@.subrange(0, 5) =~= "133.7"@);
    assert(dot_count("133.7"@, 0, 5) == 1);
    assert(num_end("133"@, 1) == 3);
    assert(dot_count("133"@, 0, 3) == 0);
    assert(digits_val("133"@, 0, 3) == 133);
}

/// The pairing law of `=`: standing at a `=`, the scanner yields one
/// `EqualTo` token exactly when another `=` follows, consuming both;
/// otherwise it yields one `Assign` token and leaves the following
/// character, whatever it is, for the next step.
pub proof fn lemma_lookahead_assign(s: Seq<char>, i: int)
    requires
        0 <= i < s.len(),
        s[i] == '=',
    ensures
        i + 1 < s.len() && s[i + 1] == '=' ==> token_at(s, i) == LexStep::Tok(
            SpecTok::Simple(Token::EqualTo),
            i + 2,
        ),
        !(i + 1 < s.len() && s[i + 1] == '=') ==> token_at(s, i) == LexStep::Tok(
            SpecTok::Simple(Token::Assign),
            i + 1,
        ),
{
    assert(ws_end(s, i) == i);
}

/// The pairing law of `-`: one `Arrow` token exactly when `>` follows,
/// else one `Minus` token with the lookahead character preserved.
pub proof fn lemma_lookahead_minus(s: Seq<char>, i: int)
    requires
        0 <= i < s.len(),
        s[i] == '-',
    ensures
        i + 1 < s.len() && s[i + 1] == '>' ==> token_at(s, i) == LexStep::Tok(
            SpecTok::Simple(Token::Arrow),
            i + 2,
        ),
        !(i + 1 < s.len() && s[i + 1] == '>') ==> token_at(s, i) == LexStep::Tok(
            SpecTok::Simple(Token::Minus),
            i + 1,
        ),
{
    assert(ws_end(s, i) == i);
}

/// The pairing law of `~`: one `NotEqualTo` token exactly when `=`
/// follows, else one `Denial` token with the lookahead character
/// preserved.
pub proof fn lemma_lookahead_denial(s: Seq<char>, i: int)
    requires
        0 <= i < s.len(),
        s[i] == '~',
    ensures
        i + 1 < s.len() && s[i + 1] == '=' ==> token_at(s, i) == LexStep::Tok(
            SpecTok::Simple(Token::NotEqualTo),
            i + 2,
        ),
        !(i + 1 < s.len() && s[i + 1] == '=') ==> token_at(s, i) == LexStep::Tok(
            SpecTok::Simple(Token::Denial),
            i + 1,
        ),
{
    assert(ws_end(s, i) == i);
}

/// The pairing law of `&`: one `And` token exactly when another `&`
/// follows, else one `BinaryAnd` token with the lookahead character
/// preserved.
pub proof fn lemma_lookahead_ampersand(s: Seq<char>, i: int)
    requires
        0 <= i < s.len(),
        s[i] == '&',
    ensures
        i + 1 < s.len() && s[i + 1] == '&' ==> token_at(s, i) == LexStep::Tok(
            SpecTok::Simple(Token::And),
            i + 2,
        ),
        !(i + 1 < s.len() && s[i + 1] == '&') ==> token_at(s, i) == LexStep::Tok(
            SpecTok::Simple(Token::BinaryAnd),
            i + 1,
        ),
{
    assert(ws_end(s, i) == i);
}

/// The scanner.  It owns the input once, both as text (so that lexeme
/// slices can be handed out) and as its characters (so that scanning can
/// index them), plus the current scan position.
pub struct Lexer {
    text: String,
    chars: Vec<char>,
    pos: usize,
}

impl Lexer {
    /// The two copies of the input agree and the position is inside it.
    pub closed spec fn wf(self) -> bool {
        self.chars@ == self.text@ && self.pos <= self.chars@.len()
    }

    /// The characters of the input.
    pub closed spec fn input(self) -> Seq<char> {
        self.chars@
    }

    /// The current scan position.
    pub closed spec fn position(self) -> int {
        self.pos as int
    }

    /// A well-formed scanner stands inside its input.
    pub broadcast proof fn lemma_position_bounds(self)
        requires
            #[trigger] self.wf(),
        ensures
            0 <= self.position() <= self.input().len(),
    {
    }

    /// A scanner over `input`, standing at its beginning.
    pub fn new(input: &str) -> (l: Lexer)
        ensures
            l.wf(),
            l.input() == input@,
            l.position() == 0,
    {
        let text = input.to_owned();
        let n = input.unicode_len();
        let mut chars: Vec<char> = Vec::new();
        let mut i: usize = 0;
        while i < n
            invariant
                n == input@.len(),
                i <= n,
                chars@ =~= input@.subrange(0, i as int),
            decreases n - i,
        {
            let c = input.get_char(i);
            chars.push(c);
            i += 1;
        }
        proof {
            assert(input@.subrange(0, n as int) =~= input@);
        }
        Lexer { text, chars, pos: 0 }
    }

    /// Consume and return the next character, if any is left.
    fn read_char(&mut self) -> (r: Option<char>)
        requires
            old(self).wf(),
        ensures
            final(self).wf(),
            final(self).input() == old(self).input(),
            if old(self).position() < old(self).input().len() {
                r == Some(old(self).input()[old(self).position()])
                    && final(self).position() == old(self).position() + 1
            } else {
                r == None::<char> && final(self).position() == old(self).position()
            },
    {
        if self.pos < self.chars.len() {
            let c = self.chars[self.pos];
            self.pos = self.pos + 1;
            Some(c)
        } else {
            None
        }
    }

    /// Look at the next character without consuming it.
    fn peek_char(&self) -> (r: Option<char>)
        requires
            self.wf(),
        ensures
            if self.position() < self.input().len() {
                r == Some(self.input()[self.position()])
            } else {
                r == None::<char>
            },
    {
        if self.pos < self.chars.len() {
            Some(self.chars[self.pos])
        } else {
            None
        }
    }

    /// Advance over whitespace.
    fn skip_whitespace(&mut self)
        requires
            old(self).wf(),
        ensures
            final(self).wf(),
            final(self).input() == old(self).input(),
            final(self).position() == ws_end(old(self).input(), old(self).position()),
    {
        let n = self.chars.len();
        while self.pos < n && whitespace_char(self.chars[self.pos])
            invariant
                self.wf(),
                n == self.input().len(),
                self.input() == old(self).input(),
                self.text == old(self).text,
                ws_end(self.input(), old(self).position())
                    == ws_end(self.input(), self.position()),
            decreases n - self.pos,
        {
            proof {
                assert(ws_end(self.input(), self.position())
                    == ws_end(self.input(), self.position() + 1));
            }
            self.pos = self.pos + 1;
        }
    }
}

/// Whether `c` is whitespace.
fn whitespace_char(c: char) -> (r: bool)
    ensures
        r == is_ws_char(c),
{
    let u = c as u32;
    (9 <= u && u <= 13) || u == 32 || u == 0x85 || u == 0xa0 || u == 0x1680
        || (0x2000 <= u && u <= 0x200a) || u == 0x2028 || u == 0x2029 || u == 0x202f
        || u == 0x205f || u == 0x3000
}

/// Whether `c` is an ASCII digit.
fn digit_char(c: char) -> (r: bool)
    ensures
        r == is_digit_char(c),
{
    let u = c as u32;
    48 <= u && u <= 57
}

/// Whether `c` may open an identifier.
fn ident_start_char(c: char) -> (r: bool)
    ensures
        r == is_ident_start(c),
{
    let u = c as u32;
    if u < 128 {
        (97 <= u && u <= 122) || (65 <= u && u <= 90) || c == '_'
    } else {
        is_alphabetic_char(c)
    }
}

/// Whether `c` may continue an identifier.
fn ident_cont_char(c: char) -> (r: bool)
    ensures
        r == is_ident_cont(c),
{
    let u = c as u32;
    if u < 128 {
        (97 <= u && u <= 122) || (65 <= u && u <= 90) || (48 <= u && u <= 57) || c == '_'
            || c == '?' || c == '!'
    } else {
        is_alphabetic_char(c)
    }
}

/// Whether `c` may continue a numeric run.
fn num_cont_char(c: char) -> (r: bool)
    ensures
        r == is_num_cont(c),
{
    digit_char(c) || c == '.'
}

/// Relies on char::is_alphabetic: whether the character has the Unicode
/// `Alphabetic` property, a function of the character alone.
#[verifier::external_body]
fn is_alphabetic_char(c: char) -> (r: bool)
    ensures
        r == char_alpha(c),
{
    c.is_alphabetic()
}

/// Every character of a numeric run is a digit or a point.
proof fn lemma_num_run_chars(s: Seq<char>, i: int)
    requires
        0 <= i <= s.len(),
    ensures
        forall|k: int| i <= k < num_end(s, i) ==> is_num_cont(#[trigger] s[k]),
    decreases s.len() - i,
{
    lemma_scan_end_bounds(s, i);
    if i < s.len() && is_num_cont(s[i]) {
        lemma_num_run_chars(s, i + 1);
    }
}

/// A stretch with no point holds no point.
proof fn lemma_dot_count_zero(s: Seq<char>, i: int, j: int)
    requires
        dot_count(s, i, j) == 0,
        forall|k: int| i <= k < j ==> is_num_cont(#[trigger] s[k]),
    ensures
        forall|k: int| i <= k < j ==> is_digit_char(#[trigger] s[k]),
    decreases j - i,
{
    if i < j {
        assert(dot_count(s, i, j) == dot_count(s, i, j - 1) + if s[j - 1] == '.' {
            1int
        } else {
            0int
        });
        assert(dot_count(s, i, j - 1) >= 0) by {
            lemma_dot_count_nonneg(s, i, j - 1);
        }
        lemma_dot_count_zero(s, i, j - 1);
    }
}

/// A count of characters is never negative.
proof fn lemma_dot_count_nonneg(s: Seq<char>, i: int, j: int)
    ensures
        dot_count(s, i, j) >= 0,
    decreases j - i,
{
    if i < j {
        lemma_dot_count_nonneg(s, i, j - 1);
    }
}

/// The value of a digit run is never negative.
proof fn lemma_digits_val_nonneg(s: Seq<char>, i: int, j: int)
    requires
        forall|k: int| i <= k < j ==> is_digit_char(#[trigger] s[k]),
    ensures
        digits_val(s, i, j) >= 0,
    decreases j - i,
{
    if i < j {
        lemma_digits_val_nonneg(s, i, j - 1);
        assert(digits_val(s, i, j - 1) * 10 >= 0) by (nonlinear_arith)
            requires digits_val(s, i, j - 1) >= 0;
    }
}

/// How the comparison against `(m - d) / 10` decides whether one more
/// digit still fits below the bound `m`.
proof fn lemma_mul10_bound(v: int, d: int, m: int)
    requires
        0 <= d <= 9,
        d <= m,
        0 <= v,
    ensures
        v <= (m - d) / 10 ==> v * 10 + d <= m,
        v > (m - d) / 10 ==> v * 10 + d > m,
{
    let q = (m - d) / 10;
    let r = (m - d) % 10;
    vstd::arithmetic::div_mod::lemma_fundamental_div_mod(m - d, 10);
    assert(0 <= r < 10);
    if v <= q {
        assert(v * 10 <= q * 10) by (nonlinear_arith)
            requires v <= q;
    } else {
        assert(v * 10 >= (q + 1) * 10) by (nonlinear_arith)
            requires v >= q + 1;
    }
}

impl Lexer {
    /// Scan the rest of an identifier whose first character `c` was just
    /// consumed, and hand back the whole lexeme.
    fn read_identifier(&mut self, c: char) -> (r: String)
        requires
            old(self).wf(),
            1 <= old(self).position(),
            old(self).input()[old(self).position() - 1] == c,
        ensures
            final(self).wf(),
            final(self).input() == old(self).input(),
            final(self).position() == ident_end(old(self).input(), old(self).position()),
            r@ == old(self).input().subrange(old(self).position() - 1, final(self).position()),
    {
        let start: usize = self.pos - 1;
        let n = self.chars.len();
        while self.pos < n && ident_cont_char(self.chars[self.pos])
            invariant
                self.wf(),
                self.text == old(self).text,
                n == self.input().len(),
                old(self).position() <= self.position(),
                ident_end(self.input(), old(self).position())
                    == ident_end(self.input(), self.position()),
            decreases n - self.pos,
        {
            proof {
                assert(ident_end(self.input(), self.position())
                    == ident_end(self.input(), self.position() + 1));
            }
            self.pos = self.pos + 1;
        }
        let sub = self.text.as_str().substring_char(start, self.pos);
        sub.to_owned()
    }

    /// Scan the rest of a numeric run whose first character `c` was just
    /// consumed, and hand back the whole run as text.
    fn read_number(&mut self, c: char) -> (r: String)
        requires
            old(self).wf(),
            1 <= old(self).position(),
            old(self).input()[old(self).position() - 1] == c,
        ensures
            final(self).wf(),
            final(self).input() == old(self).input(),
            final(self).position() == num_end(old(self).input(), old(self).position()),
            r@ == old(self).input().subrange(old(self).position() - 1, final(self).position()),
    {
        let start: usize = self.pos - 1;
        let n = self.chars.len();
        while self.pos < n && num_cont_char(self.chars[self.pos])
            invariant
                self.wf(),
                self.text == old(self).text,
                n == self.input().len(),
                old(self).position() <= self.position(),
                num_end(self.input(), old(self).position())
                    == num_end(self.input(), self.position()),
            decreases n - self.pos,
        {
            proof {
                assert(num_end(self.input(), self.position())
                    == num_end(self.input(), self.position() + 1));
            }
            self.pos = self.pos + 1;
        }
        let sub = self.text.as_str().substring_char(start, self.pos);
        sub.to_owned()
    }

    /// Count the points inside `input[start..end)`.
    fn count_dots(&self, start: usize, end: usize) -> (dots: usize)
        requires
            self.wf(),
            start <= end <= self.input().len(),
        ensures
            dots == dot_count(self.input(), start as int, end as int),
    {
        let mut dots: usize = 0;
        let mut k: usize = start;
        while k < end
            invariant
                self.wf(),
                start <= k <= end <= self.input().len(),
                dots == dot_count(self.input(), start as int, k as int),
                dots <= k - start,
            decreases end - k,
        {
            proof {
                assert(dot_count(self.input(), start as int, k + 1) == dot_count(
                    self.input(),
                    start as int,
                    k as int,
                ) + if self.input()[k as int] == '.' {
                    1int
                } else {
                    0int
                });
            }
            if self.chars[k] == '.' {
                dots = dots + 1;
            }
            k = k + 1;
        }
        dots
    }

    /// Read the value of the digit run `input[start..end)`, or report
    /// that it exceeds `i64::MAX`.
    fn digits_value(&self, start: usize, end: usize) -> (r: Option<i64>)
        requires
            self.wf(),
            start <= end <= self.input().len(),
            forall|k: int| start <= k < end ==> is_digit_char(#[trigger] self.input()[k]),
        ensures
            r is Some <==> digits_val(self.input(), start as int, end as int) <= i64::MAX,
            match r {
                Some(v) => v as int == digits_val(self.input(), start as int, end as int),
                None => true,
            },
    {
        let ghost s = self.input();
        let mut val: u64 = 0;
        let mut big: bool = false;
        let mut k: usize = start;
        let m: u64 = i64::MAX as u64;
        while k < end
            invariant
                self.wf(),
                self.input() == s,
                m == i64::MAX as u64,
                start <= k <= end <= s.len(),
                forall|j: int| start <= j < end ==> is_digit_char(#[trigger] s[j]),
                !big ==> val as int == digits_val(s, start as int, k as int) && val <= m,
                big ==> digits_val(s, start as int, k as int) > i64::MAX,
            decreases end - k,
        {
            let c = self.chars[k];
            let u: u32 = c as u32;
            let d: u64 = (u - 48) as u64;
            proof {
                assert(digits_val(s, start as int, k + 1) == digits_val(s, start as int, k as int)
                    * 10 + digit_of(s[k as int]));
                lemma_digits_val_nonneg(s, start as int, k as int);
            }
            if big {
                proof {
                    assert(digits_val(s, start as int, k as int) * 10 + digit_of(s[k as int])
                        > i64::MAX) by (nonlinear_arith)
                        requires
                            digits_val(s, start as int, k as int) > i64::MAX,
                            digit_of(s[k as int]) >= 0;
                }
            } else {
                proof {
                    lemma_mul10_bound(val as int, d as int, m as int);
                }
                if val > (m - d) / 10 {
                    big = true;
                } else {
                    val = val * 10 + d;
                }
            }
            k = k + 1;
        }
        if big {
            None
        } else {
            Some(val as i64)
        }
    }
}

/// Map an identifier lexeme to its keyword token, or keep it as an
/// identifier.
fn string_to_keyword(id: String) -> (t: Token)
    ensures
        tok_view(t) == keyword_of(id@),
{
    if id == "func".to_owned() {
        Token::Function
    } else if id == "lambda".to_owned() {
        Token::Lambda
    } else if id == "if".to_owned() {
        Token::If
    } else if id == "unless".to_owned() {
        Token::Unless
    } else if id == "else".to_owned() {
        Token::Else
    } else if id == "return".to_owned() {
        Token::Return
    } else if id == "end".to_owned() {
        Token::End
    } else if id == "true".to_owned() {
        Token::True
    } else if id == "false".to_owned() {
        Token::False
    } else {
        Token::Identifier(id)
    }
}

/// What `next_token` promises: the scanner takes exactly the step that
/// the lexical grammar [`token_at`] prescribes at its old position.
pub open spec fn next_token_ensures(
    s: Seq<char>,
    pos: int,
    r: Result<Option<Token>, ParserError>,
    new_pos: int,
) -> bool {
    match token_at(s, pos) {
        LexStep::End => r == Ok::<Option<Token>, ParserError>(None) && new_pos == s.len(),
        LexStep::Tok(st, p) => new_pos == p && match r {
            Ok(Some(t)) => tok_view(t) == st,
            _ => false,
        },
        LexStep::Bad(p) => r == Err::<Option<Token>, ParserError>(ParserError::BadNumber)
            && new_pos == p,
    }
}

/// Every token of the input from `pos` on, or the error that stops the
/// scan: the whole stream that [`token_at`] yields step by step.
pub open spec fn lex_all(s: Seq<char>, pos: int) -> Result<Seq<SpecTok>, ParserError>
    decreases s.len() - pos
        when 0 <= pos <= s.len()
        via lex_all_decreases
{
    match token_at(s, pos) {
        LexStep::End => Ok(Seq::empty()),
        LexStep::Bad(_) => Err(ParserError::BadNumber),
        LexStep::Tok(st, p) => match lex_all(s, p) {
            Ok(rest) => Ok(Seq::empty().push(st) + rest),
            Err(e) => Err(e),
        },
    }
}

#[via_fn]
proof fn lex_all_decreases(s: Seq<char>, pos: int) {
    lemma_token_at_advances(s, pos);
}

/// The models of a row of tokens, in order.
pub open spec fn tokens_view(ts: Seq<Token>) -> Seq<SpecTok>
    decreases ts.len(),
{
    if ts.len() <= 0 {
        Seq::empty()
    } else {
        tokens_view(ts.drop_last()).push(tok_view(ts.last()))
    }
}

/// Appending one token appends its model.
proof fn lemma_tokens_view_push(ts: Seq<Token>, t: Token)
    ensures
        tokens_view(ts.push(t)) == tokens_view(ts).push(tok_view(t)),
{
    assert(ts.push(t).drop_last() =~= ts);
    assert(ts.push(t).last() == t);
}

/// Scan the whole input at once: all its tokens in order, or the error
/// for a malformed numeric literal.
pub fn tokenize(input: &str) -> (r: Result<Vec<Token>, ParserError>)
    ensures
        match lex_all(input@, 0) {
            Ok(sts) => match r {
                Ok(v) => tokens_view(v@) == sts,
                Err(_) => false,
            },
            Err(e) => r == Err::<Vec<Token>, ParserError>(e),
        },
{
    let mut lx = Lexer::new(input);
    let mut toks: Vec<Token> = Vec::new();
    proof {
        assert(tokens_view(Seq::<Token>::empty()) =~= Seq::<SpecTok>::empty());
    }
    loop
        invariant
            lx.wf(),
            lx.input() == input@,
            0 <= lx.position() <= input@.len(),
            match lex_all(input@, lx.position()) {
                Ok(rest) => lex_all(input@, 0) == Ok::<Seq<SpecTok>, ParserError>(
                    tokens_view(toks@) + rest,
                ),
                Err(e) => lex_all(input@, 0) == Err::<Seq<SpecTok>, ParserError>(e),
            },
        decreases input@.len() - lx.position(),
    {
        let ghost pos0 = lx.position();
        let ghost s = input@;
        proof {
            lemma_token_at_advances(s, pos0);
        }
        match lx.next_token() {
            Err(e) => {
                return Err(e);
            },
            Ok(None) => {
                proof {
                    assert(tokens_view(toks@) + Seq::<SpecTok>::empty() =~= tokens_view(toks@));
                }
                return Ok(toks);
            },
            Ok(Some(t)) => {
                proof {
                    lemma_tokens_view_push(toks@, t);
                    let st = tok_view(t);
                    let p = lx.position();
                    match lex_all(s, p) {
                        Ok(rest) => {
                            assert(tokens_view(toks@) + (Seq::empty().push(st) + rest) =~= (
                            tokens_view(toks@).push(st) + rest));
                        },
                        Err(_) => {},
                    }
                }
                toks.push(t);
            },
        }
    }
}

impl Lexer {
    /// Produce the next token, `Ok(None)` once the input is exhausted,
    /// or the error for a malformed numeric literal.  A character that
    /// no rule matches is handed back as an `Invalid` token and the scan
    /// can go on behind it.
    pub fn next_token(&mut self) -> (r: Result<Option<Token>, ParserError>)
        requires
            old(self).wf(),
        ensures
            final(self).wf(),
            final(self).input() == old(self).input(),
            next_token_ensures(
                old(self).input(),
                old(self).position(),
                r,
                final(self).position(),
            ),
    {
        proof {
            lemma_scan_end_bounds(old(self).input(), old(self).position());
        }
        self.skip_whitespace();
        let ghost s = self.input();
        let ghost i = self.position();
        match self.read_char() {
            None => Ok(None),
            Some(c) => {
                match c {
                    '=' => match self.peek_char() {
                        Some('=') => {
                            self.read_char();
                            Ok(Some(Token::EqualTo))
                        },
                        _ => Ok(Some(Token::Assign)),
                    },
                    '-' => match self.peek_char() {
                        Some('>') => {
                            self.read_char();
                            Ok(Some(Token::Arrow))
                        },
                        _ => Ok(Some(Token::Minus)),
                    },
                    '~' => match self.peek_char() {
                        Some('=') => {
                            self.read_char();
                            Ok(Some(Token::NotEqualTo))
                        },
                        _ => Ok(Some(Token::Denial)),
                    },
                    '&' => match self.peek_char() {
                        Some('&') => {
                            self.read_char();
                            Ok(Some(Token::And))
                        },
                        _ => Ok(Some(Token::BinaryAnd)),
                    },
                    '+' => Ok(Some(Token::Plus)),
                    '*' => Ok(Some(Token::Asterix)),
                    '/' => Ok(Some(Token::Slash)),
                    '<' => Ok(Some(Token::LessThan)),
                    '>' => Ok(Some(Token::GreaterThan)),
                    ',' => Ok(Some(Token::Comma)),
                    '.' => Ok(Some(Token::Period)),
                    ':' => Ok(Some(Token::Colon)),
                    '(' => Ok(Some(Token::LParen)),
                    ')' => Ok(Some(Token::RParen)),
                    '{' => Ok(Some(Token::LBrace)),
                    '}' => Ok(Some(Token::RBrace)),
                    _ => {
                        if ident_start_char(c) {
                            let id = self.read_identifier(c);
                            Ok(Some(string_to_keyword(id)))
                        } else if digit_char(c) {
                            let start: usize = self.pos - 1;
                            let num = self.read_number(c);
                            let end: usize = self.pos;
                            proof {
                                lemma_scan_end_bounds(s, i + 1);
                                lemma_num_run_chars(s, i + 1);
                            }
                            let dots = self.count_dots(start, end);
                            if dots == 0 {
                                proof {
                                    lemma_dot_count_zero(s, start as int, end as int);
                                }
                                match self.digits_value(start, end) {
                                    Some(v) => Ok(Some(Token::Integer(v))),
                                    None => Ok(Some(Token::Float(num))),
                                }
                            } else if dots == 1 {
                                Ok(Some(Token::Float(num)))
                            } else {
                                Err(ParserError::BadNumber)
                            }
                        } else {
                            Ok(Some(Token::Invalid(c)))
                        }
                    },
                }
            },
        }
    }
}

} // verus!
