//! The lexer: converts source text into a flat, line-tagged token
//! sequence.  Tokenization recovers per line — a lexical failure on one
//! line discards that line's tokens but the remaining lines are still
//! tokenized, and every line's error is collected.

use vstd::prelude::*;

use crate::text::{char_to_string, push_decimal, spec_decimal};

verus! {

/// What a token is, without its source line.
#[derive(Debug, PartialEq, Eq, Clone)]
pub enum TokenKind {
    /// A decimal literal.  Leading zeros are permitted; range checks
    /// belong to later stages.
    Number(usize),
    /// A label reference.
    Label(String),
    /// A label definition (`name:`); the colon is consumed.
    LabelDef(String),
    /// The `lda` mnemonic.
    Load,
    /// The `sto` mnemonic.
    Store,
    /// The `add` mnemonic.
    Add,
    /// The `sub` mnemonic.
    Subtract,
    /// The `inp` mnemonic.
    Input,
    /// The `out` mnemonic.
    Output,
    /// The `hlt` mnemonic.
    Halt,
    /// The `brz` mnemonic.
    BranchZero,
    /// The `brp` mnemonic.
    BranchPositive,
    /// The `bra` mnemonic.
    BranchAlways,
    /// The `dat` mnemonic.
    Data,
    /// The synthetic end-of-line token closing every line.
    NewLine,
    /// The terminal end-of-input token, appended only when no lexical
    /// error occurred anywhere.
    Eof,
    /// An inline test's name (`.name`).
    TestName(String),
    /// `[`, opening a test's number list.
    OpenSquareBracket,
    /// `]`, closing a test's number list.
    CloseSquareBracket,
    /// `,`, separating a number list's entries.
    Comma,
}

/// A token paired with the 0-based source line it originated from.
#[derive(Debug, Clone)]
pub struct Token {
    /// What the token is.
    pub kind: TokenKind,
    /// The 0-based source line it came from.
    pub line: usize,
}

/// The mathematical model of a [`TokenKind`]: names as character
/// sequences.
pub ghost enum SpecTokenKind {
    /// A decimal literal.
    Number(usize),
    /// A label reference.
    Label(Seq<char>),
    /// A label definition.
    LabelDef(Seq<char>),
    /// The `lda` mnemonic.
    Load,
    /// The `sto` mnemonic.
    Store,
    /// The `add` mnemonic.
    Add,
    /// The `sub` mnemonic.
    Subtract,
    /// The `inp` mnemonic.
    Input,
    /// The `out` mnemonic.
    Output,
    /// The `hlt` mnemonic.
    Halt,
    /// The `brz` mnemonic.
    BranchZero,
    /// The `brp` mnemonic.
    BranchPositive,
    /// The `bra` mnemonic.
    BranchAlways,
    /// The `dat` mnemonic.
    Data,
    /// The synthetic end-of-line token.
    NewLine,
    /// The terminal end-of-input token.
    Eof,
    /// An inline test's name.
    TestName(Seq<char>),
    /// `[`.
    OpenSquareBracket,
    /// `]`.
    CloseSquareBracket,
    /// `,`.
    Comma,
}

/// The mathematical model of a [`Token`].
pub ghost struct SpecToken {
    /// What the token is.
    pub kind: SpecTokenKind,
    /// The 0-based source line it came from.
    pub line: usize,
}

impl View for TokenKind {
    type V = SpecTokenKind;

    open spec fn view(&self) -> SpecTokenKind {
        match self {
            TokenKind::Number(n) => SpecTokenKind::Number(*n),
            TokenKind::Label(s) => SpecTokenKind::Label(s@),
            TokenKind::LabelDef(s) => SpecTokenKind::LabelDef(s@),
            TokenKind::Load => SpecTokenKind::Load,
            TokenKind::Store => SpecTokenKind::Store,
            TokenKind::Add => SpecTokenKind::Add,
            TokenKind::Subtract => SpecTokenKind::Subtract,
            TokenKind::Input => SpecTokenKind::Input,
            TokenKind::Output => SpecTokenKind::Output,
            TokenKind::Halt => SpecTokenKind::Halt,
            TokenKind::BranchZero => SpecTokenKind::BranchZero,
            TokenKind::BranchPositive => SpecTokenKind::BranchPositive,
            TokenKind::BranchAlways => SpecTokenKind::BranchAlways,
            TokenKind::Data => SpecTokenKind::Data,
            TokenKind::NewLine => SpecTokenKind::NewLine,
            TokenKind::Eof => SpecTokenKind::Eof,
            TokenKind::TestName(s) => SpecTokenKind::TestName(s@),
            TokenKind::OpenSquareBracket => SpecTokenKind::OpenSquareBracket,
            TokenKind::CloseSquareBracket => SpecTokenKind::CloseSquareBracket,
            TokenKind::Comma => SpecTokenKind::Comma,
        }
    }
}

impl View for Token {
    type V = SpecToken;

    open spec fn view(&self) -> SpecToken {
        SpecToken { kind: self.kind@, line: self.line }
    }
}

/// The model of a sequence of tokens.
pub open spec fn tokens_view(ts: Seq<Token>) -> Seq<SpecToken> {
    ts.map_values(|t: Token| t@)
}

/// A lexical error's reason.
#[derive(Debug, PartialEq, Eq, Clone)]
pub enum LexErrorKind {
    /// A character that starts no token.
    UnexpectedChar(char),
    /// A digit run too large for `usize`; carries the run's text.
    InvalidNumber(String),
    /// A mnemonic immediately followed by `:`; carries the mnemonic.
    KeywordLabel(String),
    /// The character after `.` cannot start a test name.
    TestNameStart(char),
    /// A `.` at the very end of a line: the test has no name.
    TestNameMissing,
}

/// A lexical error, scoped to the line it occurred on.
#[derive(Debug, PartialEq, Eq, Clone)]
pub struct LexError {
    /// The 0-based source line.
    pub line: usize,
    /// The reason.
    pub kind: LexErrorKind,
}

/// The mathematical model of a [`LexErrorKind`].
pub ghost enum SpecLexErrorKind {
    /// A character that starts no token.
    UnexpectedChar(char),
    /// A digit run too large for `usize`.
    InvalidNumber(Seq<char>),
    /// A mnemonic immediately followed by `:`.
    KeywordLabel(Seq<char>),
    /// The character after `.` cannot start a test name.
    TestNameStart(char),
    /// A `.` at the very end of a line.
    TestNameMissing,
}

/// The mathematical model of a [`LexError`].
pub ghost struct SpecLexError {
    /// The 0-based source line.
    pub line: usize,
    /// The reason.
    pub kind: SpecLexErrorKind,
}

impl View for LexErrorKind {
    type V = SpecLexErrorKind;

    open spec fn view(&self) -> SpecLexErrorKind {
        match self {
            LexErrorKind::UnexpectedChar(c) => SpecLexErrorKind::UnexpectedChar(*c),
            LexErrorKind::InvalidNumber(s) => SpecLexErrorKind::InvalidNumber(s@),
            LexErrorKind::KeywordLabel(s) => SpecLexErrorKind::KeywordLabel(s@),
            LexErrorKind::TestNameStart(c) => SpecLexErrorKind::TestNameStart(*c),
            LexErrorKind::TestNameMissing => SpecLexErrorKind::TestNameMissing,
        }
    }
}

impl View for LexError {
    type V = SpecLexError;

    open spec fn view(&self) -> SpecLexError {
        SpecLexError { line: self.line, kind: self.kind@ }
    }
}

/// The model of a sequence of lexical errors.
pub open spec fn lex_errors_view(es: Seq<LexError>) -> Seq<SpecLexError> {
    es.map_values(|e: LexError| e@)
}

// ---------------------------------------------------------------------
// Character classes.  The language is ASCII: digits, ASCII letters, `_`,
// and the ASCII whitespace characters.
// ---------------------------------------------------------------------

/// An ASCII decimal digit.
pub open spec fn is_digit_char(c: char) -> bool {
    48 <= (c as u32) && (c as u32) <= 57
}

/// The numeric value of an ASCII decimal digit.
pub open spec fn digit_value(c: char) -> nat {
    ((c as u32) - 48) as nat
}

/// An ASCII letter.
pub open spec fn is_alpha_char(c: char) -> bool {
    (65 <= (c as u32) && (c as u32) <= 90) || (97 <= (c as u32) && (c as u32) <= 122)
}

/// A character that may continue an identifier: a letter, digit or `_`.
pub open spec fn is_ident_char(c: char) -> bool {
    is_alpha_char(c) || is_digit_char(c) || c == '_'
}

/// A character that may start a test name: a letter or `_`.
pub open spec fn is_test_start_char(c: char) -> bool {
    is_alpha_char(c) || c == '_'
}

/// An insignificant whitespace character: the Unicode `White_Space`
/// set, written out (a newline never occurs inside a line, since the
/// text is split into lines first).
pub open spec fn is_space_char(c: char) -> bool {
    let u = c as u32;
    ||| (9 <= u && u <= 13)
    ||| u == 32
    ||| u == 0x85
    ||| u == 0xa0
    ||| u == 0x1680
    ||| (0x2000 <= u && u <= 0x200a)
    ||| u == 0x2028
    ||| u == 0x2029
    ||| u == 0x202f
    ||| u == 0x205f
    ||| u == 0x3000
}

fn digit_char(c: char) -> (b: bool)
    ensures
        b == is_digit_char(c),
{
    let u = c as u32;
    48 <= u && u <= 57
}

fn alpha_char(c: char) -> (b: bool)
    ensures
        b == is_alpha_char(c),
{
    let u = c as u32;
    (65 <= u && u <= 90) || (97 <= u && u <= 122)
}

fn ident_char(c: char) -> (b: bool)
    ensures
        b == is_ident_char(c),
{
    alpha_char(c) || digit_char(c) || c == '_'
}

fn test_start_char(c: char) -> (b: bool)
    ensures
        b == is_test_start_char(c),
{
    alpha_char(c) || c == '_'
}

fn space_char(c: char) -> (b: bool)
    ensures
        b == is_space_char(c),
{
    let u = c as u32;
    (9 <= u && u <= 13) || u == 32 || u == 0x85 || u == 0xa0 || u == 0x1680 || (0x2000 <= u && u
        <= 0x200a) || u == 0x2028 || u == 0x2029 || u == 0x202f || u == 0x205f || u == 0x3000
}

// ---------------------------------------------------------------------
// Scanning and numeric value of runs.
// ---------------------------------------------------------------------

/// The first position at or after `i` that no longer continues an
/// identifier run.
pub open spec fn scan_ident_end(s: Seq<char>, i: int) -> int
    decreases s.len() - i when 0 <= i <= s.len()
{
    if i < s.len() && is_ident_char(s[i]) {
        scan_ident_end(s, i + 1)
    } else {
        i
    }
}

/// The first position at or after `i` that is no digit.
pub open spec fn scan_digit_end(s: Seq<char>, i: int) -> int
    decreases s.len() - i when 0 <= i <= s.len()
{
    if i < s.len() && is_digit_char(s[i]) {
        scan_digit_end(s, i + 1)
    } else {
        i
    }
}

/// An identifier run's end lies between its start and the line's end.
pub proof fn lemma_scan_ident_end(s: Seq<char>, i: int)
    requires
        0 <= i <= s.len(),
    ensures
        i <= scan_ident_end(s, i) <= s.len(),
    decreases s.len() - i,
{
    if i < s.len() && is_ident_char(s[i]) {
        lemma_scan_ident_end(s, i + 1);
    }
}

/// A digit run's end lies between its start and the line's end.
pub proof fn lemma_scan_digit_end(s: Seq<char>, i: int)
    requires
        0 <= i <= s.len(),
    ensures
        i <= scan_digit_end(s, i) <= s.len(),
    decreases s.len() - i,
{
    if i < s.len() && is_digit_char(s[i]) {
        lemma_scan_digit_end(s, i + 1);
    }
}

/// Every character of a digit run, up to its end, is a digit.
pub proof fn lemma_scan_digit_end_digits(s: Seq<char>, i: int)
    requires
        0 <= i <= s.len(),
    ensures
        forall|k: int| i <= k < scan_digit_end(s, i) ==> is_digit_char(s[k]),
    decreases s.len() - i,
{
    if i < s.len() && is_digit_char(s[i]) {
        lemma_scan_digit_end_digits(s, i + 1);
    }
}

/// The value of a digit run, read as a decimal numeral.
pub open spec fn digits_value(d: Seq<char>) -> nat
    decreases d.len(),
{
    if d.len() == 0 {
        0
    } else {
        digits_value(d.drop_last()) * 10 + digit_value(d.last())
    }
}

/// Reading one more digit never makes the numeral smaller.
proof fn lemma_digits_value_extend(d: Seq<char>)
    requires
        d.len() > 0,
    ensures
        digits_value(d) >= digits_value(d.drop_last()),
{
    assert(digits_value(d.drop_last()) * 10 >= digits_value(d.drop_last())) by (nonlinear_arith);
}

/// A numeral is at least as large as any of its prefixes.
proof fn lemma_digits_value_prefix(d: Seq<char>, m: int)
    requires
        0 <= m <= d.len(),
    ensures
        digits_value(d.take(m)) <= digits_value(d),
    decreases d.len() - m,
{
    if m < d.len() {
        lemma_digits_value_prefix(d, m + 1);
        lemma_digits_value_extend(d.take(m + 1));
        assert(d.take(m + 1).drop_last() =~= d.take(m));
    } else {
        assert(d.take(m) =~= d);
    }
}

// ---------------------------------------------------------------------
// Keywords.
// ---------------------------------------------------------------------

/// The token of a mnemonic, or `None` for any other identifier.
pub open spec fn spec_keyword(w: Seq<char>) -> Option<SpecTokenKind> {
    if w == "lda"@ {
        Some(SpecTokenKind::Load)
    } else if w == "sto"@ {
        Some(SpecTokenKind::Store)
    } else if w == "add"@ {
        Some(SpecTokenKind::Add)
    } else if w == "sub"@ {
        Some(SpecTokenKind::Subtract)
    } else if w == "inp"@ {
        Some(SpecTokenKind::Input)
    } else if w == "out"@ {
        Some(SpecTokenKind::Output)
    } else if w == "hlt"@ {
        Some(SpecTokenKind::Halt)
    } else if w == "brz"@ {
        Some(SpecTokenKind::BranchZero)
    } else if w == "brp"@ {
        Some(SpecTokenKind::BranchPositive)
    } else if w == "bra"@ {
        Some(SpecTokenKind::BranchAlways)
    } else if w == "dat"@ {
        Some(SpecTokenKind::Data)
    } else {
        None
    }
}

/// Match an identifier against the fixed, case-sensitive mnemonic set.
fn map_kw(word: &str) -> (r: Option<TokenKind>)
    ensures
        match r {
            Some(k) => spec_keyword(word@) == Some(k@),
            None => spec_keyword(word@) is None,
        },
{
    let w = word.to_owned();
    if w == ("lda").to_owned() {
        Some(TokenKind::Load)
    } else if w == ("sto").to_owned() {
        Some(TokenKind::Store)
    } else if w == ("add").to_owned() {
        Some(TokenKind::Add)
    } else if w == ("sub").to_owned() {
        Some(TokenKind::Subtract)
    } else if w == ("inp").to_owned() {
        Some(TokenKind::Input)
    } else if w == ("out").to_owned() {
        Some(TokenKind::Output)
    } else if w == ("hlt").to_owned() {
        Some(TokenKind::Halt)
    } else if w == ("brz").to_owned() {
        Some(TokenKind::BranchZero)
    } else if w == ("brp").to_owned() {
        Some(TokenKind::BranchPositive)
    } else if w == ("bra").to_owned() {
        Some(TokenKind::BranchAlways)
    } else if w == ("dat").to_owned() {
        Some(TokenKind::Data)
    } else {
        None
    }
}

// ---------------------------------------------------------------------
// Lexing one line.
// ---------------------------------------------------------------------

/// Prepend one token to the tokens of the rest of the line, passing an
/// error through.
pub open spec fn lex_cons(
    k: SpecTokenKind,
    line: usize,
    rest: Result<Seq<SpecToken>, SpecLexErrorKind>,
) -> Result<Seq<SpecToken>, SpecLexErrorKind> {
    match rest {
        Ok(ts) => Ok(seq![SpecToken { kind: k, line }] + ts),
        Err(e) => Err(e),
    }
}

/// The tokens of one line from position `i` on, ending in the synthetic
/// end-of-line token, or the line's lexical error.
///
/// `;` starts a comment running to the end of the line.  A digit run is
/// a decimal literal; an identifier run is matched against the mnemonic
/// set, and otherwise is a label definition if a `:` follows (consumed)
/// or a label reference if not; a mnemonic followed by `:` is an error.
/// `.` introduces a test name.  `[`, `]` and `,` stand alone.  Any other
/// non-whitespace character is an error.
pub open spec fn spec_lex_from(s: Seq<char>, i: int, line: usize) -> Result<
    Seq<SpecToken>,
    SpecLexErrorKind,
>
    decreases s.len() - i when 0 <= i <= s.len() via spec_lex_from_dec
{
    if i >= s.len() {
        Ok(seq![SpecToken { kind: SpecTokenKind::NewLine, line }])
    } else {
        let c = s[i];
        if c == ';' {
            Ok(seq![SpecToken { kind: SpecTokenKind::NewLine, line }])
        } else if c == '[' {
            lex_cons(SpecTokenKind::OpenSquareBracket, line, spec_lex_from(s, i + 1, line))
        } else if c == ']' {
            lex_cons(SpecTokenKind::CloseSquareBracket, line, spec_lex_from(s, i + 1, line))
        } else if c == ',' {
            lex_cons(SpecTokenKind::Comma, line, spec_lex_from(s, i + 1, line))
        } else if c == '.' {
            if i + 1 >= s.len() {
                Err(SpecLexErrorKind::TestNameMissing)
            } else if !is_test_start_char(s[i + 1]) {
                Err(SpecLexErrorKind::TestNameStart(s[i + 1]))
            } else {
                let j = scan_ident_end(s, i + 1);
                lex_cons(
                    SpecTokenKind::TestName(s.subrange(i + 1, j)),
                    line,
                    spec_lex_from(s, j, line),
                )
            }
        } else if is_space_char(c) {
            spec_lex_from(s, i + 1, line)
        } else if is_digit_char(c) {
            let j = scan_digit_end(s, i);
            let v = digits_value(s.subrange(i, j));
            if v > usize::MAX as nat {
                Err(SpecLexErrorKind::InvalidNumber(s.subrange(i, j)))
            } else {
                lex_cons(SpecTokenKind::Number(v as usize), line, spec_lex_from(s, j, line))
            }
        } else if is_alpha_char(c) {
            let j = scan_ident_end(s, i);
            let w = s.subrange(i, j);
            match spec_keyword(w) {
                Some(k) => {
                    if j < s.len() && s[j] == ':' {
                        Err(SpecLexErrorKind::KeywordLabel(w))
                    } else {
                        lex_cons(k, line, spec_lex_from(s, j, line))
                    }
                }
                None => {
                    if j < s.len() && s[j] == ':' {
                        lex_cons(SpecTokenKind::LabelDef(w), line, spec_lex_from(s, j + 1, line))
                    } else {
                        lex_cons(SpecTokenKind::Label(w), line, spec_lex_from(s, j, line))
                    }
                }
            }
        } else {
            Err(SpecLexErrorKind::UnexpectedChar(c))
        }
    }
}

#[via_fn]
proof fn spec_lex_from_dec(s: Seq<char>, i: int, line: usize) {
    if 0 <= i < s.len() {
        lemma_scan_ident_end(s, i + 1);
        lemma_scan_digit_end(s, i + 1);
        if is_digit_char(s[i]) {
            assert(scan_digit_end(s, i) == scan_digit_end(s, i + 1));
        }
        if is_ident_char(s[i]) {
            assert(scan_ident_end(s, i) == scan_ident_end(s, i + 1));
        }
    }
}

/// The tokens of one whole line, or its lexical error tagged with the
/// line number.
pub open spec fn spec_lex_line(s: Seq<char>, line: usize) -> Result<Seq<SpecToken>, SpecLexError> {
    match spec_lex_from(s, 0, line) {
        Ok(ts) => Ok(ts),
        Err(k) => Err(SpecLexError { line, kind: k }),
    }
}

/// The end of the identifier run starting at `i`.
fn ident_end(s: &str, n: usize, i: usize) -> (j: usize)
    requires
        n as nat == s@.len(),
        i <= n,
    ensures
        j as int == scan_ident_end(s@, i as int),
        i <= j <= n,
    decreases n - i,
{
    if i < n && ident_char(s.get_char(i)) {
        ident_end(s, n, i + 1)
    } else {
        i
    }
}

/// The end of the digit run starting at `i`.
fn digit_end(s: &str, n: usize, i: usize) -> (j: usize)
    requires
        n as nat == s@.len(),
        i <= n,
    ensures
        j as int == scan_digit_end(s@, i as int),
        i <= j <= n,
    decreases n - i,
{
    if i < n && digit_char(s.get_char(i)) {
        digit_end(s, n, i + 1)
    } else {
        i
    }
}

/// Read the value of the digit run in `[i, j)`, or `None` when it
/// exceeds `usize`.
fn digits_to_value(s: &str, n: usize, i: usize, j: usize) -> (r: Option<usize>)
    requires
        n as nat == s@.len(),
        i <= j <= n,
        forall|k: int| i <= k < j ==> is_digit_char(s@[k]),
    ensures
        match r {
            Some(v) => v == digits_value(s@.subrange(i as int, j as int))
                && digits_value(s@.subrange(i as int, j as int)) <= usize::MAX as nat,
            None => digits_value(s@.subrange(i as int, j as int)) > usize::MAX as nat,
        },
{
    let mut v: usize = 0;
    let mut k: usize = i;
    while k < j
        invariant
            n as nat == s@.len(),
            i <= k <= j <= n,
            forall|m: int| i <= m < j ==> is_digit_char(s@[m]),
            v == digits_value(s@.subrange(i as int, k as int)),
        decreases j - k,
    {
        let c = s.get_char(k);
        let d = (c as u32 - 48) as usize;
        proof {
            assert(is_digit_char(s@[k as int]));
            assert(d == digit_value(s@[k as int]));
        }
        if v > (usize::MAX - d) / 10 {
            proof {
                assert(v * 10 + d > usize::MAX) by (nonlinear_arith)
                    requires
                        v > (usize::MAX - d) / 10,
                        d <= 9,
                ;
                assert(s@.subrange(i as int, (k + 1) as int).drop_last() =~= s@.subrange(
                    i as int,
                    k as int,
                ));
                assert(s@.subrange(i as int, (k + 1) as int).last() == s@[k as int]);
                assert(digits_value(s@.subrange(i as int, (k + 1) as int)) == v * 10 + d);
                lemma_digits_value_prefix(s@.subrange(i as int, j as int), k + 1 - i);
                assert(s@.subrange(i as int, j as int).take(k + 1 - i) =~= s@.subrange(
                    i as int,
                    (k + 1) as int,
                ));
            }
            return None;
        }
        proof {
            assert(v * 10 + d <= usize::MAX) by (nonlinear_arith)
                requires
                    v <= (usize::MAX - d) / 10,
                    d <= 9,
            ;
            assert(s@.subrange(i as int, (k + 1) as int).drop_last() =~= s@.subrange(
                i as int,
                k as int,
            ));
            assert(s@.subrange(i as int, (k + 1) as int).last() == s@[k as int]);
        }
        v = v * 10 + d;
        k = k + 1;
    }
    proof {
        assert(s@.subrange(i as int, j as int) =~= s@.subrange(i as int, k as int));
    }
    Some(v)
}

/// Lex one line from position `i` on, mirroring [`spec_lex_from`].
fn lex_from(s: &str, n: usize, i: usize, line: usize) -> (r: Result<Vec<Token>, LexErrorKind>)
    requires
        n as nat == s@.len(),
        i <= n,
    ensures
        match r {
            Ok(toks) => spec_lex_from(s@, i as int, line) == Ok::<_, SpecLexErrorKind>(
                tokens_view(toks@),
            ),
            Err(k) => spec_lex_from(s@, i as int, line) == Err::<Seq<SpecToken>, _>(k@),
        },
    decreases n - i,
{
    if i >= n {
        let toks = vec![Token { kind: TokenKind::NewLine, line }];
        proof {
            assert(tokens_view(toks@) =~= seq![SpecToken { kind: SpecTokenKind::NewLine, line }]);
        }
        return Ok(toks);
    }
    let c = s.get_char(i);
    if c == ';' {
        let toks = vec![Token { kind: TokenKind::NewLine, line }];
        proof {
            assert(tokens_view(toks@) =~= seq![SpecToken { kind: SpecTokenKind::NewLine, line }]);
        }
        Ok(toks)
    } else if c == '[' {
        let mut rest = lex_from(s, n, i + 1, line)?;
        let ghost pre = rest@;
        rest.insert(0, Token { kind: TokenKind::OpenSquareBracket, line });
        proof {
            assert(tokens_view(rest@) =~= seq![
                SpecToken { kind: SpecTokenKind::OpenSquareBracket, line },
            ] + tokens_view(pre));
        }
        Ok(rest)
    } else if c == ']' {
        let mut rest = lex_from(s, n, i + 1, line)?;
        let ghost pre = rest@;
        rest.insert(0, Token { kind: TokenKind::CloseSquareBracket, line });
        proof {
            assert(tokens_view(rest@) =~= seq![
                SpecToken { kind: SpecTokenKind::CloseSquareBracket, line },
            ] + tokens_view(pre));
        }
        Ok(rest)
    } else if c == ',' {
        let mut rest = lex_from(s, n, i + 1, line)?;
        let ghost pre = rest@;
        rest.insert(0, Token { kind: TokenKind::Comma, line });
        proof {
            assert(tokens_view(rest@) =~= seq![SpecToken { kind: SpecTokenKind::Comma, line }]
                + tokens_view(pre));
        }
        Ok(rest)
    } else if c == '.' {
        if i + 1 >= n {
            return Err(LexErrorKind::TestNameMissing);
        }
        let first = s.get_char(i + 1);
        if !test_start_char(first) {
            return Err(LexErrorKind::TestNameStart(first));
        }
        let j = ident_end(s, n, i + 1);
        let name = s.substring_char(i + 1, j).to_owned();
        let mut rest = lex_from(s, n, j, line)?;
        let ghost pre = rest@;
        rest.insert(0, Token { kind: TokenKind::TestName(name), line });
        proof {
            assert(tokens_view(rest@) =~= seq![
                SpecToken {
                    kind: SpecTokenKind::TestName(s@.subrange(i + 1, j as int)),
                    line,
                },
            ] + tokens_view(pre));
        }
        Ok(rest)
    } else if space_char(c) {
        lex_from(s, n, i + 1, line)
    } else if digit_char(c) {
        let j = digit_end(s, n, i);
        proof {
            lemma_scan_digit_end_digits(s@, i as int);
            lemma_scan_digit_end(s@, i as int + 1);
            assert(scan_digit_end(s@, i as int) == scan_digit_end(s@, i as int + 1));
        }
        match digits_to_value(s, n, i, j) {
            Some(v) => {
                let mut rest = lex_from(s, n, j, line)?;
                let ghost pre = rest@;
                rest.insert(0, Token { kind: TokenKind::Number(v), line });
                proof {
                    assert(tokens_view(rest@) =~= seq![
                        SpecToken { kind: SpecTokenKind::Number(v), line },
                    ] + tokens_view(pre));
                }
                Ok(rest)
            }
            None => Err(LexErrorKind::InvalidNumber(s.substring_char(i, j).to_owned())),
        }
    } else if alpha_char(c) {
        let j = ident_end(s, n, i);
        proof {
            lemma_scan_ident_end(s@, i as int + 1);
            assert(scan_ident_end(s@, i as int) == scan_ident_end(s@, i as int + 1));
        }
        let word = s.substring_char(i, j);
        let colon_next = j < n && s.get_char(j) == ':';
        match map_kw(word) {
            Some(kind) => {
                if colon_next {
                    Err(LexErrorKind::KeywordLabel(word.to_owned()))
                } else {
                    let ghost spec_kind = kind@;
                    let mut rest = lex_from(s, n, j, line)?;
                    let ghost pre = rest@;
                    rest.insert(0, Token { kind, line });
                    proof {
                        assert(tokens_view(rest@) =~= seq![SpecToken { kind: spec_kind, line }]
                            + tokens_view(pre));
                    }
                    Ok(rest)
                }
            }
            None => {
                if colon_next {
                    let name = word.to_owned();
                    let mut rest = lex_from(s, n, j + 1, line)?;
                    let ghost pre = rest@;
                    rest.insert(0, Token { kind: TokenKind::LabelDef(name), line });
                    proof {
                        assert(tokens_view(rest@) =~= seq![
                            SpecToken {
                                kind: SpecTokenKind::LabelDef(s@.subrange(i as int, j as int)),
                                line,
                            },
                        ] + tokens_view(pre));
                    }
                    Ok(rest)
                } else {
                    let name = word.to_owned();
                    let mut rest = lex_from(s, n, j, line)?;
                    let ghost pre = rest@;
                    rest.insert(0, Token { kind: TokenKind::Label(name), line });
                    proof {
                        assert(tokens_view(rest@) =~= seq![
                            SpecToken {
                                kind: SpecTokenKind::Label(s@.subrange(i as int, j as int)),
                                line,
                            },
                        ] + tokens_view(pre));
                    }
                    Ok(rest)
                }
            }
        }
    } else {
        Err(LexErrorKind::UnexpectedChar(c))
    }
}

/// Lex one whole line, mirroring [`spec_lex_line`].
fn lex_line(s: &str, line: usize) -> (r: Result<Vec<Token>, LexError>)
    ensures
        match r {
            Ok(toks) => spec_lex_line(s@, line) == Ok::<_, SpecLexError>(tokens_view(toks@)),
            Err(e) => spec_lex_line(s@, line) == Err::<Seq<SpecToken>, _>(e@),
        },
{
    let n = s.unicode_len();
    match lex_from(s, n, 0, line) {
        Ok(toks) => Ok(toks),
        Err(kind) => Err(LexError { line, kind }),
    }
}

// ---------------------------------------------------------------------
// Splitting source text into lines.
// ---------------------------------------------------------------------

/// The position of the first newline at or after `i`, or the text's end.
pub open spec fn line_break(s: Seq<char>, i: int) -> int
    decreases s.len() - i when 0 <= i <= s.len()
{
    if i < s.len() && s[i] != '\n' {
        line_break(s, i + 1)
    } else {
        i
    }
}

/// A line break lies between its start and the text's end.
pub proof fn lemma_line_break(s: Seq<char>, i: int)
    requires
        0 <= i <= s.len(),
    ensures
        i <= line_break(s, i) <= s.len(),
    decreases s.len() - i,
{
    if i < s.len() && s[i] != '\n' {
        lemma_line_break(s, i + 1);
    }
}

/// The lines of the text from position `i` on: split at `\n`, one
/// carriage return stripped before each newline, no trailing empty line
/// for text ending in a newline.
pub open spec fn spec_lines_from(s: Seq<char>, i: int) -> Seq<Seq<char>>
    decreases s.len() - i when 0 <= i <= s.len() via spec_lines_from_dec
{
    if i >= s.len() {
        Seq::empty()
    } else {
        let j = line_break(s, i);
        if j == s.len() {
            seq![s.subrange(i, j)]
        } else {
            let content = if j > i && s[j - 1] == '\r' {
                s.subrange(i, j - 1)
            } else {
                s.subrange(i, j)
            };
            seq![content] + spec_lines_from(s, j + 1)
        }
    }
}

#[via_fn]
proof fn spec_lines_from_dec(s: Seq<char>, i: int) {
    if 0 <= i < s.len() {
        lemma_line_break(s, i);
    }
}

/// The lines of the whole text.
pub open spec fn spec_lines(s: Seq<char>) -> Seq<Seq<char>> {
    spec_lines_from(s, 0)
}

/// The model of a sequence of owned lines.
pub open spec fn lines_view(ls: Seq<String>) -> Seq<Seq<char>> {
    ls.map_values(|l: String| l@)
}

/// The position of the first newline at or after `i`, or the text's end.
fn find_line_break(s: &str, n: usize, i: usize) -> (j: usize)
    requires
        n as nat == s@.len(),
        i <= n,
    ensures
        j as int == line_break(s@, i as int),
        i <= j <= n,
    decreases n - i,
{
    if i < n && s.get_char(i) != '\n' {
        find_line_break(s, n, i + 1)
    } else {
        i
    }
}

/// Split the text from position `i` on into lines, mirroring
/// [`spec_lines_from`].
fn split_lines_from(s: &str, n: usize, i: usize) -> (v: Vec<String>)
    requires
        n as nat == s@.len(),
        i <= n,
    ensures
        lines_view(v@) == spec_lines_from(s@, i as int),
    decreases n - i,
{
    if i >= n {
        let v: Vec<String> = Vec::new();
        proof {
            assert(lines_view(v@) =~= spec_lines_from(s@, i as int));
        }
        v
    } else {
        let j = find_line_break(s, n, i);
        if j == n {
            let line = s.substring_char(i, j).to_owned();
            let mut v: Vec<String> = Vec::new();
            v.push(line);
            proof {
                assert(lines_view(v@) =~= spec_lines_from(s@, i as int));
            }
            v
        } else {
            let end = if j > i && s.get_char(j - 1) == '\r' {
                j - 1
            } else {
                j
            };
            let line = s.substring_char(i, end).to_owned();
            let mut v = split_lines_from(s, n, j + 1);
            let ghost pre = v@;
            v.insert(0, line);
            proof {
                assert(lines_view(v@) =~= seq![s@.subrange(i as int, end as int)] + lines_view(
                    pre,
                ));
            }
            v
        }
    }
}

/// Split source text into lines.
pub fn split_lines(s: &str) -> (v: Vec<String>)
    ensures
        lines_view(v@) == spec_lines(s@),
{
    let n = s.unicode_len();
    split_lines_from(s, n, 0)
}

// ---------------------------------------------------------------------
// Tokenizing whole source text.
// ---------------------------------------------------------------------

/// The tokens and errors of all lines from line `k` on: a successful
/// line contributes its tokens, a failed line its single error.
pub open spec fn spec_tokenize_from(lines: Seq<Seq<char>>, k: usize) -> (Seq<SpecToken>, Seq<
    SpecLexError,
>)
    decreases lines.len() - k when k as nat <= lines.len() && lines.len() <= usize::MAX as nat
{
    if k as nat >= lines.len() {
        (Seq::empty(), Seq::empty())
    } else {
        let rest = spec_tokenize_from(lines, (k + 1) as usize);
        match spec_lex_line(lines[k as int], k) {
            Ok(ts) => (ts + rest.0, rest.1),
            Err(e) => (rest.0, seq![e] + rest.1),
        }
    }
}

/// The result of tokenizing whole source text: the flat token sequence
/// ending in the end-of-input token when every line lexed, or the tokens
/// of the successful lines together with every line's error.
pub open spec fn spec_tokenize(s: Seq<char>) -> Result<Seq<SpecToken>, (Seq<SpecToken>, Seq<
    SpecLexError,
>)>
    recommends
        spec_lines(s).len() <= usize::MAX as nat,
{
    let lines = spec_lines(s);
    let (ts, es) = spec_tokenize_from(lines, 0);
    if es.len() == 0 {
        Ok(ts + seq![SpecToken { kind: SpecTokenKind::Eof, line: lines.len() as usize }])
    } else {
        Err((ts, es))
    }
}

/// Tokenize all lines from line `k` on, mirroring [`spec_tokenize_from`].
fn tokenize_lines(lines: &Vec<String>, k: usize) -> (r: (Vec<Token>, Vec<LexError>))
    requires
        k <= lines@.len(),
    ensures
        tokens_view(r.0@) == spec_tokenize_from(lines_view(lines@), k).0,
        lex_errors_view(r.1@) == spec_tokenize_from(lines_view(lines@), k).1,
    decreases lines@.len() - k,
{
    if k >= lines.len() {
        let r = (Vec::<Token>::new(), Vec::<LexError>::new());
        proof {
            assert(tokens_view(r.0@) =~= spec_tokenize_from(lines_view(lines@), k).0);
            assert(lex_errors_view(r.1@) =~= spec_tokenize_from(lines_view(lines@), k).1);
        }
        return r;
    }
    let (mut rest_toks, mut rest_errs) = tokenize_lines(lines, k + 1);
    let ghost rest_toks_snap = rest_toks@;
    match lex_line(lines[k].as_str(), k) {
        Ok(mut toks) => {
            let ghost toks_snap = toks@;
            toks.append(&mut rest_toks);
            proof {
                assert(tokens_view(toks@) =~= tokens_view(toks_snap) + tokens_view(
                    rest_toks_snap,
                ));
            }
            (toks, rest_errs)
        }
        Err(e) => {
            let ghost e_snap = e@;
            let ghost rest_errs_snap = rest_errs@;
            rest_errs.insert(0, e);
            proof {
                assert(lex_errors_view(rest_errs@) =~= seq![e_snap] + lex_errors_view(
                    rest_errs_snap,
                ));
            }
            (rest_toks, rest_errs)
        }
    }
}

/// Tokenize whole source text, line by line.  Every line's lexical error
/// is collected; the tokens of failing lines are discarded, and the
/// terminal end-of-input token is appended only when no line failed.
pub fn tokenize(source: &str) -> (r: Result<Vec<Token>, (Vec<Token>, Vec<LexError>)>)
    ensures
        match r {
            Ok(toks) => spec_tokenize(source@) == Ok::<_, (Seq<SpecToken>, Seq<SpecLexError>)>(
                tokens_view(toks@),
            ),
            Err(p) => spec_tokenize(source@) == Err::<Seq<SpecToken>, _>(
                (tokens_view(p.0@), lex_errors_view(p.1@)),
            ),
        },
{
    let lines = split_lines(source);
    let (mut toks, errs) = tokenize_lines(&lines, 0);
    if errs.len() == 0 {
        let ghost toks_snap = toks@;
        toks.push(Token { kind: TokenKind::Eof, line: lines.len() });
        proof {
            assert(lex_errors_view(errs@) =~= Seq::<SpecLexError>::empty());
            assert(tokens_view(toks@) =~= tokens_view(toks_snap) + seq![
                SpecToken { kind: SpecTokenKind::Eof, line: lines@.len() as usize },
            ]);
        }
        Ok(toks)
    } else {
        proof {
            if lex_errors_view(errs@).len() == 0 {
                assert(errs@.len() == 0);
            }
        }
        Err((toks, errs))
    }
}

// ---------------------------------------------------------------------
// Rendering lexical errors as text.
// ---------------------------------------------------------------------

/// The diagnostic line for a lexical error, exactly as the toolchain
/// prints it.  The two test-name errors carry no line prefix.
pub open spec fn spec_lex_message(e: SpecLexError) -> Seq<char> {
    match e.kind {
        SpecLexErrorKind::UnexpectedChar(c) => "error @ line "@ + spec_decimal(e.line as nat)
            + ": unexpected character '"@ + seq![c] + "'"@,
        SpecLexErrorKind::InvalidNumber(text) => "error @ line "@ + spec_decimal(e.line as nat)
            + ": invalid number literal \""@ + text + "\""@,
        SpecLexErrorKind::KeywordLabel(word) => "error @ line "@ + spec_decimal(e.line as nat)
            + ": cannot use keyword \""@ + word + "\" as label name"@,
        SpecLexErrorKind::TestNameStart(c) => "unexpected character '"@ + seq![c]
            + "': test names must start with a letter or '_'"@,
        SpecLexErrorKind::TestNameMissing => "tests must have a name"@,
    }
}

impl LexError {
    /// The diagnostic line for this error, as the toolchain prints it.
    pub fn message(&self) -> (r: String)
        ensures
            r@ == spec_lex_message(self@),
    {
        let mut s = String::new();
        match &self.kind {
            LexErrorKind::UnexpectedChar(c) => {
                s.append("error @ line ");
                push_decimal(&mut s, self.line);
                s.append(": unexpected character '");
                let cs = char_to_string(*c);
                s.append(cs.as_str());
                s.append("'");
                proof {
                    assert(s@ =~= spec_lex_message(self@));
                }
            }
            LexErrorKind::InvalidNumber(text) => {
                s.append("error @ line ");
                push_decimal(&mut s, self.line);
                s.append(": invalid number literal \"");
                s.append(text.as_str());
                s.append("\"");
                proof {
                    assert(s@ =~= spec_lex_message(self@));
                }
            }
            LexErrorKind::KeywordLabel(word) => {
                s.append("error @ line ");
                push_decimal(&mut s, self.line);
                s.append(": cannot use keyword \"");
                s.append(word.as_str());
                s.append("\" as label name");
                proof {
                    assert(s@ =~= spec_lex_message(self@));
                }
            }
            LexErrorKind::TestNameStart(c) => {
                s.append("unexpected character '");
                let cs = char_to_string(*c);
                s.append(cs.as_str());
                s.append("': test names must start with a letter or '_'");
                proof {
                    assert(s@ =~= spec_lex_message(self@));
                }
            }
            LexErrorKind::TestNameMissing => {
                s.append("tests must have a name");
                proof {
                    assert(s@ =~= spec_lex_message(self@));
                }
            }
        }
        s
    }
}

} // verus!
