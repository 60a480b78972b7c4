//! The parser: consumes the token stream into an ordered instruction
//! list, a label→address map, and a list of inline test declarations.
//! Parsing recovers per statement — on an error, tokens are skipped up
//! to the next end of line and parsing continues, so one pass collects
//! every statement's error.

use vstd::prelude::*;

use crate::lex::{
    tokens_view, SpecToken, SpecTokenKind, Token, TokenKind,
};
use crate::text::{push_decimal, spec_decimal};

verus! {

/// An address operand: unresolved until assembly.
#[derive(Debug, PartialEq, Eq, Clone)]
pub enum Address {
    /// A label reference, resolved against the label map at assembly.
    Symbolic(String),
    /// A literal address in `0..100`.
    Numeric(usize),
}

/// One instruction of the fixed eleven-opcode set.  An instruction's
/// position in the instruction list is its program address.
#[derive(Debug, PartialEq, Eq, Clone)]
pub enum Instruction {
    /// Load the addressed cell into the accumulator.
    Load(Address),
    /// Store the accumulator into the addressed cell.
    Store(Address),
    /// Add the addressed cell to the accumulator.
    Add(Address),
    /// Subtract the addressed cell from the accumulator.
    Subtract(Address),
    /// Read one value from the input port.
    Input,
    /// Push the accumulator to the output port.
    Output,
    /// Halt the machine.
    Halt,
    /// Branch if the accumulator is zero.
    BranchZero(Address),
    /// Branch if the negative flag is clear.
    BranchPositive(Address),
    /// Branch unconditionally.
    BranchAlways(Address),
    /// A literal data word in `0..1000`.
    Data(usize),
}

/// An inline test declaration: a name, the values fed to the input
/// port, and the output values expected.
#[derive(Debug, PartialEq, Eq, Clone)]
pub struct LNCTest {
    /// The test's name.
    pub name: String,
    /// The values fed to the input port, oldest first.
    pub inputs: Vec<usize>,
    /// The output values expected, oldest first.
    pub outputs: Vec<usize>,
}

/// The mathematical model of an [`Address`].
pub ghost enum SpecAddress {
    /// A label reference.
    Symbolic(Seq<char>),
    /// A literal address.
    Numeric(usize),
}

/// The mathematical model of an [`Instruction`].
pub ghost enum SpecInstruction {
    /// Load.
    Load(SpecAddress),
    /// Store.
    Store(SpecAddress),
    /// Add.
    Add(SpecAddress),
    /// Subtract.
    Subtract(SpecAddress),
    /// Input.
    Input,
    /// Output.
    Output,
    /// Halt.
    Halt,
    /// Branch if zero.
    BranchZero(SpecAddress),
    /// Branch if positive.
    BranchPositive(SpecAddress),
    /// Branch always.
    BranchAlways(SpecAddress),
    /// A literal data word.
    Data(usize),
}

/// The mathematical model of an [`LNCTest`].
#[verifier::ext_equal]
pub ghost struct SpecLNCTest {
    /// The test's name.
    pub name: Seq<char>,
    /// The values fed to the input port.
    pub inputs: Seq<usize>,
    /// The output values expected.
    pub outputs: Seq<usize>,
}

impl View for Address {
    type V = SpecAddress;

    open spec fn view(&self) -> SpecAddress {
        match self {
            Address::Symbolic(s) => SpecAddress::Symbolic(s@),
            Address::Numeric(n) => SpecAddress::Numeric(*n),
        }
    }
}

impl View for Instruction {
    type V = SpecInstruction;

    open spec fn view(&self) -> SpecInstruction {
        match self {
            Instruction::Load(a) => SpecInstruction::Load(a@),
            Instruction::Store(a) => SpecInstruction::Store(a@),
            Instruction::Add(a) => SpecInstruction::Add(a@),
            Instruction::Subtract(a) => SpecInstruction::Subtract(a@),
            Instruction::Input => SpecInstruction::Input,
            Instruction::Output => SpecInstruction::Output,
            Instruction::Halt => SpecInstruction::Halt,
            Instruction::BranchZero(a) => SpecInstruction::BranchZero(a@),
            Instruction::BranchPositive(a) => SpecInstruction::BranchPositive(a@),
            Instruction::BranchAlways(a) => SpecInstruction::BranchAlways(a@),
            Instruction::Data(n) => SpecInstruction::Data(*n),
        }
    }
}

impl View for LNCTest {
    type V = SpecLNCTest;

    open spec fn view(&self) -> SpecLNCTest {
        SpecLNCTest { name: self.name@, inputs: self.inputs@, outputs: self.outputs@ }
    }
}

/// The model of an instruction list.
pub open spec fn instructions_view(v: Seq<Instruction>) -> Seq<SpecInstruction> {
    v.map_values(|x: Instruction| x@)
}

/// The model of a test list.
pub open spec fn tests_view(v: Seq<LNCTest>) -> Seq<SpecLNCTest> {
    v.map_values(|t: LNCTest| t@)
}

// ---------------------------------------------------------------------
// The label map.
// ---------------------------------------------------------------------

/// A mapping from label name to program address; a later definition of
/// the same name overwrites the earlier.
#[derive(Debug)]
pub struct LabelMap {
    entries: Vec<(String, usize)>,
}

/// The map denoted by a sequence of (name, address) entries, the last
/// writer of each name winning.
pub open spec fn entries_map(es: Seq<(String, usize)>) -> Map<Seq<char>, usize>
    decreases es.len(),
{
    if es.len() == 0 {
        Map::empty()
    } else {
        entries_map(es.drop_last()).insert(es.last().0@, es.last().1)
    }
}

impl View for LabelMap {
    type V = Map<Seq<char>, usize>;

    closed spec fn view(&self) -> Map<Seq<char>, usize> {
        entries_map(self.entries@)
    }
}

impl LabelMap {
    /// An empty map.
    pub fn new() -> (r: LabelMap)
        ensures
            r@ == Map::<Seq<char>, usize>::empty(),
    {
        LabelMap { entries: Vec::new() }
    }

    /// Bind a name to an address, overwriting any earlier binding.
    pub fn insert(&mut self, name: String, addr: usize)
        ensures
            final(self)@ == old(self)@.insert(name@, addr),
    {
        let ghost pre = self.entries@;
        self.entries.push((name, addr));
        proof {
            assert(self.entries@.drop_last() =~= pre);
        }
    }

    /// Look only at the first `k` entries.
    fn lookup_prefix(&self, name: &str, k: usize) -> (r: Option<usize>)
        requires
            k <= self.entries@.len(),
        ensures
            match r {
                Some(v) => entries_map(self.entries@.take(k as int)).contains_key(name@)
                    && entries_map(self.entries@.take(k as int))[name@] == v,
                None => !entries_map(self.entries@.take(k as int)).contains_key(name@),
            },
        decreases k,
    {
        if k == 0 {
            proof {
                assert(self.entries@.take(0) =~= Seq::<(String, usize)>::empty());
            }
            None
        } else {
            let entry = &self.entries[k - 1];
            proof {
                assert(self.entries@.take(k as int).drop_last() =~= self.entries@.take(
                    k as int - 1,
                ));
                assert(self.entries@.take(k as int).last() == self.entries@[k as int - 1]);
            }
            if entry.0 == name.to_owned() {
                Some(entry.1)
            } else {
                self.lookup_prefix(name, k - 1)
            }
        }
    }

    /// The address bound to a name, if any.
    pub fn get(&self, name: &str) -> (r: Option<usize>)
        ensures
            match r {
                Some(v) => self@.contains_key(name@) && self@[name@] == v,
                None => !self@.contains_key(name@),
            },
    {
        let n = self.entries.len();
        proof {
            assert(self.entries@.take(n as int) =~= self.entries@);
        }
        self.lookup_prefix(name, n)
    }

    /// The (name, address) pairs recorded, in order of definition, for
    /// introspection; a name may appear more than once, its last entry
    /// winning.
    pub fn entries(&self) -> (r: &Vec<(String, usize)>)
        ensures
            entries_map(r@) == self@,
    {
        &self.entries
    }
}

// ---------------------------------------------------------------------
// Parse output and errors.
// ---------------------------------------------------------------------

/// Everything the parser produces: the instruction list (an
/// instruction's index is its program address), the label map, and the
/// inline test declarations.
#[derive(Debug)]
pub struct ParseInfo {
    /// The instructions, in program order.
    pub instructions: Vec<Instruction>,
    /// The label→address map.
    pub label_map: LabelMap,
    /// The inline test declarations, in source order.
    pub tests: Vec<LNCTest>,
}

/// The mathematical model of a [`ParseInfo`].
#[verifier::ext_equal]
pub ghost struct SpecParseInfo {
    /// The instructions, in program order.
    pub instructions: Seq<SpecInstruction>,
    /// The label→address map.
    pub label_map: Map<Seq<char>, usize>,
    /// The inline test declarations.
    pub tests: Seq<SpecLNCTest>,
}

impl View for ParseInfo {
    type V = SpecParseInfo;

    open spec fn view(&self) -> SpecParseInfo {
        SpecParseInfo {
            instructions: instructions_view(self.instructions@),
            label_map: self.label_map@,
            tests: tests_view(self.tests@),
        }
    }
}

/// The empty parse output.
pub open spec fn empty_parse_info() -> SpecParseInfo {
    SpecParseInfo {
        instructions: Seq::empty(),
        label_map: Map::empty(),
        tests: Seq::empty(),
    }
}

impl ParseInfo {
    fn new() -> (r: ParseInfo)
        ensures
            r@ =~= empty_parse_info(),
    {
        let r = ParseInfo {
            instructions: Vec::new(),
            label_map: LabelMap::new(),
            tests: Vec::new(),
        };
        proof {
            assert(instructions_view(r.instructions@) =~= Seq::<SpecInstruction>::empty());
            assert(tests_view(r.tests@) =~= Seq::<SpecLNCTest>::empty());
        }
        r
    }
}

/// A syntax error's reason.
#[derive(Debug, PartialEq, Eq, Clone)]
pub enum ParseErrorKind {
    /// A number where a statement should start.
    StatementNumber(usize),
    /// A label reference where a statement should start.
    StatementLabel(String),
    /// A `[` where a statement should start.
    UnexpectedOpenBracket,
    /// A `]` where a statement should start.
    UnexpectedCloseBracket,
    /// A `,` where a statement should start.
    UnexpectedComma,
    /// A numeric address at or above 100.
    AddressTooLarge(usize),
    /// A token that is neither a number nor a label where an address was
    /// expected.
    InvalidAddressToken(TokenKind),
    /// The tokens ended where an address was expected.
    MissingAddress,
    /// A trailing token where the end of the line was expected.
    ExpectedEndOfLine(TokenKind),
    /// The tokens ended where an end of line was expected.
    MissingEndOfLine,
    /// A data word at or above 1000.
    DataTooLarge(usize),
    /// A token that is no number where a data word was expected.
    InvalidDataToken(TokenKind),
    /// The tokens ended where a data word was expected.
    MissingData,
    /// A different token than the one the test grammar demands.
    ExpectedToken {
        /// The demanded token.
        expected: TokenKind,
        /// The token found instead.
        found: TokenKind,
    },
    /// The tokens ended where the test grammar demands one more.
    MissingToken {
        /// The demanded token.
        expected: TokenKind,
    },
    /// Two numbers in a test list without a separating comma.
    ListNumberAfterNumber(usize),
    /// A test list entry at or above 1000.
    ListNumberTooLarge(usize),
    /// A comma in a test list not preceded by a number.
    UnexpectedCommaInList,
    /// A token a test list cannot hold.
    InvalidListToken(TokenKind),
}

/// A syntax error, scoped to the statement's starting line.
#[derive(Debug, PartialEq, Eq, Clone)]
pub struct ParseError {
    /// The 0-based source line of the statement's first token.
    pub line: usize,
    /// The reason.
    pub kind: ParseErrorKind,
}

/// The mathematical model of a [`ParseErrorKind`].
pub ghost enum SpecParseErrorKind {
    /// A number where a statement should start.
    StatementNumber(usize),
    /// A label reference where a statement should start.
    StatementLabel(Seq<char>),
    /// A `[` where a statement should start.
    UnexpectedOpenBracket,
    /// A `]` where a statement should start.
    UnexpectedCloseBracket,
    /// A `,` where a statement should start.
    UnexpectedComma,
    /// A numeric address at or above 100.
    AddressTooLarge(usize),
    /// A bad token where an address was expected.
    InvalidAddressToken(SpecTokenKind),
    /// The tokens ended where an address was expected.
    MissingAddress,
    /// A trailing token where the end of the line was expected.
    ExpectedEndOfLine(SpecTokenKind),
    /// The tokens ended where an end of line was expected.
    MissingEndOfLine,
    /// A data word at or above 1000.
    DataTooLarge(usize),
    /// A bad token where a data word was expected.
    InvalidDataToken(SpecTokenKind),
    /// The tokens ended where a data word was expected.
    MissingData,
    /// A different token than the test grammar demands.
    ExpectedToken {
        /// The demanded token.
        expected: SpecTokenKind,
        /// The token found instead.
        found: SpecTokenKind,
    },
    /// The tokens ended where the test grammar demands one more.
    MissingToken {
        /// The demanded token.
        expected: SpecTokenKind,
    },
    /// Two numbers in a test list without a separating comma.
    ListNumberAfterNumber(usize),
    /// A test list entry at or above 1000.
    ListNumberTooLarge(usize),
    /// A comma in a test list not preceded by a number.
    UnexpectedCommaInList,
    /// A token a test list cannot hold.
    InvalidListToken(SpecTokenKind),
}

/// The mathematical model of a [`ParseError`].
pub ghost struct SpecParseError {
    /// The 0-based source line of the statement's first token.
    pub line: usize,
    /// The reason.
    pub kind: SpecParseErrorKind,
}

impl View for ParseErrorKind {
    type V = SpecParseErrorKind;

    open spec fn view(&self) -> SpecParseErrorKind {
        match self {
            ParseErrorKind::StatementNumber(n) => SpecParseErrorKind::StatementNumber(*n),
            ParseErrorKind::StatementLabel(s) => SpecParseErrorKind::StatementLabel(s@),
            ParseErrorKind::UnexpectedOpenBracket => SpecParseErrorKind::UnexpectedOpenBracket,
            ParseErrorKind::UnexpectedCloseBracket => SpecParseErrorKind::UnexpectedCloseBracket,
            ParseErrorKind::UnexpectedComma => SpecParseErrorKind::UnexpectedComma,
            ParseErrorKind::AddressTooLarge(n) => SpecParseErrorKind::AddressTooLarge(*n),
            ParseErrorKind::InvalidAddressToken(k) => SpecParseErrorKind::InvalidAddressToken(k@),
            ParseErrorKind::MissingAddress => SpecParseErrorKind::MissingAddress,
            ParseErrorKind::ExpectedEndOfLine(k) => SpecParseErrorKind::ExpectedEndOfLine(k@),
            ParseErrorKind::MissingEndOfLine => SpecParseErrorKind::MissingEndOfLine,
            ParseErrorKind::DataTooLarge(n) => SpecParseErrorKind::DataTooLarge(*n),
            ParseErrorKind::InvalidDataToken(k) => SpecParseErrorKind::InvalidDataToken(k@),
            ParseErrorKind::MissingData => SpecParseErrorKind::MissingData,
            ParseErrorKind::ExpectedToken { expected, found } => SpecParseErrorKind::ExpectedToken {
                expected: expected@,
                found: found@,
            },
            ParseErrorKind::MissingToken { expected } => SpecParseErrorKind::MissingToken {
                expected: expected@,
            },
            ParseErrorKind::ListNumberAfterNumber(n) => SpecParseErrorKind::ListNumberAfterNumber(
                *n,
            ),
            ParseErrorKind::ListNumberTooLarge(n) => SpecParseErrorKind::ListNumberTooLarge(*n),
            ParseErrorKind::UnexpectedCommaInList => SpecParseErrorKind::UnexpectedCommaInList,
            ParseErrorKind::InvalidListToken(k) => SpecParseErrorKind::InvalidListToken(k@),
        }
    }
}

impl View for ParseError {
    type V = SpecParseError;

    open spec fn view(&self) -> SpecParseError {
        SpecParseError { line: self.line, kind: self.kind@ }
    }
}

/// The model of a sequence of syntax errors.
pub open spec fn parse_errors_view(es: Seq<ParseError>) -> Seq<SpecParseError> {
    es.map_values(|e: ParseError| e@)
}

/// A short description of a token, for diagnostics.
pub open spec fn spec_kind_text(k: SpecTokenKind) -> Seq<char> {
    match k {
        SpecTokenKind::Number(n) => "number ("@ + spec_decimal(n as nat) + ")"@,
        SpecTokenKind::Label(name) => "label \""@ + name + "\""@,
        SpecTokenKind::LabelDef(name) => "label definition \""@ + name + ":\""@,
        SpecTokenKind::Load => "\"lda\""@,
        SpecTokenKind::Store => "\"sto\""@,
        SpecTokenKind::Add => "\"add\""@,
        SpecTokenKind::Subtract => "\"sub\""@,
        SpecTokenKind::Input => "\"inp\""@,
        SpecTokenKind::Output => "\"out\""@,
        SpecTokenKind::Halt => "\"hlt\""@,
        SpecTokenKind::BranchZero => "\"brz\""@,
        SpecTokenKind::BranchPositive => "\"brp\""@,
        SpecTokenKind::BranchAlways => "\"bra\""@,
        SpecTokenKind::Data => "\"dat\""@,
        SpecTokenKind::NewLine => "end of line"@,
        SpecTokenKind::Eof => "end of input"@,
        SpecTokenKind::TestName(name) => "test name \"."@ + name + "\""@,
        SpecTokenKind::OpenSquareBracket => "'['"@,
        SpecTokenKind::CloseSquareBracket => "']'"@,
        SpecTokenKind::Comma => "','"@,
    }
}

/// A short description of a token, for diagnostics.
fn kind_text(k: &TokenKind) -> (r: String)
    ensures
        r@ == spec_kind_text(k@),
{
    let mut s = String::new();
    match k {
        TokenKind::Number(n) => {
            s.append("number (");
            push_decimal(&mut s, *n);
            s.append(")");
        }
        TokenKind::Label(name) => {
            s.append("label \"");
            s.append(name.as_str());
            s.append("\"");
        }
        TokenKind::LabelDef(name) => {
            s.append("label definition \"");
            s.append(name.as_str());
            s.append(":\"");
        }
        TokenKind::Load => s.append("\"lda\""),
        TokenKind::Store => s.append("\"sto\""),
        TokenKind::Add => s.append("\"add\""),
        TokenKind::Subtract => s.append("\"sub\""),
        TokenKind::Input => s.append("\"inp\""),
        TokenKind::Output => s.append("\"out\""),
        TokenKind::Halt => s.append("\"hlt\""),
        TokenKind::BranchZero => s.append("\"brz\""),
        TokenKind::BranchPositive => s.append("\"brp\""),
        TokenKind::BranchAlways => s.append("\"bra\""),
        TokenKind::Data => s.append("\"dat\""),
        TokenKind::NewLine => s.append("end of line"),
        TokenKind::Eof => s.append("end of input"),
        TokenKind::TestName(name) => {
            s.append("test name \".");
            s.append(name.as_str());
            s.append("\"");
        }
        TokenKind::OpenSquareBracket => s.append("'['"),
        TokenKind::CloseSquareBracket => s.append("']'"),
        TokenKind::Comma => s.append("','"),
    }
    proof {
        assert(s@ =~= spec_kind_text(k@));
    }
    s
}

/// The part of a syntax error's diagnostic after the line prefix.
pub open spec fn spec_parse_message_body(k: SpecParseErrorKind) -> Seq<char> {
    match k {
        SpecParseErrorKind::StatementNumber(n) => "found number ("@ + spec_decimal(n as nat)
            + ") instead of instruction/label def"@,
        SpecParseErrorKind::StatementLabel(name) => "found label \""@ + name
            + "\" instead of instruction/label def"@,
        SpecParseErrorKind::UnexpectedOpenBracket => "unexpected bracket '['"@,
        SpecParseErrorKind::UnexpectedCloseBracket => "unexpected bracket ']'"@,
        SpecParseErrorKind::UnexpectedComma => "unexpected comma ','"@,
        SpecParseErrorKind::AddressTooLarge(n) => "invalid address "@ + spec_decimal(n as nat)
            + ": too large"@,
        SpecParseErrorKind::InvalidAddressToken(k2) => "invalid token "@ + spec_kind_text(k2)
            + ": expected address"@,
        SpecParseErrorKind::MissingAddress => "unexpected EOF: expected address"@,
        SpecParseErrorKind::ExpectedEndOfLine(k2) => "invalid token "@ + spec_kind_text(k2)
            + ": expected end of line"@,
        SpecParseErrorKind::MissingEndOfLine => "unexpected EOF: expected end of line"@,
        SpecParseErrorKind::DataTooLarge(n) => "invalid data "@ + spec_decimal(n as nat)
            + ": too large"@,
        SpecParseErrorKind::InvalidDataToken(k2) => "invalid token "@ + spec_kind_text(k2)
            + ": expected number"@,
        SpecParseErrorKind::MissingData => "unexpected EOF: expected number"@,
        SpecParseErrorKind::ExpectedToken { expected, found } => "expected "@ + spec_kind_text(
            expected,
        ) + ": found "@ + spec_kind_text(found),
        SpecParseErrorKind::MissingToken { expected } => "unexpected EOF: expected "@
            + spec_kind_text(expected),
        SpecParseErrorKind::ListNumberAfterNumber(n) => "expected ',' or ']': found number ("@
            + spec_decimal(n as nat) + ")"@,
        SpecParseErrorKind::ListNumberTooLarge(n) => "invalid number "@ + spec_decimal(n as nat)
            + ": too large"@,
        SpecParseErrorKind::UnexpectedCommaInList => "unexpected ','"@,
        SpecParseErrorKind::InvalidListToken(k2) => "expected number, ',', or ']': found "@
            + spec_kind_text(k2),
    }
}

/// The diagnostic line for a syntax error, exactly as the toolchain
/// prints it.
pub open spec fn spec_parse_message(e: SpecParseError) -> Seq<char> {
    "error @ line "@ + spec_decimal(e.line as nat) + ": "@ + spec_parse_message_body(e.kind)
}

impl ParseError {
    /// The diagnostic line for this error, as the toolchain prints it.
    pub fn message(&self) -> (r: String)
        ensures
            r@ == spec_parse_message(self@),
    {
        let mut s = String::new();
        s.append("error @ line ");
        push_decimal(&mut s, self.line);
        s.append(": ");
        let ghost prefix = s@;
        proof {
            assert(prefix =~= "error @ line "@ + spec_decimal(self.line as nat) + ": "@);
        }
        match &self.kind {
            ParseErrorKind::StatementNumber(n) => {
                s.append("found number (");
                push_decimal(&mut s, *n);
                s.append(") instead of instruction/label def");
            }
            ParseErrorKind::StatementLabel(name) => {
                s.append("found label \"");
                s.append(name.as_str());
                s.append("\" instead of instruction/label def");
            }
            ParseErrorKind::UnexpectedOpenBracket => {
                s.append("unexpected bracket '['");
            }
            ParseErrorKind::UnexpectedCloseBracket => {
                s.append("unexpected bracket ']'");
            }
            ParseErrorKind::UnexpectedComma => {
                s.append("unexpected comma ','");
            }
            ParseErrorKind::AddressTooLarge(n) => {
                s.append("invalid address ");
                push_decimal(&mut s, *n);
                s.append(": too large");
            }
            ParseErrorKind::InvalidAddressToken(k) => {
                s.append("invalid token ");
                let t = kind_text(k);
                s.append(t.as_str());
                s.append(": expected address");
            }
            ParseErrorKind::MissingAddress => {
                s.append("unexpected EOF: expected address");
            }
            ParseErrorKind::ExpectedEndOfLine(k) => {
                s.append("invalid token ");
                let t = kind_text(k);
                s.append(t.as_str());
                s.append(": expected end of line");
            }
            ParseErrorKind::MissingEndOfLine => {
                s.append("unexpected EOF: expected end of line");
            }
            ParseErrorKind::DataTooLarge(n) => {
                s.append("invalid data ");
                push_decimal(&mut s, *n);
                s.append(": too large");
            }
            ParseErrorKind::InvalidDataToken(k) => {
                s.append("invalid token ");
                let t = kind_text(k);
                s.append(t.as_str());
                s.append(": expected number");
            }
            ParseErrorKind::MissingData => {
                s.append("unexpected EOF: expected number");
            }
            ParseErrorKind::ExpectedToken { expected, found } => {
                s.append("expected ");
                let te = kind_text(expected);
                s.append(te.as_str());
                s.append(": found ");
                let tf = kind_text(found);
                s.append(tf.as_str());
            }
            ParseErrorKind::MissingToken { expected } => {
                s.append("unexpected EOF: expected ");
                let te = kind_text(expected);
                s.append(te.as_str());
            }
            ParseErrorKind::ListNumberAfterNumber(n) => {
                s.append("expected ',' or ']': found number (");
                push_decimal(&mut s, *n);
                s.append(")");
            }
            ParseErrorKind::ListNumberTooLarge(n) => {
                s.append("invalid number ");
                push_decimal(&mut s, *n);
                s.append(": too large");
            }
            ParseErrorKind::UnexpectedCommaInList => {
                s.append("unexpected ','");
            }
            ParseErrorKind::InvalidListToken(k) => {
                s.append("expected number, ',', or ']': found ");
                let t = kind_text(k);
                s.append(t.as_str());
            }
        }
        proof {
            assert(s@ =~= spec_parse_message(self@));
        }
        s
    }
}

// ---------------------------------------------------------------------
// The grammar, as recursive specification functions over the tokens.
// ---------------------------------------------------------------------

/// A token that ends a statement.
pub open spec fn is_line_end(k: SpecTokenKind) -> bool {
    k is NewLine || k is Eof
}

/// The first position at or after `i` whose token ends a statement, or
/// the end of the tokens: where a failed statement's recovery resumes.
pub open spec fn sync_index(toks: Seq<SpecToken>, i: int) -> int
    decreases toks.len() - i when 0 <= i <= toks.len()
{
    if i < toks.len() && !is_line_end(toks[i].kind) {
        sync_index(toks, i + 1)
    } else {
        i
    }
}

/// A recovery point lies between its start and the end of the tokens.
pub proof fn lemma_sync_index(toks: Seq<SpecToken>, i: int)
    requires
        0 <= i <= toks.len(),
    ensures
        i <= sync_index(toks, i) <= toks.len(),
    decreases toks.len() - i,
{
    if i < toks.len() && !is_line_end(toks[i].kind) {
        lemma_sync_index(toks, i + 1);
    }
}

/// The instruction built from an address-taking mnemonic and its
/// operand.
pub open spec fn addr_instruction(k: SpecTokenKind, addr: SpecAddress) -> SpecInstruction {
    match k {
        SpecTokenKind::Load => SpecInstruction::Load(addr),
        SpecTokenKind::Store => SpecInstruction::Store(addr),
        SpecTokenKind::Add => SpecInstruction::Add(addr),
        SpecTokenKind::Subtract => SpecInstruction::Subtract(addr),
        SpecTokenKind::BranchZero => SpecInstruction::BranchZero(addr),
        SpecTokenKind::BranchPositive => SpecInstruction::BranchPositive(addr),
        _ => SpecInstruction::BranchAlways(addr),
    }
}

/// The instruction built from a no-address mnemonic.
pub open spec fn bare_instruction(k: SpecTokenKind) -> SpecInstruction {
    match k {
        SpecTokenKind::Input => SpecInstruction::Input,
        SpecTokenKind::Output => SpecInstruction::Output,
        _ => SpecInstruction::Halt,
    }
}

/// An address-taking statement at position `i`: the mnemonic, exactly
/// one address operand (a number below 100 or a label reference), then
/// the end of the line.  The pair's second member is the position where
/// parsing resumes.
pub open spec fn spec_ins_with_addr(toks: Seq<SpecToken>, i: int) -> (Result<
    SpecInstruction,
    SpecParseErrorKind,
>, int) {
    if i + 1 >= toks.len() {
        (Err(SpecParseErrorKind::MissingAddress), toks.len() as int)
    } else {
        let a = toks[i + 1].kind;
        match a {
            SpecTokenKind::Number(n) => {
                if n >= 100 {
                    (Err(SpecParseErrorKind::AddressTooLarge(n)), i + 2)
                } else {
                    spec_ins_addr_end(toks, i, SpecAddress::Numeric(n))
                }
            }
            SpecTokenKind::Label(s) => spec_ins_addr_end(toks, i, SpecAddress::Symbolic(s)),
            _ => (Err(SpecParseErrorKind::InvalidAddressToken(a)), i + 2),
        }
    }
}

/// The end-of-line check that closes an address-taking statement.
pub open spec fn spec_ins_addr_end(toks: Seq<SpecToken>, i: int, addr: SpecAddress) -> (Result<
    SpecInstruction,
    SpecParseErrorKind,
>, int) {
    if i + 2 >= toks.len() {
        (Err(SpecParseErrorKind::MissingEndOfLine), toks.len() as int)
    } else if is_line_end(toks[i + 2].kind) {
        (Ok(addr_instruction(toks[i].kind, addr)), i + 3)
    } else {
        (Err(SpecParseErrorKind::ExpectedEndOfLine(toks[i + 2].kind)), i + 2)
    }
}

/// A no-address statement at position `i`: the mnemonic alone on its
/// line.
pub open spec fn spec_ins_without_addr(toks: Seq<SpecToken>, i: int) -> (Result<
    SpecInstruction,
    SpecParseErrorKind,
>, int) {
    if i + 1 >= toks.len() {
        (Err(SpecParseErrorKind::MissingEndOfLine), toks.len() as int)
    } else if is_line_end(toks[i + 1].kind) {
        (Ok(bare_instruction(toks[i].kind)), i + 2)
    } else {
        (Err(SpecParseErrorKind::ExpectedEndOfLine(toks[i + 1].kind)), i + 1)
    }
}

/// A data statement at position `i`: `dat` and exactly one numeric
/// literal below 1000.  No end-of-line check follows a data statement.
pub open spec fn spec_data(toks: Seq<SpecToken>, i: int) -> (Result<
    SpecInstruction,
    SpecParseErrorKind,
>, int) {
    if i + 1 >= toks.len() {
        (Err(SpecParseErrorKind::MissingData), toks.len() as int)
    } else {
        match toks[i + 1].kind {
            SpecTokenKind::Number(n) => {
                if n >= 1000 {
                    (Err(SpecParseErrorKind::DataTooLarge(n)), i + 2)
                } else {
                    (Ok(SpecInstruction::Data(n)), i + 2)
                }
            }
            k => (Err(SpecParseErrorKind::InvalidDataToken(k)), i + 2),
        }
    }
}

/// The entries of a test's number list from position `k` on, up to the
/// closing bracket: numbers below 1000, separated by commas, a trailing
/// comma permitted.
pub open spec fn spec_list_items(
    toks: Seq<SpecToken>,
    k: int,
    acc: Seq<usize>,
    prev_was_num: bool,
) -> (Result<Seq<usize>, SpecParseErrorKind>, int)
    decreases toks.len() - k when 0 <= k <= toks.len()
{
    if k >= toks.len() {
        (
            Err(
                SpecParseErrorKind::MissingToken { expected: SpecTokenKind::CloseSquareBracket },
            ),
            k,
        )
    } else {
        match toks[k].kind {
            SpecTokenKind::Number(n) => {
                if prev_was_num {
                    (Err(SpecParseErrorKind::ListNumberAfterNumber(n)), k)
                } else if n >= 1000 {
                    (Err(SpecParseErrorKind::ListNumberTooLarge(n)), k)
                } else {
                    spec_list_items(toks, k + 1, acc.push(n), true)
                }
            }
            SpecTokenKind::Comma => {
                if !prev_was_num {
                    (Err(SpecParseErrorKind::UnexpectedCommaInList), k)
                } else {
                    spec_list_items(toks, k + 1, acc, false)
                }
            }
            SpecTokenKind::CloseSquareBracket => (Ok(acc), k + 1),
            k_other => (Err(SpecParseErrorKind::InvalidListToken(k_other)), k),
        }
    }
}

/// A test's number list at position `i`: an opening bracket, entries,
/// a closing bracket.
pub open spec fn spec_number_list(toks: Seq<SpecToken>, i: int) -> (Result<
    Seq<usize>,
    SpecParseErrorKind,
>, int) {
    if i >= toks.len() {
        (
            Err(SpecParseErrorKind::MissingToken { expected: SpecTokenKind::OpenSquareBracket }),
            i,
        )
    } else if !(toks[i].kind is OpenSquareBracket) {
        (
            Err(
                SpecParseErrorKind::ExpectedToken {
                    expected: SpecTokenKind::OpenSquareBracket,
                    found: toks[i].kind,
                },
            ),
            i,
        )
    } else {
        spec_list_items(toks, i + 1, Seq::empty(), false)
    }
}

/// A test declaration at position `i`: the test name, its input list,
/// its expected-output list, then the end of the line.
pub open spec fn spec_lnc_test(toks: Seq<SpecToken>, i: int, name: Seq<char>) -> (Result<
    SpecLNCTest,
    SpecParseErrorKind,
>, int) {
    let (r1, p1) = spec_number_list(toks, i + 1);
    match r1 {
        Err(k) => (Err(k), p1),
        Ok(inputs) => {
            let (r2, p2) = spec_number_list(toks, p1);
            match r2 {
                Err(k) => (Err(k), p2),
                Ok(outputs) => {
                    if p2 >= toks.len() {
                        (Err(SpecParseErrorKind::MissingEndOfLine), toks.len() as int)
                    } else if is_line_end(toks[p2].kind) {
                        (Ok(SpecLNCTest { name, inputs, outputs }), p2 + 1)
                    } else {
                        (Err(SpecParseErrorKind::ExpectedEndOfLine(toks[p2].kind)), p2)
                    }
                }
            }
        }
    }
}

// Bounds on where each statement form leaves the parser, needed for
// termination of the main recursion.

/// An address-taking statement always advances, and never past the end.
pub proof fn lemma_ins_with_addr_pos(toks: Seq<SpecToken>, i: int)
    requires
        0 <= i < toks.len(),
    ensures
        i < spec_ins_with_addr(toks, i).1 <= toks.len(),
{
}

/// A no-address statement always advances, and never past the end.
pub proof fn lemma_ins_without_addr_pos(toks: Seq<SpecToken>, i: int)
    requires
        0 <= i < toks.len(),
    ensures
        i < spec_ins_without_addr(toks, i).1 <= toks.len(),
{
}

/// A data statement always advances, and never past the end.
pub proof fn lemma_data_pos(toks: Seq<SpecToken>, i: int)
    requires
        0 <= i < toks.len(),
    ensures
        i < spec_data(toks, i).1 <= toks.len(),
{
}

/// A list's entries leave the parser between their start and the end.
pub proof fn lemma_list_items_pos(toks: Seq<SpecToken>, k: int, acc: Seq<usize>, prev: bool)
    requires
        0 <= k <= toks.len(),
    ensures
        k <= spec_list_items(toks, k, acc, prev).1 <= toks.len(),
    decreases toks.len() - k,
{
    if k < toks.len() {
        match toks[k].kind {
            SpecTokenKind::Number(n) => {
                if !prev && n < 1000 {
                    lemma_list_items_pos(toks, k + 1, acc.push(n), true);
                }
            }
            SpecTokenKind::Comma => {
                if prev {
                    lemma_list_items_pos(toks, k + 1, acc, false);
                }
            }
            _ => {}
        }
    }
}

/// A number list leaves the parser between its start and the end.
pub proof fn lemma_number_list_pos(toks: Seq<SpecToken>, i: int)
    requires
        0 <= i <= toks.len(),
    ensures
        i <= spec_number_list(toks, i).1 <= toks.len(),
{
    if i < toks.len() && toks[i].kind is OpenSquareBracket {
        lemma_list_items_pos(toks, i + 1, Seq::empty(), false);
    }
}

/// A test declaration always advances, and never past the end.
pub proof fn lemma_lnc_test_pos(toks: Seq<SpecToken>, i: int, name: Seq<char>)
    requires
        0 <= i < toks.len(),
    ensures
        i < spec_lnc_test(toks, i, name).1 <= toks.len(),
{
    lemma_number_list_pos(toks, i + 1);
    let (r1, p1) = spec_number_list(toks, i + 1);
    if r1 is Ok {
        lemma_number_list_pos(toks, p1);
    }
}

/// The whole token stream from position `i` on, threading the output
/// built so far and the errors collected so far.  A label definition
/// binds its name to the next instruction's address without occupying
/// one; emitting an instruction is the only thing that advances the
/// program address; a failed statement records one error and recovery
/// resumes at the next end of line.
pub open spec fn spec_parse_from(
    toks: Seq<SpecToken>,
    i: int,
    info: SpecParseInfo,
    errs: Seq<SpecParseError>,
) -> (SpecParseInfo, Seq<SpecParseError>)
    decreases toks.len() - i when 0 <= i <= toks.len() via spec_parse_from_dec
{
    if i >= toks.len() {
        (info, errs)
    } else {
        let t = toks[i];
        match t.kind {
            SpecTokenKind::LabelDef(name) => spec_parse_from(
                toks,
                i + 1,
                SpecParseInfo {
                    label_map: info.label_map.insert(
                        name,
                        info.instructions.len() as usize,
                    ),
                    ..info
                },
                errs,
            ),
            SpecTokenKind::NewLine => spec_parse_from(toks, i + 1, info, errs),
            SpecTokenKind::Eof => (info, errs),
            SpecTokenKind::Number(n) => spec_parse_from(
                toks,
                sync_index(toks, i + 1),
                info,
                errs.push(
                    SpecParseError { line: t.line, kind: SpecParseErrorKind::StatementNumber(n) },
                ),
            ),
            SpecTokenKind::Label(s) => spec_parse_from(
                toks,
                sync_index(toks, i + 1),
                info,
                errs.push(
                    SpecParseError { line: t.line, kind: SpecParseErrorKind::StatementLabel(s) },
                ),
            ),
            SpecTokenKind::OpenSquareBracket => spec_parse_from(
                toks,
                sync_index(toks, i + 1),
                info,
                errs.push(
                    SpecParseError {
                        line: t.line,
                        kind: SpecParseErrorKind::UnexpectedOpenBracket,
                    },
                ),
            ),
            SpecTokenKind::CloseSquareBracket => spec_parse_from(
                toks,
                sync_index(toks, i + 1),
                info,
                errs.push(
                    SpecParseError {
                        line: t.line,
                        kind: SpecParseErrorKind::UnexpectedCloseBracket,
                    },
                ),
            ),
            SpecTokenKind::Comma => spec_parse_from(
                toks,
                sync_index(toks, i + 1),
                info,
                errs.push(
                    SpecParseError { line: t.line, kind: SpecParseErrorKind::UnexpectedComma },
                ),
            ),
            SpecTokenKind::TestName(name) => {
                let (r, next) = spec_lnc_test(toks, i, name);
                match r {
                    Ok(test) => spec_parse_from(
                        toks,
                        next,
                        SpecParseInfo { tests: info.tests.push(test), ..info },
                        errs,
                    ),
                    Err(k) => spec_parse_from(
                        toks,
                        sync_index(toks, next),
                        info,
                        errs.push(SpecParseError { line: t.line, kind: k }),
                    ),
                }
            }
            SpecTokenKind::Input | SpecTokenKind::Output | SpecTokenKind::Halt => {
                let (r, next) = spec_ins_without_addr(toks, i);
                match r {
                    Ok(ins) => spec_parse_from(
                        toks,
                        next,
                        SpecParseInfo { instructions: info.instructions.push(ins), ..info },
                        errs,
                    ),
                    Err(k) => spec_parse_from(
                        toks,
                        sync_index(toks, next),
                        info,
                        errs.push(SpecParseError { line: t.line, kind: k }),
                    ),
                }
            }
            SpecTokenKind::Data => {
                let (r, next) = spec_data(toks, i);
                match r {
                    Ok(ins) => spec_parse_from(
                        toks,
                        next,
                        SpecParseInfo { instructions: info.instructions.push(ins), ..info },
                        errs,
                    ),
                    Err(k) => spec_parse_from(
                        toks,
                        sync_index(toks, next),
                        info,
                        errs.push(SpecParseError { line: t.line, kind: k }),
                    ),
                }
            }
            _ => {
                let (r, next) = spec_ins_with_addr(toks, i);
                match r {
                    Ok(ins) => spec_parse_from(
                        toks,
                        next,
                        SpecParseInfo { instructions: info.instructions.push(ins), ..info },
                        errs,
                    ),
                    Err(k) => spec_parse_from(
                        toks,
                        sync_index(toks, next),
                        info,
                        errs.push(SpecParseError { line: t.line, kind: k }),
                    ),
                }
            }
        }
    }
}

#[via_fn]
proof fn spec_parse_from_dec(
    toks: Seq<SpecToken>,
    i: int,
    info: SpecParseInfo,
    errs: Seq<SpecParseError>,
) {
    if 0 <= i < toks.len() {
        lemma_sync_index(toks, i + 1);
        match toks[i].kind {
            SpecTokenKind::TestName(name) => {
                lemma_lnc_test_pos(toks, i, name);
                lemma_sync_index_from(toks, spec_lnc_test(toks, i, name).1, i);
            }
            SpecTokenKind::Input | SpecTokenKind::Output | SpecTokenKind::Halt => {
                lemma_ins_without_addr_pos(toks, i);
                lemma_sync_index_from(toks, spec_ins_without_addr(toks, i).1, i);
            }
            SpecTokenKind::Data => {
                lemma_data_pos(toks, i);
                lemma_sync_index_from(toks, spec_data(toks, i).1, i);
            }
            SpecTokenKind::Load | SpecTokenKind::Store | SpecTokenKind::Add
                | SpecTokenKind::Subtract | SpecTokenKind::BranchZero
                | SpecTokenKind::BranchPositive | SpecTokenKind::BranchAlways => {
                lemma_ins_with_addr_pos(toks, i);
                lemma_sync_index_from(toks, spec_ins_with_addr(toks, i).1, i);
            }
            _ => {}
        }
    }
}

/// Recovery from past a position stays past it.
proof fn lemma_sync_index_from(toks: Seq<SpecToken>, p: int, i: int)
    requires
        0 <= i < p <= toks.len(),
    ensures
        i < sync_index(toks, p) <= toks.len(),
{
    lemma_sync_index(toks, p);
}

/// The whole token stream, from an empty output.
pub open spec fn spec_parse(toks: Seq<SpecToken>) -> (SpecParseInfo, Seq<SpecParseError>) {
    spec_parse_from(toks, 0, empty_parse_info(), Seq::empty())
}

// ---------------------------------------------------------------------
// Well-formedness of parse output: what the assembler may rely on.
// ---------------------------------------------------------------------

/// A numeric address operand is always below 100.
pub open spec fn address_wf(a: SpecAddress) -> bool {
    match a {
        SpecAddress::Numeric(n) => n < 100,
        SpecAddress::Symbolic(_) => true,
    }
}

/// Every address operand is in range and every data word below 1000.
pub open spec fn instruction_wf(ins: SpecInstruction) -> bool {
    match ins {
        SpecInstruction::Load(a) => address_wf(a),
        SpecInstruction::Store(a) => address_wf(a),
        SpecInstruction::Add(a) => address_wf(a),
        SpecInstruction::Subtract(a) => address_wf(a),
        SpecInstruction::BranchZero(a) => address_wf(a),
        SpecInstruction::BranchPositive(a) => address_wf(a),
        SpecInstruction::BranchAlways(a) => address_wf(a),
        SpecInstruction::Data(n) => n < 1000,
        _ => true,
    }
}

/// Every declared test value is below 1000.
pub open spec fn test_wf(t: SpecLNCTest) -> bool {
    &&& forall|j: int| 0 <= j < t.inputs.len() ==> t.inputs[j] < 1000
    &&& forall|j: int| 0 <= j < t.outputs.len() ==> t.outputs[j] < 1000
}

/// What the parser guarantees of its output: instructions and tests
/// in range, and no label bound past the end of the instruction list.
pub open spec fn parse_info_wf(info: SpecParseInfo) -> bool {
    &&& forall|j: int| 0 <= j < info.instructions.len() ==> instruction_wf(
        #[trigger] info.instructions[j],
    )
    &&& forall|name: Seq<char>| info.label_map.contains_key(name) ==> info.label_map[name]
        <= info.instructions.len()
    &&& forall|j: int| 0 <= j < info.tests.len() ==> test_wf(#[trigger] info.tests[j])
}

/// An address-taking statement only ever emits an in-range instruction.
proof fn lemma_ins_with_addr_wf(toks: Seq<SpecToken>, i: int)
    requires
        0 <= i < toks.len(),
    ensures
        spec_ins_with_addr(toks, i).0 matches Ok(ins) ==> instruction_wf(ins),
{
}

/// A list's entries are all below 1000.
proof fn lemma_list_items_wf(toks: Seq<SpecToken>, k: int, acc: Seq<usize>, prev: bool)
    requires
        0 <= k <= toks.len(),
        forall|j: int| 0 <= j < acc.len() ==> acc[j] < 1000,
    ensures
        spec_list_items(toks, k, acc, prev).0 matches Ok(v) ==> forall|j: int|
            0 <= j < v.len() ==> v[j] < 1000,
    decreases toks.len() - k,
{
    if k < toks.len() {
        match toks[k].kind {
            SpecTokenKind::Number(n) => {
                if !prev && n < 1000 {
                    lemma_list_items_wf(toks, k + 1, acc.push(n), true);
                }
            }
            SpecTokenKind::Comma => {
                if prev {
                    lemma_list_items_wf(toks, k + 1, acc, false);
                }
            }
            _ => {}
        }
    }
}

/// A test declaration only ever emits in-range values.
proof fn lemma_lnc_test_wf(toks: Seq<SpecToken>, i: int, name: Seq<char>)
    requires
        0 <= i < toks.len(),
    ensures
        spec_lnc_test(toks, i, name).0 matches Ok(t) ==> test_wf(t),
{
    let (r1, p1) = spec_number_list(toks, i + 1);
    if i + 1 < toks.len() && toks[i + 1].kind is OpenSquareBracket {
        lemma_list_items_wf(toks, i + 2, Seq::empty(), false);
    }
    if r1 is Ok {
        lemma_number_list_pos(toks, i + 1);
        if p1 < toks.len() && toks[p1].kind is OpenSquareBracket {
            lemma_list_items_wf(toks, p1 + 1, Seq::empty(), false);
        }
    }
}

// ---------------------------------------------------------------------
// The executable parser, mirroring the grammar above.
// ---------------------------------------------------------------------

/// Whether a token ends a statement.
fn line_end_token(k: &TokenKind) -> (b: bool)
    ensures
        b == is_line_end(k@),
{
    match k {
        TokenKind::NewLine => true,
        TokenKind::Eof => true,
        _ => false,
    }
}

/// An owned copy of a token kind, equal in the model.
fn clone_kind(k: &TokenKind) -> (r: TokenKind)
    ensures
        r@ == k@,
{
    match k {
        TokenKind::Number(n) => TokenKind::Number(*n),
        TokenKind::Label(s) => TokenKind::Label(s.clone()),
        TokenKind::LabelDef(s) => TokenKind::LabelDef(s.clone()),
        TokenKind::Load => TokenKind::Load,
        TokenKind::Store => TokenKind::Store,
        TokenKind::Add => TokenKind::Add,
        TokenKind::Subtract => TokenKind::Subtract,
        TokenKind::Input => TokenKind::Input,
        TokenKind::Output => TokenKind::Output,
        TokenKind::Halt => TokenKind::Halt,
        TokenKind::BranchZero => TokenKind::BranchZero,
        TokenKind::BranchPositive => TokenKind::BranchPositive,
        TokenKind::BranchAlways => TokenKind::BranchAlways,
        TokenKind::Data => TokenKind::Data,
        TokenKind::NewLine => TokenKind::NewLine,
        TokenKind::Eof => TokenKind::Eof,
        TokenKind::TestName(s) => TokenKind::TestName(s.clone()),
        TokenKind::OpenSquareBracket => TokenKind::OpenSquareBracket,
        TokenKind::CloseSquareBracket => TokenKind::CloseSquareBracket,
        TokenKind::Comma => TokenKind::Comma,
    }
}

/// The instruction for an address-taking mnemonic.
fn make_addr_instruction(k: &TokenKind, addr: Address) -> (r: Instruction)
    ensures
        r@ == addr_instruction(k@, addr@),
{
    match k {
        TokenKind::Load => Instruction::Load(addr),
        TokenKind::Store => Instruction::Store(addr),
        TokenKind::Add => Instruction::Add(addr),
        TokenKind::Subtract => Instruction::Subtract(addr),
        TokenKind::BranchZero => Instruction::BranchZero(addr),
        TokenKind::BranchPositive => Instruction::BranchPositive(addr),
        _ => Instruction::BranchAlways(addr),
    }
}

/// The instruction for a no-address mnemonic.
fn make_bare_instruction(k: &TokenKind) -> (r: Instruction)
    ensures
        r@ == bare_instruction(k@),
{
    match k {
        TokenKind::Input => Instruction::Input,
        TokenKind::Output => Instruction::Output,
        _ => Instruction::Halt,
    }
}

/// The end-of-line check closing an address-taking statement.
fn ins_addr_end(toks: &[Token], i: usize, addr: Address) -> (r: (Result<
    Instruction,
    ParseErrorKind,
>, usize))
    requires
        i < toks@.len(),
    ensures
        r.1 as int == spec_ins_addr_end(tokens_view(toks@), i as int, addr@).1,
        match r.0 {
            Ok(ins) => spec_ins_addr_end(tokens_view(toks@), i as int, addr@).0
                == Ok::<_, SpecParseErrorKind>(ins@),
            Err(k) => spec_ins_addr_end(tokens_view(toks@), i as int, addr@).0
                == Err::<SpecInstruction, _>(k@),
        },
{
    let n = toks.len();
    if n - i <= 2 {
        (Err(ParseErrorKind::MissingEndOfLine), n)
    } else if line_end_token(&toks[i + 2].kind) {
        (Ok(make_addr_instruction(&toks[i].kind, addr)), i + 3)
    } else {
        (Err(ParseErrorKind::ExpectedEndOfLine(clone_kind(&toks[i + 2].kind))), i + 2)
    }
}

/// An address-taking statement.
fn ins_with_addr(toks: &[Token], i: usize) -> (r: (Result<Instruction, ParseErrorKind>, usize))
    requires
        i < toks@.len(),
    ensures
        r.1 as int == spec_ins_with_addr(tokens_view(toks@), i as int).1,
        match r.0 {
            Ok(ins) => spec_ins_with_addr(tokens_view(toks@), i as int).0
                == Ok::<_, SpecParseErrorKind>(ins@),
            Err(k) => spec_ins_with_addr(tokens_view(toks@), i as int).0
                == Err::<SpecInstruction, _>(k@),
        },
{
    let n = toks.len();
    if i + 1 >= n {
        return (Err(ParseErrorKind::MissingAddress), n);
    }
    match &toks[i + 1].kind {
        TokenKind::Number(m) => {
            if *m >= 100 {
                (Err(ParseErrorKind::AddressTooLarge(*m)), i + 2)
            } else {
                ins_addr_end(toks, i, Address::Numeric(*m))
            }
        }
        TokenKind::Label(s) => ins_addr_end(toks, i, Address::Symbolic(s.clone())),
        _ => (Err(ParseErrorKind::InvalidAddressToken(clone_kind(&toks[i + 1].kind))), i + 2),
    }
}

/// A no-address statement.
fn ins_without_addr(toks: &[Token], i: usize) -> (r: (Result<Instruction, ParseErrorKind>, usize))
    requires
        i < toks@.len(),
    ensures
        r.1 as int == spec_ins_without_addr(tokens_view(toks@), i as int).1,
        match r.0 {
            Ok(ins) => spec_ins_without_addr(tokens_view(toks@), i as int).0
                == Ok::<_, SpecParseErrorKind>(ins@),
            Err(k) => spec_ins_without_addr(tokens_view(toks@), i as int).0
                == Err::<SpecInstruction, _>(k@),
        },
{
    let n = toks.len();
    if i + 1 >= n {
        (Err(ParseErrorKind::MissingEndOfLine), n)
    } else if line_end_token(&toks[i + 1].kind) {
        (Ok(make_bare_instruction(&toks[i].kind)), i + 2)
    } else {
        (Err(ParseErrorKind::ExpectedEndOfLine(clone_kind(&toks[i + 1].kind))), i + 1)
    }
}

/// A data statement.
fn data_stmt(toks: &[Token], i: usize) -> (r: (Result<Instruction, ParseErrorKind>, usize))
    requires
        i < toks@.len(),
    ensures
        r.1 as int == spec_data(tokens_view(toks@), i as int).1,
        match r.0 {
            Ok(ins) => spec_data(tokens_view(toks@), i as int).0 == Ok::<_, SpecParseErrorKind>(
                ins@,
            ),
            Err(k) => spec_data(tokens_view(toks@), i as int).0 == Err::<SpecInstruction, _>(k@),
        },
{
    let n = toks.len();
    if i + 1 >= n {
        return (Err(ParseErrorKind::MissingData), n);
    }
    match &toks[i + 1].kind {
        TokenKind::Number(m) => {
            if *m >= 1000 {
                (Err(ParseErrorKind::DataTooLarge(*m)), i + 2)
            } else {
                (Ok(Instruction::Data(*m)), i + 2)
            }
        }
        _ => (Err(ParseErrorKind::InvalidDataToken(clone_kind(&toks[i + 1].kind))), i + 2),
    }
}

/// The entries of a number list.
fn list_items(toks: &[Token], k: usize, acc: Vec<usize>, prev_was_num: bool) -> (r: (Result<
    Vec<usize>,
    ParseErrorKind,
>, usize))
    requires
        k <= toks@.len(),
    ensures
        r.1 as int == spec_list_items(tokens_view(toks@), k as int, acc@, prev_was_num).1,
        match r.0 {
            Ok(v) => spec_list_items(tokens_view(toks@), k as int, acc@, prev_was_num).0
                == Ok::<_, SpecParseErrorKind>(v@),
            Err(e) => spec_list_items(tokens_view(toks@), k as int, acc@, prev_was_num).0
                == Err::<Seq<usize>, _>(e@),
        },
    decreases toks@.len() - k,
{
    let n = toks.len();
    if k >= n {
        return (
            (Err(ParseErrorKind::MissingToken { expected: TokenKind::CloseSquareBracket }), k)
        );
    }
    match &toks[k].kind {
        TokenKind::Number(m) => {
            if prev_was_num {
                (Err(ParseErrorKind::ListNumberAfterNumber(*m)), k)
            } else if *m >= 1000 {
                (Err(ParseErrorKind::ListNumberTooLarge(*m)), k)
            } else {
                let mut acc2 = acc;
                acc2.push(*m);
                list_items(toks, k + 1, acc2, true)
            }
        }
        TokenKind::Comma => {
            if !prev_was_num {
                (Err(ParseErrorKind::UnexpectedCommaInList), k)
            } else {
                list_items(toks, k + 1, acc, false)
            }
        }
        TokenKind::CloseSquareBracket => (Ok(acc), k + 1),
        _ => (Err(ParseErrorKind::InvalidListToken(clone_kind(&toks[k].kind))), k),
    }
}

/// A whole number list: an entry point of the test grammar, also
/// usable on its own.
pub fn number_list(toks: &[Token], i: usize) -> (r: (Result<Vec<usize>, ParseErrorKind>, usize))
    requires
        i <= toks@.len(),
    ensures
        r.1 as int == spec_number_list(tokens_view(toks@), i as int).1,
        match r.0 {
            Ok(v) => spec_number_list(tokens_view(toks@), i as int).0
                == Ok::<_, SpecParseErrorKind>(v@),
            Err(e) => spec_number_list(tokens_view(toks@), i as int).0 == Err::<Seq<usize>, _>(
                e@,
            ),
        },
{
    let n = toks.len();
    if i >= n {
        return ((Err(ParseErrorKind::MissingToken { expected: TokenKind::OpenSquareBracket }), i));
    }
    let is_open = match &toks[i].kind {
        TokenKind::OpenSquareBracket => true,
        _ => false,
    };
    if !is_open {
        return (
            (
                Err(
                    ParseErrorKind::ExpectedToken {
                        expected: TokenKind::OpenSquareBracket,
                        found: clone_kind(&toks[i].kind),
                    },
                ),
                i,
            )
        );
    }
    let acc: Vec<usize> = Vec::new();
    proof {
        assert(acc@ =~= Seq::<usize>::empty());
    }
    list_items(toks, i + 1, acc, false)
}

/// A test declaration.
fn lnc_test_stmt(toks: &[Token], i: usize, name: String) -> (r: (Result<LNCTest, ParseErrorKind>,
usize))
    requires
        i < toks@.len(),
    ensures
        r.1 as int == spec_lnc_test(tokens_view(toks@), i as int, name@).1,
        match r.0 {
            Ok(t) => spec_lnc_test(tokens_view(toks@), i as int, name@).0
                == Ok::<_, SpecParseErrorKind>(t@),
            Err(e) => spec_lnc_test(tokens_view(toks@), i as int, name@).0
                == Err::<SpecLNCTest, _>(e@),
        },
{
    let n = toks.len();
    let (r1, p1) = number_list(toks, i + 1);
    let inputs = match r1 {
        Ok(v) => v,
        Err(k) => {
            return (Err(k), p1);
        }
    };
    proof {
        lemma_number_list_pos(tokens_view(toks@), i as int + 1);
    }
    let (r2, p2) = number_list(toks, p1);
    let outputs = match r2 {
        Ok(v) => v,
        Err(k) => {
            return (Err(k), p2);
        }
    };
    proof {
        lemma_number_list_pos(tokens_view(toks@), p1 as int);
    }
    if p2 >= n {
        (Err(ParseErrorKind::MissingEndOfLine), n)
    } else if line_end_token(&toks[p2].kind) {
        (Ok(LNCTest { name, inputs, outputs }), p2 + 1)
    } else {
        (Err(ParseErrorKind::ExpectedEndOfLine(clone_kind(&toks[p2].kind))), p2)
    }
}

/// The next recovery point at or after `i`.
fn sync(toks: &[Token], i: usize) -> (j: usize)
    requires
        i <= toks@.len(),
    ensures
        j as int == sync_index(tokens_view(toks@), i as int),
        i <= j <= toks@.len(),
    decreases toks@.len() - i,
{
    if i < toks.len() && !line_end_token(&toks[i].kind) {
        sync(toks, i + 1)
    } else {
        i
    }
}

/// Parse from position `i` on, mirroring [`spec_parse_from`].
#[verifier::rlimit(60)]
fn parse_from(toks: &[Token], i: usize, info: ParseInfo, errs: Vec<ParseError>) -> (r: (ParseInfo,
Vec<ParseError>))
    requires
        i <= toks@.len(),
    ensures
        r.0@ == spec_parse_from(tokens_view(toks@), i as int, info@, parse_errors_view(errs@)).0,
        parse_errors_view(r.1@) == spec_parse_from(
            tokens_view(toks@),
            i as int,
            info@,
            parse_errors_view(errs@),
        ).1,
    decreases toks@.len() - i,
{
    let n = toks.len();
    if i >= n {
        return (info, errs);
    }
    let line = toks[i].line;
    let mut info = info;
    let mut errs = errs;
    match &toks[i].kind {
        TokenKind::LabelDef(name) => {
            let ghost pre = info@;
            let addr = info.instructions.len();
            info.label_map.insert(name.clone(), addr);
            proof {
                assert(info@ =~= (SpecParseInfo {
                    label_map: pre.label_map.insert(name@, addr),
                    ..pre
                }));
            }
            parse_from(toks, i + 1, info, errs)
        }
        TokenKind::NewLine => parse_from(toks, i + 1, info, errs),
        TokenKind::Eof => (info, errs),
        TokenKind::Number(m) => {
            let ghost pre = errs@;
            errs.push(ParseError { line, kind: ParseErrorKind::StatementNumber(*m) });
            proof {
                assert(parse_errors_view(errs@) =~= parse_errors_view(pre).push(
                    SpecParseError { line, kind: SpecParseErrorKind::StatementNumber(*m) },
                ));
            }
            let j = sync(toks, i + 1);
            parse_from(toks, j, info, errs)
        }
        TokenKind::Label(s) => {
            let ghost pre = errs@;
            errs.push(ParseError { line, kind: ParseErrorKind::StatementLabel(s.clone()) });
            proof {
                assert(parse_errors_view(errs@) =~= parse_errors_view(pre).push(
                    SpecParseError { line, kind: SpecParseErrorKind::StatementLabel(s@) },
                ));
            }
            let j = sync(toks, i + 1);
            parse_from(toks, j, info, errs)
        }
        TokenKind::OpenSquareBracket => {
            let ghost pre = errs@;
            errs.push(ParseError { line, kind: ParseErrorKind::UnexpectedOpenBracket });
            proof {
                assert(parse_errors_view(errs@) =~= parse_errors_view(pre).push(
                    SpecParseError { line, kind: SpecParseErrorKind::UnexpectedOpenBracket },
                ));
            }
            let j = sync(toks, i + 1);
            parse_from(toks, j, info, errs)
        }
        TokenKind::CloseSquareBracket => {
            let ghost pre = errs@;
            errs.push(ParseError { line, kind: ParseErrorKind::UnexpectedCloseBracket });
            proof {
                assert(parse_errors_view(errs@) =~= parse_errors_view(pre).push(
                    SpecParseError { line, kind: SpecParseErrorKind::UnexpectedCloseBracket },
                ));
            }
            let j = sync(toks, i + 1);
            parse_from(toks, j, info, errs)
        }
        TokenKind::Comma => {
            let ghost pre = errs@;
            errs.push(ParseError { line, kind: ParseErrorKind::UnexpectedComma });
            proof {
                assert(parse_errors_view(errs@) =~= parse_errors_view(pre).push(
                    SpecParseError { line, kind: SpecParseErrorKind::UnexpectedComma },
                ));
            }
            let j = sync(toks, i + 1);
            parse_from(toks, j, info, errs)
        }
        TokenKind::TestName(s) => {
            proof {
                lemma_lnc_test_pos(tokens_view(toks@), i as int, s@);
            }
            let (r, next) = lnc_test_stmt(toks, i, s.clone());
            match r {
                Ok(test) => {
                    let ghost pre = info@;
                    let ghost test_model = test@;
                    info.tests.push(test);
                    proof {
                        assert(info@ =~= (SpecParseInfo {
                            tests: pre.tests.push(test_model),
                            ..pre
                        }));
                    }
                    parse_from(toks, next, info, errs)
                }
                Err(k) => {
                    let ghost pre = errs@;
                    let ghost k_model = k@;
                    errs.push(ParseError { line, kind: k });
                    proof {
                        assert(parse_errors_view(errs@) =~= parse_errors_view(pre).push(
                            SpecParseError { line, kind: k_model },
                        ));
                    }
                    let j = sync(toks, next);
                    parse_from(toks, j, info, errs)
                }
            }
        }
        TokenKind::Input | TokenKind::Output | TokenKind::Halt => {
            proof {
                lemma_ins_without_addr_pos(tokens_view(toks@), i as int);
            }
            let (r, next) = ins_without_addr(toks, i);
            match r {
                Ok(ins) => {
                    let ghost pre = info@;
                    let ghost ins_model = ins@;
                    info.instructions.push(ins);
                    proof {
                        assert(info@ =~= (SpecParseInfo {
                            instructions: pre.instructions.push(ins_model),
                            ..pre
                        }));
                    }
                    parse_from(toks, next, info, errs)
                }
                Err(k) => {
                    let ghost pre = errs@;
                    let ghost k_model = k@;
                    errs.push(ParseError { line, kind: k });
                    proof {
                        assert(parse_errors_view(errs@) =~= parse_errors_view(pre).push(
                            SpecParseError { line, kind: k_model },
                        ));
                    }
                    let j = sync(toks, next);
                    parse_from(toks, j, info, errs)
                }
            }
        }
        TokenKind::Data => {
            proof {
                lemma_data_pos(tokens_view(toks@), i as int);
            }
            let (r, next) = data_stmt(toks, i);
            match r {
                Ok(ins) => {
                    let ghost pre = info@;
                    let ghost ins_model = ins@;
                    info.instructions.push(ins);
                    proof {
                        assert(info@ =~= (SpecParseInfo {
                            instructions: pre.instructions.push(ins_model),
                            ..pre
                        }));
                    }
                    parse_from(toks, next, info, errs)
                }
                Err(k) => {
                    let ghost pre = errs@;
                    let ghost k_model = k@;
                    errs.push(ParseError { line, kind: k });
                    proof {
                        assert(parse_errors_view(errs@) =~= parse_errors_view(pre).push(
                            SpecParseError { line, kind: k_model },
                        ));
                    }
                    let j = sync(toks, next);
                    parse_from(toks, j, info, errs)
                }
            }
        }
        _ => {
            proof {
                lemma_ins_with_addr_pos(tokens_view(toks@), i as int);
            }
            let (r, next) = ins_with_addr(toks, i);
            match r {
                Ok(ins) => {
                    let ghost pre = info@;
                    let ghost ins_model = ins@;
                    info.instructions.push(ins);
                    proof {
                        assert(info@ =~= (SpecParseInfo {
                            instructions: pre.instructions.push(ins_model),
                            ..pre
                        }));
                    }
                    parse_from(toks, next, info, errs)
                }
                Err(k) => {
                    let ghost pre = errs@;
                    let ghost k_model = k@;
                    errs.push(ParseError { line, kind: k });
                    proof {
                        assert(parse_errors_view(errs@) =~= parse_errors_view(pre).push(
                            SpecParseError { line, kind: k_model },
                        ));
                    }
                    let j = sync(toks, next);
                    parse_from(toks, j, info, errs)
                }
            }
        }
    }
}

/// Parse the whole token stream into instructions, label map and test
/// declarations.  If any statement failed, the output built so far is
/// returned together with one error per failed statement, in source
/// order.  The output is well-formed either way.
pub fn parse(tokens: &[Token]) -> (r: Result<ParseInfo, (ParseInfo, Vec<ParseError>)>)
    ensures
        match r {
            Ok(info) => info@ == spec_parse(tokens_view(tokens@)).0 && spec_parse(
                tokens_view(tokens@),
            ).1.len() == 0 && parse_info_wf(info@),
            Err(p) => p.0@ == spec_parse(tokens_view(tokens@)).0 && parse_errors_view(p.1@)
                == spec_parse(tokens_view(tokens@)).1 && p.1@.len() > 0 && parse_info_wf(p.0@),
        },
{
    let info0 = ParseInfo::new();
    let errs0: Vec<ParseError> = Vec::new();
    proof {
        assert(parse_errors_view(errs0@) =~= Seq::<SpecParseError>::empty());
        lemma_parse_from_wf(tokens_view(tokens@), 0, empty_parse_info(), Seq::empty());
    }
    let (info, errs) = parse_from(tokens, 0, info0, errs0);
    if errs.len() == 0 {
        proof {
            assert(parse_errors_view(errs@).len() == 0);
        }
        Ok(info)
    } else {
        Err((info, errs))
    }
}

/// Parsing preserves well-formedness and only ever appends
/// instructions.
pub proof fn lemma_parse_from_wf(
    toks: Seq<SpecToken>,
    i: int,
    info: SpecParseInfo,
    errs: Seq<SpecParseError>,
)
    requires
        0 <= i <= toks.len(),
        parse_info_wf(info),
    ensures
        parse_info_wf(spec_parse_from(toks, i, info, errs).0),
        spec_parse_from(toks, i, info, errs).0.instructions.len() >= info.instructions.len(),
    decreases toks.len() - i,
{
    if i < toks.len() {
        let t = toks[i];
        lemma_sync_index(toks, i + 1);
        match t.kind {
            SpecTokenKind::LabelDef(name) => {
                let info2 = SpecParseInfo {
                    label_map: info.label_map.insert(name, info.instructions.len() as usize),
                    ..info
                };
                lemma_parse_from_wf(toks, i + 1, info2, errs);
            }
            SpecTokenKind::NewLine => {
                lemma_parse_from_wf(toks, i + 1, info, errs);
            }
            SpecTokenKind::Eof => {}
            SpecTokenKind::Number(n) => {
                lemma_parse_from_wf(
                    toks,
                    sync_index(toks, i + 1),
                    info,
                    errs.push(
                        SpecParseError {
                            line: t.line,
                            kind: SpecParseErrorKind::StatementNumber(n),
                        },
                    ),
                );
            }
            SpecTokenKind::Label(s) => {
                lemma_parse_from_wf(
                    toks,
                    sync_index(toks, i + 1),
                    info,
                    errs.push(
                        SpecParseError {
                            line: t.line,
                            kind: SpecParseErrorKind::StatementLabel(s),
                        },
                    ),
                );
            }
            SpecTokenKind::OpenSquareBracket => {
                lemma_parse_from_wf(
                    toks,
                    sync_index(toks, i + 1),
                    info,
                    errs.push(
                        SpecParseError {
                            line: t.line,
                            kind: SpecParseErrorKind::UnexpectedOpenBracket,
                        },
                    ),
                );
            }
            SpecTokenKind::CloseSquareBracket => {
                lemma_parse_from_wf(
                    toks,
                    sync_index(toks, i + 1),
                    info,
                    errs.push(
                        SpecParseError {
                            line: t.line,
                            kind: SpecParseErrorKind::UnexpectedCloseBracket,
                        },
                    ),
                );
            }
            SpecTokenKind::Comma => {
                lemma_parse_from_wf(
                    toks,
                    sync_index(toks, i + 1),
                    info,
                    errs.push(
                        SpecParseError { line: t.line, kind: SpecParseErrorKind::UnexpectedComma },
                    ),
                );
            }
            SpecTokenKind::TestName(name) => {
                let (r, next) = spec_lnc_test(toks, i, name);
                lemma_lnc_test_pos(toks, i, name);
                lemma_lnc_test_wf(toks, i, name);
                match r {
                    Ok(test) => {
                        let info2 = SpecParseInfo { tests: info.tests.push(test), ..info };
                        lemma_parse_from_wf(toks, next, info2, errs);
                    }
                    Err(k) => {
                        lemma_sync_index(toks, next);
                        lemma_parse_from_wf(
                            toks,
                            sync_index(toks, next),
                            info,
                            errs.push(SpecParseError { line: t.line, kind: k }),
                        );
                    }
                }
            }
            SpecTokenKind::Input | SpecTokenKind::Output | SpecTokenKind::Halt => {
                let (r, next) = spec_ins_without_addr(toks, i);
                lemma_ins_without_addr_pos(toks, i);
                match r {
                    Ok(ins) => {
                        let info2 = SpecParseInfo {
                            instructions: info.instructions.push(ins),
                            ..info
                        };
                        lemma_parse_from_wf(toks, next, info2, errs);
                    }
                    Err(k) => {
                        lemma_sync_index(toks, next);
                        lemma_parse_from_wf(
                            toks,
                            sync_index(toks, next),
                            info,
                            errs.push(SpecParseError { line: t.line, kind: k }),
                        );
                    }
                }
            }
            SpecTokenKind::Data => {
                let (r, next) = spec_data(toks, i);
                lemma_data_pos(toks, i);
                match r {
                    Ok(ins) => {
                        let info2 = SpecParseInfo {
                            instructions: info.instructions.push(ins),
                            ..info
                        };
                        lemma_parse_from_wf(toks, next, info2, errs);
                    }
                    Err(k) => {
                        lemma_sync_index(toks, next);
                        lemma_parse_from_wf(
                            toks,
                            sync_index(toks, next),
                            info,
                            errs.push(SpecParseError { line: t.line, kind: k }),
                        );
                    }
                }
            }
            _ => {
                let (r, next) = spec_ins_with_addr(toks, i);
                lemma_ins_with_addr_pos(toks, i);
                lemma_ins_with_addr_wf(toks, i);
                match r {
                    Ok(ins) => {
                        let info2 = SpecParseInfo {
                            instructions: info.instructions.push(ins),
                            ..info
                        };
                        lemma_parse_from_wf(toks, next, info2, errs);
                    }
                    Err(k) => {
                        lemma_sync_index(toks, next);
                        lemma_parse_from_wf(
                            toks,
                            sync_index(toks, next),
                            info,
                            errs.push(SpecParseError { line: t.line, kind: k }),
                        );
                    }
                }
            }
        }
    }
}

} // verus!
