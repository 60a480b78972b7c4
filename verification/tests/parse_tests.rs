use lnc::lex::tokenize;
use lnc::parse::Address::{Numeric, Symbolic};
use lnc::parse::{
    number_list, parse, Instruction, LNCTest, ParseError, ParseErrorKind, ParseInfo,
};

fn single(source: &str) -> Instruction {
    parse_src(source).unwrap().instructions.remove(0)
}

fn parse_src(source: &str) -> Result<ParseInfo, (ParseInfo, Vec<ParseError>)> {
    let tokens = tokenize(source).unwrap();
    parse(&tokens)
}

fn get_nlist(source: &str) -> Result<Vec<usize>, ParseErrorKind> {
    let tokens = tokenize(source).unwrap();
    number_list(&tokens, 0).0
}

fn make_test(name: &str, inputs: Vec<usize>, outputs: Vec<usize>) -> LNCTest {
    LNCTest {
        name: name.into(),
        inputs,
        outputs,
    }
}

fn get_test(source: &str) -> LNCTest {
    parse_src(source).unwrap().tests.remove(0)
}

#[test]
fn parse_with_addr() {
    assert_eq!(single("lda 01"), Instruction::Load(Numeric(1)));
    assert_eq!(single("sto 02"), Instruction::Store(Numeric(2)));
    assert_eq!(single("add 03"), Instruction::Add(Numeric(3)));
    assert_eq!(single("sub 04"), Instruction::Subtract(Numeric(4)));
    assert_eq!(single("brz 05"), Instruction::BranchZero(Numeric(5)));
    assert_eq!(single("brp 06"), Instruction::BranchPositive(Numeric(6)));
    assert_eq!(single("bra 07"), Instruction::BranchAlways(Numeric(7)));
}

#[test]
fn parse_with_symbolic_addr() {
    assert_eq!(
        single("lda this"),
        Instruction::Load(Symbolic("this".into()))
    );
    assert_eq!(single("sto is"), Instruction::Store(Symbolic("is".into())));
    assert_eq!(single("add a"), Instruction::Add(Symbolic("a".into())));
    assert_eq!(
        single("sub test"),
        Instruction::Subtract(Symbolic("test".into()))
    );
    assert_eq!(
        single("brz with"),
        Instruction::BranchZero(Symbolic("with".into()))
    );
    assert_eq!(
        single("brp symbolic"),
        Instruction::BranchPositive(Symbolic("symbolic".into()))
    );
    assert_eq!(
        single("bra addresses"),
        Instruction::BranchAlways(Symbolic("addresses".into()))
    );
}

#[test]
fn parse_without_addr() {
    assert_eq!(single("inp"), Instruction::Input);
    assert_eq!(single("out"), Instruction::Output);
    assert_eq!(single("hlt"), Instruction::Halt);
}

#[test]
fn parse_data() {
    assert_eq!(single("dat 123"), Instruction::Data(123));
}

#[test]
fn parse_handles_newlines() {
    let source = "
            lda 10 ; this is
            add 11 ; a comment

            sto 10
            hlt";
    let info = parse_src(source).unwrap();
    let expected = vec![
        Instruction::Load(Numeric(10)),
        Instruction::Add(Numeric(11)),
        Instruction::Store(Numeric(10)),
        Instruction::Halt,
    ];

    assert_eq!(info.instructions, expected);
}

#[test]
fn fails_on_bad_ops() {
    // kw as addr
    assert!(parse_src("lda add").is_err());

    // labeldef as addr
    assert!(parse_src("lda test:").is_err());

    // op when not expected
    assert!(parse_src("in 12").is_err());

    // op too large
    assert!(parse_src("dat 1234").is_err());
    assert!(parse_src("add 123").is_err());

    // too few ops
    assert!(parse_src("lda").is_err());

    // too many ops
    assert!(parse_src("lda 0 1").is_err());
    assert!(parse_src("lda 0 1 2").is_err());
    assert!(parse_src("lda 0 a_label").is_err());
    assert!(parse_src("lda a_label 0").is_err());
    assert!(parse_src("in 0").is_err());
    assert!(parse_src("in a_label").is_err());
    assert!(parse_src("dat 123 a_label").is_err());
    assert!(parse_src("dat a_label 123").is_err());
    assert!(parse_src("dat 123 456").is_err());
}

#[test]
fn maps_label_addr() {
    let src = "
        test:
        another_test:

        this_should_be_0:
        add 1
        add 3
        sub 2

        a_label:
        inp
        b_label:";

    let info = parse_src(src).unwrap();

    assert_eq!(info.label_map.get("test"), Some(0));
    assert_eq!(info.label_map.get("another_test"), Some(0));
    assert_eq!(info.label_map.get("this_should_be_0"), Some(0));
    assert_eq!(info.label_map.get("a_label"), Some(3));
    assert_eq!(info.label_map.get("b_label"), Some(4));
    assert_eq!(info.label_map.get("undefined"), None);
    assert_eq!(info.label_map.entries().len(), 5);
}

#[test]
fn parse_number_list() {
    assert_eq!(get_nlist("[]").unwrap(), vec![]);
    assert_eq!(get_nlist("[1]").unwrap(), vec![1]);
    assert_eq!(get_nlist("[1,]").unwrap(), vec![1]);
    assert_eq!(get_nlist("[1, 2, 3]").unwrap(), vec![1, 2, 3]);
    assert_eq!(get_nlist("[1,    2, 3]").unwrap(), vec![1, 2, 3]);
    assert_eq!(get_nlist("[1,    2, 3        ]").unwrap(), vec![1, 2, 3]);
    assert_eq!(get_nlist("[1,2,3]").unwrap(), vec![1, 2, 3]);
    assert_eq!(get_nlist("[1, 2, 3, ]").unwrap(), vec![1, 2, 3]);

    assert!(get_nlist("[,]").is_err());
    assert!(get_nlist("[add]").is_err());
    assert!(get_nlist("[label:]").is_err());
    assert!(get_nlist("[label:, 1]").is_err());
    assert!(get_nlist("[1, label:]").is_err());
    assert!(get_nlist("[1234]").is_err());
    assert!(get_nlist("[1, 2, 1234]").is_err());
}

#[test]
fn parse_test() {
    assert_eq!(
        get_test(".test_name [1, 2, 3] [1, 2, 3, 4]"),
        make_test("test_name", vec![1, 2, 3], vec![1, 2, 3, 4]),
    );
    assert_eq!(
        get_test(".test_name [] []"),
        make_test("test_name", vec![], vec![]),
    );
    assert_eq!(
        get_test(".test123 [1, 2, 3] [1, 2, 3]"),
        make_test("test123", vec![1, 2, 3], vec![1, 2, 3]),
    );
    assert_eq!(
        get_test("._test123 [1, 2, 3] [1, 2, 3]"),
        make_test("_test123", vec![1, 2, 3], vec![1, 2, 3]),
    );

    assert!(parse_src(".test_name").is_err());
    assert!(parse_src(".test_name [1, 2, 3]").is_err());
    assert!(parse_src(".test_name [1, 2, 3] [1, 2, 3] [1, 2, 3]").is_err());
}

#[test]
fn data_needs_no_terminator() {
    // A data statement checks no end of line after its literal, so two
    // on one line both emit; a trailing number is then a
    // statement-start error instead.
    let info = parse_src("dat 1 dat 2").unwrap();
    assert_eq!(
        info.instructions,
        vec![Instruction::Data(1), Instruction::Data(2)]
    );
}

#[test]
fn parse_error_kinds_and_messages() {
    let errs = parse_src("add 123").unwrap_err().1;
    assert_eq!(errs.len(), 1);
    assert_eq!(errs[0].kind, ParseErrorKind::AddressTooLarge(123));
    assert_eq!(
        errs[0].message(),
        "error @ line 0: invalid address 123: too large"
    );

    let errs = parse_src("dat 1234").unwrap_err().1;
    assert_eq!(errs[0].kind, ParseErrorKind::DataTooLarge(1234));

    let errs = parse_src("99 99").unwrap_err().1;
    assert_eq!(errs[0].kind, ParseErrorKind::StatementNumber(99));
    assert_eq!(
        errs[0].message(),
        "error @ line 0: found number (99) instead of instruction/label def"
    );

    let errs = parse_src("lda").unwrap_err().1;
    assert_eq!(
        errs[0].kind,
        ParseErrorKind::InvalidAddressToken(lnc::lex::TokenKind::NewLine)
    );

    let errs = parse_src("lda 0 1").unwrap_err().1;
    assert!(matches!(errs[0].kind, ParseErrorKind::ExpectedEndOfLine(_)));

    // One error per failed statement, each tagged with its own line,
    // while good statements still parse.
    let (info, errs) = parse_src("add 123\nhlt\n99 99").unwrap_err();
    assert_eq!(errs.len(), 2);
    assert_eq!(errs[0].line, 0);
    assert_eq!(errs[1].line, 2);
    assert_eq!(info.instructions, vec![Instruction::Halt]);
}
