use lnc::lex::{tokenize, LexError, LexErrorKind, TokenKind};

fn single(source: &str) -> TokenKind {
    tokenize(source).unwrap().remove(0).kind
}

#[test]
fn tokenize_kw() {
    assert_eq!(single("lda"), TokenKind::Load);
    assert_eq!(single("sto"), TokenKind::Store);
    assert_eq!(single("add"), TokenKind::Add);
    assert_eq!(single("sub"), TokenKind::Subtract);
    assert_eq!(single("inp"), TokenKind::Input);
    assert_eq!(single("out"), TokenKind::Output);
    assert_eq!(single("hlt"), TokenKind::Halt);
    assert_eq!(single("brz"), TokenKind::BranchZero);
    assert_eq!(single("brp"), TokenKind::BranchPositive);
    assert_eq!(single("bra"), TokenKind::BranchAlways);
    assert_eq!(single("dat"), TokenKind::Data);
}

#[test]
fn tokenize_label() {
    assert_eq!(single("test_label"), TokenKind::Label("test_label".into()));
    assert_eq!(single("test_label:"), TokenKind::LabelDef("test_label".into()));
    assert_eq!(single("HasCaps"), TokenKind::Label("HasCaps".into()));
    assert_eq!(single("HasNums123"), TokenKind::Label("HasNums123".into()));
}

#[test]
fn no_kw_as_labeldef() {
    assert!(tokenize("lda:").is_err());
    assert!(tokenize("sto:").is_err());
    assert!(tokenize("add:").is_err());
    assert!(tokenize("sub:").is_err());
    assert!(tokenize("inp:").is_err());
    assert!(tokenize("out:").is_err());
    assert!(tokenize("hlt:").is_err());
    assert!(tokenize("brz:").is_err());
    assert!(tokenize("brp:").is_err());
    assert!(tokenize("bra:").is_err());
    assert!(tokenize("dat:").is_err());
}

#[test]
fn tokenize_num() {
    assert_eq!(single("123"), TokenKind::Number(123));
    assert_eq!(single("000123"), TokenKind::Number(123));
    assert!(tokenize("12.3").is_err());
}

#[test]
fn unrecognised_char() {
    assert!(tokenize(":").is_err());
    assert!(tokenize("*").is_err());
    assert!(tokenize("+").is_err());
    assert!(tokenize("-").is_err());
    assert!(tokenize("add 23 ; !@#$%^&*()").is_ok());
}

#[test]
fn tokenize_lnc_test() {
    assert_eq!(
        single(".test_name123"),
        TokenKind::TestName("test_name123".into())
    );
    assert_eq!(single("["), TokenKind::OpenSquareBracket);
    assert_eq!(single("]"), TokenKind::CloseSquareBracket);
    assert_eq!(single(","), TokenKind::Comma);

    assert!(tokenize(".1").is_err());
    assert!(tokenize(".1test").is_err());
}

#[test]
fn lex_error_kinds_and_messages() {
    let errs: Vec<LexError> = tokenize(":").unwrap_err().1;
    assert_eq!(errs.len(), 1);
    assert_eq!(errs[0].kind, LexErrorKind::UnexpectedChar(':'));
    assert_eq!(errs[0].message(), "error @ line 0: unexpected character ':'");

    let errs = tokenize("99999999999999999999999999999999").unwrap_err().1;
    assert_eq!(
        errs[0].kind,
        LexErrorKind::InvalidNumber("99999999999999999999999999999999".into())
    );

    let errs = tokenize("add:").unwrap_err().1;
    assert_eq!(errs[0].kind, LexErrorKind::KeywordLabel("add".into()));
    assert_eq!(
        errs[0].message(),
        "error @ line 0: cannot use keyword \"add\" as label name"
    );

    let errs = tokenize(".1").unwrap_err().1;
    assert_eq!(errs[0].kind, LexErrorKind::TestNameStart('1'));

    let errs = tokenize(".").unwrap_err().1;
    assert_eq!(errs[0].kind, LexErrorKind::TestNameMissing);
}

#[test]
fn lines_and_recovery() {
    // A failing line loses its tokens but later lines still lex, and
    // every failing line reports its own error.
    let (toks, errs) = tokenize("add 1\n*\nsub 2\n!").unwrap_err();
    assert_eq!(errs.len(), 2);
    assert_eq!(errs[0].line, 1);
    assert_eq!(errs[1].line, 3);
    let kinds: Vec<&TokenKind> = toks.iter().map(|t| &t.kind).collect();
    assert_eq!(
        kinds,
        vec![
            &TokenKind::Add,
            &TokenKind::Number(1),
            &TokenKind::NewLine,
            &TokenKind::Subtract,
            &TokenKind::Number(2),
            &TokenKind::NewLine,
        ]
    );
    // No end-of-input token is appended when any line failed.
    assert!(!toks.iter().any(|t| t.kind == TokenKind::Eof));

    // With no errors the stream ends in the end-of-input token, tagged
    // with the line count.
    let toks = tokenize("add 1\nsub 2").unwrap();
    assert_eq!(toks.last().unwrap().kind, TokenKind::Eof);
    assert_eq!(toks.last().unwrap().line, 2);
    assert_eq!(toks[0].line, 0);
    assert_eq!(toks[3].line, 1);
}

#[test]
fn unicode_whitespace_is_insignificant() {
    // Any Unicode whitespace separates tokens: a no-break space, an em
    // space and an ogham space mark all lex like a plain blank.
    let toks = tokenize("lda\u{a0}7").unwrap();
    assert_eq!(toks[0].kind, TokenKind::Load);
    assert_eq!(toks[1].kind, TokenKind::Number(7));
    let toks = tokenize("add\u{2003}23\u{1680}; trailing comment").unwrap();
    assert_eq!(toks[0].kind, TokenKind::Add);
    assert_eq!(toks[1].kind, TokenKind::Number(23));
    // A non-whitespace, non-token character still errs.
    assert!(tokenize("add\u{a1}23").is_err());
}
