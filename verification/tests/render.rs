use whitespace_lexer::lexer::Lexer;
use whitespace_lexer::render::number_to_string;
use whitespace_lexer::token::{
    label_to_string, ArithOP, Command, FlowOP, HeapOP, IOOP, StackOP, Token,
};

#[test]
fn numbers_render_in_decimal() {
    assert_eq!(number_to_string(0), "0");
    assert_eq!(number_to_string(7), "7");
    assert_eq!(number_to_string(1000), "1000");
    assert_eq!(number_to_string(-42), "-42");
    assert_eq!(number_to_string(i32::MAX), "2147483647");
    assert_eq!(number_to_string(i32::MIN), "-2147483648");
}

#[test]
fn labels_render_one_character_per_token() {
    assert_eq!(
        label_to_string(&vec![Token::Space, Token::Tab, Token::Space]),
        ".-."
    );
    assert_eq!(label_to_string(&vec![]), "");
}

#[test]
fn commands_render_as_family_colon_operation() {
    assert_eq!(
        Command::Stack(StackOP::Push(-42)).to_text(),
        "Stack: Push(-42)"
    );
    assert_eq!(Command::Stack(StackOP::Swap).to_text(), "Stack: Swap");
    assert_eq!(
        Command::Stack(StackOP::DuplicateNth(3)).to_text(),
        "Stack: DuplicateNth(3)"
    );
    assert_eq!(
        Command::Stack(StackOP::DiscardTopN(2)).to_text(),
        "Stack: DiscardTopN(2)"
    );
    assert_eq!(Command::Arith(ArithOP::Rem).to_text(), "Arith: Rem");
    assert_eq!(Command::Heap(HeapOP::StoreAt).to_text(), "Heap: StoreAt");
    assert_eq!(Command::IO(IOOP::ReadNum).to_text(), "IO: ReadNum");
    assert_eq!(
        Command::Flow(FlowOP::Mark(vec![Token::Space, Token::Tab])).to_text(),
        "Flow: Mark(.-)"
    );
    assert_eq!(Command::Flow(FlowOP::Return).to_text(), "Flow: Return");
    assert_eq!(Command::Flow(FlowOP::Exit).to_text(), "Flow: Exit");
}

#[test]
fn decoded_program_renders_line_by_line() {
    let mut lexer = Lexer::new("   \t\t\n\n  \t\n\n\n\n".to_string());
    let cmds = lexer.parse().unwrap();
    let lines: Vec<String> = cmds.iter().map(|c| c.to_text()).collect();
    assert_eq!(
        lines,
        vec!["Stack: Push(3)", "Flow: Mark(-)", "Flow: Exit"]
    );
}
