use whitespace_lexer::lexer::{DecodeError, Lexer};
use whitespace_lexer::token::{ArithOP, Command, FlowOP, HeapOP, IOOP, StackOP, Token};

fn decode(src: &str) -> Result<Vec<Command>, DecodeError> {
    let mut lexer = Lexer::new(src.to_string());
    lexer.parse()
}

#[test]
fn meaningless_characters_filter_to_nothing() {
    let mut lexer = Lexer::new("abc, xyz; no meaningful bytes here!".replace(' ', "_"));
    assert!(lexer.source.is_empty());
    assert_eq!(lexer.parse(), Ok(vec![]));
}

#[test]
fn empty_input_decodes_to_empty_program() {
    assert_eq!(decode(""), Ok(vec![]));
}

#[test]
fn filter_keeps_order_and_drops_the_rest() {
    let lexer = Lexer::new("a \tb\nc".to_string());
    assert_eq!(lexer.source, vec![Token::Space, Token::Tab, Token::NewLine]);
}

#[test]
fn push_of_zero() {
    assert_eq!(decode("   \n"), Ok(vec![Command::Stack(StackOP::Push(0))]));
}

#[test]
fn push_zero_with_explicit_zero_digit() {
    assert_eq!(decode("    \n"), Ok(vec![Command::Stack(StackOP::Push(0))]));
}

#[test]
fn space_tab_space_space_newline_is_duplicate_nth_zero() {
    // The prefix Space-Tab-Space selects DuplicateNth, whose operand here is
    // a positive sign with an empty magnitude.
    assert_eq!(
        decode(" \t  \n"),
        Ok(vec![Command::Stack(StackOP::DuplicateNth(0))])
    );
}

#[test]
fn magnitude_is_big_endian() {
    // digits "10" are two, not one
    assert_eq!(decode("   \t \n"), Ok(vec![Command::Stack(StackOP::Push(2))]));
}

#[test]
fn push_of_five_negative() {
    // sign Tab, digits 101
    assert_eq!(
        decode("  \t\t \t\n"),
        Ok(vec![Command::Stack(StackOP::Push(-5))])
    );
}

#[test]
fn negative_zero_is_zero() {
    assert_eq!(decode("  \t\n"), Ok(vec![Command::Stack(StackOP::Push(0))]));
}

#[test]
fn push_of_smallest_number() {
    let mut src = String::from("  \t\t");
    for _ in 0..31 {
        src.push(' ');
    }
    src.push('\n');
    assert_eq!(
        decode(&src),
        Ok(vec![Command::Stack(StackOP::Push(i32::MIN))])
    );
}

#[test]
fn magnitude_accumulates_modulo_two_to_the_32() {
    // 33 one-digits: 2^33 - 1 reduces to 2^32 - 1, which reads back as -1
    let mut src = String::from("   ");
    for _ in 0..33 {
        src.push('\t');
    }
    src.push('\n');
    assert_eq!(decode(&src), Ok(vec![Command::Stack(StackOP::Push(-1))]));
}

#[test]
fn unterminated_trailing_magnitude_is_tolerated() {
    // no final newline: the trailing run is the whole magnitude
    assert_eq!(decode("   \t"), Ok(vec![Command::Stack(StackOP::Push(1))]));
}

#[test]
fn push_without_sign_is_malformed_operand() {
    assert_eq!(decode("  \n"), Err(DecodeError::MalformedOperand));
}

#[test]
fn lone_tab_is_end_of_input() {
    assert_eq!(decode("\t"), Err(DecodeError::EndOfInput));
}

#[test]
fn truncated_stack_prefix_is_end_of_input() {
    assert_eq!(decode(" \t"), Err(DecodeError::EndOfInput));
}

#[test]
fn lone_space_is_end_of_input() {
    assert_eq!(decode(" "), Err(DecodeError::EndOfInput));
}

#[test]
fn tab_tab_in_stack_family_is_malformed() {
    assert_eq!(decode(" \t\t"), Err(DecodeError::MalformedInstruction));
}

#[test]
fn stack_duplicate_discard_swap() {
    assert_eq!(decode(" \n "), Ok(vec![Command::Stack(StackOP::Duplicate)]));
    assert_eq!(decode(" \n\n"), Ok(vec![Command::Stack(StackOP::Discard)]));
    assert_eq!(decode(" \n\t"), Ok(vec![Command::Stack(StackOP::Swap)]));
}

#[test]
fn stack_duplicate_nth_and_discard_top_n() {
    assert_eq!(
        decode(" \t  \t\n"),
        Ok(vec![Command::Stack(StackOP::DuplicateNth(1))])
    );
    assert_eq!(
        decode(" \t\n \t\n"),
        Ok(vec![Command::Stack(StackOP::DiscardTopN(1))])
    );
}

#[test]
fn arithmetic_operations() {
    assert_eq!(decode("\t   "), Ok(vec![Command::Arith(ArithOP::Sum)]));
    assert_eq!(decode("\t  \t"), Ok(vec![Command::Arith(ArithOP::Sub)]));
    assert_eq!(decode("\t  \n"), Ok(vec![Command::Arith(ArithOP::Mul)]));
    assert_eq!(decode("\t \t "), Ok(vec![Command::Arith(ArithOP::Div)]));
    assert_eq!(decode("\t \t\t"), Ok(vec![Command::Arith(ArithOP::Rem)]));
}

#[test]
fn arithmetic_rejects_terminator_prefixes() {
    assert_eq!(decode("\t \t\n"), Err(DecodeError::MalformedInstruction));
    assert_eq!(decode("\t \n"), Err(DecodeError::MalformedInstruction));
}

#[test]
fn heap_store_at_alone() {
    // Tab-Tab selects the heap family, Space selects StoreAt, and the input
    // ends immediately after: exactly one instruction.
    assert_eq!(decode("\t\t "), Ok(vec![Command::Heap(HeapOP::StoreAt)]));
}

#[test]
fn heap_store_at_with_trailing_terminator_fails() {
    // the trailing newline starts a flow instruction that the end of input
    // then truncates
    assert_eq!(decode("\t\t \n"), Err(DecodeError::EndOfInput));
}

#[test]
fn heap_store_at_stack_and_rejection() {
    assert_eq!(decode("\t\t\t"), Ok(vec![Command::Heap(HeapOP::StoreAtStack)]));
    assert_eq!(decode("\t\t\n"), Err(DecodeError::MalformedInstruction));
}

#[test]
fn io_operations() {
    assert_eq!(decode("\t\n  "), Ok(vec![Command::IO(IOOP::PrintChar)]));
    assert_eq!(decode("\t\n \t"), Ok(vec![Command::IO(IOOP::PrintNum)]));
    assert_eq!(decode("\t\n\t "), Ok(vec![Command::IO(IOOP::ReadChar)]));
    assert_eq!(decode("\t\n\t\t"), Ok(vec![Command::IO(IOOP::ReadNum)]));
}

#[test]
fn io_rejects_terminator_prefixes() {
    assert_eq!(decode("\t\n \n"), Err(DecodeError::MalformedInstruction));
    assert_eq!(decode("\t\n\n"), Err(DecodeError::MalformedInstruction));
}

#[test]
fn three_terminators_are_exit() {
    assert_eq!(decode("\n\n\n"), Ok(vec![Command::Flow(FlowOP::Exit)]));
}

#[test]
fn two_terminators_alone_are_end_of_input() {
    assert_eq!(decode("\n\n"), Err(DecodeError::EndOfInput));
}

#[test]
fn flow_return() {
    assert_eq!(decode("\n\t\n"), Ok(vec![Command::Flow(FlowOP::Return)]));
}

#[test]
fn flow_terminator_then_token_is_malformed() {
    assert_eq!(decode("\n\n \n"), Err(DecodeError::MalformedInstruction));
    assert_eq!(decode("\n\n\t\n"), Err(DecodeError::MalformedInstruction));
}

#[test]
fn flow_label_operations() {
    let lbl = vec![Token::Space, Token::Tab];
    assert_eq!(
        decode("\n   \t\n"),
        Ok(vec![Command::Flow(FlowOP::Mark(lbl.clone()))])
    );
    assert_eq!(
        decode("\n \t \t\n"),
        Ok(vec![Command::Flow(FlowOP::Call(lbl.clone()))])
    );
    assert_eq!(
        decode("\n \n \t\n"),
        Ok(vec![Command::Flow(FlowOP::Jump(lbl.clone()))])
    );
    assert_eq!(
        decode("\n\t  \t\n"),
        Ok(vec![Command::Flow(FlowOP::BranchZero(lbl.clone()))])
    );
    assert_eq!(
        decode("\n\t\t \t\n"),
        Ok(vec![Command::Flow(FlowOP::BranchLt(lbl))])
    );
}

#[test]
fn labels_compare_by_exact_sequence() {
    // a three-token label and a two-token label are different marks
    let three = decode("\n   \t \n").unwrap();
    let two = decode("\n   \t\n").unwrap();
    assert_eq!(
        three,
        vec![Command::Flow(FlowOP::Mark(vec![
            Token::Space,
            Token::Tab,
            Token::Space
        ]))]
    );
    assert_eq!(
        two,
        vec![Command::Flow(FlowOP::Mark(vec![Token::Space, Token::Tab]))]
    );
    assert_ne!(three, two);
}

#[test]
fn unterminated_trailing_label_is_tolerated() {
    assert_eq!(
        decode("\n   \t"),
        Ok(vec![Command::Flow(FlowOP::Mark(vec![
            Token::Space,
            Token::Tab
        ]))])
    );
}

#[test]
fn round_trip_of_a_small_program() {
    // Push(3); Sum; Mark(Space Tab); Exit — in minimal token form
    let src = "   \t\t\n\t   \n   \t\n\n\n\n";
    let expected = vec![
        Command::Stack(StackOP::Push(3)),
        Command::Arith(ArithOP::Sum),
        Command::Flow(FlowOP::Mark(vec![Token::Space, Token::Tab])),
        Command::Flow(FlowOP::Exit),
    ];
    assert_eq!(decode(src), Ok(expected));
}

#[test]
fn failure_returns_no_partial_list() {
    // one good instruction, then a malformed one: the whole decode fails
    assert_eq!(decode("\n\n\n \t\t"), Err(DecodeError::MalformedInstruction));
}
