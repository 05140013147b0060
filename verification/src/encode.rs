//! Minimal token encodings of instructions, and the laws that tie the
//! decoder to them: most importantly, decoding the encoding of a
//! well-formed instruction list gives back exactly that list.

use crate::lexer::{
    spec_digits_value, spec_operand, spec_parse_number, spec_read_run, DecodeError,
    lemma_operand_exact,
};
use crate::token::{
    wf_command, wf_flow, wf_label, wf_program, ArithOP, CommandV, FlowV, HeapOP, IOOP, StackOP,
    Token,
};
use vstd::prelude::*;

verus! {

/// The minimal big-endian magnitude encoding: binary digits with no
/// leading zeros, the empty run for zero.
pub open spec fn spec_min_digits(m: nat) -> Seq<Token>
    decreases m,
{
    if m == 0 {
        Seq::empty()
    } else {
        spec_min_digits(m / 2).push(
            if m % 2 == 1 {
                Token::Tab
            } else {
                Token::Space
            },
        )
    }
}

/// The minimal token form of a signed operand: the sign token, the minimal
/// magnitude run, and the terminating `NewLine`.
pub open spec fn spec_encode_number(n: int) -> Seq<Token> {
    let sign = if n < 0 {
        Token::Tab
    } else {
        Token::Space
    };
    let mag: nat = if n < 0 {
        (-n) as nat
    } else {
        n as nat
    };
    seq![sign] + spec_min_digits(mag) + seq![Token::NewLine]
}

/// The minimal magnitude run carries exactly its value, and holds no
/// `NewLine`.
pub proof fn lemma_min_digits(m: nat)
    ensures
        spec_digits_value(spec_min_digits(m)) == m,
        wf_label(spec_min_digits(m)),
    decreases m,
{
    if m > 0 {
        lemma_min_digits(m / 2);
        assert(m == 2 * (m / 2) + m % 2) by {
            vstd::arithmetic::div_mod::lemma_fundamental_div_mod(m as int, 2);
        }
        let d = spec_min_digits(m);
        assert(d.drop_last() == spec_min_digits(m / 2));
        assert(forall|i: int| 0 <= i < d.len() ==> d[i] != Token::NewLine);
    }
}

/// Reading a run over a label followed by a `NewLine` yields exactly that
/// label and leaves the cursor one past the `NewLine`.
pub proof fn lemma_read_run_encoded(toks: Seq<Token>, pos: int, l: Seq<Token>)
    requires
        wf_label(l),
        0 <= pos,
        pos + l.len() < toks.len(),
        toks.subrange(pos, pos + l.len()) == l,
        toks[pos + l.len()] == Token::NewLine,
    ensures
        spec_read_run(toks, pos) == (l, pos + l.len() + 1),
    decreases l.len(),
{
    if l.len() == 0 {
        assert(toks[pos] == Token::NewLine);
        assert(spec_read_run(toks, pos).0 =~= l);
    } else {
        assert(toks[pos] == toks.subrange(pos, pos + l.len())[0]);
        assert(toks[pos] == l[0]);
        assert(l[0] != Token::NewLine);
        assert(toks.subrange(pos + 1, pos + l.len()) =~= l.drop_first());
        lemma_read_run_encoded(toks, pos + 1, l.drop_first());
        assert(seq![toks[pos]] + l.drop_first() =~= l);
    }
}

/// Decoding an operand from its minimal encoding gives back exactly the
/// operand and consumes exactly the encoding.
pub proof fn lemma_parse_number_encoded(toks: Seq<Token>, pos: int, n: i32)
    requires
        0 <= pos,
        pos + spec_encode_number(n as int).len() <= toks.len(),
        toks.subrange(pos, pos + spec_encode_number(n as int).len()) == spec_encode_number(
            n as int,
        ),
    ensures
        spec_parse_number(toks, pos) == Ok::<(int, int), DecodeError>(
            (n as int, pos + spec_encode_number(n as int).len()),
        ),
{
    let enc = spec_encode_number(n as int);
    let mag: nat = if n < 0 {
        (-n) as nat
    } else {
        n as nat
    };
    let digits = spec_min_digits(mag);
    assert(enc.len() == digits.len() + 2);
    assert(forall|j: int| 0 <= j < enc.len() ==> toks[pos + j] == #[trigger] enc[j]) by {
        assert(forall|j: int|
            0 <= j < enc.len() ==> #[trigger] toks.subrange(pos, pos + enc.len())[j] == toks[pos
                + j]);
    }
    assert(forall|i: int| 0 <= i < digits.len() ==> enc[i + 1] == #[trigger] digits[i]);
    assert(toks[pos] == enc[0]);
    assert(toks[pos] != Token::NewLine);
    lemma_min_digits(mag);
    assert(toks.subrange(pos + 1, pos + 1 + digits.len()) =~= digits);
    assert(toks[pos + 1 + digits.len()] == enc[digits.len() as int + 1]);
    assert(toks[pos + 1 + digits.len()] == Token::NewLine);
    lemma_read_run_encoded(toks, pos + 1, digits);
    assert(spec_read_run(toks, pos + 1) == (digits, pos + enc.len()));
    lemma_operand_exact(toks[pos], digits);
    assert(spec_operand(toks[pos], digits) == n as int);
}

/// The minimal token form of a stack operation, after the family selector.
pub open spec fn spec_encode_stack(op: StackOP) -> Seq<Token> {
    match op {
        StackOP::Push(n) => seq![Token::Space] + spec_encode_number(n as int),
        StackOP::DuplicateNth(n) => seq![Token::Tab, Token::Space] + spec_encode_number(n as int),
        StackOP::DiscardTopN(n) => seq![Token::Tab, Token::NewLine] + spec_encode_number(n as int),
        StackOP::Duplicate => seq![Token::NewLine, Token::Space],
        StackOP::Discard => seq![Token::NewLine, Token::NewLine],
        StackOP::Swap => seq![Token::NewLine, Token::Tab],
    }
}

/// The minimal token form of an arithmetic operation, after the family
/// selector.
pub open spec fn spec_encode_arith(op: ArithOP) -> Seq<Token> {
    match op {
        ArithOP::Sum => seq![Token::Space, Token::Space],
        ArithOP::Sub => seq![Token::Space, Token::Tab],
        ArithOP::Mul => seq![Token::Space, Token::NewLine],
        ArithOP::Div => seq![Token::Tab, Token::Space],
        ArithOP::Rem => seq![Token::Tab, Token::Tab],
    }
}

/// The minimal token form of a heap operation, after the family selector.
pub open spec fn spec_encode_heap(op: HeapOP) -> Seq<Token> {
    match op {
        HeapOP::StoreAt => seq![Token::Space],
        HeapOP::StoreAtStack => seq![Token::Tab],
    }
}

/// The minimal token form of an I/O operation, after the family selector.
pub open spec fn spec_encode_io(op: IOOP) -> Seq<Token> {
    match op {
        IOOP::PrintChar => seq![Token::Space, Token::Space],
        IOOP::PrintNum => seq![Token::Space, Token::Tab],
        IOOP::ReadChar => seq![Token::Tab, Token::Space],
        IOOP::ReadNum => seq![Token::Tab, Token::Tab],
    }
}

/// The minimal token form of a flow operation, after the family selector:
/// label-carrying operations append the label and its terminator.
pub open spec fn spec_encode_flow(op: FlowV) -> Seq<Token> {
    match op {
        FlowV::Mark(l) => seq![Token::Space, Token::Space] + l + seq![Token::NewLine],
        FlowV::Call(l) => seq![Token::Space, Token::Tab] + l + seq![Token::NewLine],
        FlowV::Jump(l) => seq![Token::Space, Token::NewLine] + l + seq![Token::NewLine],
        FlowV::BranchZero(l) => seq![Token::Tab, Token::Space] + l + seq![Token::NewLine],
        FlowV::BranchLt(l) => seq![Token::Tab, Token::Tab] + l + seq![Token::NewLine],
        FlowV::Return => seq![Token::Tab, Token::NewLine],
        FlowV::Exit => seq![Token::NewLine, Token::NewLine],
    }
}

/// The minimal token form of a whole instruction: the family selector
/// followed by the family encoding.
pub open spec fn spec_encode_command(c: CommandV) -> Seq<Token> {
    match c {
        CommandV::Stack(op) => seq![Token::Space] + spec_encode_stack(op),
        CommandV::Arith(op) => seq![Token::Tab, Token::Space] + spec_encode_arith(op),
        CommandV::Heap(op) => seq![Token::Tab, Token::Tab] + spec_encode_heap(op),
        CommandV::IO(op) => seq![Token::Tab, Token::NewLine] + spec_encode_io(op),
        CommandV::Flow(op) => seq![Token::NewLine] + spec_encode_flow(op),
    }
}

/// The minimal token form of an instruction list: the instructions'
/// encodings, in order.
pub open spec fn spec_encode_program(cs: Seq<CommandV>) -> Seq<Token>
    decreases cs.len(),
{
    if cs.len() == 0 {
        Seq::empty()
    } else {
        spec_encode_command(cs[0]) + spec_encode_program(cs.drop_first())
    }
}

/// The tokens of the stream over an encoding segment, read one by one.
proof fn lemma_subrange_pointwise(toks: Seq<Token>, pos: int, enc: Seq<Token>)
    requires
        0 <= pos,
        pos + enc.len() <= toks.len(),
        toks.subrange(pos, pos + enc.len()) == enc,
    ensures
        forall|j: int| 0 <= j < enc.len() ==> toks[pos + j] == #[trigger] enc[j],
{
    assert(forall|j: int|
        0 <= j < enc.len() ==> #[trigger] toks.subrange(pos, pos + enc.len())[j] == toks[pos + j]);
}

/// Decoding a stack operation from its minimal encoding gives back exactly
/// that operation and consumes exactly the encoding.
pub proof fn lemma_parse_stack_encoded(toks: Seq<Token>, pos: int, op: StackOP)
    requires
        0 <= pos,
        pos + spec_encode_stack(op).len() <= toks.len(),
        toks.subrange(pos, pos + spec_encode_stack(op).len()) == spec_encode_stack(op),
    ensures
        crate::lexer::spec_parse_stack(toks, pos) == Ok::<(StackOP, int), DecodeError>(
            (op, pos + spec_encode_stack(op).len()),
        ),
{
    let enc = spec_encode_stack(op);
    lemma_subrange_pointwise(toks, pos, enc);
    match op {
        StackOP::Push(n) => {
            let en = spec_encode_number(n as int);
            assert(toks[pos] == enc[0]);
            assert(forall|i: int| 0 <= i < en.len() ==> #[trigger] en[i] == enc[i + 1]);
            assert(toks.subrange(pos + 1, pos + 1 + en.len()) =~= en);
            lemma_parse_number_encoded(toks, pos + 1, n);
            assert((n as int) as i32 == n);
        },
        StackOP::DuplicateNth(n) => {
            let en = spec_encode_number(n as int);
            assert(toks[pos] == enc[0]);
            assert(toks[pos + 1] == enc[1]);
            assert(forall|i: int| 0 <= i < en.len() ==> #[trigger] en[i] == enc[i + 2]);
            assert(toks.subrange(pos + 2, pos + 2 + en.len()) =~= en);
            lemma_parse_number_encoded(toks, pos + 2, n);
            assert((n as int) as i32 == n);
        },
        StackOP::DiscardTopN(n) => {
            let en = spec_encode_number(n as int);
            assert(toks[pos] == enc[0]);
            assert(toks[pos + 1] == enc[1]);
            assert(forall|i: int| 0 <= i < en.len() ==> #[trigger] en[i] == enc[i + 2]);
            assert(toks.subrange(pos + 2, pos + 2 + en.len()) =~= en);
            lemma_parse_number_encoded(toks, pos + 2, n);
            assert((n as int) as i32 == n);
        },
        StackOP::Duplicate => {},
        StackOP::Discard => {},
        StackOP::Swap => {},
    }
}

/// Decoding a flow operation from its minimal encoding gives back exactly
/// that operation and consumes exactly the encoding.
pub proof fn lemma_parse_flow_encoded(toks: Seq<Token>, pos: int, op: FlowV)
    requires
        wf_flow(op),
        0 <= pos,
        pos + spec_encode_flow(op).len() <= toks.len(),
        toks.subrange(pos, pos + spec_encode_flow(op).len()) == spec_encode_flow(op),
    ensures
        crate::lexer::spec_parse_flow(toks, pos) == Ok::<(FlowV, int), DecodeError>(
            (op, pos + spec_encode_flow(op).len()),
        ),
{
    let enc = spec_encode_flow(op);
    lemma_subrange_pointwise(toks, pos, enc);
    match op {
        FlowV::Mark(l) => {
            assert(toks[pos] == enc[0]);
            assert(toks[pos + 1] == enc[1]);
            assert(enc.len() == l.len() + 3);
            assert(forall|i: int| 0 <= i < l.len() ==> #[trigger] l[i] == enc[i + 2]);
            assert(toks.subrange(pos + 2, pos + 2 + l.len()) =~= l);
            assert(toks[pos + 2 + l.len()] == enc[l.len() as int + 2]);
            lemma_read_run_encoded(toks, pos + 2, l);
        },
        FlowV::Call(l) => {
            assert(toks[pos] == enc[0]);
            assert(toks[pos + 1] == enc[1]);
            assert(enc.len() == l.len() + 3);
            assert(forall|i: int| 0 <= i < l.len() ==> #[trigger] l[i] == enc[i + 2]);
            assert(toks.subrange(pos + 2, pos + 2 + l.len()) =~= l);
            assert(toks[pos + 2 + l.len()] == enc[l.len() as int + 2]);
            lemma_read_run_encoded(toks, pos + 2, l);
        },
        FlowV::Jump(l) => {
            assert(toks[pos] == enc[0]);
            assert(toks[pos + 1] == enc[1]);
            assert(enc.len() == l.len() + 3);
            assert(forall|i: int| 0 <= i < l.len() ==> #[trigger] l[i] == enc[i + 2]);
            assert(toks.subrange(pos + 2, pos + 2 + l.len()) =~= l);
            assert(toks[pos + 2 + l.len()] == enc[l.len() as int + 2]);
            lemma_read_run_encoded(toks, pos + 2, l);
        },
        FlowV::BranchZero(l) => {
            assert(toks[pos] == enc[0]);
            assert(toks[pos + 1] == enc[1]);
            assert(enc.len() == l.len() + 3);
            assert(forall|i: int| 0 <= i < l.len() ==> #[trigger] l[i] == enc[i + 2]);
            assert(toks.subrange(pos + 2, pos + 2 + l.len()) =~= l);
            assert(toks[pos + 2 + l.len()] == enc[l.len() as int + 2]);
            lemma_read_run_encoded(toks, pos + 2, l);
        },
        FlowV::BranchLt(l) => {
            assert(toks[pos] == enc[0]);
            assert(toks[pos + 1] == enc[1]);
            assert(enc.len() == l.len() + 3);
            assert(forall|i: int| 0 <= i < l.len() ==> #[trigger] l[i] == enc[i + 2]);
            assert(toks.subrange(pos + 2, pos + 2 + l.len()) =~= l);
            assert(toks[pos + 2 + l.len()] == enc[l.len() as int + 2]);
            lemma_read_run_encoded(toks, pos + 2, l);
        },
        FlowV::Return => {},
        FlowV::Exit => {},
    }
}

/// Decoding an instruction from its minimal encoding gives back exactly
/// that instruction and consumes exactly the encoding.
pub proof fn lemma_parse_command_encoded(toks: Seq<Token>, pos: int, c: CommandV)
    requires
        wf_command(c),
        0 <= pos,
        pos + spec_encode_command(c).len() <= toks.len(),
        toks.subrange(pos, pos + spec_encode_command(c).len()) == spec_encode_command(c),
    ensures
        crate::lexer::spec_parse_command(toks, pos) == Ok::<(CommandV, int), DecodeError>(
            (c, pos + spec_encode_command(c).len()),
        ),
{
    let enc = spec_encode_command(c);
    lemma_subrange_pointwise(toks, pos, enc);
    match c {
        CommandV::Stack(op) => {
            let en = spec_encode_stack(op);
            assert(toks[pos] == enc[0]);
            assert(forall|i: int| 0 <= i < en.len() ==> #[trigger] en[i] == enc[i + 1]);
            assert(toks.subrange(pos + 1, pos + 1 + en.len()) =~= en);
            lemma_parse_stack_encoded(toks, pos + 1, op);
        },
        CommandV::Arith(op) => {
            let en = spec_encode_arith(op);
            assert(toks[pos] == enc[0]);
            assert(toks[pos + 1] == enc[1]);
            assert(forall|i: int| 0 <= i < en.len() ==> #[trigger] en[i] == enc[i + 2]);
            assert(toks.subrange(pos + 2, pos + 2 + en.len()) =~= en);
            lemma_subrange_pointwise(toks, pos + 2, en);
            assert(toks[pos + 2] == en[0]);
            assert(toks[pos + 3] == en[1]);
        },
        CommandV::Heap(op) => {
            let en = spec_encode_heap(op);
            assert(toks[pos] == enc[0]);
            assert(toks[pos + 1] == enc[1]);
            assert(forall|i: int| 0 <= i < en.len() ==> #[trigger] en[i] == enc[i + 2]);
            assert(toks.subrange(pos + 2, pos + 2 + en.len()) =~= en);
            lemma_subrange_pointwise(toks, pos + 2, en);
            assert(toks[pos + 2] == en[0]);
        },
        CommandV::IO(op) => {
            let en = spec_encode_io(op);
            assert(toks[pos] == enc[0]);
            assert(toks[pos + 1] == enc[1]);
            assert(forall|i: int| 0 <= i < en.len() ==> #[trigger] en[i] == enc[i + 2]);
            assert(toks.subrange(pos + 2, pos + 2 + en.len()) =~= en);
            lemma_subrange_pointwise(toks, pos + 2, en);
            assert(toks[pos + 2] == en[0]);
            assert(toks[pos + 3] == en[1]);
        },
        CommandV::Flow(op) => {
            let en = spec_encode_flow(op);
            assert(toks[pos] == enc[0]);
            assert(forall|i: int| 0 <= i < en.len() ==> #[trigger] en[i] == enc[i + 1]);
            assert(toks.subrange(pos + 1, pos + 1 + en.len()) =~= en);
            lemma_parse_flow_encoded(toks, pos + 1, op);
        },
    }
}

/// Decoding from `pos` over exactly the encoding of a well-formed
/// instruction list gives back exactly that list.
pub proof fn lemma_parse_program_encoded(toks: Seq<Token>, pos: int, cs: Seq<CommandV>)
    requires
        wf_program(cs),
        0 <= pos <= toks.len(),
        toks.subrange(pos, toks.len() as int) == spec_encode_program(cs),
    ensures
        crate::lexer::spec_parse_program(toks, pos) == Ok::<Seq<CommandV>, DecodeError>(cs),
    decreases cs.len(),
{
    if cs.len() == 0 {
        assert(toks.len() - pos == 0);
        assert(Seq::<CommandV>::empty() =~= cs);
    } else {
        let enc0 = spec_encode_command(cs[0]);
        let tail = spec_encode_program(cs.drop_first());
        let whole = toks.subrange(pos, toks.len() as int);
        assert(whole == enc0 + tail);
        assert(toks.len() - pos == enc0.len() + tail.len());
        assert(forall|j: int|
            0 <= j < whole.len() ==> #[trigger] whole[j] == toks[pos + j]);
        assert(toks.subrange(pos, pos + enc0.len()) =~= enc0);
        assert(wf_command(cs[0]));
        lemma_parse_command_encoded(toks, pos, cs[0]);
        let p = pos + enc0.len();
        assert(forall|j: int|
            0 <= j < tail.len() ==> #[trigger] tail[j] == whole[enc0.len() + j]);
        assert(toks.subrange(p, toks.len() as int) =~= tail);
        assert(wf_program(cs.drop_first())) by {
            assert(forall|i: int|
                0 <= i < cs.drop_first().len() ==> #[trigger] cs.drop_first()[i] == cs[i + 1]);
        }
        lemma_parse_program_encoded(toks, p, cs.drop_first());
        assert(enc0.len() > 0);
        assert(seq![cs[0]] + cs.drop_first() =~= cs);
    }
}

/// Round trip: the minimal token form of a well-formed instruction list
/// decodes back to exactly that list, operand values and labels included.
pub proof fn lemma_round_trip(cs: Seq<CommandV>)
    requires
        wf_program(cs),
    ensures
        crate::lexer::spec_parse_program(spec_encode_program(cs), 0) == Ok::<
            Seq<CommandV>,
            DecodeError,
        >(cs),
{
    let toks = spec_encode_program(cs);
    assert(toks.subrange(0, toks.len() as int) =~= toks);
    lemma_parse_program_encoded(toks, 0, cs);
}

/// Text that holds none of the three meaningful characters filters to the
/// empty token stream, and the empty stream decodes to the empty
/// instruction list.
pub proof fn lemma_blank_input(s: Seq<char>)
    requires
        forall|i: int| 0 <= i < s.len() ==> s[i] != ' ' && s[i] != '\t' && s[i] != '\n',
    ensures
        crate::lexer::spec_filter(s) == Seq::<Token>::empty(),
        crate::lexer::spec_parse_program(Seq::<Token>::empty(), 0) == Ok::<
            Seq<CommandV>,
            DecodeError,
        >(Seq::<CommandV>::empty()),
    decreases s.len(),
{
    if s.len() > 0 {
        assert(s[s.len() - 1] != ' ');
        assert(forall|i: int|
            0 <= i < s.drop_last().len() ==> #[trigger] s.drop_last()[i] == s[i]);
        lemma_blank_input(s.drop_last());
    }
}

/// A `Push` prefix whose operand's sign position holds a `NewLine` fails
/// the whole decode with `MalformedOperand`.
pub proof fn lemma_push_missing_sign(toks: Seq<Token>, pos: int)
    requires
        0 <= pos,
        pos + 3 <= toks.len(),
        toks[pos] == Token::Space,
        toks[pos + 1] == Token::Space,
        toks[pos + 2] == Token::NewLine,
    ensures
        crate::lexer::spec_parse_command(toks, pos) == Err::<(CommandV, int), DecodeError>(
            DecodeError::MalformedOperand,
        ),
        crate::lexer::spec_parse_program(toks, pos) == Err::<Seq<CommandV>, DecodeError>(
            DecodeError::MalformedOperand,
        ),
{
}

/// A family selector that is the last token of the stream fails with
/// `EndOfInput`: the end of input mid-instruction is never a clean end of
/// program.
pub proof fn lemma_truncated_family_prefix(toks: Seq<Token>, pos: int)
    requires
        0 <= pos,
        toks.len() == pos + 1,
    ensures
        crate::lexer::spec_parse_program(toks, pos) == Err::<Seq<CommandV>, DecodeError>(
            DecodeError::EndOfInput,
        ),
{
}

/// A stack-family prefix truncated by the end of input (`Space` then `Tab`
/// as the last two tokens) fails with `EndOfInput`.
pub proof fn lemma_truncated_stack_prefix(toks: Seq<Token>, pos: int)
    requires
        0 <= pos,
        toks.len() == pos + 2,
        toks[pos] == Token::Space,
        toks[pos + 1] == Token::Tab,
    ensures
        crate::lexer::spec_parse_program(toks, pos) == Err::<Seq<CommandV>, DecodeError>(
            DecodeError::EndOfInput,
        ),
{
}

/// Three `NewLine` tokens where a new instruction is expected resolve to
/// `Flow: Exit`, consuming exactly the three tokens.
pub proof fn lemma_exit_prefix(toks: Seq<Token>, pos: int)
    requires
        0 <= pos,
        pos + 3 <= toks.len(),
        toks[pos] == Token::NewLine,
        toks[pos + 1] == Token::NewLine,
        toks[pos + 2] == Token::NewLine,
    ensures
        crate::lexer::spec_parse_command(toks, pos) == Ok::<(CommandV, int), DecodeError>(
            (CommandV::Flow(FlowV::Exit), pos + 3),
        ),
{
}

/// When three `NewLine` tokens end the stream, the program from there is
/// exactly `Flow: Exit`, with no operands and no trailing instruction.
pub proof fn lemma_exit_program(toks: Seq<Token>, pos: int)
    requires
        0 <= pos,
        toks.len() == pos + 3,
        toks[pos] == Token::NewLine,
        toks[pos + 1] == Token::NewLine,
        toks[pos + 2] == Token::NewLine,
    ensures
        crate::lexer::spec_parse_program(toks, pos) == Ok::<Seq<CommandV>, DecodeError>(
            seq![CommandV::Flow(FlowV::Exit)],
        ),
{
    lemma_exit_prefix(toks, pos);
    assert(crate::lexer::spec_parse_program(toks, pos + 3) == Ok::<Seq<CommandV>, DecodeError>(
        Seq::<CommandV>::empty(),
    ));
    assert(seq![CommandV::Flow(FlowV::Exit)] + Seq::<CommandV>::empty() =~= seq![
        CommandV::Flow(FlowV::Exit),
    ]);
}


} // verus!
