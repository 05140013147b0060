//! The data model: tokens, instruction variants, and their spec-level views.

use vstd::prelude::*;

verus! {

/// One of the three meaningful characters of the source language:
/// space, tab and newline.  Every other character carries no meaning.
#[derive(Clone, Copy, Debug, PartialEq, Eq, Structural)]
pub enum Token {
    Space,
    Tab,
    NewLine,
}

/// A decoded signed integer operand.
pub type Number = i32;

/// An opaque control-flow identifier: the exact sequence of `Space` / `Tab`
/// tokens that appeared before the terminating `NewLine`.  Labels are
/// compared structurally, never numerically.
pub type Label = Vec<Token>;

/// Stack-family operation.
#[derive(Clone, Copy, Debug, PartialEq, Eq, Structural)]
pub enum StackOP {
    Push(Number),
    Duplicate,
    DuplicateNth(Number),
    Discard,
    DiscardTopN(Number),
    Swap,
}

/// Arithmetic-family operation.
#[derive(Clone, Copy, Debug, PartialEq, Eq, Structural)]
pub enum ArithOP {
    Sum,
    Sub,
    Mul,
    Div,
    Rem,
}

/// Heap-family operation.
#[derive(Clone, Copy, Debug, PartialEq, Eq, Structural)]
pub enum HeapOP {
    StoreAt,
    StoreAtStack,
}

/// I/O-family operation.
#[derive(Clone, Copy, Debug, PartialEq, Eq, Structural)]
pub enum IOOP {
    PrintChar,
    PrintNum,
    ReadChar,
    ReadNum,
}

/// Flow-family operation; the ones that name a control-flow target carry a
/// label.
#[derive(Clone, Debug, PartialEq, Eq)]
pub enum FlowOP {
    Mark(Label),
    Call(Label),
    Jump(Label),
    BranchZero(Label),
    BranchLt(Label),
    Return,
    Exit,
}

/// A decoded instruction: a tagged variant over the five families.
#[derive(Clone, Debug, PartialEq, Eq)]
pub enum Command {
    Stack(StackOP),
    Arith(ArithOP),
    Heap(HeapOP),
    IO(IOOP),
    Flow(FlowOP),
}

/// Specification-level flow operation: labels appear as token sequences.
#[verifier::ext_equal]
pub enum FlowV {
    Mark(Seq<Token>),
    Call(Seq<Token>),
    Jump(Seq<Token>),
    BranchZero(Seq<Token>),
    BranchLt(Seq<Token>),
    Return,
    Exit,
}

/// Specification-level instruction.
#[verifier::ext_equal]
pub enum CommandV {
    Stack(StackOP),
    Arith(ArithOP),
    Heap(HeapOP),
    IO(IOOP),
    Flow(FlowV),
}

impl View for FlowOP {
    type V = FlowV;

    open spec fn view(&self) -> FlowV {
        match self {
            FlowOP::Mark(l) => FlowV::Mark(l@),
            FlowOP::Call(l) => FlowV::Call(l@),
            FlowOP::Jump(l) => FlowV::Jump(l@),
            FlowOP::BranchZero(l) => FlowV::BranchZero(l@),
            FlowOP::BranchLt(l) => FlowV::BranchLt(l@),
            FlowOP::Return => FlowV::Return,
            FlowOP::Exit => FlowV::Exit,
        }
    }
}

impl View for Command {
    type V = CommandV;

    open spec fn view(&self) -> CommandV {
        match self {
            Command::Stack(op) => CommandV::Stack(*op),
            Command::Arith(op) => CommandV::Arith(*op),
            Command::Heap(op) => CommandV::Heap(*op),
            Command::IO(op) => CommandV::IO(*op),
            Command::Flow(op) => CommandV::Flow(op@),
        }
    }
}

impl DeepView for Command {
    type V = CommandV;

    open spec fn deep_view(&self) -> CommandV {
        self@
    }
}

/// A label never holds a `NewLine`: the decoder reads a label only up to the
/// next `NewLine`, so one can never appear inside it.
pub open spec fn wf_label(l: Seq<Token>) -> bool {
    forall|i: int| 0 <= i < l.len() ==> l[i] != Token::NewLine
}

/// A flow operation is well formed when the label it carries, if any, is.
pub open spec fn wf_flow(f: FlowV) -> bool {
    match f {
        FlowV::Mark(l) => wf_label(l),
        FlowV::Call(l) => wf_label(l),
        FlowV::Jump(l) => wf_label(l),
        FlowV::BranchZero(l) => wf_label(l),
        FlowV::BranchLt(l) => wf_label(l),
        FlowV::Return => true,
        FlowV::Exit => true,
    }
}

/// An instruction is well formed when any label it carries is free of
/// `NewLine` tokens.  Every decoded instruction is well formed, and only
/// well-formed instructions have a token encoding.
pub open spec fn wf_command(c: CommandV) -> bool {
    match c {
        CommandV::Flow(f) => wf_flow(f),
        _ => true,
    }
}

/// Every instruction of the list is well formed.
pub open spec fn wf_program(cs: Seq<CommandV>) -> bool {
    forall|i: int| 0 <= i < cs.len() ==> wf_command(#[trigger] cs[i])
}

/// The printable character that stands for one label token.
pub open spec fn spec_label_char(t: Token) -> char {
    if t == Token::Space {
        '.'
    } else {
        '-'
    }
}

/// The printable rendering of a label: `.` for each `Space`, `-` for each
/// `Tab`.
pub open spec fn spec_label_string(l: Seq<Token>) -> Seq<char> {
    l.map_values(|t: Token| spec_label_char(t))
}

/// Renders a label one printable character per token: `.` for `Space` and
/// `-` for `Tab`.
pub fn label_to_string(label: &Label) -> (r: String)
    requires
        wf_label(label@),
    ensures
        r@ == spec_label_string(label@),
{
    proof {
        reveal_strlit(".");
        reveal_strlit("-");
    }
    let mut s = String::new();
    let mut i: usize = 0;
    while i < label.len()
        invariant
            wf_label(label@),
            i <= label@.len(),
            s@ == spec_label_string(label@.take(i as int)),
        decreases label@.len() - i,
    {
        let ghost s_before = s@;
        match label[i] {
            Token::Space => s.append("."),
            Token::Tab => s.append("-"),
            Token::NewLine => {
                proof {
                    assert(false);
                }
            },
        }
        proof {
            reveal_strlit(".");
            reveal_strlit("-");
            assert(s@ =~= s_before.push(spec_label_char(label@[i as int])));
            assert(label@.take(i + 1) =~= label@.take(i as int).push(label@[i as int]));
            assert(spec_label_string(label@.take(i + 1)) =~= spec_label_string(
                label@.take(i as int),
            ).push(spec_label_char(label@[i as int])));
        }
        i = i + 1;
    }
    proof {
        assert(label@.take(label@.len() as int) =~= label@);
    }
    s
}

} // verus!
