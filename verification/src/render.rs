//! Human-readable rendering of decoded instructions: one line per
//! instruction, of the form `<Family>: <Operation>(<operands>)`, numbers in
//! decimal and labels one printable character per token.

use crate::token::{
    label_to_string, spec_label_string, wf_command, wf_flow, ArithOP, Command, CommandV, FlowOP,
    FlowV, HeapOP, IOOP, StackOP,
};
use vstd::prelude::*;

verus! {

/// The character a single decimal digit prints as.
pub open spec fn spec_digit_chars(d: nat) -> Seq<char> {
    if d == 0 {
        "0"@
    } else if d == 1 {
        "1"@
    } else if d == 2 {
        "2"@
    } else if d == 3 {
        "3"@
    } else if d == 4 {
        "4"@
    } else if d == 5 {
        "5"@
    } else if d == 6 {
        "6"@
    } else if d == 7 {
        "7"@
    } else if d == 8 {
        "8"@
    } else {
        "9"@
    }
}

/// The decimal digits of a magnitude, most significant first; empty for
/// zero.
pub open spec fn spec_dec_digits(m: nat) -> Seq<char>
    decreases m,
{
    if m == 0 {
        Seq::empty()
    } else {
        spec_dec_digits(m / 10) + spec_digit_chars(m % 10)
    }
}

/// The decimal rendering of a signed number: a leading `-` for negative
/// values, `0` for zero.
pub open spec fn spec_number_string(n: int) -> Seq<char> {
    if n == 0 {
        "0"@
    } else if n < 0 {
        "-"@ + spec_dec_digits((-n) as nat)
    } else {
        spec_dec_digits(n as nat)
    }
}

/// The rendering of a stack operation.
pub open spec fn spec_render_stack(op: StackOP) -> Seq<char> {
    match op {
        StackOP::Push(n) => "Push("@ + spec_number_string(n as int) + ")"@,
        StackOP::Duplicate => "Duplicate"@,
        StackOP::DuplicateNth(n) => "DuplicateNth("@ + spec_number_string(n as int) + ")"@,
        StackOP::Discard => "Discard"@,
        StackOP::DiscardTopN(n) => "DiscardTopN("@ + spec_number_string(n as int) + ")"@,
        StackOP::Swap => "Swap"@,
    }
}

/// The rendering of an arithmetic operation.
pub open spec fn spec_render_arith(op: ArithOP) -> Seq<char> {
    match op {
        ArithOP::Sum => "Sum"@,
        ArithOP::Sub => "Sub"@,
        ArithOP::Mul => "Mul"@,
        ArithOP::Div => "Div"@,
        ArithOP::Rem => "Rem"@,
    }
}

/// The rendering of a heap operation.
pub open spec fn spec_render_heap(op: HeapOP) -> Seq<char> {
    match op {
        HeapOP::StoreAt => "StoreAt"@,
        HeapOP::StoreAtStack => "StoreAtStack"@,
    }
}

/// The rendering of an I/O operation.
pub open spec fn spec_render_io(op: IOOP) -> Seq<char> {
    match op {
        IOOP::PrintChar => "PrintChar"@,
        IOOP::PrintNum => "PrintNum"@,
        IOOP::ReadChar => "ReadChar"@,
        IOOP::ReadNum => "ReadNum"@,
    }
}

/// The rendering of a flow operation, its label printed `.`-for-`Space`
/// and `-`-for-`Tab`.
pub open spec fn spec_render_flow(op: FlowV) -> Seq<char> {
    match op {
        FlowV::Mark(l) => "Mark("@ + spec_label_string(l) + ")"@,
        FlowV::Call(l) => "Call("@ + spec_label_string(l) + ")"@,
        FlowV::Jump(l) => "Jump("@ + spec_label_string(l) + ")"@,
        FlowV::BranchZero(l) => "BranchZero("@ + spec_label_string(l) + ")"@,
        FlowV::BranchLt(l) => "BranchLt("@ + spec_label_string(l) + ")"@,
        FlowV::Return => "Return"@,
        FlowV::Exit => "Exit"@,
    }
}

/// The rendering of a whole instruction: its family name, a colon, and its
/// operation.
pub open spec fn spec_render_command(c: CommandV) -> Seq<char> {
    match c {
        CommandV::Stack(op) => "Stack: "@ + spec_render_stack(op),
        CommandV::Arith(op) => "Arith: "@ + spec_render_arith(op),
        CommandV::Heap(op) => "Heap: "@ + spec_render_heap(op),
        CommandV::IO(op) => "IO: "@ + spec_render_io(op),
        CommandV::Flow(op) => "Flow: "@ + spec_render_flow(op),
    }
}

/// Appends the decimal digits of `m` to `s`, most significant first;
/// appends nothing for zero.
fn push_decimal(s: &mut String, m: u32)
    ensures
        final(s)@ == old(s)@ + spec_dec_digits(m as nat),
    decreases m,
{
    if m == 0 {
        proof {
            assert(s@ + Seq::<char>::empty() =~= s@);
        }
        return ;
    }
    push_decimal(s, m / 10);
    let ghost mid = s@;
    match m % 10 {
        0 => s.append("0"),
        1 => s.append("1"),
        2 => s.append("2"),
        3 => s.append("3"),
        4 => s.append("4"),
        5 => s.append("5"),
        6 => s.append("6"),
        7 => s.append("7"),
        8 => s.append("8"),
        _ => s.append("9"),
    }
    proof {
        assert(s@ =~= old(s)@ + spec_dec_digits(m as nat));
    }
}

/// Renders a signed 32-bit number in decimal.
pub fn number_to_string(n: i32) -> (r: String)
    ensures
        r@ == spec_number_string(n as int),
{
    let mut s = String::new();
    if n == 0 {
        s.append("0");
        proof {
            assert(s@ =~= spec_number_string(n as int));
        }
    } else if n < 0 {
        s.append("-");
        let mag: u32 = (-(n as i64)) as u32;
        push_decimal(&mut s, mag);
        proof {
            assert(s@ =~= spec_number_string(n as int));
        }
    } else {
        push_decimal(&mut s, n as u32);
        proof {
            assert(s@ =~= spec_number_string(n as int));
        }
    }
    s
}

impl StackOP {
    /// Renders the operation, its operand in decimal.
    pub fn to_text(&self) -> (r: String)
        ensures
            r@ == spec_render_stack(*self),
    {
        let mut s = String::new();
        match *self {
            StackOP::Push(n) => {
                s.append("Push(");
                let num = number_to_string(n);
                s.append(num.as_str());
                s.append(")");
            },
            StackOP::Duplicate => s.append("Duplicate"),
            StackOP::DuplicateNth(n) => {
                s.append("DuplicateNth(");
                let num = number_to_string(n);
                s.append(num.as_str());
                s.append(")");
            },
            StackOP::Discard => s.append("Discard"),
            StackOP::DiscardTopN(n) => {
                s.append("DiscardTopN(");
                let num = number_to_string(n);
                s.append(num.as_str());
                s.append(")");
            },
            StackOP::Swap => s.append("Swap"),
        }
        proof {
            assert(s@ =~= spec_render_stack(*self));
        }
        s
    }
}

impl ArithOP {
    /// Renders the operation.
    pub fn to_text(&self) -> (r: String)
        ensures
            r@ == spec_render_arith(*self),
    {
        let mut s = String::new();
        match *self {
            ArithOP::Sum => s.append("Sum"),
            ArithOP::Sub => s.append("Sub"),
            ArithOP::Mul => s.append("Mul"),
            ArithOP::Div => s.append("Div"),
            ArithOP::Rem => s.append("Rem"),
        }
        proof {
            assert(s@ =~= spec_render_arith(*self));
        }
        s
    }
}

impl HeapOP {
    /// Renders the operation.
    pub fn to_text(&self) -> (r: String)
        ensures
            r@ == spec_render_heap(*self),
    {
        let mut s = String::new();
        match *self {
            HeapOP::StoreAt => s.append("StoreAt"),
            HeapOP::StoreAtStack => s.append("StoreAtStack"),
        }
        proof {
            assert(s@ =~= spec_render_heap(*self));
        }
        s
    }
}

impl IOOP {
    /// Renders the operation.
    pub fn to_text(&self) -> (r: String)
        ensures
            r@ == spec_render_io(*self),
    {
        let mut s = String::new();
        match *self {
            IOOP::PrintChar => s.append("PrintChar"),
            IOOP::PrintNum => s.append("PrintNum"),
            IOOP::ReadChar => s.append("ReadChar"),
            IOOP::ReadNum => s.append("ReadNum"),
        }
        proof {
            assert(s@ =~= spec_render_io(*self));
        }
        s
    }
}

impl FlowOP {
    /// Renders the operation, its label one printable character per token.
    pub fn to_text(&self) -> (r: String)
        requires
            wf_flow(self@),
        ensures
            r@ == spec_render_flow(self@),
    {
        let mut s = String::new();
        match self {
            FlowOP::Mark(l) => {
                s.append("Mark(");
                let lbl = label_to_string(l);
                s.append(lbl.as_str());
                s.append(")");
            },
            FlowOP::Call(l) => {
                s.append("Call(");
                let lbl = label_to_string(l);
                s.append(lbl.as_str());
                s.append(")");
            },
            FlowOP::Jump(l) => {
                s.append("Jump(");
                let lbl = label_to_string(l);
                s.append(lbl.as_str());
                s.append(")");
            },
            FlowOP::BranchZero(l) => {
                s.append("BranchZero(");
                let lbl = label_to_string(l);
                s.append(lbl.as_str());
                s.append(")");
            },
            FlowOP::BranchLt(l) => {
                s.append("BranchLt(");
                let lbl = label_to_string(l);
                s.append(lbl.as_str());
                s.append(")");
            },
            FlowOP::Return => s.append("Return"),
            FlowOP::Exit => s.append("Exit"),
        }
        proof {
            assert(s@ =~= spec_render_flow(self@));
        }
        s
    }
}

impl Command {
    /// Renders the instruction as one line: family, colon, operation.
    pub fn to_text(&self) -> (r: String)
        requires
            wf_command(self@),
        ensures
            r@ == spec_render_command(self@),
    {
        let mut s = String::new();
        match self {
            Command::Stack(op) => {
                s.append("Stack: ");
                let t = op.to_text();
                s.append(t.as_str());
            },
            Command::Arith(op) => {
                s.append("Arith: ");
                let t = op.to_text();
                s.append(t.as_str());
            },
            Command::Heap(op) => {
                s.append("Heap: ");
                let t = op.to_text();
                s.append(t.as_str());
            },
            Command::IO(op) => {
                s.append("IO: ");
                let t = op.to_text();
                s.append(t.as_str());
            },
            Command::Flow(op) => {
                s.append("Flow: ");
                let t = op.to_text();
                s.append(t.as_str());
            },
        }
        proof {
            assert(s@ =~= spec_render_command(self@));
        }
        s
    }
}

} // verus!
