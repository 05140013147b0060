//! The instruction decoder: a token stream with a forward-only cursor, and
//! the prefix-code decision procedures that resolve instructions from it.

use crate::token::{
    wf_command, wf_program, ArithOP, Command, CommandV, FlowOP, FlowV, HeapOP, IOOP, Label,
    StackOP, Token,
};
use vstd::prelude::*;

verus! {

/// Why a decode failed.  Every failure aborts the whole decode.
#[derive(Clone, Copy, Debug, PartialEq, Eq, Structural)]
pub enum DecodeError {
    /// The token stream ran out while an instruction or operand was still
    /// being resolved.  A clean end of input between instructions is not an
    /// error.
    EndOfInput,
    /// A token combination that corresponds to no defined instruction.
    MalformedInstruction,
    /// A signed integer operand whose sign position held a `NewLine`.
    MalformedOperand,
}

/// The token a single character contributes to the stream, if any.
pub open spec fn spec_token_of(c: char) -> Option<Token> {
    if c == ' ' {
        Some(Token::Space)
    } else if c == '\t' {
        Some(Token::Tab)
    } else if c == '\n' {
        Some(Token::NewLine)
    } else {
        None
    }
}

/// The token stream that the filter produces from raw text: space, tab and
/// newline map to their tokens, every other character is dropped, and the
/// relative order of the kept characters is preserved.
pub open spec fn spec_filter(s: Seq<char>) -> Seq<Token>
    decreases s.len(),
{
    if s.len() == 0 {
        Seq::empty()
    } else {
        let rest = spec_filter(s.drop_last());
        match spec_token_of(s.last()) {
            Some(t) => rest.push(t),
            None => rest,
        }
    }
}

/// A token stream with a monotonically advancing read cursor.
pub struct Lexer {
    /// The filtered token stream, fixed for the whole decode.
    pub source: Vec<Token>,
    index: usize,
}

impl Lexer {
    /// The cursor position.
    pub closed spec fn pos(&self) -> int {
        self.index as int
    }

    /// The token stream, as a sequence.
    pub closed spec fn toks(&self) -> Seq<Token> {
        self.source@
    }

    /// The cursor never runs ahead of the end of the stream.
    pub open spec fn wf(&self) -> bool {
        0 <= self.pos() <= self.toks().len()
    }

    /// Filters raw input text into a token stream with the cursor at the
    /// start.
    pub fn new(source: String) -> (r: Lexer)
        ensures
            r.wf(),
            r.pos() == 0,
            r.toks() == spec_filter(source@),
    {
        let text = source.as_str();
        let n = text.unicode_len();
        let mut toks: Vec<Token> = Vec::new();
        let mut i: usize = 0;
        while i < n
            invariant
                n == text@.len(),
                i <= n,
                toks@ == spec_filter(text@.take(i as int)),
            decreases n - i,
        {
            let c = text.get_char(i);
            match c {
                ' ' => toks.push(Token::Space),
                '\t' => toks.push(Token::Tab),
                '\n' => toks.push(Token::NewLine),
                _ => (),
            }
            proof {
                assert(text@.take(i + 1).drop_last() =~= text@.take(i as int));
                assert(text@.take(i + 1).last() == text@[i as int]);
            }
            i = i + 1;
        }
        proof {
            assert(text@.take(text@.len() as int) =~= text@);
        }
        Lexer { source: toks, index: 0 }
    }

    /// Returns the token under the cursor and advances the cursor by one,
    /// or fails with `EndOfInput` when the stream is exhausted.
    fn next(&mut self) -> (r: Result<Token, DecodeError>)
        requires
            old(self).wf(),
        ensures
            final(self).wf(),
            final(self).toks() == old(self).toks(),
            match r {
                Ok(t) => old(self).pos() < old(self).toks().len() && t == old(self).toks()[old(
                    self,
                ).pos()] && final(self).pos() == old(self).pos() + 1,
                Err(e) => e == DecodeError::EndOfInput && old(self).pos() == old(
                    self,
                ).toks().len() && final(self).pos() == old(self).pos(),
            },
    {
        if self.index >= self.source.len() {
            Err(DecodeError::EndOfInput)
        } else {
            let index = self.index;
            self.index = index + 1;
            Ok(self.source[index])
        }
    }

    /// Collects every token from the cursor up to (but not including) the
    /// next `NewLine` and moves the cursor past that `NewLine`.  When no
    /// `NewLine` remains, the whole tail of the stream is collected and the
    /// cursor ends at the end of input: a trailing unterminated run is
    /// tolerated by design.
    fn take_till_terminal(&mut self) -> (r: Vec<Token>)
        requires
            old(self).wf(),
        ensures
            final(self).wf(),
            final(self).toks() == old(self).toks(),
            ({
                let (run, p) = spec_read_run(old(self).toks(), old(self).pos());
                r@ == run && final(self).pos() == p
            }),
    {
        let ghost toks = self.toks();
        let ghost pos0 = self.pos();
        let mut items: Vec<Token> = Vec::new();
        let mut i: usize = self.index;
        while i < self.source.len() && self.source[i] != Token::NewLine
            invariant
                self.wf(),
                toks == self.toks(),
                pos0 == old(self).pos(),
                pos0 <= i <= toks.len(),
                spec_read_run(toks, pos0) == ({
                    let (run, p) = spec_read_run(toks, i as int);
                    (items@ + run, p)
                }),
            decreases toks.len() - i,
        {
            let t = self.source[i];
            proof {
                let (run, p) = spec_read_run(toks, i + 1);
                assert(items@ + (seq![t] + run) =~= items@.push(t) + run);
            }
            items.push(t);
            i = i + 1;
        }
        proof {
            assert(items@ + Seq::<Token>::empty() =~= items@);
        }
        if i < self.source.len() {
            self.index = i + 1;
        } else {
            self.index = i;
        }
        items
    }

    /// Decodes a signed integer operand: the token under the cursor is the
    /// sign (`Space` positive, `Tab` negative, `NewLine` malformed) and the
    /// run up to the next `NewLine` is the big-endian binary magnitude,
    /// accumulated in 32-bit two's-complement arithmetic.
    fn parse_number(&mut self) -> (r: Result<i32, DecodeError>)
        requires
            old(self).wf(),
        ensures
            final(self).wf(),
            final(self).toks() == old(self).toks(),
            match r {
                Ok(n) => spec_parse_number(old(self).toks(), old(self).pos()) == Ok::<
                    (int, int),
                    DecodeError,
                >((n as int, final(self).pos())),
                Err(e) => spec_parse_number(old(self).toks(), old(self).pos()) == Err::<
                    (int, int),
                    DecodeError,
                >(e),
            },
    {
        let sign = match self.next() {
            Ok(t) => t,
            Err(e) => {
                return Err(e);
            },
        };
        if let Token::NewLine = sign {
            return Err(DecodeError::MalformedOperand);
        }
        let digits = self.take_till_terminal();
        let mut acc: u32 = 0;
        let mut i: usize = 0;
        while i < digits.len()
            invariant
                i <= digits@.len(),
                acc == spec_mag(digits@.take(i as int)),
            decreases digits@.len() - i,
        {
            let d: u32 = match digits[i] {
                Token::Tab => 1,
                _ => 0,
            };
            proof {
                assert(digits@.take(i + 1).drop_last() =~= digits@.take(i as int));
                assert(digits@.take(i + 1).last() == digits@[i as int]);
            }
            let wide: u64 = (acc as u64) * 2 + (d as u64);
            acc = (wide % 0x1_0000_0000u64) as u32;
            i = i + 1;
        }
        proof {
            assert(digits@.take(digits@.len() as int) =~= digits@);
        }
        let n: i32 = if let Token::Tab = sign {
            let negw: u64 = 0x1_0000_0000u64 - (acc as u64);
            let neg: u32 = (negw % 0x1_0000_0000u64) as u32;
            u32_to_i32(neg)
        } else {
            u32_to_i32(acc)
        };
        Ok(n)
    }

    /// Decodes a label: the run of tokens up to the next `NewLine`, taken
    /// as an opaque identifier.  Never fails.
    fn parse_label(&mut self) -> (r: Label)
        requires
            old(self).wf(),
        ensures
            final(self).wf(),
            final(self).toks() == old(self).toks(),
            ({
                let (run, p) = spec_read_run(old(self).toks(), old(self).pos());
                r@ == run && final(self).pos() == p
            }),
    {
        self.take_till_terminal()
    }

    /// Resolves a stack-family instruction, the cursor standing just past
    /// the family selector.
    fn parse_stack_imp(&mut self) -> (r: Result<StackOP, DecodeError>)
        requires
            old(self).wf(),
        ensures
            final(self).wf(),
            final(self).toks() == old(self).toks(),
            match r {
                Ok(op) => spec_parse_stack(old(self).toks(), old(self).pos()) == Ok::<
                    (StackOP, int),
                    DecodeError,
                >((op, final(self).pos())),
                Err(e) => spec_parse_stack(old(self).toks(), old(self).pos()) == Err::<
                    (StackOP, int),
                    DecodeError,
                >(e),
            },
    {
        match self.next() {
            Err(e) => Err(e),
            Ok(t) => match t {
                Token::Space => match self.parse_number() {
                    Ok(n) => Ok(StackOP::Push(n)),
                    Err(e) => Err(e),
                },
                Token::Tab => match self.next() {
                    Err(e) => Err(e),
                    Ok(t2) => match t2 {
                        Token::Space => match self.parse_number() {
                            Ok(n) => Ok(StackOP::DuplicateNth(n)),
                            Err(e) => Err(e),
                        },
                        Token::NewLine => match self.parse_number() {
                            Ok(n) => Ok(StackOP::DiscardTopN(n)),
                            Err(e) => Err(e),
                        },
                        Token::Tab => Err(DecodeError::MalformedInstruction),
                    },
                },
                Token::NewLine => match self.next() {
                    Err(e) => Err(e),
                    Ok(t2) => match t2 {
                        Token::Space => Ok(StackOP::Duplicate),
                        Token::NewLine => Ok(StackOP::Discard),
                        Token::Tab => Ok(StackOP::Swap),
                    },
                },
            },
        }
    }

    /// Resolves an arithmetic-family instruction, the cursor standing just
    /// past the family selector.
    fn parse_arith_imp(&mut self) -> (r: Result<ArithOP, DecodeError>)
        requires
            old(self).wf(),
        ensures
            final(self).wf(),
            final(self).toks() == old(self).toks(),
            match r {
                Ok(op) => spec_parse_arith(old(self).toks(), old(self).pos()) == Ok::<
                    (ArithOP, int),
                    DecodeError,
                >((op, final(self).pos())),
                Err(e) => spec_parse_arith(old(self).toks(), old(self).pos()) == Err::<
                    (ArithOP, int),
                    DecodeError,
                >(e),
            },
    {
        match self.next() {
            Err(e) => Err(e),
            Ok(t) => match t {
                Token::Space => match self.next() {
                    Err(e) => Err(e),
                    Ok(t2) => match t2 {
                        Token::Space => Ok(ArithOP::Sum),
                        Token::NewLine => Ok(ArithOP::Mul),
                        Token::Tab => Ok(ArithOP::Sub),
                    },
                },
                Token::Tab => match self.next() {
                    Err(e) => Err(e),
                    Ok(t2) => match t2 {
                        Token::Space => Ok(ArithOP::Div),
                        Token::Tab => Ok(ArithOP::Rem),
                        Token::NewLine => Err(DecodeError::MalformedInstruction),
                    },
                },
                Token::NewLine => Err(DecodeError::MalformedInstruction),
            },
        }
    }

    /// Resolves a heap-family instruction, the cursor standing just past
    /// the family selector.
    fn parse_heap_imp(&mut self) -> (r: Result<HeapOP, DecodeError>)
        requires
            old(self).wf(),
        ensures
            final(self).wf(),
            final(self).toks() == old(self).toks(),
            match r {
                Ok(op) => spec_parse_heap(old(self).toks(), old(self).pos()) == Ok::<
                    (HeapOP, int),
                    DecodeError,
                >((op, final(self).pos())),
                Err(e) => spec_parse_heap(old(self).toks(), old(self).pos()) == Err::<
                    (HeapOP, int),
                    DecodeError,
                >(e),
            },
    {
        match self.next() {
            Err(e) => Err(e),
            Ok(t) => match t {
                Token::Space => Ok(HeapOP::StoreAt),
                Token::Tab => Ok(HeapOP::StoreAtStack),
                Token::NewLine => Err(DecodeError::MalformedInstruction),
            },
        }
    }

    /// Resolves an I/O-family instruction, the cursor standing just past
    /// the family selector.
    fn parse_io_imp(&mut self) -> (r: Result<IOOP, DecodeError>)
        requires
            old(self).wf(),
        ensures
            final(self).wf(),
            final(self).toks() == old(self).toks(),
            match r {
                Ok(op) => spec_parse_io(old(self).toks(), old(self).pos()) == Ok::<
                    (IOOP, int),
                    DecodeError,
                >((op, final(self).pos())),
                Err(e) => spec_parse_io(old(self).toks(), old(self).pos()) == Err::<
                    (IOOP, int),
                    DecodeError,
                >(e),
            },
    {
        match self.next() {
            Err(e) => Err(e),
            Ok(t) => match t {
                Token::Space => match self.next() {
                    Err(e) => Err(e),
                    Ok(t2) => match t2 {
                        Token::Space => Ok(IOOP::PrintChar),
                        Token::Tab => Ok(IOOP::PrintNum),
                        Token::NewLine => Err(DecodeError::MalformedInstruction),
                    },
                },
                Token::Tab => match self.next() {
                    Err(e) => Err(e),
                    Ok(t2) => match t2 {
                        Token::Space => Ok(IOOP::ReadChar),
                        Token::Tab => Ok(IOOP::ReadNum),
                        Token::NewLine => Err(DecodeError::MalformedInstruction),
                    },
                },
                Token::NewLine => Err(DecodeError::MalformedInstruction),
            },
        }
    }

    /// Resolves a flow-family instruction, the cursor standing just past
    /// the family selector.
    fn parse_flow_imp(&mut self) -> (r: Result<FlowOP, DecodeError>)
        requires
            old(self).wf(),
        ensures
            final(self).wf(),
            final(self).toks() == old(self).toks(),
            match r {
                Ok(op) => spec_parse_flow(old(self).toks(), old(self).pos()) == Ok::<
                    (FlowV, int),
                    DecodeError,
                >((op@, final(self).pos())),
                Err(e) => spec_parse_flow(old(self).toks(), old(self).pos()) == Err::<
                    (FlowV, int),
                    DecodeError,
                >(e),
            },
    {
        match self.next() {
            Err(e) => Err(e),
            Ok(t) => match t {
                Token::Space => match self.next() {
                    Err(e) => Err(e),
                    Ok(t2) => match t2 {
                        Token::Space => Ok(FlowOP::Mark(self.parse_label())),
                        Token::Tab => Ok(FlowOP::Call(self.parse_label())),
                        Token::NewLine => Ok(FlowOP::Jump(self.parse_label())),
                    },
                },
                Token::Tab => match self.next() {
                    Err(e) => Err(e),
                    Ok(t2) => match t2 {
                        Token::Space => Ok(FlowOP::BranchZero(self.parse_label())),
                        Token::Tab => Ok(FlowOP::BranchLt(self.parse_label())),
                        Token::NewLine => Ok(FlowOP::Return),
                    },
                },
                Token::NewLine => match self.next() {
                    Err(e) => Err(e),
                    Ok(t2) => match t2 {
                        Token::NewLine => Ok(FlowOP::Exit),
                        Token::Space => Err(DecodeError::MalformedInstruction),
                        Token::Tab => Err(DecodeError::MalformedInstruction),
                    },
                },
            },
        }
    }

    /// Decodes the whole token stream into its instruction list, one
    /// instruction at a time, stopping cleanly when the stream runs out
    /// between instructions.  Any failure mid-instruction aborts the decode
    /// with no partial list.
    pub fn parse(&mut self) -> (r: Result<Vec<Command>, DecodeError>)
        requires
            old(self).wf(),
        ensures
            final(self).wf(),
            final(self).toks() == old(self).toks(),
            match r {
                Ok(cmds) => spec_parse_program(old(self).toks(), old(self).pos()) == Ok::<
                    Seq<CommandV>,
                    DecodeError,
                >(cmds.deep_view()) && wf_program(cmds.deep_view()),
                Err(e) => spec_parse_program(old(self).toks(), old(self).pos()) == Err::<
                    Seq<CommandV>,
                    DecodeError,
                >(e),
            },
    {
        let ghost toks = old(self).toks();
        let ghost pos0 = old(self).pos();
        let mut commands: Vec<Command> = Vec::new();
        loop
            invariant
                self.wf(),
                self.toks() == toks,
                toks == old(self).toks(),
                pos0 == old(self).pos(),
                0 <= pos0 <= self.pos(),
                spec_parse_program(toks, pos0) == (match spec_parse_program(self.toks(), self.pos()) {
                    Ok(rest) => Ok::<Seq<CommandV>, DecodeError>(commands.deep_view() + rest),
                    Err(e) => Err::<Seq<CommandV>, DecodeError>(e),
                }),
            decreases self.toks().len() - self.pos(),
        {
            let ghost pos_before = self.pos();
            let ghost cmds_before = commands.deep_view();
            let t = match self.next() {
                Err(_) => {
                    proof {
                        assert(cmds_before + Seq::<CommandV>::empty() =~= cmds_before);
                        lemma_decoded_program_wf(toks, pos0);
                    }
                    return Ok(commands);
                },
                Ok(t) => t,
            };
            let cmd = match t {
                Token::Space => match self.parse_stack_imp() {
                    Ok(op) => Command::Stack(op),
                    Err(e) => {
                        return Err(e);
                    },
                },
                Token::Tab => match self.next() {
                    Err(e) => {
                        return Err(e);
                    },
                    Ok(t2) => match t2 {
                        Token::Space => match self.parse_arith_imp() {
                            Ok(op) => Command::Arith(op),
                            Err(e) => {
                                return Err(e);
                            },
                        },
                        Token::Tab => match self.parse_heap_imp() {
                            Ok(op) => Command::Heap(op),
                            Err(e) => {
                                return Err(e);
                            },
                        },
                        Token::NewLine => match self.parse_io_imp() {
                            Ok(op) => Command::IO(op),
                            Err(e) => {
                                return Err(e);
                            },
                        },
                    },
                },
                Token::NewLine => match self.parse_flow_imp() {
                    Ok(op) => Command::Flow(op),
                    Err(e) => {
                        return Err(e);
                    },
                },
            };
            proof {
                lemma_parse_command_advances(toks, pos_before);
            }
            commands.push(cmd);
            proof {
                assert(spec_parse_command(toks, pos_before) == Ok::<(CommandV, int), DecodeError>(
                    (cmd@, self.pos()),
                ));
                assert(commands.deep_view() =~= cmds_before.push(cmd@));
                let p = self.pos();
                match spec_parse_program(toks, p) {
                    Ok(rest) => {
                        assert(spec_parse_program(toks, pos_before) == Ok::<
                            Seq<CommandV>,
                            DecodeError,
                        >(seq![cmd@] + rest));
                        assert(cmds_before + (seq![cmd@] + rest) =~= commands.deep_view() + rest);
                    },
                    Err(_) => {},
                }
            }
        }
    }
}

/// Reinterprets a 32-bit accumulator as its two's-complement signed value.
fn u32_to_i32(x: u32) -> (r: i32)
    ensures
        r as int == if x >= 0x8000_0000 {
            x - 0x1_0000_0000
        } else {
            x as int
        },
{
    if x <= 0x7FFF_FFFF {
        x as i32
    } else {
        ((x as i64) - 0x1_0000_0000i64) as i32
    }
}

/// The run of tokens before the next `NewLine`, together with the cursor
/// position after the read: one past the `NewLine` when one exists, and the
/// end of the stream when the run is unterminated.
pub open spec fn spec_read_run(toks: Seq<Token>, pos: int) -> (Seq<Token>, int)
    decreases toks.len() - pos,
{
    if pos < 0 || pos >= toks.len() {
        (Seq::<Token>::empty(), toks.len() as int)
    } else if toks[pos] == Token::NewLine {
        (Seq::<Token>::empty(), pos + 1)
    } else {
        let (run, p) = spec_read_run(toks, pos + 1);
        (seq![toks[pos]] + run, p)
    }
}

/// The binary digit a magnitude token stands for: `Tab` is 1, `Space` is 0.
pub open spec fn spec_digit(t: Token) -> nat {
    if t == Token::Tab {
        1
    } else {
        0
    }
}

/// The big-endian binary value of a magnitude run, unbounded: the first
/// token is the most significant digit.
pub open spec fn spec_digits_value(digits: Seq<Token>) -> nat
    decreases digits.len(),
{
    if digits.len() == 0 {
        0
    } else {
        spec_digits_value(digits.drop_last()) * 2 + spec_digit(digits.last())
    }
}

/// The big-endian binary value of a magnitude run, reduced modulo 2^32 at
/// every step: the value the 32-bit decoder accumulates.
pub open spec fn spec_mag(digits: Seq<Token>) -> nat
    decreases digits.len(),
{
    if digits.len() == 0 {
        0
    } else {
        (spec_mag(digits.drop_last()) * 2 + spec_digit(digits.last())) % 0x1_0000_0000
    }
}

/// The signed 32-bit operand a sign token and a magnitude run decode to:
/// the magnitude, negated when the sign is `Tab`, in two's-complement
/// 32-bit arithmetic.
pub open spec fn spec_operand(sign: Token, digits: Seq<Token>) -> int {
    let m = if sign == Token::Tab {
        (0x1_0000_0000 - spec_mag(digits)) % 0x1_0000_0000
    } else {
        spec_mag(digits) as int
    };
    if m >= 0x8000_0000 {
        m - 0x1_0000_0000
    } else {
        m
    }
}

/// A magnitude run that never left 32 bits keeps its exact value.
pub proof fn lemma_mag_small(digits: Seq<Token>)
    requires
        spec_digits_value(digits) < 0x1_0000_0000,
    ensures
        spec_mag(digits) == spec_digits_value(digits),
    decreases digits.len(),
{
    if digits.len() > 0 {
        lemma_mag_small(digits.drop_last());
    }
}

/// An operand whose magnitude fits the signed 32-bit range decodes to
/// exactly the big-endian value of its digits, negated when the sign token
/// is `Tab`.
pub proof fn lemma_operand_exact(sign: Token, digits: Seq<Token>)
    requires
        sign != Token::NewLine,
        spec_digits_value(digits) <= 0x8000_0000,
        sign == Token::Space ==> spec_digits_value(digits) < 0x8000_0000,
    ensures
        spec_operand(sign, digits) == if sign == Token::Tab {
            -(spec_digits_value(digits) as int)
        } else {
            spec_digits_value(digits) as int
        },
{
    lemma_mag_small(digits);
    if sign == Token::Tab {
        let m = spec_digits_value(digits);
        if m == 0 {
        } else {
            assert((0x1_0000_0000 - m) % 0x1_0000_0000 == 0x1_0000_0000 - m) by {
                vstd::arithmetic::div_mod::lemma_small_mod(
                    (0x1_0000_0000 - m) as nat,
                    0x1_0000_0000,
                );
            }
        }
    }
}

/// How a signed integer operand decodes at `pos`: the token at `pos` is the
/// sign (`NewLine` there is a malformed operand), the run after it up to the
/// next `NewLine` is the magnitude, and the cursor ends past that `NewLine`.
pub open spec fn spec_parse_number(toks: Seq<Token>, pos: int) -> Result<(int, int), DecodeError> {
    if pos >= toks.len() {
        Err(DecodeError::EndOfInput)
    } else if toks[pos] == Token::NewLine {
        Err(DecodeError::MalformedOperand)
    } else {
        let (digits, p) = spec_read_run(toks, pos + 1);
        Ok((spec_operand(toks[pos], digits), p))
    }
}

/// Where `spec_read_run` leaves the cursor: between its starting point and
/// the end of the stream, and every token of the run is taken from the
/// stream and is not a `NewLine`.
pub proof fn lemma_read_run_bounds(toks: Seq<Token>, pos: int)
    requires
        0 <= pos <= toks.len(),
    ensures
        ({
            let (run, p) = spec_read_run(toks, pos);
            &&& pos <= p <= toks.len()
            &&& pos + run.len() <= p
            &&& forall|i: int|
                0 <= i < run.len() ==> run[i] == toks[pos + i] && run[i] != Token::NewLine
        }),
    decreases toks.len() - pos,
{
    if pos >= toks.len() {
    } else if toks[pos] == Token::NewLine {
    } else {
        lemma_read_run_bounds(toks, pos + 1);
    }
}

/// How a stack-family instruction resolves from the token after the family
/// selector: `Space` is `Push`, `Tab` opens the two-token prefixes of
/// `DuplicateNth` and `DiscardTopN` (`Tab`-`Tab` names nothing), and
/// `NewLine` opens the operand-free operations.
pub open spec fn spec_parse_stack(toks: Seq<Token>, pos: int) -> Result<
    (StackOP, int),
    DecodeError,
> {
    if pos >= toks.len() {
        Err(DecodeError::EndOfInput)
    } else {
        match toks[pos] {
            Token::Space => match spec_parse_number(toks, pos + 1) {
                Ok((n, p)) => Ok((StackOP::Push(n as i32), p)),
                Err(e) => Err(e),
            },
            Token::Tab => if pos + 1 >= toks.len() {
                Err(DecodeError::EndOfInput)
            } else {
                match toks[pos + 1] {
                    Token::Space => match spec_parse_number(toks, pos + 2) {
                        Ok((n, p)) => Ok((StackOP::DuplicateNth(n as i32), p)),
                        Err(e) => Err(e),
                    },
                    Token::NewLine => match spec_parse_number(toks, pos + 2) {
                        Ok((n, p)) => Ok((StackOP::DiscardTopN(n as i32), p)),
                        Err(e) => Err(e),
                    },
                    Token::Tab => Err(DecodeError::MalformedInstruction),
                }
            },
            Token::NewLine => if pos + 1 >= toks.len() {
                Err(DecodeError::EndOfInput)
            } else {
                match toks[pos + 1] {
                    Token::Space => Ok((StackOP::Duplicate, pos + 2)),
                    Token::NewLine => Ok((StackOP::Discard, pos + 2)),
                    Token::Tab => Ok((StackOP::Swap, pos + 2)),
                }
            },
        }
    }
}

/// How an arithmetic-family instruction resolves from the token after its
/// family selector.
pub open spec fn spec_parse_arith(toks: Seq<Token>, pos: int) -> Result<
    (ArithOP, int),
    DecodeError,
> {
    if pos >= toks.len() {
        Err(DecodeError::EndOfInput)
    } else {
        match toks[pos] {
            Token::Space => if pos + 1 >= toks.len() {
                Err(DecodeError::EndOfInput)
            } else {
                match toks[pos + 1] {
                    Token::Space => Ok((ArithOP::Sum, pos + 2)),
                    Token::NewLine => Ok((ArithOP::Mul, pos + 2)),
                    Token::Tab => Ok((ArithOP::Sub, pos + 2)),
                }
            },
            Token::Tab => if pos + 1 >= toks.len() {
                Err(DecodeError::EndOfInput)
            } else {
                match toks[pos + 1] {
                    Token::Space => Ok((ArithOP::Div, pos + 2)),
                    Token::Tab => Ok((ArithOP::Rem, pos + 2)),
                    Token::NewLine => Err(DecodeError::MalformedInstruction),
                }
            },
            Token::NewLine => Err(DecodeError::MalformedInstruction),
        }
    }
}

/// How a heap-family instruction resolves from the single token after its
/// family selector.
pub open spec fn spec_parse_heap(toks: Seq<Token>, pos: int) -> Result<
    (HeapOP, int),
    DecodeError,
> {
    if pos >= toks.len() {
        Err(DecodeError::EndOfInput)
    } else {
        match toks[pos] {
            Token::Space => Ok((HeapOP::StoreAt, pos + 1)),
            Token::Tab => Ok((HeapOP::StoreAtStack, pos + 1)),
            Token::NewLine => Err(DecodeError::MalformedInstruction),
        }
    }
}

/// How an I/O-family instruction resolves from the token after its family
/// selector.
pub open spec fn spec_parse_io(toks: Seq<Token>, pos: int) -> Result<(IOOP, int), DecodeError> {
    if pos >= toks.len() {
        Err(DecodeError::EndOfInput)
    } else {
        match toks[pos] {
            Token::Space => if pos + 1 >= toks.len() {
                Err(DecodeError::EndOfInput)
            } else {
                match toks[pos + 1] {
                    Token::Space => Ok((IOOP::PrintChar, pos + 2)),
                    Token::Tab => Ok((IOOP::PrintNum, pos + 2)),
                    Token::NewLine => Err(DecodeError::MalformedInstruction),
                }
            },
            Token::Tab => if pos + 1 >= toks.len() {
                Err(DecodeError::EndOfInput)
            } else {
                match toks[pos + 1] {
                    Token::Space => Ok((IOOP::ReadChar, pos + 2)),
                    Token::Tab => Ok((IOOP::ReadNum, pos + 2)),
                    Token::NewLine => Err(DecodeError::MalformedInstruction),
                }
            },
            Token::NewLine => Err(DecodeError::MalformedInstruction),
        }
    }
}

/// How a flow-family instruction resolves from the token after its family
/// selector; the label-carrying operations read the run up to the next
/// `NewLine` as their label.
pub open spec fn spec_parse_flow(toks: Seq<Token>, pos: int) -> Result<(FlowV, int), DecodeError> {
    if pos >= toks.len() {
        Err(DecodeError::EndOfInput)
    } else {
        match toks[pos] {
            Token::Space => if pos + 1 >= toks.len() {
                Err(DecodeError::EndOfInput)
            } else {
                let (run, p) = spec_read_run(toks, pos + 2);
                match toks[pos + 1] {
                    Token::Space => Ok((FlowV::Mark(run), p)),
                    Token::Tab => Ok((FlowV::Call(run), p)),
                    Token::NewLine => Ok((FlowV::Jump(run), p)),
                }
            },
            Token::Tab => if pos + 1 >= toks.len() {
                Err(DecodeError::EndOfInput)
            } else {
                match toks[pos + 1] {
                    Token::Space => Ok(
                        (FlowV::BranchZero(spec_read_run(toks, pos + 2).0), spec_read_run(
                            toks,
                            pos + 2,
                        ).1),
                    ),
                    Token::Tab => Ok(
                        (FlowV::BranchLt(spec_read_run(toks, pos + 2).0), spec_read_run(
                            toks,
                            pos + 2,
                        ).1),
                    ),
                    Token::NewLine => Ok((FlowV::Return, pos + 2)),
                }
            },
            Token::NewLine => if pos + 1 >= toks.len() {
                Err(DecodeError::EndOfInput)
            } else {
                match toks[pos + 1] {
                    Token::NewLine => Ok((FlowV::Exit, pos + 2)),
                    Token::Space => Err(DecodeError::MalformedInstruction),
                    Token::Tab => Err(DecodeError::MalformedInstruction),
                }
            },
        }
    }
}

/// How one whole instruction resolves at `pos`: the first token selects the
/// family (`Space` stack, `Tab` plus one more token arithmetic, heap or
/// I/O, `NewLine` flow), and the family decoder resolves the rest.
pub open spec fn spec_parse_command(toks: Seq<Token>, pos: int) -> Result<
    (CommandV, int),
    DecodeError,
> {
    if pos >= toks.len() {
        Err(DecodeError::EndOfInput)
    } else {
        match toks[pos] {
            Token::Space => match spec_parse_stack(toks, pos + 1) {
                Ok((op, p)) => Ok((CommandV::Stack(op), p)),
                Err(e) => Err(e),
            },
            Token::Tab => if pos + 1 >= toks.len() {
                Err(DecodeError::EndOfInput)
            } else {
                match toks[pos + 1] {
                    Token::Space => match spec_parse_arith(toks, pos + 2) {
                        Ok((op, p)) => Ok((CommandV::Arith(op), p)),
                        Err(e) => Err(e),
                    },
                    Token::Tab => match spec_parse_heap(toks, pos + 2) {
                        Ok((op, p)) => Ok((CommandV::Heap(op), p)),
                        Err(e) => Err(e),
                    },
                    Token::NewLine => match spec_parse_io(toks, pos + 2) {
                        Ok((op, p)) => Ok((CommandV::IO(op), p)),
                        Err(e) => Err(e),
                    },
                }
            },
            Token::NewLine => match spec_parse_flow(toks, pos + 1) {
                Ok((op, p)) => Ok((CommandV::Flow(op), p)),
                Err(e) => Err(e),
            },
        }
    }
}

/// A successfully decoded number leaves the cursor strictly ahead of where
/// it started and within the stream.
pub proof fn lemma_parse_number_advances(toks: Seq<Token>, pos: int)
    requires
        0 <= pos,
    ensures
        match spec_parse_number(toks, pos) {
            Ok((n, p)) => pos < p <= toks.len(),
            Err(_) => true,
        },
{
    if pos < toks.len() && toks[pos] != Token::NewLine {
        lemma_read_run_bounds(toks, pos + 1);
    }
}

/// A successfully decoded stack operation advances the cursor and stays
/// within the stream.
pub proof fn lemma_parse_stack_advances(toks: Seq<Token>, pos: int)
    requires
        0 <= pos,
    ensures
        match spec_parse_stack(toks, pos) {
            Ok((op, p)) => pos < p <= toks.len(),
            Err(_) => true,
        },
{
    lemma_parse_number_advances(toks, pos + 1);
    lemma_parse_number_advances(toks, pos + 2);
}

/// A successfully decoded flow operation advances the cursor and stays
/// within the stream.
pub proof fn lemma_parse_flow_advances(toks: Seq<Token>, pos: int)
    requires
        0 <= pos,
    ensures
        match spec_parse_flow(toks, pos) {
            Ok((op, p)) => pos < p <= toks.len(),
            Err(_) => true,
        },
{
    if pos + 2 <= toks.len() {
        lemma_read_run_bounds(toks, pos + 2);
    }
}

/// A successfully decoded instruction advances the cursor and stays within
/// the stream.
pub proof fn lemma_parse_command_advances(toks: Seq<Token>, pos: int)
    requires
        0 <= pos,
    ensures
        match spec_parse_command(toks, pos) {
            Ok((c, p)) => pos < p <= toks.len(),
            Err(_) => true,
        },
{
    lemma_parse_stack_advances(toks, pos + 1);
    lemma_parse_flow_advances(toks, pos + 1);
}

/// How a whole program decodes from `pos`: instruction after instruction,
/// until the stream is exhausted exactly between instructions.  A failure
/// anywhere aborts the whole decode with that failure.
pub open spec fn spec_parse_program(toks: Seq<Token>, pos: int) -> Result<Seq<CommandV>, DecodeError>
    decreases toks.len() - pos,
    when 0 <= pos <= toks.len()
{
    if pos == toks.len() {
        Ok(Seq::empty())
    } else {
        match spec_parse_command(toks, pos) {
            Ok((c, p)) => {
                proof {
                    lemma_parse_command_advances(toks, pos);
                }
                match spec_parse_program(toks, p) {
                    Ok(rest) => Ok(seq![c] + rest),
                    Err(e) => Err(e),
                }
            },
            Err(e) => Err(e),
        }
    }
}

/// A decoded instruction is always well formed: any label it carries was
/// read up to a `NewLine` and so cannot hold one.
pub proof fn lemma_parse_command_wf(toks: Seq<Token>, pos: int)
    requires
        0 <= pos,
    ensures
        match spec_parse_command(toks, pos) {
            Ok((c, p)) => wf_command(c),
            Err(_) => true,
        },
{
    if pos + 3 <= toks.len() {
        lemma_read_run_bounds(toks, pos + 3);
    }
}

/// Every instruction list the decoder returns is well formed: no label in
/// it holds a `NewLine` token.
pub proof fn lemma_decoded_program_wf(toks: Seq<Token>, pos: int)
    requires
        0 <= pos <= toks.len(),
    ensures
        match spec_parse_program(toks, pos) {
            Ok(cs) => wf_program(cs),
            Err(_) => true,
        },
    decreases toks.len() - pos,
{
    if pos < toks.len() {
        match spec_parse_command(toks, pos) {
            Ok((c, p)) => {
                lemma_parse_command_advances(toks, pos);
                lemma_parse_command_wf(toks, pos);
                lemma_decoded_program_wf(toks, p);
                match spec_parse_program(toks, p) {
                    Ok(rest) => {
                        assert(forall|i: int|
                            0 <= i < (seq![c] + rest).len() ==> wf_command(
                                #[trigger] (seq![c] + rest)[i],
                            )) by {
                            assert(forall|i: int|
                                1 <= i < (seq![c] + rest).len() ==> (seq![c] + rest)[i]
                                    == #[trigger] rest[i - 1]);
                        }
                    },
                    Err(_) => {},
                }
            },
            Err(_) => {},
        }
    }
}

} // verus!
