//! What one instruction does to the machine, as a mathematical function.
//!
//! The machine owns a data stack, whose top is the last element, a heap of
//! fixed length, a table from labels to positions in the program, and a
//! pointer to the instruction that comes next. [`step`] says, for every
//! state, program and input, what state follows and what the machine asks of
//! its surroundings; the interpreter is proved to compute exactly that.

use vstd::prelude::*;
use crate::decimal::line_value;
use crate::interpreter::{Action, ProgramError};
use crate::parser::Op;
use crate::word::{has_quotient, truncated_quotient, truncated_remainder, wrap_i32};

verus! {

/// What the surroundings hand to the machine together with a step.
pub enum Input {
    /// Nothing was read.
    Nothing,
    /// A character was read.
    Char(char),
    /// A line was read.
    Line(Seq<char>),
}

/// A state of the machine.
pub struct Machine {
    /// The position in the program of the instruction that comes next.
    pub pointer: int,
    /// The data stack; its top is the last element.
    pub stack: Seq<i32>,
    /// The heap.
    pub heap: Seq<i32>,
    /// The position recorded for each label.
    pub labels: Map<Seq<char>, usize>,
}

/// A state together with what the step that led to it reports.
pub struct Outcome {
    pub machine: Machine,
    pub result: Result<Action, ProgramError>,
}

/// Whether `code` is a Unicode scalar value, that is the code of a character.
pub open spec fn is_scalar_value(code: int) -> bool {
    0 <= code <= 0xD7FF || 0xE000 <= code <= 0x10FFFF
}

impl Machine {
    /// The value on top of the stack.
    pub open spec fn top(self) -> i32
        recommends
            self.stack.len() > 0,
    {
        self.stack.last()
    }

    /// The state with `value` pushed.
    pub open spec fn pushed(self, value: i32) -> Machine {
        Machine { stack: self.stack.push(value), ..self }
    }

    /// The state with the top of the stack removed.
    pub open spec fn popped(self) -> Machine
        recommends
            self.stack.len() > 0,
    {
        Machine { stack: self.stack.drop_last(), ..self }
    }

    /// The state with the pointer at `target`.
    pub open spec fn at(self, target: int) -> Machine {
        Machine { pointer: target, ..self }
    }

    /// The state with `value` stored in the heap at `address`.
    pub open spec fn stored(self, address: int, value: i32) -> Machine
        recommends
            0 <= address < self.heap.len(),
    {
        Machine { heap: self.heap.update(address, value), ..self }
    }

    /// The step is done: the pointer moves to the following instruction.
    pub open spec fn proceed(self) -> Outcome {
        self.proceed_with(Action::Proceed)
    }

    /// The step is done and asks for `action`: the pointer moves to the
    /// following instruction.
    pub open spec fn proceed_with(self, action: Action) -> Outcome {
        Outcome { machine: self.at(self.pointer + 1), result: Ok(action) }
    }

    /// The step asks for `action` and leaves the state as it is.
    pub open spec fn stay(self, action: Action) -> Outcome {
        Outcome { machine: self, result: Ok(action) }
    }

    /// The step fails with `error` and leaves the state as it is.
    pub open spec fn fail(self, error: ProgramError) -> Outcome {
        Outcome { machine: self, result: Err(error) }
    }

    /// The pointer moves to the position recorded for `label`, and the step
    /// is done; fails where the table does not hold the label.
    pub open spec fn jump(self, label: Seq<char>) -> Outcome {
        if self.labels.contains_key(label) {
            self.at(self.labels[label] as int).proceed()
        } else {
            self.fail(ProgramError::LabelNotFound)
        }
    }

    /// Every recorded position leaves room for the pointer to move past it.
    pub open spec fn wf(self) -> bool {
        forall|label: Seq<char>| #[trigger]
            self.labels.contains_key(label) ==> self.labels[label] < usize::MAX
    }
}

/// Pops one value and goes on with `then`; fails on an empty stack.
pub open spec fn pop_one(m: Machine, then: spec_fn(i32, Machine) -> Outcome) -> Outcome {
    if m.stack.len() == 0 {
        m.fail(ProgramError::EmptyStackPop)
    } else {
        then(m.top(), m.popped())
    }
}

/// Pops two values, the top first, and goes on with `then`. Where the second
/// is missing the step fails with the first already gone.
pub open spec fn pop_two(m: Machine, then: spec_fn(i32, i32, Machine) -> Outcome) -> Outcome {
    if m.stack.len() == 0 {
        m.fail(ProgramError::EmptyStackPop)
    } else if m.stack.len() == 1 {
        m.popped().fail(ProgramError::EmptyStackPop)
    } else {
        then(m.top(), m.popped().top(), m.popped().popped())
    }
}

/// Looks at the top of the stack and goes on with `then`; fails on an empty
/// stack.
pub open spec fn peek(m: Machine, then: spec_fn(i32) -> Outcome) -> Outcome {
    if m.stack.len() == 0 {
        m.fail(ProgramError::EmptyStackPeek)
    } else {
        then(m.top())
    }
}

/// What the instruction `op` does in state `m`, given `input`.
///
/// The operand popped first is the left one. Sums, differences and products
/// wrap in 32 bits. Quotient and remainder are truncated towards zero, and
/// both fail where the divisor is zero or the quotient does not fit.
pub open spec fn execute(m: Machine, op: Op, input: Input) -> Outcome {
    match op {
        Op::Push(n) => m.pushed(n).proceed(),
        Op::Duplicate => peek(m, |top: i32| m.pushed(top).proceed()),
        Op::Copy(_) => m.fail(ProgramError::NotImplemented),
        Op::Swap => if m.stack.len() < 2 {
            m.fail(ProgramError::IndexOutOfRange)
        } else {
            m.popped().popped().pushed(m.top()).pushed(m.popped().top()).proceed()
        },
        Op::Discard => pop_one(m, |top: i32, rest: Machine| rest.proceed()),
        Op::Slide(_) => m.fail(ProgramError::NotImplemented),
        Op::Add => pop_two(
            m,
            |left: i32, right: i32, rest: Machine| rest.pushed(wrap_i32(left + right)).proceed(),
        ),
        Op::Substract => pop_two(
            m,
            |left: i32, right: i32, rest: Machine| rest.pushed(wrap_i32(left - right)).proceed(),
        ),
        Op::Multiply => pop_two(
            m,
            |left: i32, right: i32, rest: Machine| rest.pushed(wrap_i32(left * right)).proceed(),
        ),
        Op::Divide => pop_two(
            m,
            |left: i32, right: i32, rest: Machine|
                if has_quotient(left, right) {
                    rest.pushed(truncated_quotient(left as int, right as int) as i32).proceed()
                } else {
                    rest.fail(ProgramError::DivisionByZero { dividend: left })
                },
        ),
        Op::Modulo => pop_two(
            m,
            |left: i32, right: i32, rest: Machine|
                if has_quotient(left, right) {
                    rest.pushed(truncated_remainder(left as int, right as int) as i32).proceed()
                } else {
                    rest.fail(ProgramError::DivisionByZero { dividend: left })
                },
        ),
        Op::HeapStore => pop_two(
            m,
            |value: i32, address: i32, rest: Machine|
                if 0 <= address < rest.heap.len() {
                    rest.stored(address as int, value).proceed()
                } else {
                    rest.fail(ProgramError::HeapOverflow)
                },
        ),
        Op::HeapRetrieve => pop_one(
            m,
            |address: i32, rest: Machine|
                if 0 <= address < rest.heap.len() {
                    rest.pushed(rest.heap[address as int]).proceed()
                } else {
                    rest.fail(ProgramError::HeapOverflow)
                },
        ),
        Op::MarkLocation(_) => m.proceed(),
        Op::Call(label) => if m.pointer + 1 > i32::MAX {
            m.fail(ProgramError::InvalidReturnAddress)
        } else {
            m.pushed((m.pointer + 1) as i32).jump(label)
        },
        Op::Jump(label) => m.jump(label),
        Op::JumpIfZero(label) => peek(
            m,
            |top: i32|
                if top == 0 {
                    m.jump(label)
                } else {
                    m.proceed()
                },
        ),
        Op::JumpIfNegative(label) => peek(
            m,
            |top: i32|
                if top < 0 {
                    m.jump(label)
                } else {
                    m.proceed()
                },
        ),
        Op::EndSubroutine => pop_one(
            m,
            |address: i32, rest: Machine|
                if address < 0 {
                    rest.fail(ProgramError::InvalidReturnAddress)
                } else {
                    rest.at(address as int).proceed()
                },
        ),
        Op::EndProgram => m.stay(Action::Halt),
        Op::OutputChar => pop_one(
            m,
            |code: i32, rest: Machine|
                if is_scalar_value(code as int) {
                    rest.proceed_with(Action::WriteChar(code as char))
                } else {
                    rest.fail(ProgramError::InvalidCharacter)
                },
        ),
        Op::OutputNumber => pop_one(
            m,
            |number: i32, rest: Machine| rest.proceed_with(Action::WriteNumber(number)),
        ),
        Op::ReadChar => match input {
            Input::Char(c) => m.pushed(c as i32).proceed(),
            _ => m.stay(Action::ReadChar),
        },
        Op::ReadNumber => match input {
            Input::Line(line) => match line_value(line) {
                Some(number) => m.pushed(number).proceed(),
                None => m.fail(ProgramError::InvalidNumber),
            },
            _ => m.stay(Action::ReadLine),
        },
    }
}

/// One step of the machine: the instruction under the pointer is executed.
/// Where the pointer lies outside the program the step fails.
pub open spec fn step(m: Machine, program: Seq<Op>, input: Input) -> Outcome {
    if 0 <= m.pointer < program.len() {
        execute(m, program[m.pointer], input)
    } else {
        m.fail(ProgramError::NoMoreInstructions)
    }
}

/// The table of labels after a scan of `program` that began with the table
/// `known`: each label marked in the program stands for the position of its
/// mark, and for the last of them where it is marked more than once.
pub open spec fn label_table(program: Seq<Op>, known: Map<Seq<char>, usize>) -> Map<
    Seq<char>,
    usize,
>
    decreases program.len(),
{
    if program.len() == 0 {
        known
    } else {
        let earlier = label_table(program.drop_last(), known);
        match program.last() {
            Op::MarkLocation(label) => earlier.insert(label, (program.len() - 1) as usize),
            _ => earlier,
        }
    }
}

/// A step never changes the size of the heap nor the table of labels, and a
/// step that fails leaves every cell of the heap as it was.
pub proof fn law_heap_and_labels_are_kept(m: Machine, program: Seq<Op>, input: Input)
    ensures
        step(m, program, input).machine.heap.len() == m.heap.len(),
        step(m, program, input).machine.labels == m.labels,
        step(m, program, input).result is Err ==> step(m, program, input).machine.heap == m.heap,
{
}

/// A store to an address that is negative or not below the size of the heap
/// fails as a heap overflow, with both operands popped and the heap as it
/// was.
pub proof fn law_store_outside_the_heap(m: Machine, program: Seq<Op>, input: Input)
    requires
        0 <= m.pointer < program.len(),
        program[m.pointer] == Op::HeapStore,
        m.stack.len() >= 2,
        !(0 <= m.stack[m.stack.len() - 2] < m.heap.len()),
    ensures
        step(m, program, input).result == Err::<Action, ProgramError>(ProgramError::HeapOverflow),
        step(m, program, input).machine.heap == m.heap,
        step(m, program, input).machine.stack == m.stack.take(m.stack.len() - 2),
        step(m, program, input).machine.pointer == m.pointer,
{
}

/// A call pushes the position behind itself, and a return continues one
/// position behind the address that it pops. So a return that pops what a
/// call at position `m.pointer` pushed continues two positions behind the
/// call, never at the call itself, with the stack as it was before the call.
pub proof fn law_call_and_return(
    m: Machine,
    callee: Machine,
    program: Seq<Op>,
    label: Seq<char>,
    input: Input,
)
    requires
        0 <= m.pointer < program.len(),
        m.pointer < i32::MAX,
        program[m.pointer] == Op::Call(label),
        m.labels.contains_key(label),
        0 <= callee.pointer < program.len(),
        program[callee.pointer] == Op::EndSubroutine,
        callee.stack == step(m, program, input).machine.stack,
    ensures
        step(m, program, input).result == Ok::<Action, ProgramError>(Action::Proceed),
        step(m, program, input).machine.pointer == m.labels[label] + 1,
        step(m, program, input).machine.stack == m.stack.push((m.pointer + 1) as i32),
        step(callee, program, input).result == Ok::<Action, ProgramError>(Action::Proceed),
        step(callee, program, input).machine.pointer == m.pointer + 2,
        step(callee, program, input).machine.stack == m.stack,
{
}

/// A step with the pointer outside the program fails for want of an
/// instruction and changes nothing, and a step ends the program only on the
/// instruction that says so. A program without that instruction therefore
/// never ends in success: once the pointer runs off its end, every step
/// fails.
pub proof fn law_running_off_the_end(m: Machine, program: Seq<Op>, input: Input)
    ensures
        !(0 <= m.pointer < program.len()) ==> step(m, program, input) == m.fail(
            ProgramError::NoMoreInstructions,
        ),
        step(m, program, input).result == Ok::<Action, ProgramError>(Action::Halt) <==> 0
            <= m.pointer < program.len() && program[m.pointer] == Op::EndProgram,
{
}

/// A step keeps every recorded position within reach of the pointer.
pub proof fn law_step_keeps_wf(m: Machine, program: Seq<Op>, input: Input)
    requires
        m.wf(),
    ensures
        step(m, program, input).machine.wf(),
{
    law_heap_and_labels_are_kept(m, program, input);
}

/// A label stands for the position of its last mark in the program.
pub proof fn law_last_mark_wins(
    program: Seq<Op>,
    known: Map<Seq<char>, usize>,
    label: Seq<char>,
    last: int,
)
    requires
        0 <= last < program.len() <= usize::MAX,
        program[last] == Op::MarkLocation(label),
        forall|i: int| last < i < program.len() ==> program[i] != Op::MarkLocation(label),
    ensures
        label_table(program, known).contains_key(label),
        label_table(program, known)[label] == last,
    decreases program.len(),
{
    if last < program.len() - 1 {
        law_last_mark_wins(program.drop_last(), known, label, last);
    }
}

/// After a scan every label that the program marks is known and stands for a
/// position inside the program, so that a jump to it finds an instruction.
pub proof fn law_marked_labels_lie_in_the_program(
    program: Seq<Op>,
    known: Map<Seq<char>, usize>,
    label: Seq<char>,
    mark: int,
)
    requires
        0 <= mark < program.len() <= usize::MAX,
        program[mark] == Op::MarkLocation(label),
    ensures
        label_table(program, known).contains_key(label),
        mark <= label_table(program, known)[label] < program.len(),
        program[label_table(program, known)[label] as int] == Op::MarkLocation(label),
    decreases program.len(),
{
    if mark < program.len() - 1 {
        law_marked_labels_lie_in_the_program(program.drop_last(), known, label, mark);
    }
}

/// A label that the program does not mark keeps what the table held for it
/// before the scan.
pub proof fn law_unmarked_label_is_kept(
    program: Seq<Op>,
    known: Map<Seq<char>, usize>,
    label: Seq<char>,
)
    requires
        forall|i: int| 0 <= i < program.len() ==> program[i] != Op::MarkLocation(label),
    ensures
        label_table(program, known).contains_key(label) == known.contains_key(label),
        known.contains_key(label) ==> label_table(program, known)[label] == known[label],
    decreases program.len(),
{
    if program.len() > 0 {
        law_unmarked_label_is_kept(program.drop_last(), known, label);
    }
}

} // verus!
