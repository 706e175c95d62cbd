//! The virtual machine that executes a decoded program.
//!
//! The machine never reads or writes by itself. [`VM::step`] executes one
//! instruction and reports what it asks of its surroundings: to write a
//! character or a number, or to read one and hand it back with the next step.

use vstd::prelude::*;
use vstd::hash_map::StringHashMap;
use crate::decimal::read_number;
use crate::parser::{family_of, program_of, Family, Instruction, Op};
use crate::semantics::{execute, is_scalar_value, label_table, step, Input, Machine};
use crate::word::{lemma_checked_division, lemma_wrapping_operations};

verus! {

/// Why the execution of a program stops short.
#[derive(Debug, PartialEq, Eq, Clone, Copy)]
pub enum ProgramError {
    /// The pointer has left the program: it ran off its end, or a return
    /// led outside it.
    NoMoreInstructions,
    /// A value was to be popped from an empty stack.
    EmptyStackPop,
    /// The top of an empty stack was to be read.
    EmptyStackPeek,
    /// The two topmost values were to be swapped where fewer are present.
    IndexOutOfRange,
    /// A jump or a call names a label that the program does not mark.
    LabelNotFound,
    /// A heap address is negative or not below the size of the heap.
    HeapOverflow,
    /// A quotient or remainder with a zero divisor, or one that does not
    /// fit in 32 bits.
    DivisionByZero { dividend: i32 },
    /// The value to write is not the code of a character.
    InvalidCharacter,
    /// The line read does not stand for a number.
    InvalidNumber,
    /// A return address is negative, or that of a call does not fit in 32
    /// bits.
    InvalidReturnAddress,
    /// The instruction is decoded but not executed.
    NotImplemented,
}

/// What the machine asks of its surroundings after a step.
#[derive(Debug, PartialEq, Eq, Clone, Copy)]
pub enum Action {
    /// Nothing: take the next step.
    Proceed,
    /// The program has ended.
    Halt,
    /// Write this character, then take the next step.
    WriteChar(char),
    /// Write this number in decimal, then take the next step.
    WriteNumber(i32),
    /// Read a character and hand it over with the next step.
    ReadChar,
    /// Read a line and hand it over with the next step.
    ReadLine,
}

/// What the surroundings hand to the machine together with a step.
#[derive(Debug, PartialEq, Eq, Clone)]
pub enum Event {
    /// Nothing was read since the last step.
    Resume,
    /// The character that the last step asked for.
    Char(char),
    /// The line that the last step asked for.
    Line(String),
}

impl View for Event {
    type V = Input;

    open spec fn view(&self) -> Input {
        match self {
            Event::Resume => Input::Nothing,
            Event::Char(c) => Input::Char(*c),
            Event::Line(line) => Input::Line(line@),
        }
    }
}

/// `char::from_u32` gives the character whose code is `i`, and none exactly
/// where `i` is a surrogate or lies above `0x10FFFF`.
pub assume_specification[ char::from_u32 ](i: u32) -> (c: Option<char>)
    ensures
        match c {
            Some(c) => is_scalar_value(i as int) && c as int == i as int,
            None => !is_scalar_value(i as int),
        },
;

/// The machine: a data stack, a heap of fixed size, a table of labels and
/// the pointer to the next instruction.
pub struct VM {
    instruction_ptr: usize,
    pub stack: Vec<i32>,
    labels: StringHashMap<usize>,
    pub heap: Vec<i32>,
}

impl View for VM {
    type V = Machine;

    closed spec fn view(&self) -> Machine {
        Machine {
            pointer: self.instruction_ptr as int,
            stack: self.stack@,
            heap: self.heap@,
            labels: self.labels@,
        }
    }
}

impl VM {
    /// A machine with a heap of 1024 cells.
    pub fn new() -> (vm: Self)
        ensures
            vm@.wf(),
            vm@ == (Machine {
                pointer: 0,
                stack: Seq::empty(),
                heap: Seq::new(1024, |i: int| 0i32),
                labels: Map::empty(),
            }),
    {
        Self::with_heap_size(1024)
    }

    /// A machine with a heap of `heap_size` cells, each of them zero, an
    /// empty stack, no label and the pointer at the first instruction.
    ///
    /// The heap has to fit in memory: no allocation holds more than
    /// `isize::MAX` bytes.
    pub fn with_heap_size(heap_size: usize) -> (vm: Self)
        requires
            4 * heap_size <= isize::MAX,
        ensures
            vm@.wf(),
            vm@ == (Machine {
                pointer: 0,
                stack: Seq::empty(),
                heap: Seq::new(heap_size as nat, |i: int| 0i32),
                labels: Map::empty(),
            }),
    {
        let heap: Vec<i32> = vec![0; heap_size];
        assert(heap@ =~= Seq::new(heap_size as nat, |i: int| 0i32));
        Self { instruction_ptr: 0, stack: Vec::new(), labels: StringHashMap::new(), heap }
    }

    /// The position of the instruction that comes next.
    pub fn pointer(&self) -> (pointer: usize)
        ensures
            pointer == self@.pointer,
    {
        self.instruction_ptr
    }

    /// The data stack; its top is the last element.
    pub fn stack(&self) -> (stack: &Vec<i32>)
        ensures
            stack@ == self@.stack,
    {
        &self.stack
    }

    /// The heap.
    pub fn heap(&self) -> (heap: &Vec<i32>)
        ensures
            heap@ == self@.heap,
    {
        &self.heap
    }

    /// Records the position of every label that `instructions` marks. A
    /// label marked again, here or in an earlier scan, stands for the later
    /// position.
    pub fn scan_labels(&mut self, instructions: &[Instruction])
        ensures
            old(self)@.wf() ==> final(self)@.wf(),
            final(self)@ == (Machine {
                labels: label_table(program_of(instructions@), old(self)@.labels),
                ..old(self)@
            }),
    {
        let ghost program = program_of(instructions@);
        let mut i: usize = 0;
        while i < instructions.len()
            invariant
                i <= instructions.len(),
                program == program_of(instructions@),
                self.instruction_ptr == old(self).instruction_ptr,
                self.stack == old(self).stack,
                self.heap == old(self).heap,
                self.labels@ == label_table(program.take(i as int), old(self)@.labels),
                old(self)@.wf() ==> self@.wf(),
            decreases instructions.len() - i,
        {
            proof {
                assert(program.take(i + 1).drop_last() =~= program.take(i as int));
            }
            if let Instruction::MarkLocation(label) = &instructions[i] {
                let ghost before = self@;
                self.labels.insert(label.clone(), i);
                assert(before.wf() ==> self@.wf()) by {
                    if before.wf() {
                        assert forall|other: Seq<char>| #[trigger]
                            self@.labels.contains_key(other) implies self@.labels[other]
                            < usize::MAX by {
                            if other != label@ {
                                assert(before.labels.contains_key(other));
                            }
                        }
                    }
                }
            }
            i += 1;
        }
        assert(program.take(instructions.len() as int) =~= program);
    }

    /// Executes the instruction under the pointer and reports what the
    /// machine asks for next.
    ///
    /// An instruction that reads takes what it reads from `event`. Where
    /// `event` does not hold it, the step changes nothing and asks for it: the
    /// next step is to bring it. Every other instruction ignores `event`.
    /// After an error the stack and the heap are as the failing instruction
    /// left them: what it popped before it failed is gone.
    pub fn step(&mut self, instructions: &[Instruction], event: Event) -> (r: Result<
        Action,
        ProgramError,
    >)
        requires
            old(self)@.wf(),
        ensures
            final(self)@.wf(),
            final(self)@ == step(old(self)@, program_of(instructions@), event@).machine,
            r == step(old(self)@, program_of(instructions@), event@).result,
    {
        if self.instruction_ptr >= instructions.len() {
            return Err(ProgramError::NoMoreInstructions);
        }
        let instruction = &instructions[self.instruction_ptr];
        match instruction.family() {
            Family::StackManipulation => self.manipulate_stack(instruction),
            Family::Arithmetic => self.calculate(instruction),
            Family::HeapAccess => self.access_heap(instruction),
            Family::FlowControl => self.control_flow(instruction),
            Family::InputOutput => self.transfer(instruction, event),
        }
    }

    /// Executes an instruction that rearranges the stack.
    fn manipulate_stack(&mut self, instruction: &Instruction) -> (r: Result<Action, ProgramError>)
        requires
            family_of(instruction@) == Family::StackManipulation,
            old(self)@.pointer < usize::MAX,
        ensures
            final(self)@ == execute(old(self)@, instruction@, Input::Nothing).machine,
            r == execute(old(self)@, instruction@, Input::Nothing).result,
    {
        match instruction {
            Instruction::Push(number) => {
                self.stack.push(*number);
            },
            Instruction::Duplicate => {
                let element = *self.peek_stack()?;
                self.stack.push(element);
            },
            Instruction::Swap => {
                let stack_len = self.stack.len();
                if stack_len < 2 {
                    return Err(ProgramError::IndexOutOfRange);
                }
                let top = self.stack[stack_len - 1];
                self.stack[stack_len - 1] = self.stack[stack_len - 2];
                self.stack[stack_len - 2] = top;
                assert(self.stack@ =~= old(self)@.popped().popped().pushed(old(self)@.top()).pushed(
                    old(self)@.popped().top(),
                ).stack);
            },
            Instruction::Discard => {
                self.pop_stack()?;
            },
            _ => {
                return Err(ProgramError::NotImplemented);
            },
        }
        self.instruction_ptr += 1;
        Ok(Action::Proceed)
    }

    /// Executes an arithmetic instruction: the operand popped first is the
    /// left one.
    fn calculate(&mut self, instruction: &Instruction) -> (r: Result<Action, ProgramError>)
        requires
            family_of(instruction@) == Family::Arithmetic,
            old(self)@.pointer < usize::MAX,
        ensures
            final(self)@ == execute(old(self)@, instruction@, Input::Nothing).machine,
            r == execute(old(self)@, instruction@, Input::Nothing).result,
    {
        let left = self.pop_stack()?;
        let right = self.pop_stack()?;
        proof {
            lemma_wrapping_operations(left, right);
            lemma_checked_division(left, right);
        }
        let result = match instruction {
            Instruction::Add => Some(left.wrapping_add(right)),
            Instruction::Substract => Some(left.wrapping_sub(right)),
            Instruction::Multiply => Some(left.wrapping_mul(right)),
            Instruction::Divide => left.checked_div(right),
            _ => left.checked_rem(right),
        };
        match result {
            Some(value) => self.stack.push(value),
            None => {
                return Err(ProgramError::DivisionByZero { dividend: left });
            },
        }
        self.instruction_ptr += 1;
        Ok(Action::Proceed)
    }

    /// Executes an instruction that stores to the heap or retrieves from it.
    fn access_heap(&mut self, instruction: &Instruction) -> (r: Result<Action, ProgramError>)
        requires
            family_of(instruction@) == Family::HeapAccess,
            old(self)@.pointer < usize::MAX,
        ensures
            final(self)@ == execute(old(self)@, instruction@, Input::Nothing).machine,
            r == execute(old(self)@, instruction@, Input::Nothing).result,
    {
        match instruction {
            Instruction::HeapStore => {
                let value = self.pop_stack()?;
                let address = self.pop_stack()?;
                self.store_heap(address, value)?;
            },
            _ => {
                let address = self.pop_stack()?;
                let value = self.get_heap(address)?;
                self.stack.push(value);
            },
        }
        self.instruction_ptr += 1;
        Ok(Action::Proceed)
    }

    /// Executes a mark, a jump, a call, a return or the end of the program.
    fn control_flow(&mut self, instruction: &Instruction) -> (r: Result<Action, ProgramError>)
        requires
            family_of(instruction@) == Family::FlowControl,
            old(self)@.pointer < usize::MAX,
            old(self)@.wf(),
        ensures
            final(self)@ == execute(old(self)@, instruction@, Input::Nothing).machine,
            r == execute(old(self)@, instruction@, Input::Nothing).result,
    {
        match instruction {
            Instruction::Call(label) => {
                if self.instruction_ptr >= i32::MAX as usize {
                    return Err(ProgramError::InvalidReturnAddress);
                }
                self.stack.push(self.instruction_ptr as i32 + 1);
                self.jump(label)?;
            },
            Instruction::Jump(label) => {
                self.jump(label)?;
            },
            Instruction::JumpIfZero(label) => {
                let top = *self.peek_stack()?;
                if top == 0 {
                    self.jump(label)?;
                }
            },
            Instruction::JumpIfNegative(label) => {
                let top = *self.peek_stack()?;
                if top < 0 {
                    self.jump(label)?;
                }
            },
            Instruction::EndSubroutine => {
                let addr = self.pop_stack()?;
                if addr < 0 {
                    return Err(ProgramError::InvalidReturnAddress);
                }
                self.instruction_ptr = addr as usize;
            },
            Instruction::EndProgram => {
                return Ok(Action::Halt);
            },
            _ => {},
        }
        self.instruction_ptr += 1;
        Ok(Action::Proceed)
    }

    /// Executes an instruction that writes or reads.
    fn transfer(&mut self, instruction: &Instruction, event: Event) -> (r: Result<
        Action,
        ProgramError,
    >)
        requires
            family_of(instruction@) == Family::InputOutput,
            old(self)@.pointer < usize::MAX,
        ensures
            final(self)@ == execute(old(self)@, instruction@, event@).machine,
            r == execute(old(self)@, instruction@, event@).result,
    {
        let mut action = Action::Proceed;
        match instruction {
            Instruction::OutputChar => {
                let element = self.pop_stack()?;
                if element < 0 {
                    return Err(ProgramError::InvalidCharacter);
                }
                match char::from_u32(element as u32) {
                    Some(chr) => {
                        action = Action::WriteChar(chr);
                    },
                    None => {
                        return Err(ProgramError::InvalidCharacter);
                    },
                }
            },
            Instruction::OutputNumber => {
                let element = self.pop_stack()?;
                action = Action::WriteNumber(element);
            },
            Instruction::ReadChar => match event {
                Event::Char(chr) => {
                    self.stack.push(chr as i32);
                },
                _ => {
                    return Ok(Action::ReadChar);
                },
            },
            _ => match event {
                Event::Line(line) => match read_number(line.as_str()) {
                    Some(number) => self.stack.push(number),
                    None => {
                        return Err(ProgramError::InvalidNumber);
                    },
                },
                _ => {
                    return Ok(Action::ReadLine);
                },
            },
        }
        self.instruction_ptr += 1;
        Ok(action)
    }

    /// Takes the top of the stack off.
    fn pop_stack(&mut self) -> (r: Result<i32, ProgramError>)
        ensures
            match r {
                Ok(value) => {
                    &&& old(self)@.stack.len() > 0
                    &&& value == old(self)@.top()
                    &&& final(self)@ == old(self)@.popped()
                },
                Err(e) => {
                    &&& old(self)@.stack.len() == 0
                    &&& e == ProgramError::EmptyStackPop
                    &&& final(self)@ == old(self)@
                },
            },
    {
        match self.stack.pop() {
            Some(value) => Ok(value),
            None => Err(ProgramError::EmptyStackPop),
        }
    }

    /// Looks at the top of the stack.
    fn peek_stack(&self) -> (r: Result<&i32, ProgramError>)
        ensures
            match r {
                Ok(value) => self@.stack.len() > 0 && *value == self@.top(),
                Err(e) => self@.stack.len() == 0 && e == ProgramError::EmptyStackPeek,
            },
    {
        if self.stack.len() == 0 {
            Err(ProgramError::EmptyStackPeek)
        } else {
            Ok(&self.stack[self.stack.len() - 1])
        }
    }

    /// Moves the pointer to the position recorded for `label`.
    fn jump(&mut self, label: &String) -> (r: Result<(), ProgramError>)
        ensures
            match r {
                Ok(_) => old(self)@.labels.contains_key(label@) && final(self)@ == old(self)@.at(
                    old(self)@.labels[label@] as int,
                ),
                Err(e) => !old(self)@.labels.contains_key(label@) && e
                    == ProgramError::LabelNotFound && final(self)@ == old(self)@,
            },
    {
        match self.labels.get(label.as_str()) {
            Some(target) => {
                self.instruction_ptr = *target;
                Ok(())
            },
            None => Err(ProgramError::LabelNotFound),
        }
    }

    /// Reads the cell of the heap at `address`.
    fn get_heap(&self, address: i32) -> (r: Result<i32, ProgramError>)
        ensures
            match r {
                Ok(value) => 0 <= address < self@.heap.len() && value == self@.heap[address as int],
                Err(e) => !(0 <= address < self@.heap.len()) && e == ProgramError::HeapOverflow,
            },
    {
        if address < 0 || address as usize >= self.heap.len() {
            return Err(ProgramError::HeapOverflow);
        }
        Ok(self.heap[address as usize])
    }

    /// Writes `value` to the cell of the heap at `address`.
    fn store_heap(&mut self, address: i32, value: i32) -> (r: Result<(), ProgramError>)
        ensures
            match r {
                Ok(_) => {
                    &&& 0 <= address < old(self)@.heap.len()
                    &&& final(self)@ == old(self)@.stored(address as int, value)
                },
                Err(e) => {
                    &&& !(0 <= address < old(self)@.heap.len())
                    &&& e == ProgramError::HeapOverflow
                    &&& final(self)@ == old(self)@
                },
            },
    {
        if address < 0 || address as usize >= self.heap.len() {
            return Err(ProgramError::HeapOverflow);
        }
        self.heap[address as usize] = value;
        Ok(())
    }
}

} // verus!
