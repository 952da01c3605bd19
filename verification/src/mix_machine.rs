//! The machine: nine registers, four thousand words of memory, the overflow
//! toggle, the comparison indicator and the program counter.
//!
//! `MachineState` is the machine as a mathematical object; every contract of
//! the interpreter is stated over it.  `MixMachine` is the running machine,
//! whose view is a `MachineState`.

use vstd::prelude::*;
use vstd::string::StringExecFns;
use crate::text::{push_decimal, sentence_with_number};
use crate::word::{
    fits_narrow, is_narrow, is_narrow_word, is_word, lemma_narrow_round_trip,
    lemma_widened_is_narrow_word, widened, word_from_signed, MAX_WORD_VALUE,
};

verus! {

/// The number of words of memory.
pub const MEM_SIZE: u16 = 4000;

/// The outcome of the last comparison.
#[derive(Debug, Copy, Clone, PartialEq, Eq, Structural)]
pub enum ComparisonState {
    Less,
    Greater,
    Equal,
}

/// The nine registers: `A` and `X` hold a full word, the index registers
/// `I1` to `I6` and the jump register `J` hold a sign and two bytes.
#[derive(Debug, Copy, Clone, PartialEq, Eq, Structural)]
pub enum Register {
    RegA,
    RegX,
    RegI1,
    RegI2,
    RegI3,
    RegI4,
    RegI5,
    RegI6,
    RegJ,
}

/// What went wrong.
#[derive(Debug, Copy, Clone, PartialEq, Eq, Structural)]
pub enum ErrorKind {
    /// A memory access or an instruction fetch outside `0..4000`.
    InvalidAddress,
    /// A value above `MAX_WORD_VALUE` was to be stored.
    InvalidWordValue,
    /// A field specification outside `0 <= L <= R <= 5`, or a jump whose
    /// field selects no kind of jump.
    InvalidFieldSpec,
    /// An index specification above 6.
    InvalidIndexSpec,
    /// An address that came out below zero where one is to be used.
    NegativeEffectiveAddress,
    /// A word with a nonzero byte among its first three was to go into an
    /// index register or `J`.
    RegisterNarrowingError,
    /// A word that stands for no instruction this machine carries out.
    UnknownOpcode,
    /// An increase or decrease took an index register or `J` out of range.
    UndefinedOverflow,
}

/// An error of the machine: its kind, and a sentence for a reader.
#[derive(PartialEq, Debug)]
pub struct MixMachineErr {
    pub kind: ErrorKind,
    pub message: String,
}

/// Whether what a function returned is what its model says: the same value
/// on success, an error of the same kind on failure.
pub open spec fn agrees<T>(returned: Result<T, MixMachineErr>, model: Result<T, ErrorKind>) -> bool {
    match returned {
        Ok(value) => model == Ok::<T, ErrorKind>(value),
        Err(error) => model == Err::<T, ErrorKind>(error.kind),
    }
}

impl Register {
    /// Whether the register holds a full word.
    pub open spec fn is_wide(self) -> bool {
        self == Register::RegA || self == Register::RegX
    }

    /// The place of an index register among `I1..I6`, from 0.
    pub open spec fn index_slot(self) -> int {
        match self {
            Register::RegI1 => 0,
            Register::RegI2 => 1,
            Register::RegI3 => 2,
            Register::RegI4 => 3,
            Register::RegI5 => 4,
            _ => 5,
        }
    }
}

/// The machine as a mathematical object.  Every register is seen as the full
/// word it stands for.
pub struct MachineState {
    pub a: u32,
    pub x: u32,
    /// `I1` to `I6`, at positions 0 to 5.
    pub index: Seq<u32>,
    pub j: u32,
    pub program_counter: u16,
    pub overflow: bool,
    pub comparison: ComparisonState,
    pub memory: Seq<u32>,
}

impl MachineState {
    /// Every register and memory cell holds a legal word, and the narrow
    /// registers hold words they have room for.
    pub open spec fn wf(self) -> bool {
        &&& is_word(self.a)
        &&& is_word(self.x)
        &&& self.index.len() == 6
        &&& forall|i: int| 0 <= i < 6 ==> is_narrow_word(#[trigger] self.index[i])
        &&& is_narrow_word(self.j)
        &&& self.memory.len() == MEM_SIZE
        &&& forall|i: int| 0 <= i < MEM_SIZE ==> is_word(#[trigger] self.memory[i])
    }

    /// The word a register holds.
    pub open spec fn register(self, reg: Register) -> u32 {
        match reg {
            Register::RegA => self.a,
            Register::RegX => self.x,
            Register::RegJ => self.j,
            _ => self.index[reg.index_slot()],
        }
    }

    /// The state with one register replaced.
    pub open spec fn with_register(self, reg: Register, value: u32) -> MachineState {
        match reg {
            Register::RegA => MachineState { a: value, ..self },
            Register::RegX => MachineState { x: value, ..self },
            Register::RegJ => MachineState { j: value, ..self },
            _ => MachineState { index: self.index.update(reg.index_slot(), value), ..self },
        }
    }

    /// The state with one memory cell replaced.
    pub open spec fn with_memory(self, address: int, value: u32) -> MachineState {
        MachineState { memory: self.memory.update(address, value), ..self }
    }

    /// The state with the overflow toggle set as given.
    pub open spec fn with_overflow(self, overflow: bool) -> MachineState {
        MachineState { overflow, ..self }
    }

    /// The state with the comparison indicator set as given.
    pub open spec fn with_comparison(self, comparison: ComparisonState) -> MachineState {
        MachineState { comparison, ..self }
    }

    /// The state with the program counter set as given.
    pub open spec fn with_program_counter(self, program_counter: u16) -> MachineState {
        MachineState { program_counter, ..self }
    }

    /// The machine as it is made: everything zero, the indicator `Less`.
    pub open spec fn initial() -> MachineState {
        MachineState {
            a: 0,
            x: 0,
            index: Seq::new(6, |i: int| 0u32),
            j: 0,
            program_counter: 0,
            overflow: false,
            comparison: ComparisonState::Less,
            memory: Seq::new(MEM_SIZE as nat, |i: int| 0u32),
        }
    }
}

/// What reading a memory cell gives.
pub open spec fn memory_read(s: MachineState, address: u16) -> Result<u32, ErrorKind> {
    if address >= MEM_SIZE {
        Err(ErrorKind::InvalidAddress)
    } else {
        Ok(s.memory[address as int])
    }
}

/// What writing a memory cell does.
pub open spec fn memory_write(s: MachineState, address: u16, value: u32) -> Result<
    MachineState,
    ErrorKind,
> {
    if address >= MEM_SIZE {
        Err(ErrorKind::InvalidAddress)
    } else if !is_word(value) {
        Err(ErrorKind::InvalidWordValue)
    } else {
        Ok(s.with_memory(address as int, value))
    }
}

/// What writing a register does: any word goes into `A` or `X`; the other
/// registers take only words whose first three bytes are zero.
pub open spec fn register_write(s: MachineState, reg: Register, value: u32) -> Result<
    MachineState,
    ErrorKind,
> {
    if !is_word(value) {
        Err(ErrorKind::InvalidWordValue)
    } else if !reg.is_wide() && !fits_narrow(value) {
        Err(ErrorKind::RegisterNarrowingError)
    } else {
        Ok(s.with_register(reg, value))
    }
}

/// Where a function that changes the machine leaves it: the state, and the
/// kind of error if it failed.
pub struct Outcome {
    pub state: MachineState,
    pub error: Option<ErrorKind>,
}

impl Outcome {
    /// Success, leaving the machine in `state`.
    pub open spec fn done(state: MachineState) -> Outcome {
        Outcome { state, error: None }
    }

    /// Failure, leaving the machine in `state`.
    pub open spec fn failed(state: MachineState, kind: ErrorKind) -> Outcome {
        Outcome { state, error: Some(kind) }
    }

    /// The outcome of an operation that changes nothing when it fails.
    pub open spec fn of(before: MachineState, model: Result<MachineState, ErrorKind>) -> Outcome {
        match model {
            Ok(state) => Outcome::done(state),
            Err(kind) => Outcome::failed(before, kind),
        }
    }
}

/// Whether a function that changes the machine did what its model says: it
/// left the machine in the model's state, and it failed exactly if the model
/// does, with an error of the model's kind.
pub open spec fn performs(
    after: MachineState,
    returned: Result<(), MixMachineErr>,
    outcome: Outcome,
) -> bool {
    &&& after == outcome.state
    &&& match returned {
        Ok(_) => outcome.error is None,
        Err(error) => outcome.error == Some(error.kind),
    }
}

/// `performs`, for an operation that changes nothing when it fails: on
/// success the machine is in the model's state; on failure the error is of
/// the model's kind and the machine is as it was.
pub open spec fn follows(
    before: MachineState,
    after: MachineState,
    returned: Result<(), MixMachineErr>,
    model: Result<MachineState, ErrorKind>,
) -> bool {
    performs(after, returned, Outcome::of(before, model))
}

#[allow(non_snake_case)]
pub struct MixMachine {
    register_A: u32,
    register_X: u32,
    register_I1: u16,
    register_I2: u16,
    register_I3: u16,
    register_I4: u16,
    register_I5: u16,
    register_I6: u16,
    register_J: u16,
    program_counter: u16,
    comparison_indicator: ComparisonState,
    overflow_toggle_on: bool,
    memory: [u32; 4000],
}

impl View for MixMachine {
    type V = MachineState;

    closed spec fn view(&self) -> MachineState {
        MachineState {
            a: self.register_A,
            x: self.register_X,
            index: seq![
                widened(self.register_I1),
                widened(self.register_I2),
                widened(self.register_I3),
                widened(self.register_I4),
                widened(self.register_I5),
                widened(self.register_I6),
            ],
            j: widened(self.register_J),
            program_counter: self.program_counter,
            overflow: self.overflow_toggle_on,
            comparison: self.comparison_indicator,
            memory: self.memory@,
        }
    }
}

impl MixMachine {
    /// The invariant of the running machine: `A`, `X` and every memory cell
    /// hold a word, and no packed register has a bit above its sign.
    #[verifier::type_invariant]
    pub closed spec fn wf(&self) -> bool {
        &&& is_word(self.register_A)
        &&& is_word(self.register_X)
        &&& is_narrow(self.register_I1)
        &&& is_narrow(self.register_I2)
        &&& is_narrow(self.register_I3)
        &&& is_narrow(self.register_I4)
        &&& is_narrow(self.register_I5)
        &&& is_narrow(self.register_I6)
        &&& is_narrow(self.register_J)
        &&& forall|i: int| 0 <= i < MEM_SIZE ==> is_word(#[trigger] self.memory@[i])
    }

    /// A machine that meets its invariant has a well-formed view.
    pub proof fn lemma_wf(&self)
        requires
            self.wf(),
        ensures
            self@.wf(),
    {
        lemma_widened_is_narrow_word(self.register_I1);
        lemma_widened_is_narrow_word(self.register_I2);
        lemma_widened_is_narrow_word(self.register_I3);
        lemma_widened_is_narrow_word(self.register_I4);
        lemma_widened_is_narrow_word(self.register_I5);
        lemma_widened_is_narrow_word(self.register_I6);
        lemma_widened_is_narrow_word(self.register_J);
        let index = self@.index;
        assert forall|i: int| 0 <= i < 6 implies is_narrow_word(#[trigger] index[i]) by {
            if i == 0 {
            } else if i == 1 {
            } else if i == 2 {
            } else if i == 3 {
            } else if i == 4 {
            } else {
            }
        }
    }

    /// A machine with every register and memory cell `+0`, the overflow
    /// toggle off, the comparison indicator `Less` and the program counter
    /// at 0.
    pub fn new() -> (machine: MixMachine)
        ensures
            machine@ == MachineState::initial(),
    {
        let machine = MixMachine {
            register_A: 0u32,
            register_X: 0u32,
            register_I1: 0u16,
            register_I2: 0u16,
            register_I3: 0u16,
            register_I4: 0u16,
            register_I5: 0u16,
            register_I6: 0u16,
            register_J: 0u16,
            program_counter: 0u16,
            comparison_indicator: ComparisonState::Less,
            overflow_toggle_on: false,
            memory: [0u32; 4000],
        };
        assert(machine@.index =~= MachineState::initial().index);
        assert(machine@.memory =~= MachineState::initial().memory);
        machine
    }

    /// Stores a word in memory.
    pub fn poke_memory(&mut self, address: u16, value: u32) -> (r: Result<(), MixMachineErr>)
        ensures
            old(self)@.wf(),
            final(self)@.wf(),
            follows(old(self)@, final(self)@, r, memory_write(old(self)@, address, value)),
    {
        proof {
            use_type_invariant(&*self);
            self.lemma_wf();
        }
        if address >= MEM_SIZE {
            Err(
                MixMachineErr {
                    kind: ErrorKind::InvalidAddress,
                    message: sentence_with_number(
                        "Attempt to access invalid memory address ",
                        address as i32,
                        ".",
                    ),
                },
            )
        } else if value > MAX_WORD_VALUE {
            let mut message = String::from_str("Attempt to write invalid value ");
            push_decimal(&mut message, value);
            message.append(".");
            Err(MixMachineErr { kind: ErrorKind::InvalidWordValue, message })
        } else {
            self.memory[address as usize] = value;
            Ok(())
        }
    }

    /// Stores the word for a small integer in memory.
    pub fn poke_address_to_memory(&mut self, address: u16, value: i16) -> (r: Result<
        (),
        MixMachineErr,
    >)
        ensures
            old(self)@.wf(),
            final(self)@.wf(),
            follows(
                old(self)@,
                final(self)@,
                r,
                memory_write(old(self)@, address, word_from_signed(value as int)),
            ),
    {
        self.poke_memory(address, MixMachine::i32_to_reg32(value as i32))
    }

    /// Reads a word of memory.
    pub fn peek_memory(&self, address: u16) -> (r: Result<u32, MixMachineErr>)
        ensures
            self@.wf(),
            agrees(r, memory_read(self@, address)),
    {
        proof {
            use_type_invariant(&*self);
            self.lemma_wf();
        }
        if address >= MEM_SIZE {
            Err(
                MixMachineErr {
                    kind: ErrorKind::InvalidAddress,
                    message: sentence_with_number(
                        "Attempt to access invalid memory address ",
                        address as i32,
                        ".",
                    ),
                },
            )
        } else {
            Ok(self.memory[address as usize])
        }
    }

    /// Stores a word in a register.
    pub fn poke_register(&mut self, reg: Register, value: u32) -> (r: Result<(), MixMachineErr>)
        ensures
            old(self)@.wf(),
            final(self)@.wf(),
            follows(old(self)@, final(self)@, r, register_write(old(self)@, reg, value)),
    {
        proof {
            use_type_invariant(&*self);
            self.lemma_wf();
        }
        if value > MAX_WORD_VALUE {
            let mut message = String::from_str("Attempt to write invalid value ");
            push_decimal(&mut message, value);
            message.append(".");
            return Err(MixMachineErr { kind: ErrorKind::InvalidWordValue, message });
        }
        match reg {
            Register::RegA => {
                self.register_A = value;
                Ok(())
            },
            Register::RegX => {
                self.register_X = value;
                Ok(())
            },
            _ => {
                match MixMachine::reg32_to_reg16(value) {
                    Err(e) => Err(e),
                    Ok(packed) => {
                        proof {
                            lemma_narrow_round_trip(value);
                        }
                        self.store_packed(reg, packed);
                        Ok(())
                    },
                }
            },
        }
    }

    /// Stores a packed value in an index register or `J`.
    fn store_packed(&mut self, reg: Register, packed: u16)
        requires
            !reg.is_wide(),
            is_narrow(packed),
        ensures
            final(self)@ == old(self)@.with_register(reg, widened(packed)),
    {
        proof {
            use_type_invariant(&*self);
        }
        match reg {
            Register::RegI1 => {
                self.register_I1 = packed;
            },
            Register::RegI2 => {
                self.register_I2 = packed;
            },
            Register::RegI3 => {
                self.register_I3 = packed;
            },
            Register::RegI4 => {
                self.register_I4 = packed;
            },
            Register::RegI5 => {
                self.register_I5 = packed;
            },
            Register::RegI6 => {
                self.register_I6 = packed;
            },
            _ => {
                self.register_J = packed;
            },
        }
        assert(self@.index =~= old(self)@.with_register(reg, widened(packed)).index);
    }

    /// Reads a register as a full word.
    pub fn peek_register(&self, reg: Register) -> (r: Result<u32, MixMachineErr>)
        ensures
            self@.wf(),
            agrees(r, Ok(self@.register(reg))),
    {
        Ok(self.register(reg))
    }

    /// Reads the comparison indicator.
    pub fn peek_comparison_indicator(&self) -> (r: Result<ComparisonState, MixMachineErr>)
        ensures
            self@.wf(),
            agrees(r, Ok(self@.comparison)),
    {
        proof {
            use_type_invariant(&*self);
            self.lemma_wf();
        }
        Ok(self.comparison_indicator)
    }

    /// Sets the comparison indicator.
    pub fn poke_comparison_indicator(&mut self, state: ComparisonState) -> (r: Result<
        (),
        MixMachineErr,
    >)
        ensures
            old(self)@.wf(),
            final(self)@.wf(),
            follows(old(self)@, final(self)@, r, Ok(old(self)@.with_comparison(state))),
    {
        proof {
            use_type_invariant(&*self);
            self.lemma_wf();
        }
        self.comparison_indicator = state;
        Ok(())
    }

    /// Reads the overflow toggle.
    pub fn peek_overflow_toggle(&self) -> (r: Result<bool, MixMachineErr>)
        ensures
            self@.wf(),
            agrees(r, Ok(self@.overflow)),
    {
        proof {
            use_type_invariant(&*self);
            self.lemma_wf();
        }
        Ok(self.overflow_toggle_on)
    }

    /// Turns the overflow toggle on.
    pub fn set_overflow_toggle(&mut self) -> (r: Result<(), MixMachineErr>)
        ensures
            old(self)@.wf(),
            final(self)@.wf(),
            follows(old(self)@, final(self)@, r, Ok(old(self)@.with_overflow(true))),
    {
        proof {
            use_type_invariant(&*self);
            self.lemma_wf();
        }
        self.overflow_toggle_on = true;
        Ok(())
    }

    /// Turns the overflow toggle off.
    pub fn clear_overflow_toggle(&mut self) -> (r: Result<(), MixMachineErr>)
        ensures
            old(self)@.wf(),
            final(self)@.wf(),
            follows(old(self)@, final(self)@, r, Ok(old(self)@.with_overflow(false))),
    {
        proof {
            use_type_invariant(&*self);
            self.lemma_wf();
        }
        self.overflow_toggle_on = false;
        Ok(())
    }

    /// The memory word at an address inside memory.
    pub(crate) fn word_at(&self, address: u16) -> (w: u32)
        requires
            address < MEM_SIZE,
        ensures
            self@.wf(),
            w == self@.memory[address as int],
    {
        proof {
            use_type_invariant(&*self);
            self.lemma_wf();
        }
        self.memory[address as usize]
    }

    /// The word a register holds.
    pub fn register(&self, reg: Register) -> (w: u32)
        ensures
            self@.wf(),
            w == self@.register(reg),
    {
        proof {
            use_type_invariant(&*self);
            self.lemma_wf();
        }
        match reg {
            Register::RegA => self.register_A,
            Register::RegX => self.register_X,
            Register::RegI1 => MixMachine::reg16_to_reg32(self.register_I1),
            Register::RegI2 => MixMachine::reg16_to_reg32(self.register_I2),
            Register::RegI3 => MixMachine::reg16_to_reg32(self.register_I3),
            Register::RegI4 => MixMachine::reg16_to_reg32(self.register_I4),
            Register::RegI5 => MixMachine::reg16_to_reg32(self.register_I5),
            Register::RegI6 => MixMachine::reg16_to_reg32(self.register_I6),
            Register::RegJ => MixMachine::reg16_to_reg32(self.register_J),
        }
    }

    /// The comparison indicator.
    pub fn comparison(&self) -> (c: ComparisonState)
        ensures
            self@.wf(),
            c == self@.comparison,
    {
        proof {
            use_type_invariant(&*self);
            self.lemma_wf();
        }
        self.comparison_indicator
    }

    /// The overflow toggle.
    pub fn overflow(&self) -> (on: bool)
        ensures
            self@.wf(),
            on == self@.overflow,
    {
        proof {
            use_type_invariant(&*self);
            self.lemma_wf();
        }
        self.overflow_toggle_on
    }

    /// The address of the next instruction.
    pub fn program_counter(&self) -> (pc: u16)
        ensures
            self@.wf(),
            pc == self@.program_counter,
    {
        proof {
            use_type_invariant(&*self);
            self.lemma_wf();
        }
        self.program_counter
    }

    /// Sets the address of the next instruction.
    pub(crate) fn set_program_counter(&mut self, target: u16)
        ensures
            old(self)@.wf(),
            final(self)@.wf(),
            final(self)@ == old(self)@.with_program_counter(target),
    {
        proof {
            use_type_invariant(&*self);
            self.lemma_wf();
        }
        self.program_counter = target;
    }
}

} // verus!
