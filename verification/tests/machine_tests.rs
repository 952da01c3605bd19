use mix::mix_machine::{ComparisonState, ErrorKind, MixMachine, MixMachineErr, Register};
use mix::mix_operations::Operation;

const MINUS: u32 = 1u32 << 30;

fn all_registers() -> Vec<Register> {
    vec![
        Register::RegA, Register::RegX, Register::RegI1, Register::RegI2, Register::RegI3,
        Register::RegI4, Register::RegI5, Register::RegI6, Register::RegJ,
    ]
}

fn kind_of(result: Result<(), MixMachineErr>) -> Option<ErrorKind> {
    match result {
        Ok(()) => None,
        Err(e) => Some(e.kind),
    }
}

#[test]
fn new_machine_is_all_zero() {
    let machine = MixMachine::new();
    for reg in all_registers() {
        assert_eq!(machine.peek_register(reg), Ok(0u32));
    }
    for address in 0u16..4000u16 {
        assert_eq!(machine.peek_memory(address), Ok(0u32));
    }
    assert_eq!(machine.peek_overflow_toggle(), Ok(false));
    assert_eq!(machine.peek_comparison_indicator(), Ok(ComparisonState::Less));
    assert_eq!(machine.program_counter(), 0u16);
}

#[test]
fn memory_ends_at_3999() {
    let mut machine = MixMachine::new();
    assert_eq!(machine.poke_memory(3999u16, 7u32), Ok(()));
    assert_eq!(machine.peek_memory(3999u16), Ok(7u32));
    assert_eq!(kind_of(machine.poke_memory(4000u16, 7u32)), Some(ErrorKind::InvalidAddress));
    assert_eq!(machine.peek_memory(4000u16).map_err(|e| e.kind), Err(ErrorKind::InvalidAddress));
    assert_eq!(
        machine.peek_memory(4000u16),
        Err(MixMachineErr {
            kind: ErrorKind::InvalidAddress,
            message: String::from("Attempt to access invalid memory address 4000."),
        })
    );
}

#[test]
fn memory_takes_words_only() {
    let mut machine = MixMachine::new();
    assert_eq!(machine.poke_memory(5u16, (1u32 << 31) - 1), Ok(()));
    assert_eq!(machine.peek_memory(5u16), Ok((1u32 << 31) - 1));
    assert_eq!(
        machine.poke_memory(5u16, 1u32 << 31),
        Err(MixMachineErr {
            kind: ErrorKind::InvalidWordValue,
            message: String::from("Attempt to write invalid value 2147483648."),
        })
    );
    // A write that is refused changes nothing.
    assert_eq!(machine.peek_memory(5u16), Ok((1u32 << 31) - 1));
}

#[test]
fn both_zeros_are_kept_apart() {
    let mut machine = MixMachine::new();
    assert_eq!(machine.poke_memory(1u16, MINUS), Ok(()));
    assert_eq!(machine.peek_memory(1u16), Ok(MINUS));
    assert_eq!(machine.peek_memory(2u16), Ok(0u32));
    for reg in all_registers() {
        assert_eq!(machine.poke_register(reg, MINUS), Ok(()));
        assert_eq!(machine.peek_register(reg), Ok(MINUS));
    }
}

#[test]
fn wide_registers_take_any_word() {
    let mut machine = MixMachine::new();
    for reg in vec![Register::RegA, Register::RegX] {
        assert_eq!(machine.poke_register(reg, (1u32 << 31) - 1), Ok(()));
        assert_eq!(machine.peek_register(reg), Ok((1u32 << 31) - 1));
        assert_eq!(kind_of(machine.poke_register(reg, 1u32 << 31)), Some(ErrorKind::InvalidWordValue));
        assert_eq!(machine.peek_register(reg), Ok((1u32 << 31) - 1));
    }
}

#[test]
fn narrow_registers_take_two_bytes() {
    let mut machine = MixMachine::new();
    for reg in all_registers() {
        match reg {
            Register::RegA | Register::RegX => {},
            _ => {
                assert_eq!(machine.poke_register(reg, 4095u32), Ok(()));
                assert_eq!(machine.peek_register(reg), Ok(4095u32));
                assert_eq!(machine.poke_register(reg, 4095u32 + MINUS), Ok(()));
                assert_eq!(machine.peek_register(reg), Ok(4095u32 + MINUS));
                assert_eq!(
                    machine.poke_register(reg, 4096u32),
                    Err(MixMachineErr {
                        kind: ErrorKind::RegisterNarrowingError,
                        message: String::from("Attempt to poke 16 bit register with 32-bit value were bytes 1, 2 and 3 are not all zero."),
                    })
                );
                assert_eq!(kind_of(machine.poke_register(reg, 1u32 << 29)), Some(ErrorKind::RegisterNarrowingError));
                assert_eq!(kind_of(machine.poke_register(reg, 1u32 << 31)), Some(ErrorKind::InvalidWordValue));
                assert_eq!(machine.peek_register(reg), Ok(4095u32 + MINUS));
            },
        }
    }
}

#[test]
fn registers_do_not_share_storage() {
    let mut machine = MixMachine::new();
    let mut value = 100u32;
    for reg in all_registers() {
        assert_eq!(machine.poke_register(reg, value), Ok(()));
        value += 1;
    }
    let mut value = 100u32;
    for reg in all_registers() {
        assert_eq!(machine.peek_register(reg), Ok(value));
        value += 1;
    }
}

#[test]
fn poke_address_to_memory_stores_sign_and_size() {
    let mut machine = MixMachine::new();
    assert_eq!(machine.poke_address_to_memory(0u16, 20i16), Ok(()));
    assert_eq!(machine.peek_memory(0u16), Ok(20u32));
    assert_eq!(machine.poke_address_to_memory(1u16, -20i16), Ok(()));
    assert_eq!(machine.peek_memory(1u16), Ok(20u32 + MINUS));
    assert_eq!(machine.poke_address_to_memory(2u16, i16::MIN), Ok(()));
    assert_eq!(machine.peek_memory(2u16), Ok(32768u32 + MINUS));
    assert_eq!(kind_of(machine.poke_address_to_memory(4000u16, 1i16)), Some(ErrorKind::InvalidAddress));
}

#[test]
fn i32_to_reg32_of_negative_numbers() {
    assert_eq!(MixMachine::i32_to_reg32(-((1i32 << 30) - 1)), (1u32 << 31) - 1);
    assert_eq!(MixMachine::i32_to_reg32(-4000i32), MINUS + 4000);
    assert_eq!(MixMachine::reg32_to_i32(MixMachine::i32_to_reg32(-4000i32)), -4000i32);
    assert_eq!(MixMachine::reg32_to_i32(MixMachine::i32_to_reg32(123456i32)), 123456i32);
    assert_eq!(MixMachine::i32_to_reg32(i32::MIN), (1u32 << 31) + (1u32 << 30));
}

#[test]
fn step_outside_memory_changes_nothing() {
    let mut machine = MixMachine::new();
    // JMP 4000
    assert_eq!(machine.poke_memory(0u16, Operation::make_instruction(true, 4000u16, 0u8, 0u8, 39u8)), Ok(()));
    assert_eq!(machine.step(), Ok(()));
    assert_eq!(machine.program_counter(), 4000u16);
    assert_eq!(machine.peek_register(Register::RegJ), Ok(1u32));
    assert_eq!(
        machine.step(),
        Err(MixMachineErr {
            kind: ErrorKind::InvalidAddress,
            message: String::from("Attempted instruction fetch from invalid memory address 4000."),
        })
    );
    assert_eq!(machine.program_counter(), 4000u16);
    assert_eq!(machine.peek_register(Register::RegJ), Ok(1u32));
}

#[test]
fn step_runs_off_the_end_of_memory() {
    let mut machine = MixMachine::new();
    // JMP 3999, where a NOP stands
    assert_eq!(machine.poke_memory(0u16, Operation::make_instruction(true, 3999u16, 0u8, 0u8, 39u8)), Ok(()));
    assert_eq!(machine.step(), Ok(()));
    assert_eq!(machine.step(), Ok(()));
    assert_eq!(machine.program_counter(), 4000u16);
    assert_eq!(kind_of(machine.step()), Some(ErrorKind::InvalidAddress));
}

#[test]
fn unknown_instructions_are_refused() {
    for opcode in vec![5u8, 34u8, 35u8, 36u8, 37u8, 38u8] {
        let mut machine = MixMachine::new();
        let word = Operation::make_instruction(true, 0u16, 0u8, 0u8, opcode);
        assert_eq!(machine.poke_memory(0u16, word), Ok(()));
        assert_eq!(
            machine.step(),
            Err(MixMachineErr {
                kind: ErrorKind::UnknownOpcode,
                message: format!("Unknown or unimplemeted instruction: {}", word),
            })
        );
        // The program counter has moved past the word.
        assert_eq!(machine.program_counter(), 1u16);
    }
    // A shift whose field selects none of the six kinds.
    let mut machine = MixMachine::new();
    assert_eq!(machine.poke_memory(0u16, Operation::make_instruction(true, 1u16, 0u8, 6u8, 6u8)), Ok(()));
    assert_eq!(kind_of(machine.step()), Some(ErrorKind::UnknownOpcode));
}

#[test]
fn no_op_only_advances() {
    let mut machine = MixMachine::new();
    assert_eq!(machine.poke_memory(0u16, Operation::make_instruction(false, 4095u16, 63u8, 63u8, 0u8)), Ok(()));
    assert_eq!(machine.poke_register(Register::RegA, 17u32), Ok(()));
    assert_eq!(machine.step(), Ok(()));
    assert_eq!(machine.program_counter(), 1u16);
    assert_eq!(machine.peek_register(Register::RegA), Ok(17u32));
    assert_eq!(machine.peek_register(Register::RegJ), Ok(0u32));
    assert_eq!(machine.peek_overflow_toggle(), Ok(false));
}

#[test]
fn addresses_that_cannot_be_used() {
    // LDA -1
    let mut machine = MixMachine::new();
    assert_eq!(machine.poke_memory(0u16, Operation::make_instruction(false, 1u16, 0u8, 5u8, 8u8)), Ok(()));
    assert_eq!(
        machine.step(),
        Err(MixMachineErr {
            kind: ErrorKind::NegativeEffectiveAddress,
            message: String::from("Computed negative effective address: -1"),
        })
    );
    // LDA 10,2 with rI2 = -11
    let mut machine = MixMachine::new();
    assert_eq!(machine.poke_memory(0u16, Operation::make_instruction(true, 10u16, 2u8, 5u8, 8u8)), Ok(()));
    assert_eq!(machine.poke_register(Register::RegI2, 11u32 + MINUS), Ok(()));
    assert_eq!(kind_of(machine.step()), Some(ErrorKind::NegativeEffectiveAddress));
    // LDA 0,7
    let mut machine = MixMachine::new();
    assert_eq!(machine.poke_memory(0u16, Operation::make_instruction(true, 0u16, 7u8, 5u8, 8u8)), Ok(()));
    assert_eq!(
        machine.step(),
        Err(MixMachineErr {
            kind: ErrorKind::InvalidIndexSpec,
            message: String::from("Invalid index_spec for computing effective address: 7"),
        })
    );
    // LDA 4000
    let mut machine = MixMachine::new();
    assert_eq!(machine.poke_memory(0u16, Operation::make_instruction(true, 4000u16, 0u8, 5u8, 8u8)), Ok(()));
    assert_eq!(kind_of(machine.step()), Some(ErrorKind::InvalidAddress));
    // LDA 4000,1 with rI1 = 95
    let mut machine = MixMachine::new();
    assert_eq!(machine.poke_memory(0u16, Operation::make_instruction(true, 4000u16, 1u8, 5u8, 8u8)), Ok(()));
    assert_eq!(machine.poke_register(Register::RegI1, 95u32), Ok(()));
    assert_eq!(kind_of(machine.step()), Some(ErrorKind::InvalidAddress));
    // -0 with no index is address 0
    let mut machine = MixMachine::new();
    assert_eq!(machine.poke_memory(0u16, Operation::make_instruction(false, 0u16, 0u8, 5u8, 8u8)), Ok(()));
    assert_eq!(machine.step(), Ok(()));
    assert_eq!(machine.peek_register(Register::RegA), Ok(Operation::make_instruction(false, 0u16, 0u8, 5u8, 8u8)));
}

#[test]
fn fields_that_cannot_be_used() {
    for field in vec![6u8, 7u8, 8 * 1 + 0, 8 * 5 + 4, 8 * 6 + 6, 63u8] {
        for opcode in vec![8u8, 24u8, 1u8, 56u8] {
            let mut machine = MixMachine::new();
            assert_eq!(machine.poke_memory(0u16, Operation::make_instruction(true, 10u16, 0u8, field, opcode)), Ok(()));
            assert_eq!(machine.poke_memory(10u16, 77u32), Ok(()));
            assert_eq!(kind_of(machine.step()), Some(ErrorKind::InvalidFieldSpec));
            assert_eq!(machine.peek_memory(10u16), Ok(77u32));
            assert_eq!(machine.peek_register(Register::RegA), Ok(0u32));
        }
    }
}

#[test]
fn load_into_narrow_register_needs_two_bytes() {
    let mut machine = MixMachine::new();
    // LD3 10
    assert_eq!(machine.poke_memory(0u16, Operation::make_instruction(true, 10u16, 0u8, 5u8, 11u8)), Ok(()));
    // LD3 10(4:5)
    assert_eq!(machine.poke_memory(1u16, Operation::make_instruction(true, 10u16, 0u8, 8 * 4 + 5, 11u8)), Ok(()));
    assert_eq!(machine.poke_memory(10u16, MINUS + (1u32 << 12) + 5), Ok(()));
    assert_eq!(kind_of(machine.step()), Some(ErrorKind::RegisterNarrowingError));
    assert_eq!(machine.peek_register(Register::RegI3), Ok(0u32));
    assert_eq!(machine.step(), Ok(()));
    assert_eq!(machine.peek_register(Register::RegI3), Ok(5u32));
}

#[test]
fn store_zero_and_store_j() {
    let mut machine = MixMachine::new();
    // JMP 1 leaves 1 in rJ
    assert_eq!(machine.poke_memory(0u16, Operation::make_instruction(true, 1u16, 0u8, 0u8, 39u8)), Ok(()));
    // STJ 10(0:2)
    assert_eq!(machine.poke_memory(1u16, Operation::make_instruction(true, 10u16, 0u8, 2u8, 32u8)), Ok(()));
    // STZ 11(2:3)
    assert_eq!(machine.poke_memory(2u16, Operation::make_instruction(true, 11u16, 0u8, 8 * 2 + 3, 33u8)), Ok(()));
    // STZ 12
    assert_eq!(machine.poke_memory(3u16, Operation::make_instruction(true, 12u16, 0u8, 5u8, 33u8)), Ok(()));
    let full = MINUS + (1u32 << 24) + (2u32 << 18) + (3u32 << 12) + (4u32 << 6) + 5u32;
    assert_eq!(machine.poke_memory(10u16, full), Ok(()));
    assert_eq!(machine.poke_memory(11u16, full), Ok(()));
    assert_eq!(machine.poke_memory(12u16, full), Ok(()));
    assert_eq!(machine.step(), Ok(()));
    assert_eq!(machine.step(), Ok(()));
    assert_eq!(machine.peek_memory(10u16), Ok((0u32 << 24) + (1u32 << 18) + (3u32 << 12) + (4u32 << 6) + 5u32));
    assert_eq!(machine.step(), Ok(()));
    assert_eq!(machine.peek_memory(11u16), Ok(MINUS + (1u32 << 24) + (4u32 << 6) + 5u32));
    assert_eq!(machine.step(), Ok(()));
    assert_eq!(machine.peek_memory(12u16), Ok(0u32));
}

#[test]
fn store_sign_only() {
    let mut machine = MixMachine::new();
    // STA 10(0:0)
    assert_eq!(machine.poke_memory(0u16, Operation::make_instruction(true, 10u16, 0u8, 0u8, 24u8)), Ok(()));
    assert_eq!(machine.poke_register(Register::RegA, MINUS + 99), Ok(()));
    assert_eq!(machine.poke_memory(10u16, 1234u32), Ok(()));
    assert_eq!(machine.step(), Ok(()));
    assert_eq!(machine.peek_memory(10u16), Ok(MINUS + 1234u32));
}

#[test]
fn compare_with_every_register() {
    // CMPA, CMP1 .. CMP6, CMPX
    let pairs = vec![
        (56u8, Register::RegA), (57u8, Register::RegI1), (58u8, Register::RegI2),
        (59u8, Register::RegI3), (60u8, Register::RegI4), (61u8, Register::RegI5),
        (62u8, Register::RegI6), (63u8, Register::RegX),
    ];
    for (opcode, reg) in pairs {
        let mut machine = MixMachine::new();
        assert_eq!(machine.poke_memory(0u16, Operation::make_instruction(true, 10u16, 0u8, 5u8, opcode)), Ok(()));
        assert_eq!(machine.poke_memory(10u16, 100u32), Ok(()));
        assert_eq!(machine.poke_register(reg, 200u32), Ok(()));
        assert_eq!(machine.step(), Ok(()));
        assert_eq!(machine.peek_comparison_indicator(), Ok(ComparisonState::Greater));
    }
}

#[test]
fn comparison_of_empty_field_is_equal() {
    let mut machine = MixMachine::new();
    // CMPA 10(0:0): only the signs, and both zeros are equal
    assert_eq!(machine.poke_memory(0u16, Operation::make_instruction(true, 10u16, 0u8, 0u8, 56u8)), Ok(()));
    assert_eq!(machine.poke_memory(10u16, MINUS + 100u32), Ok(()));
    assert_eq!(machine.poke_register(Register::RegA, 200u32), Ok(()));
    assert_eq!(machine.step(), Ok(()));
    assert_eq!(machine.peek_comparison_indicator(), Ok(ComparisonState::Equal));
}
