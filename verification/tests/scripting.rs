use gba_rom::scripting::{disassemble, ScriptCommand};

#[test]
fn test_disassemble_simple() {
    let bytecode = vec![0x0F, 0x56, 0x34, 0x12, 0x08, 0x02, 0x02];
    let commands = disassemble(&bytecode, 0).unwrap();

    assert_eq!(commands.len(), 2);

    match &commands[0] {
        ScriptCommand::Message { text_ptr, type_id } => {
            assert_eq!(*text_ptr, 0x08123456);
            assert_eq!(*type_id, 2);
        }
        _ => panic!("Expected Message"),
    }

    match &commands[1] {
        ScriptCommand::End => {}
        _ => panic!("Expected End"),
    }
}

#[test]
fn decoding_stops_after_end() {
    let bytecode = vec![0x02, 0x04, 0x00, 0x00, 0x00, 0x08, 0x02];
    assert_eq!(disassemble(&bytecode, 0).unwrap(), vec![ScriptCommand::End]);
}

#[test]
fn decoding_stops_after_return() {
    let bytecode = vec![0x03, 0x02];
    assert_eq!(disassemble(&bytecode, 0).unwrap(), vec![ScriptCommand::Return]);
}

#[test]
fn unknown_opcode_ends_the_list() {
    let bytecode = vec![0xAA, 0x02, 0x03, 0x04];
    assert_eq!(
        disassemble(&bytecode, 0).unwrap(),
        vec![ScriptCommand::Unknown(0xAA, vec![])]
    );
}

#[test]
fn unknown_opcode_after_known_ones() {
    let bytecode = vec![0x04, 0x00, 0x01, 0x00, 0x08, 0xFF, 0x02];
    assert_eq!(
        disassemble(&bytecode, 0).unwrap(),
        vec![ScriptCommand::Call(0x08000100), ScriptCommand::Unknown(0xFF, vec![])]
    );
}

#[test]
fn opcodes_beside_the_table_are_unknown() {
    for opcode in [0x00u8, 0x01, 0x07, 0x0E, 0x10, 0x19, 0x1B, 0x5B, 0x5D] {
        let bytecode = vec![opcode, 0x02];
        assert_eq!(
            disassemble(&bytecode, 0).unwrap(),
            vec![ScriptCommand::Unknown(opcode, vec![])]
        );
    }
}

#[test]
fn pointer_opcodes_do_not_end_the_list() {
    let bytecode = vec![
        0x04, 0x78, 0x56, 0x34, 0x12, // call
        0x05, 0x01, 0x00, 0x00, 0x08, // goto
        0x06, 0xFF, 0xFF, 0xFF, 0x09, // if1
        0x02,
    ];
    assert_eq!(
        disassemble(&bytecode, 0).unwrap(),
        vec![
            ScriptCommand::Call(0x12345678),
            ScriptCommand::Goto(0x08000001),
            ScriptCommand::If1(0x09FFFFFF),
            ScriptCommand::End,
        ]
    );
}

#[test]
fn give_item_has_two_half_words() {
    let bytecode = vec![0x1A, 0x0D, 0x00, 0x05, 0x01, 0x03];
    assert_eq!(
        disassemble(&bytecode, 0).unwrap(),
        vec![ScriptCommand::GiveItem { item_id: 13, quantity: 0x0105 }, ScriptCommand::Return]
    );
}

#[test]
fn trainer_battle_has_thirteen_operand_bytes() {
    let bytecode = vec![
        0x5C, 0x03, 0x34, 0x12, 0xCD, 0xAB, 0x00, 0x10, 0x00, 0x08, 0x44, 0x33, 0x22, 0x09, 0x02,
    ];
    assert_eq!(
        disassemble(&bytecode, 0).unwrap(),
        vec![
            ScriptCommand::TrainerBattle {
                type_id: 3,
                trainer_id: 0x1234,
                unk: 0xABCD,
                ptr_intro: 0x08001000,
                ptr_win: 0x09223344,
            },
            ScriptCommand::End,
        ]
    );
}

#[test]
fn instruction_without_all_its_operands_is_dropped() {
    assert_eq!(disassemble(&[0x04, 0x01, 0x02, 0x03], 0).unwrap(), vec![]);
    assert_eq!(disassemble(&[0x05], 0).unwrap(), vec![]);
    assert_eq!(disassemble(&[0x06, 0x01], 0).unwrap(), vec![]);
    assert_eq!(disassemble(&[0x0F, 0x01, 0x02, 0x03, 0x04], 0).unwrap(), vec![]);
    assert_eq!(disassemble(&[0x1A, 0x01, 0x02, 0x03], 0).unwrap(), vec![]);
    assert_eq!(
        disassemble(&[0x5C, 0, 0, 0, 0, 0, 0, 0, 0, 0, 0, 0, 0], 0).unwrap(),
        vec![]
    );
}

#[test]
fn what_was_decoded_before_a_truncation_is_kept() {
    let bytecode = vec![0x05, 0x10, 0x00, 0x00, 0x08, 0x0F, 0x01, 0x02];
    assert_eq!(disassemble(&bytecode, 0).unwrap(), vec![ScriptCommand::Goto(0x08000010)]);
}

#[test]
fn instruction_that_ends_with_the_data_is_kept() {
    let bytecode = vec![0x04, 0x01, 0x02, 0x03, 0x04];
    assert_eq!(disassemble(&bytecode, 0).unwrap(), vec![ScriptCommand::Call(0x04030201)]);
}

#[test]
fn decoding_starts_at_the_given_offset() {
    let bytecode = vec![0xAA, 0xBB, 0x05, 0x00, 0x00, 0x00, 0x08, 0x03];
    assert_eq!(
        disassemble(&bytecode, 2).unwrap(),
        vec![ScriptCommand::Goto(0x08000000), ScriptCommand::Return]
    );
}

#[test]
fn start_at_or_past_the_end_gives_nothing() {
    let bytecode = vec![0x02, 0x02];
    assert_eq!(disassemble(&bytecode, 2).unwrap(), vec![]);
    assert_eq!(disassemble(&bytecode, 100).unwrap(), vec![]);
    assert_eq!(disassemble(&[], 0).unwrap(), vec![]);
    assert_eq!(disassemble(&bytecode, usize::MAX).unwrap(), vec![]);
}

#[test]
fn nothing_follows_a_stop_in_any_list() {
    let bytecode = vec![
        0x04, 0x00, 0x00, 0x00, 0x08, 0x1A, 0x01, 0x00, 0x01, 0x00, 0x03, 0x02, 0x77,
    ];
    for start in 0..bytecode.len() {
        let commands = disassemble(&bytecode, start).unwrap();
        for (i, command) in commands.iter().enumerate() {
            let stops = matches!(
                command,
                ScriptCommand::End | ScriptCommand::Return | ScriptCommand::Unknown(_, _)
            );
            if stops {
                assert_eq!(i, commands.len() - 1);
            }
        }
    }
}
