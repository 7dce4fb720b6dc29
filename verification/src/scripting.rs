use vstd::prelude::*;
use crate::error::RomError;
use crate::le_bytes::{le_u16, le_u32, read_u16, read_u32};

verus! {

/// Opcode that ends a script.
pub const OP_END: u8 = 0x02;

/// Opcode that returns from a called script.
pub const OP_RETURN: u8 = 0x03;

/// Opcode that calls the script at a pointer.
pub const OP_CALL: u8 = 0x04;

/// Opcode that jumps to a pointer.
pub const OP_GOTO: u8 = 0x05;

/// Opcode that jumps to a pointer if the last comparison held.
pub const OP_IF1: u8 = 0x06;

/// Opcode that shows a message box.
pub const OP_MESSAGE: u8 = 0x0F;

/// Opcode that hands the player an item.
pub const OP_GIVE_ITEM: u8 = 0x1A;

/// Opcode that starts a trainer battle.
pub const OP_TRAINER_BATTLE: u8 = 0x5C;

/// One instruction of a script.
#[derive(Debug, Clone, PartialEq, Eq)]
pub enum ScriptCommand {
    End,
    Return,
    Call(u32),
    Goto(u32),
    If1(u32),
    If2(u32),
    Message { text_ptr: u32, type_id: u8 },
    GiveItem { item_id: u16, quantity: u16 },
    TrainerBattle { type_id: u8, trainer_id: u16, unk: u16, ptr_intro: u32, ptr_win: u32 },
    /// An opcode outside the table, with the operand bytes that were kept.
    Unknown(u8, Vec<u8>),
}

/// What a [`ScriptCommand`] stands for in contracts.
pub ghost enum Instruction {
    End,
    Return,
    Call(u32),
    Goto(u32),
    If1(u32),
    If2(u32),
    Message { text_ptr: u32, type_id: u8 },
    GiveItem { item_id: u16, quantity: u16 },
    TrainerBattle { type_id: u8, trainer_id: u16, unk: u16, ptr_intro: u32, ptr_win: u32 },
    Unknown(u8, Seq<u8>),
}

impl View for ScriptCommand {
    type V = Instruction;

    open spec fn view(&self) -> Instruction {
        match *self {
            ScriptCommand::End => Instruction::End,
            ScriptCommand::Return => Instruction::Return,
            ScriptCommand::Call(p) => Instruction::Call(p),
            ScriptCommand::Goto(p) => Instruction::Goto(p),
            ScriptCommand::If1(p) => Instruction::If1(p),
            ScriptCommand::If2(p) => Instruction::If2(p),
            ScriptCommand::Message { text_ptr, type_id } => Instruction::Message {
                text_ptr,
                type_id,
            },
            ScriptCommand::GiveItem { item_id, quantity } => Instruction::GiveItem {
                item_id,
                quantity,
            },
            ScriptCommand::TrainerBattle { type_id, trainer_id, unk, ptr_intro, ptr_win } =>
                Instruction::TrainerBattle { type_id, trainer_id, unk, ptr_intro, ptr_win },
            ScriptCommand::Unknown(opcode, operands) => Instruction::Unknown(opcode, operands@),
        }
    }
}

/// The instructions that a list of commands stands for.
pub open spec fn instructions(commands: Seq<ScriptCommand>) -> Seq<Instruction> {
    commands.map_values(|c: ScriptCommand| c@)
}

/// How many operand bytes follow an opcode, or `None` for an opcode that the
/// table does not hold.
pub open spec fn operand_width(opcode: u8) -> Option<int> {
    if opcode == OP_END || opcode == OP_RETURN {
        Some(0)
    } else if opcode == OP_CALL || opcode == OP_GOTO || opcode == OP_IF1 {
        Some(4)
    } else if opcode == OP_MESSAGE {
        Some(5)
    } else if opcode == OP_GIVE_ITEM {
        Some(4)
    } else if opcode == OP_TRAINER_BATTLE {
        Some(13)
    } else {
        None
    }
}

/// Whether the list stops after an instruction with this opcode.
pub open spec fn stops_after(opcode: u8) -> bool {
    opcode == OP_END || opcode == OP_RETURN || operand_width(opcode) is None
}

/// The instruction whose opcode is `opcode` and whose operands start at `at`.
pub open spec fn instruction_at(data: Seq<u8>, opcode: u8, at: int) -> Instruction {
    if opcode == OP_END {
        Instruction::End
    } else if opcode == OP_RETURN {
        Instruction::Return
    } else if opcode == OP_CALL {
        Instruction::Call(le_u32(data, at))
    } else if opcode == OP_GOTO {
        Instruction::Goto(le_u32(data, at))
    } else if opcode == OP_IF1 {
        Instruction::If1(le_u32(data, at))
    } else if opcode == OP_MESSAGE {
        Instruction::Message { text_ptr: le_u32(data, at), type_id: data[at + 4] }
    } else if opcode == OP_GIVE_ITEM {
        Instruction::GiveItem { item_id: le_u16(data, at), quantity: le_u16(data, at + 2) }
    } else if opcode == OP_TRAINER_BATTLE {
        Instruction::TrainerBattle {
            type_id: data[at],
            trainer_id: le_u16(data, at + 1),
            unk: le_u16(data, at + 3),
            ptr_intro: le_u32(data, at + 5),
            ptr_win: le_u32(data, at + 9),
        }
    } else {
        Instruction::Unknown(opcode, Seq::empty())
    }
}

/// The instructions read from `data` when decoding starts at `pc`.
///
/// Decoding moves forward only: a branch target is an operand and is not
/// followed. It ends at the end of the data, after `End` or `Return`, after
/// an opcode outside the table (listed as `Unknown` without operands), or
/// before an instruction whose operands the data no longer holds.
pub open spec fn disassembly(data: Seq<u8>, pc: int) -> Seq<Instruction>
    decreases data.len() - pc,
{
    if pc < 0 || pc >= data.len() {
        Seq::empty()
    } else {
        let opcode = data[pc];
        match operand_width(opcode) {
            None => seq![instruction_at(data, opcode, pc + 1)],
            Some(width) => if pc + 1 + width > data.len() {
                Seq::empty()
            } else if stops_after(opcode) {
                seq![instruction_at(data, opcode, pc + 1)]
            } else {
                seq![instruction_at(data, opcode, pc + 1)] + disassembly(data, pc + 1 + width)
            },
        }
    }
}

/// Lists the script that starts at `start_offset` of `data`.
///
/// Malformed bytecode is no error: the list holds what was decoded before
/// decoding had to stop.
pub fn disassemble(data: &[u8], start_offset: usize) -> (result: Result<
    Vec<ScriptCommand>,
    RomError,
>)
    ensures
        result matches Ok(commands) && instructions(commands@) == disassembly(
            data@,
            start_offset as int,
        ),
{
    let mut commands: Vec<ScriptCommand> = Vec::new();
    let mut pc: usize = start_offset;
    assert(instructions(commands@) + disassembly(data@, pc as int) =~= disassembly(
        data@,
        pc as int,
    ));
    while pc < data.len()
        invariant_except_break
            disassembly(data@, start_offset as int) == instructions(commands@) + disassembly(
                data@,
                pc as int,
            ),
        ensures
            disassembly(data@, start_offset as int) == instructions(commands@),
        decreases data@.len() - pc,
    {
        let ghost listed = instructions(commands@);
        let ghost rest = disassembly(data@, pc as int);
        let opcode = data[pc];
        pc += 1;
        let left: usize = data.len() - pc;
        let ghost ins = instruction_at(data@, opcode, pc as int);
        if opcode == OP_END {
            commands.push(ScriptCommand::End);
            assert(instructions(commands@) =~= listed + rest);
            break ;
        } else if opcode == OP_RETURN {
            commands.push(ScriptCommand::Return);
            assert(instructions(commands@) =~= listed + rest);
            break ;
        } else if opcode == OP_CALL {
            if left < 4 {
                assert(instructions(commands@) =~= listed + rest);
                break ;
            }
            let ptr = read_u32(data, pc);
            pc += 4;
            commands.push(ScriptCommand::Call(ptr));
        } else if opcode == OP_GOTO {
            if left < 4 {
                assert(instructions(commands@) =~= listed + rest);
                break ;
            }
            let ptr = read_u32(data, pc);
            pc += 4;
            commands.push(ScriptCommand::Goto(ptr));
        } else if opcode == OP_IF1 {
            if left < 4 {
                assert(instructions(commands@) =~= listed + rest);
                break ;
            }
            let ptr = read_u32(data, pc);
            pc += 4;
            commands.push(ScriptCommand::If1(ptr));
        } else if opcode == OP_MESSAGE {
            if left < 5 {
                assert(instructions(commands@) =~= listed + rest);
                break ;
            }
            let ptr = read_u32(data, pc);
            let type_id = data[pc + 4];
            pc += 5;
            commands.push(ScriptCommand::Message { text_ptr: ptr, type_id });
        } else if opcode == OP_GIVE_ITEM {
            if left < 4 {
                assert(instructions(commands@) =~= listed + rest);
                break ;
            }
            let item_id = read_u16(data, pc);
            let qty = read_u16(data, pc + 2);
            pc += 4;
            commands.push(ScriptCommand::GiveItem { item_id, quantity: qty });
        } else if opcode == OP_TRAINER_BATTLE {
            if left < 13 {
                assert(instructions(commands@) =~= listed + rest);
                break ;
            }
            let type_id = data[pc];
            let trainer_id = read_u16(data, pc + 1);
            let unk = read_u16(data, pc + 3);
            let ptr_intro = read_u32(data, pc + 5);
            let ptr_win = read_u32(data, pc + 9);
            pc += 13;
            commands.push(
                ScriptCommand::TrainerBattle { type_id, trainer_id, unk, ptr_intro, ptr_win },
            );
        } else {
            commands.push(ScriptCommand::Unknown(opcode, Vec::new()));
            assert(instructions(commands@) =~= listed + rest);
            break ;
        }
        assert(instructions(commands@) =~= listed.push(ins));
        assert(rest =~= seq![ins] + disassembly(data@, pc as int));
        assert(listed + rest =~= listed.push(ins) + disassembly(data@, pc as int));
    }
    Ok(commands)
}

/// Whether nothing can follow an instruction in a list: it ends the script,
/// returns from it, or has an opcode outside the table.
pub open spec fn ends_list(instruction: Instruction) -> bool {
    instruction is End || instruction is Return || instruction is Unknown
}

/// An opcode outside the table gives a list of one `Unknown` instruction
/// that carries the opcode and no operands.
pub proof fn lemma_unknown_opcode_stops(data: Seq<u8>, pc: int)
    requires
        0 <= pc < data.len(),
        operand_width(data[pc]) is None,
    ensures
        disassembly(data, pc) == seq![Instruction::Unknown(data[pc], Seq::empty())],
{
}

/// Decoding stops after `End`, `Return` and `Unknown`: none of them stands
/// anywhere in a list but at its end.
pub proof fn lemma_nothing_follows_a_stop(data: Seq<u8>, pc: int, i: int)
    requires
        0 <= i < disassembly(data, pc).len() - 1,
    ensures
        !ends_list(disassembly(data, pc)[i]),
    decreases data.len() - pc,
{
    let opcode = data[pc];
    let width = operand_width(opcode)->Some_0;
    if i > 0 {
        lemma_nothing_follows_a_stop(data, pc + 1 + width, i - 1);
    }
}

} // verus!
