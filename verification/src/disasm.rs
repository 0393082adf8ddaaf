//! Instructions as text.

use vstd::prelude::*;

use crate::alu::{signed, signed_byte};
use crate::cpu::wrapped16;
use crate::execute::illegal_opcode;
use crate::interface::DisassembledInstruction;
use crate::machine::{GbMachine, MachineState};
use crate::registers::{join_bytes, word};
use crate::text::{
    decimal, decimal_text, hex2, hex2_text, hex4, hex4_text, joined, joined3, signed_decimal,
    signed_decimal_text,
};

verus! {

/// What a decoded instruction holds.
pub struct InstructionText {
    pub address: u16,
    pub bytes: Seq<u8>,
    pub text: Seq<char>,
    pub len: u8,
}

impl View for DisassembledInstruction {
    type V = InstructionText;

    open spec fn view(&self) -> InstructionText {
        InstructionText {
            address: self.address,
            bytes: self.bytes@,
            text: self.text@,
            len: self.len,
        }
    }
}

/// The register that three bits name.
pub open spec fn r8_text(index: int) -> Seq<char> {
    if index == 0 {
        "B"@
    } else if index == 1 {
        "C"@
    } else if index == 2 {
        "D"@
    } else if index == 3 {
        "E"@
    } else if index == 4 {
        "H"@
    } else if index == 5 {
        "L"@
    } else if index == 6 {
        "(HL)"@
    } else if index == 7 {
        "A"@
    } else {
        "?"@
    }
}

/// The name of a rotate or shift.
pub open spec fn shift_text(index: int) -> Seq<char> {
    if index == 0 {
        "RLC "@
    } else if index == 1 {
        "RRC "@
    } else if index == 2 {
        "RL "@
    } else if index == 3 {
        "RR "@
    } else if index == 4 {
        "SLA "@
    } else if index == 5 {
        "SRA "@
    } else if index == 6 {
        "SWAP "@
    } else {
        "SRL "@
    }
}

/// The name of a bit operation.
pub open spec fn bit_text(index: int) -> Seq<char> {
    if index == 1 {
        "BIT "@
    } else if index == 2 {
        "RES "@
    } else {
        "SET "@
    }
}

/// The text of the second byte of a prefixed instruction.
pub open spec fn cb_text(opcode: u8) -> Seq<char> {
    let target = r8_text(opcode as int % 8);
    let y = opcode / 8 % 8;
    if opcode / 64 == 0 {
        shift_text(y as int) + target
    } else {
        bit_text((opcode / 64) as int) + decimal(y as nat) + ","@ + target
    }
}

/// The text of an instruction without operand bytes.
pub open spec fn fixed_text(opcode: u8) -> Option<Seq<char>> {
    if opcode == 0x00 {
        Some("NOP"@)
    } else if opcode == 0x03 {
        Some("INC BC"@)
    } else if opcode == 0x04 {
        Some("INC B"@)
    } else if opcode == 0x05 {
        Some("DEC B"@)
    } else if opcode == 0x0D {
        Some("DEC C"@)
    } else if opcode == 0x13 {
        Some("INC DE"@)
    } else if opcode == 0x22 {
        Some("LD (HL+),A"@)
    } else if opcode == 0x23 {
        Some("INC HL"@)
    } else if opcode == 0x2A {
        Some("LD A,(HL+)"@)
    } else if opcode == 0x32 {
        Some("LD (HL-),A"@)
    } else if opcode == 0x3A {
        Some("LD A,(HL-)"@)
    } else if opcode == 0x3C {
        Some("INC A"@)
    } else if opcode == 0x3D {
        Some("DEC A"@)
    } else if opcode == 0x76 {
        Some("HALT"@)
    } else if opcode == 0x77 {
        Some("LD (HL),A"@)
    } else if opcode == 0xC1 {
        Some("POP BC"@)
    } else if opcode == 0xC5 {
        Some("PUSH BC"@)
    } else if opcode == 0xC9 {
        Some("RET"@)
    } else if opcode == 0xD1 {
        Some("POP DE"@)
    } else if opcode == 0xD5 {
        Some("PUSH DE"@)
    } else if opcode == 0xE1 {
        Some("POP HL"@)
    } else if opcode == 0xE5 {
        Some("PUSH HL"@)
    } else if opcode == 0xF1 {
        Some("POP AF"@)
    } else if opcode == 0xF3 {
        Some("DI"@)
    } else if opcode == 0xF5 {
        Some("PUSH AF"@)
    } else if opcode == 0xFB {
        Some("EI"@)
    } else {
        None
    }
}

/// The text around the operand byte of an instruction.
pub open spec fn byte_text(opcode: u8) -> Option<(Seq<char>, Seq<char>)> {
    if opcode == 0x06 {
        Some(("LD B,$"@, ""@))
    } else if opcode == 0x0E {
        Some(("LD C,$"@, ""@))
    } else if opcode == 0x3E {
        Some(("LD A,$"@, ""@))
    } else if opcode == 0xE0 {
        Some(("LDH ($FF"@, "),A"@))
    } else if opcode == 0xF0 {
        Some(("LDH A,($FF"@, ")"@))
    } else if opcode == 0xFE {
        Some(("CP $"@, ""@))
    } else {
        None
    }
}

/// The text around the operand word of an instruction.
pub open spec fn word_text(opcode: u8) -> Option<(Seq<char>, Seq<char>)> {
    if opcode == 0x01 {
        Some(("LD BC,$"@, ""@))
    } else if opcode == 0x11 {
        Some(("LD DE,$"@, ""@))
    } else if opcode == 0x21 {
        Some(("LD HL,$"@, ""@))
    } else if opcode == 0x31 {
        Some(("LD SP,$"@, ""@))
    } else if opcode == 0xC3 {
        Some(("JP $"@, ""@))
    } else if opcode == 0xCD {
        Some(("CALL $"@, ""@))
    } else if opcode == 0xEA {
        Some(("LD ($"@, "),A"@))
    } else {
        None
    }
}

/// The text before the signed operand of an instruction.
pub open spec fn jump_text(opcode: u8) -> Option<Seq<char>> {
    if opcode == 0x18 {
        Some("JR "@)
    } else if opcode == 0x20 {
        Some("JR NZ,"@)
    } else if opcode == 0x28 {
        Some("JR Z,"@)
    } else {
        None
    }
}

/// The length and the text of an instruction, of its opcode and the two bytes after it.
#[verifier::opaque]
pub open spec fn instruction_text(opcode: u8, b1: u8, b2: u8) -> (u8, Seq<char>) {
    let target = r8_text(opcode as int % 8);
    if fixed_text(opcode) is Some {
        (1, fixed_text(opcode)->0)
    } else if byte_text(opcode) is Some {
        let (before, after) = byte_text(opcode)->0;
        (2, before + hex2(b1, true) + after)
    } else if word_text(opcode) is Some {
        let (before, after) = word_text(opcode)->0;
        (3, before + hex4(word(b2, b1), true) + after)
    } else if jump_text(opcode) is Some {
        (2, jump_text(opcode)->0 + signed_decimal(signed(b1)))
    } else if opcode == 0x10 {
        (2, "STOP"@)
    } else if 0x78 <= opcode <= 0x7F {
        (1, "LD A,"@ + target)
    } else if 0xA8 <= opcode <= 0xAF {
        (1, "XOR "@ + target)
    } else if 0xB0 <= opcode <= 0xB7 {
        (1, "OR "@ + target)
    } else if opcode == 0xCB {
        (2, "CB "@ + cb_text(b1))
    } else if illegal_opcode(opcode) {
        (1, "ILLEGAL $"@ + hex2(opcode, true))
    } else {
        (1, "DB $"@ + hex2(opcode, true))
    }
}

impl MachineState {
    /// The instruction at an address.
    #[verifier::opaque]
    pub open spec fn disassemble_one(self, address: u16) -> InstructionText {
        let (len, text) = instruction_text(
            self.peek8(address),
            self.peek8(wrapped16(address + 1)),
            self.peek8(wrapped16(address + 2)),
        );
        InstructionText {
            address,
            bytes: Seq::new(len as nat, |i: int| self.peek8(wrapped16(address + i))),
            text,
            len,
        }
    }

    /// The address of an instruction of a listing.
    pub open spec fn listing_address(self, start: u16, index: nat) -> u16
        decreases index,
    {
        if index == 0 {
            start
        } else {
            let previous = self.listing_address(start, (index - 1) as nat);
            wrapped16(previous + self.disassemble_one(previous).len)
        }
    }
}

fn r8_name(index: u8) -> (name: &'static str)
    ensures
        name@ == r8_text(index as int),
{
    match index {
        0 => "B",
        1 => "C",
        2 => "D",
        3 => "E",
        4 => "H",
        5 => "L",
        6 => "(HL)",
        7 => "A",
        _ => "?",
    }
}

fn cb_name(opcode: u8) -> (name: String)
    ensures
        name@ == cb_text(opcode),
{
    let target: &'static str = r8_name(opcode % 8);
    let y: u8 = opcode / 8 % 8;
    let operation: &'static str = match opcode {
        0x00..=0x07 => "RLC ",
        0x08..=0x0F => "RRC ",
        0x10..=0x17 => "RL ",
        0x18..=0x1F => "RR ",
        0x20..=0x27 => "SLA ",
        0x28..=0x2F => "SRA ",
        0x30..=0x37 => "SWAP ",
        0x38..=0x3F => "SRL ",
        0x40..=0x7F => "BIT ",
        0x80..=0xBF => "RES ",
        _ => "SET ",
    };
    if opcode < 0x40 {
        joined(operation, target)
    } else {
        let mut name: String = joined3(operation, decimal_text(y as u64).as_str(), ",");
        name.append(target);
        name
    }
}

fn fixed_name(opcode: u8) -> (name: Option<&'static str>)
    ensures
        match name {
            Some(text) => fixed_text(opcode) == Some(text@),
            None => fixed_text(opcode) is None,
        },
{
    match opcode {
        0x00 => Some("NOP"),
        0x03 => Some("INC BC"),
        0x04 => Some("INC B"),
        0x05 => Some("DEC B"),
        0x0D => Some("DEC C"),
        0x13 => Some("INC DE"),
        0x22 => Some("LD (HL+),A"),
        0x23 => Some("INC HL"),
        0x2A => Some("LD A,(HL+)"),
        0x32 => Some("LD (HL-),A"),
        0x3A => Some("LD A,(HL-)"),
        0x3C => Some("INC A"),
        0x3D => Some("DEC A"),
        0x76 => Some("HALT"),
        0x77 => Some("LD (HL),A"),
        0xC1 => Some("POP BC"),
        0xC5 => Some("PUSH BC"),
        0xC9 => Some("RET"),
        0xD1 => Some("POP DE"),
        0xD5 => Some("PUSH DE"),
        0xE1 => Some("POP HL"),
        0xE5 => Some("PUSH HL"),
        0xF1 => Some("POP AF"),
        0xF3 => Some("DI"),
        0xF5 => Some("PUSH AF"),
        0xFB => Some("EI"),
        _ => None,
    }
}

fn byte_name(opcode: u8) -> (name: Option<(&'static str, &'static str)>)
    ensures
        match name {
            Some((before, after)) => byte_text(opcode) == Some((before@, after@)),
            None => byte_text(opcode) is None,
        },
{
    match opcode {
        0x06 => Some(("LD B,$", "")),
        0x0E => Some(("LD C,$", "")),
        0x3E => Some(("LD A,$", "")),
        0xE0 => Some(("LDH ($FF", "),A")),
        0xF0 => Some(("LDH A,($FF", ")")),
        0xFE => Some(("CP $", "")),
        _ => None,
    }
}

fn word_name(opcode: u8) -> (name: Option<(&'static str, &'static str)>)
    ensures
        match name {
            Some((before, after)) => word_text(opcode) == Some((before@, after@)),
            None => word_text(opcode) is None,
        },
{
    match opcode {
        0x01 => Some(("LD BC,$", "")),
        0x11 => Some(("LD DE,$", "")),
        0x21 => Some(("LD HL,$", "")),
        0x31 => Some(("LD SP,$", "")),
        0xC3 => Some(("JP $", "")),
        0xCD => Some(("CALL $", "")),
        0xEA => Some(("LD ($", "),A")),
        _ => None,
    }
}

fn jump_name(opcode: u8) -> (name: Option<&'static str>)
    ensures
        match name {
            Some(text) => jump_text(opcode) == Some(text@),
            None => jump_text(opcode) is None,
        },
{
    match opcode {
        0x18 => Some("JR "),
        0x20 => Some("JR NZ,"),
        0x28 => Some("JR Z,"),
        _ => None,
    }
}

fn instruction_name(opcode: u8, b1: u8, b2: u8) -> (name: (u8, String))
    ensures
        name.0 == instruction_text(opcode, b1, b2).0,
        name.1@ == instruction_text(opcode, b1, b2).1,
        1 <= name.0 <= 3,
{
    proof {
        reveal(instruction_text);
    }
    if let Some(text) = fixed_name(opcode) {
        return (1, text.to_owned());
    }
    if let Some((before, after)) = byte_name(opcode) {
        return (2, joined3(before, hex2_text(b1, true).as_str(), after));
    }
    if let Some((before, after)) = word_name(opcode) {
        return (3, joined3(before, hex4_text(join_bytes(b2, b1), true).as_str(), after));
    }
    if let Some(text) = jump_name(opcode) {
        return (2, joined(text, signed_decimal_text(signed_byte(b1)).as_str()));
    }
    let target: &'static str = r8_name(opcode % 8);
    match opcode {
        0x10 => (2, "STOP".to_owned()),
        0x78..=0x7F => (1, joined("LD A,", target)),
        0xA8..=0xAF => (1, joined("XOR ", target)),
        0xB0..=0xB7 => (1, joined("OR ", target)),
        0xCB => (2, joined("CB ", cb_name(b1).as_str())),
        0xD3 | 0xDB | 0xDD | 0xE3 | 0xE4 | 0xEB | 0xEC | 0xED | 0xF4 | 0xFC | 0xFD => (
            1,
            joined("ILLEGAL $", hex2_text(opcode, true).as_str()),
        ),
        _ => (1, joined("DB $", hex2_text(opcode, true).as_str())),
    }
}

impl GbMachine {
    pub fn disassemble_one(&self, address: u16) -> (instruction: DisassembledInstruction)
        requires
            self@.wf(),
        ensures
            instruction@ == self@.disassemble_one(address),
            1 <= instruction.len <= 3,
    {
        proof {
            reveal(MachineState::disassemble_one);
        }
        let opcode: u8 = self.peek8(address);
        let b1: u8 = self.peek8(address.wrapping_add(1));
        let b2: u8 = self.peek8(address.wrapping_add(2));
        let (len, text): (u8, String) = instruction_name(opcode, b1, b2);
        let mut bytes: Vec<u8> = Vec::new();
        let mut offset: u8 = 0;
        while offset < len
            invariant
                self@.wf(),
                offset <= len,
                bytes@ == Seq::new(offset as nat, |i: int| self@.peek8(wrapped16(address + i))),
            decreases len - offset,
        {
            bytes.push(self.peek8(address.wrapping_add(offset as u16)));
            offset = offset + 1;
            assert(bytes@ =~= Seq::new(
                offset as nat,
                |i: int| self@.peek8(wrapped16(address + i)),
            ));
        }
        DisassembledInstruction { address, bytes, text, len }
    }

    /// So many instructions, one after the other in memory.
    pub fn disassemble_range(&self, start: u16, count: usize) -> (listing: Vec<
        DisassembledInstruction,
    >)
        requires
            self@.wf(),
        ensures
            listing@.len() == count,
            forall|i: int|
                0 <= i < count ==> (#[trigger] listing@[i])@ == self@.disassemble_one(
                    self@.listing_address(start, i as nat),
                ),
            forall|i: int| 0 <= i < count ==> 1 <= (#[trigger] listing@[i]).len <= 3,
    {
        let mut listing: Vec<DisassembledInstruction> = Vec::new();
        let mut pc: u16 = start;
        let mut done: usize = 0;
        while done < count
            invariant
                self@.wf(),
                done <= count,
                listing@.len() == done,
                pc == self@.listing_address(start, done as nat),
                forall|i: int|
                    0 <= i < done ==> (#[trigger] listing@[i])@ == self@.disassemble_one(
                        self@.listing_address(start, i as nat),
                    ),
                forall|i: int| 0 <= i < done ==> 1 <= (#[trigger] listing@[i]).len <= 3,
            decreases count - done,
        {
            let instruction: DisassembledInstruction = self.disassemble_one(pc);
            assert(instruction@.len == instruction.len);
            pc = pc.wrapping_add(instruction.len as u16);
            listing.push(instruction);
            done = done + 1;
        }
        listing
    }
}

} // verus!
