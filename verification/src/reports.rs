//! What the tools tell: numerals, listings of instructions, and the verdicts on test ROMs.

use vstd::prelude::*;

use crate::disasm::{instruction_text, r8_text};
use crate::machine::MachineState;
use crate::suite::{
    SignatureRegisters, SuiteAction, SuiteEvent, SuitePhase, SuiteRunView, SuiteStatus,
};
use crate::text::{decimal, hex2, hex4, holds_text, signed_decimal};

verus! {

/// The value of a digit, of either case.
pub open spec fn digit_value(c: char) -> int {
    if c <= '9' {
        c as int - '0' as int
    } else if c <= 'F' {
        c as int - 'A' as int + 10
    } else {
        c as int - 'a' as int + 10
    }
}

/// The value of a numeral in a base.
pub open spec fn numeral_value(text: Seq<char>, base: int) -> int
    decreases text.len(),
{
    if text.len() == 0 {
        0
    } else {
        numeral_value(text.drop_last(), base) * base + digit_value(text.last())
    }
}

/// Hexadecimal numerals have two or four digits and read as the number they were written for.
pub proof fn law_hexadecimal_reads_back(byte: u8, number: u16, upper: bool)
    ensures
        hex2(byte, upper).len() == 2,
        16 * digit_value(hex2(byte, upper)[0]) + digit_value(hex2(byte, upper)[1]) == byte,
        hex4(number, upper).len() == 4,
        4096 * digit_value(hex4(number, upper)[0]) + 256 * digit_value(hex4(number, upper)[1]) + 16
            * digit_value(hex4(number, upper)[2]) + digit_value(hex4(number, upper)[3]) == number,
{
    let high = (number / 256) as u8;
    let low = (number % 256) as u8;
    assert(hex4(number, upper)[0] == hex2(high, upper)[0]);
    assert(hex4(number, upper)[1] == hex2(high, upper)[1]);
    assert(hex4(number, upper)[2] == hex2(low, upper)[0]);
    assert(hex4(number, upper)[3] == hex2(low, upper)[1]);
}

/// Decimal numerals read as the number they were written for, and have no needless zero in front; a
/// signed one has its sign in front.
pub proof fn law_decimal_reads_back(value: nat)
    ensures
        numeral_value(decimal(value), 10) == value,
        value > 0 ==> decimal(value)[0] != '0',
        decimal(value).len() > 0,
        signed_decimal(value as int) == seq!['+'] + decimal(value),
        value > 0 ==> signed_decimal(-(value as int)) == seq!['-'] + decimal(value),
    decreases value,
{
    reveal_with_fuel(numeral_value, 2);
    if value >= 10 {
        law_decimal_reads_back(value / 10);
        assert(decimal(value).drop_last() =~= decimal(value / 10));
        assert(value == value / 10 * 10 + value % 10);
    }
}

/// A listing starts at the address asked for, each instruction follows the one before without a gap,
/// and shows the bytes that stand there.
pub proof fn law_listing_has_no_gaps(machine: MachineState, start: u16, index: nat, i: int)
    requires
        0 <= i < machine.disassemble_one(machine.listing_address(start, index)).len,
    ensures
        ({
            let address = machine.listing_address(start, index);
            let line = machine.disassemble_one(address);
            &&& machine.listing_address(start, 0) == start
            &&& line.address == address
            &&& line.bytes.len() == line.len
            &&& line.bytes[i] == machine.peek8(((address + i) % 0x10000) as u16)
            &&& machine.listing_address(start, index + 1) == (address + line.len) % 0x10000
        }),
{
    reveal(MachineState::disassemble_one);
}

/// The bytes of an instruction with its opcode: three with an address or a word, two with a byte, an
/// offset or a prefix, `STOP` among them, and one of all others.
pub open spec fn encoded_length(opcode: u8) -> int {
    let word = opcode < 0x40 && opcode % 16 == 1 || opcode == 0xC3 || opcode == 0xCD || opcode
        == 0xEA;
    let byte = opcode == 0x06 || opcode == 0x0E || opcode == 0x3E || opcode == 0xE0 || opcode == 0xF0
        || opcode == 0xFE || opcode == 0x10 || opcode == 0x18 || opcode == 0x20 || opcode == 0x28
        || opcode == 0xCB;
    if word {
        3
    } else if byte {
        2
    } else {
        1
    }
}

/// Known instructions are listed with their length; the operand of a load of the accumulator, of `XOR`
/// and of `OR` is the register that the low three bits of the opcode name.
pub proof fn law_listed_instructions(opcode: u8, b1: u8, b2: u8)
    ensures
        instruction_text(opcode, b1, b2).0 == encoded_length(opcode),
        0x78 <= opcode <= 0x7F ==> instruction_text(opcode, b1, b2).1 == "LD A,"@ + operand_name(
            opcode as int % 8,
        ),
        0xA8 <= opcode <= 0xAF ==> instruction_text(opcode, b1, b2).1 == "XOR "@ + operand_name(
            opcode as int % 8,
        ),
        0xB0 <= opcode <= 0xB7 ==> instruction_text(opcode, b1, b2).1 == "OR "@ + operand_name(
            opcode as int % 8,
        ),
{
    reveal(instruction_text);
    let index = opcode as int % 8;
    assert(operand_name(index) == r8_text(index));
}

/// The operands in the order of their numbers.
pub open spec fn operand_name(index: int) -> Seq<char> {
    seq!["B"@, "C"@, "D"@, "E"@, "H"@, "L"@, "(HL)"@, "A"@][index]
}

/// The verdict on a ROM that leaves its result in RAM: there is one exactly where the three bytes of
/// the signature follow a code other than 0x80, and it is good exactly where the code is 0.
pub proof fn law_result_in_memory_decides(
    run: SuiteRunView,
    bytes: Vec<u8>,
    after: SuiteRunView,
    action: SuiteAction,
)
    requires
        run.phase == SuitePhase::Probing,
        run.advanced(SuiteEvent::Memory(bytes), after, action),
    ensures
        ({
            let done = bytes@.len() >= 4 && bytes@[0] != 0x80 && bytes@[1] == 0xDE && bytes@[2]
                == 0xB0 && bytes@[3] == 0x61;
            &&& done <==> action is Finish
            &&& done <==> after.phase == SuitePhase::Finished
            &&& done ==> (action matches SuiteAction::Finish(result) && result.status == (
            if bytes@[0] == 0 {
                SuiteStatus::Pass
            } else {
                SuiteStatus::Fail
            }))
            &&& !done ==> after.phase == SuitePhase::Running && (
            action matches SuiteAction::Run { max_instructions } && max_instructions > 0)
        }),
{
}

/// The verdict on a ROM that tells its result in registers: it passed with six Fibonacci numbers from 3
/// on in `B`, `C`, `D`, `E`, `H` and `L`, and failed with 0x42 in all of them; with anything else it
/// goes on.
pub proof fn law_result_in_registers_decides(
    run: SuiteRunView,
    registers: SignatureRegisters,
    after: SuiteRunView,
    action: SuiteAction,
    serial: String,
    last: SuiteRunView,
    verdict: SuiteAction,
)
    requires
        run.phase == SuitePhase::Matching,
        run.advanced(SuiteEvent::Registers(registers), after, action),
        after.advanced(SuiteEvent::Serial(serial), last, verdict),
    ensures
        ({
            let (b, c, d) = (registers.b, registers.c, registers.d);
            let (e, h, l) = (registers.e, registers.h, registers.l);
            let passed = b == 3 && c == 5 && d == b + c && e == c + d && h == d + e && l == e + h;
            let failed = b == 0x42 && c == 0x42 && d == 0x42 && e == 0x42 && h == 0x42 && l == 0x42;
            &&& passed ==> action is ReadSerial && (verdict matches SuiteAction::Finish(result)
                && result.status == SuiteStatus::Pass && result.serial_output@ == serial@)
            &&& failed ==> action is ReadSerial && (verdict matches SuiteAction::Finish(result)
                && result.status == SuiteStatus::Fail && result.serial_output@ == serial@)
            &&& !passed && !failed ==> action is ClearBreakpoints && after.phase
                == SuitePhase::Disarming
        }),
{
}

/// The verdict on a ROM that tells its result in text: that it passed counts before that it failed, and
/// text with neither decides nothing.
pub proof fn law_result_in_text_decides(
    run: SuiteRunView,
    serial: String,
    after: SuiteRunView,
    action: SuiteAction,
)
    requires
        run.phase == SuitePhase::Polling,
        run.advanced(SuiteEvent::Serial(serial), after, action),
    ensures
        ({
            let passed = holds_text(serial@, "Passed"@) || holds_text(serial@, "passed"@);
            let failed = holds_text(serial@, "Failed"@) || holds_text(serial@, "failed"@);
            &&& passed || failed <==> action is Finish
            &&& passed ==> (action matches SuiteAction::Finish(result) && result.status
                == SuiteStatus::Pass && result.serial_output@ == serial@)
            &&& failed && !passed ==> (action matches SuiteAction::Finish(result) && result.status
                == SuiteStatus::Fail && result.serial_output@ == serial@)
            &&& !passed && !failed ==> after.serial == serial@
        }),
{
}

} // verus!
