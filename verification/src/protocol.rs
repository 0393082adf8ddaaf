//! What a debugging session gives its client, request by request and across requests.

use vstd::prelude::*;

use crate::interface::{AddressSpace, Breakpoint, MemoryRegion, StopReason, TraceEntry};
use crate::instructions::place;
use crate::machine::MachineState;
use crate::model::{GbError, GbModel};
use crate::quiet::lemma_look;
use crate::session::{
    answered, button_mask, last_entries, named_button, Request, Response, RunStop, SessionView,
};
use crate::stepping::{law_run_is_its_steps, law_step_breaks};

verus! {

/// What an inspection shows of a region: exactly the bytes asked for, where all of them are there. RAM
/// is work RAM, or the cartridge's where the range does not lie in that.
pub proof fn law_inspection_shows_the_bytes(machine: MachineState, address: int, len: int, i: int)
    requires
        machine.sized(),
        0 <= address,
        0 < len,
        0 <= i < len,
    ensures
        ({
            let rom = machine.inspect_memory(MemoryRegion::Rom, address, len);
            let ram = machine.inspect_memory(MemoryRegion::Ram, address, len);
            let vram = machine.inspect_memory(MemoryRegion::Vram, address, len);
            let oam = machine.inspect_memory(MemoryRegion::Oam, address, len);
            let system = machine.inspect_memory(
                MemoryRegion::AddressSpace(AddressSpace::System),
                address,
                len,
            );
            let end = address + len;
            &&& rom is Some <==> end <= machine.cartridge.rom.len()
            &&& rom is Some ==> rom->0.len() == len && rom->0[i] == machine.cartridge.rom[address + i]
            &&& ram is Some <==> end <= 0x2000 || end <= machine.cartridge.ram.len()
            &&& end <= 0x2000 ==> ram->0.len() == len && ram->0[i] == machine.wram[address + i]
            &&& 0x2000 < end <= machine.cartridge.ram.len() ==> ram->0.len() == len && ram->0[i]
                == machine.cartridge.ram[address + i]
            &&& vram is Some <==> end <= 0x2000
            &&& vram is Some ==> vram->0.len() == len && vram->0[i] == machine.vram[address + i]
            &&& oam is Some <==> end <= 0xA0
            &&& oam is Some ==> oam->0.len() == len && oam->0[i] == machine.oam[address + i]
            &&& system is Some <==> end <= 0x10000 && len <= 0xFFFF
            &&& system is Some ==> system->0.len() == len && system->0[i] == machine.peek8(
                (address + i) as u16,
            )
        }),
{
}

/// What a request writes to RAM, a later one reads, and an inspection shows, in the address space and
/// in work RAM.
pub proof fn law_written_byte_is_read(
    before: SessionView,
    machine: MachineState,
    address: u16,
    value: u8,
    after: SessionView,
    written: Result<Response, String>,
    last: SessionView,
    read: Result<Response, String>,
)
    requires
        before.machine == Some(machine),
        machine.at_ease(),
        machine.sized(),
        0xC000 <= address <= 0xDFFF,
        answered(Request::WriteAddress { address, value }, before, after, written),
        answered(Request::ReadAddress { address }, after, last, read),
    ensures
        read matches Ok(Response::Byte { address: place, value: found }) && place == address && found
            == value,
        after.machine is Some,
        after.machine->0.inspect_memory(MemoryRegion::Ram, address - 0xC000, 1) == Some(seq![value]),
        after.machine->0.inspect_memory(
            MemoryRegion::AddressSpace(AddressSpace::System),
            address as int,
            1,
        ) == Some(seq![value]),
{
    let stored = machine.write8(address, value);
    assert(after.machine == Some(stored));
    crate::quiet::lemma_put(machine, address, value);
    lemma_look(stored, address);
    assert(stored.sized()) by {
        reveal(MachineState::write8);
        reveal(MachineState::record_watchpoint);
        reveal(MachineState::store8);
    }
    assert(stored.peek8(address) == value) by {
        reveal(MachineState::peek8);
    }
    assert(stored.inspect_memory(MemoryRegion::Ram, address - 0xC000, 1)->0 =~= seq![value]);
    assert(stored.inspect_memory(
        MemoryRegion::AddressSpace(AddressSpace::System),
        address as int,
        1,
    )->0 =~= seq![value]);
}

/// A breakpoint on the program counter, or on an opcode, that a request added stops the next step of
/// a machine that has come there.
pub proof fn law_added_breakpoint_stops(
    kind: String,
    address: u32,
    before: SessionView,
    after: SessionView,
    result: Result<Response, String>,
    pc: u16,
    opcode: u8,
)
    requires
        before.machine is Some,
        before.machine->0.ready_at(pc, opcode),
        answered(Request::AddBreakpoint { kind, address }, before, after, result),
        kind@ == "pc"@ && address == pc || kind@ == "opcode"@ && address == opcode,
    ensures
        result is Ok,
        after.machine is Some,
        after.machine->0.step().outcome == Ok::<StopReason, GbError>(StopReason::BreakpointHit),
        after.machine->0.step().machine.registers == before.machine->0.registers,
{
    reveal_strlit("pc");
    reveal_strlit("opcode");
    assert("pc"@.len() == 2 && "opcode"@.len() == 6);
    let machine = before.machine->0;
    let added = if kind@ == "pc"@ {
        Breakpoint::ProgramCounter(address)
    } else {
        Breakpoint::Opcode(address as u8)
    };
    let watched = after.machine->0;
    assert(watched.breakpoints == machine.breakpoints.push(added));
    assert(watched.breakpoints[machine.breakpoints.len() as int] == added);
    assert(watched.breakpoints.contains(added));
    law_step_breaks(watched, pc, opcode);
}

/// A watchpoint that a request added is hit by the access it is for, by either of its names.
pub proof fn law_added_watchpoint_is_hit(
    kind: String,
    address: u16,
    value: u8,
    before: SessionView,
    after: SessionView,
    result: Result<Response, String>,
)
    requires
        before.machine is Some,
        answered(Request::AddBreakpoint { kind, address: address as u32 }, before, after, result),
    ensures
        kind@ == "memory_write"@ || kind@ == "write"@ ==> {
            &&& result is Ok
            &&& after.machine->0.write8(address, value).pending_watchpoint matches Some(hit)
                && hit.address == address && hit.kind is Write
        },
        kind@ == "memory_read"@ || kind@ == "read"@ ==> {
            &&& result is Ok
            &&& after.machine->0.after_read8(address).pending_watchpoint matches Some(hit)
                && hit.address == address && hit.kind is Read
        },
        kind@ != "pc"@ && kind@ != "opcode"@ && kind@ != "memory_read"@ && kind@ != "read"@ && kind@
            != "memory_write"@ && kind@ != "write"@ ==> result is Err && after == before,
{
    reveal_strlit("pc");
    reveal_strlit("opcode");
    reveal_strlit("memory_read");
    reveal_strlit("read");
    reveal_strlit("memory_write");
    reveal_strlit("write");
    assert("pc"@.len() == 2 && "opcode"@.len() == 6 && "memory_read"@.len() == 11 && "read"@.len()
        == 4 && "memory_write"@.len() == 12 && "write"@.len() == 5);
    crate::laws::law_watchpoints_record_accesses(after.machine->0, address, value);
    let machine = before.machine->0;
    let read = Breakpoint::MemoryRead(address as u32);
    let write = Breakpoint::MemoryWrite(address as u32);
    assert(machine.breakpoints.push(read)[machine.breakpoints.len() as int] == read);
    assert(machine.breakpoints.push(write)[machine.breakpoints.len() as int] == write);
}

/// The names of the buttons, in the order of their bits.
pub open spec fn button_names() -> Seq<Seq<char>> {
    seq!["right"@, "left"@, "up"@, "down"@, "a"@, "b"@, "select"@, "start"@]
}

proof fn lemma_button_names()
    ensures
        forall|i: int|
            0 <= i < 8 ==> #[trigger] named_button(button_names()[i]) == Some(place(i) as u8),
        forall|name: Seq<char>|
            #![trigger named_button(name)]
            named_button(name) matches Some(bit) ==> exists|i: int|
                0 <= i < 8 && #[trigger] button_names()[i] == name && place(i) == bit,
{
    let names = button_names();
    reveal_strlit("right");
    reveal_strlit("left");
    reveal_strlit("up");
    reveal_strlit("down");
    reveal_strlit("a");
    reveal_strlit("b");
    reveal_strlit("select");
    reveal_strlit("start");
    assert("right"@.len() == 5 && "left"@.len() == 4 && "up"@.len() == 2 && "down"@.len() == 4
        && "a"@.len() == 1 && "b"@.len() == 1 && "select"@.len() == 6 && "start"@.len() == 5);
    assert("right"@[0] == 'r' && "start"@[0] == 's' && "left"@[0] == 'l' && "down"@[0] == 'd'
        && "a"@[0] == 'a' && "b"@[0] == 'b');
    assert(names[0] == "right"@ && names[1] == "left"@ && names[2] == "up"@ && names[3] == "down"@
        && names[4] == "a"@ && names[5] == "b"@ && names[6] == "select"@ && names[7] == "start"@);
    assert(place(0) == 1 && place(1) == 2 && place(2) == 4 && place(3) == 8 && place(4) == 16
        && place(5) == 32 && place(6) == 64 && place(7) == 128);
}

proof fn lemma_button_bits(mask: u8, bit: u8, wanted: u8)
    requires
        bit == 1 || bit == 2 || bit == 4 || bit == 8 || bit == 16 || bit == 32 || bit == 64 || bit
            == 128,
        wanted == 1 || wanted == 2 || wanted == 4 || wanted == 8 || wanted == 16 || wanted == 32
            || wanted == 64 || wanted == 128,
    ensures
        ((mask | bit) as int / wanted as int) % 2 == 1 <==> (mask as int / wanted as int) % 2 == 1
            || bit == wanted,
{
    assert(((mask | bit) / wanted) % 2 == 1 <==> (mask / wanted) % 2 == 1 || bit == wanted)
        by (bit_vector)
        requires
            bit == 1 || bit == 2 || bit == 4 || bit == 8 || bit == 16 || bit == 32 || bit == 64
                || bit == 128,
            wanted == 1 || wanted == 2 || wanted == 4 || wanted == 8 || wanted == 16 || wanted == 32
                || wanted == 64 || wanted == 128,
    ;
}

/// Whether one of the first names is a button's.
pub open spec fn names_button(names: Seq<String>, count: int, index: int) -> bool {
    exists|j: int| 0 <= j < count && #[trigger] names[j]@ == button_names()[index]
}

proof fn lemma_mask(names: Seq<String>, count: nat, index: int)
    requires
        0 <= index < 8,
        button_mask(names, count) is Ok,
    ensures
        (button_mask(names, count)->Ok_0 as int / place(index)) % 2 == 1 <==> names_button(
            names,
            count as int,
            index,
        ),
    decreases count,
{
    lemma_button_names();
    assert(place(0) == 1 && place(1) == 2 && place(2) == 4 && place(3) == 8 && place(4) == 16
        && place(5) == 32 && place(6) == 64 && place(7) == 128);
    if count > 0 {
        let fewer = (count - 1) as nat;
        lemma_mask(names, fewer, index);
        let mask = button_mask(names, fewer)->Ok_0;
        let name = names[count - 1]@;
        let bit = named_button(name)->0;
        let which = choose|i: int| 0 <= i < 8 && #[trigger] button_names()[i] == name && place(i)
            == bit;
        lemma_button_bits(mask, bit, place(index) as u8);
        if bit == place(index) {
            assert(which == index);
            assert(names[count - 1]@ == button_names()[index]);
        }
        if names_button(names, count as int, index) && !names_button(names, fewer as int, index) {
            let j = choose|j: int| 0 <= j < count && #[trigger] names[j]@ == button_names()[index];
            assert(j == count - 1);
            assert(named_button(button_names()[index]) == Some(place(index) as u8));
        }
    } else {
        assert(0int / place(index) == 0);
    }
}

/// Setting the input holds exactly the named buttons, each on its own bit.
pub proof fn law_named_buttons_are_held(
    buttons: Vec<String>,
    before: SessionView,
    after: SessionView,
    result: Result<Response, String>,
    index: int,
)
    requires
        before.machine is Some,
        0 <= index < 8,
        answered(Request::SetInput { buttons }, before, after, result),
        result is Ok,
    ensures
        after.machine is Some,
        (after.machine->0.joypad.pressed as int / place(index)) % 2 == 1 <==> names_button(
            buttons@,
            buttons@.len() as int,
            index,
        ),
{
    lemma_mask(buttons@, buttons@.len(), index);
}

/// Stepping without a count is one step; a run without a limit is a million. Counting to the end of the
/// steps is a completed step, and of a run an exhausted budget.
pub proof fn law_requests_run_their_steps(
    before: SessionView,
    after: SessionView,
    result: Result<Response, String>,
    request: Request,
    steps: nat,
)
    requires
        before.machine is Some,
        match request {
            Request::Step { count } => steps == (match count {
                Some(found) => found as int,
                None => 1,
            }),
            Request::RunForInstructions { count } => steps == count,
            Request::Run { max_instructions } => steps == (match max_instructions {
                Some(found) => found as int,
                None => 1_000_000,
            }),
            _ => false,
        },
        before.machine->0.completes(steps),
        answered(request, before, after, result),
    ensures
        after.machine == Some(before.machine->0.stepped(steps)),
        result matches Ok(Response::Ran(run)) && run.stop == RunStop::Reason(
            if request is Step {
                StopReason::StepComplete
            } else {
                StopReason::RunLimitReached
            },
        ) && run.instructions_retired == after.machine->0.instruction_counter
            - before.machine->0.instruction_counter,
{
    law_run_is_its_steps(before.machine->0, steps, steps);
}

/// The last entries of the trace, oldest first.
pub proof fn law_trace_is_shown_from_its_end(trace: Seq<TraceEntry>, limit: usize, i: int)
    ensures
        ({
            let shown = last_entries(trace, Some(limit));
            let count = if limit < trace.len() { limit as int } else { trace.len() as int };
            &&& shown.len() == count
            &&& 0 <= i < count ==> shown[i] == trace[trace.len() - count + i]
            &&& last_entries(trace, None) == trace
        }),
{
}

/// A run for clock cycles takes steps, asleep or not, until the cycles have passed, and no step more;
/// whatever else a step returns ends it.
pub proof fn law_run_for_cycles_is_its_steps(
    machine: MachineState,
    start: u64,
    cycles: u64,
) -> (count: nat)
    ensures
        forall|i: nat|
            i < count ==> (#[trigger] machine.stepped(i)).cycle_counter - start < cycles,
        ({
            let run = machine.run_for_cycles(start, cycles);
            let reached = machine.stepped(count);
            if reached.cycle_counter - start >= cycles {
                run.machine == reached && run.outcome == Ok::<StopReason, GbError>(
                    StopReason::RunLimitReached,
                )
            } else {
                &&& run == reached.step()
                &&& !(reached.step().machine.cycle_counter > reached.cycle_counter && (
                reached.step().outcome == Ok::<StopReason, GbError>(StopReason::StepComplete)
                    || reached.step().outcome == Ok::<StopReason, GbError>(StopReason::Halted)))
            }
        }),
    decreases machine.cycles_left(start, cycles),
{
    if machine.cycle_counter - start >= cycles || !machine.goes_on() {
        0
    } else {
        let next = machine.step().machine;
        let more = law_run_for_cycles_is_its_steps(next, start, cycles);
        crate::stepping::lemma_first_step(machine, more);
        assert forall|i: nat| i < more + 1 implies (#[trigger] machine.stepped(i)).cycle_counter
            - start < cycles by {
            if i > 0 {
                crate::stepping::lemma_first_step(machine, (i - 1) as nat);
                assert(next.stepped((i - 1) as nat).cycle_counter - start < cycles);
            }
        }
        more + 1
    }
}

/// A run for clock cycles answers how many passed and how many instructions were counted; where as many
/// passed as were asked for, that is why it stopped.
pub proof fn law_run_for_cycles_answers(
    cycles: u64,
    before: SessionView,
    after: SessionView,
    result: Result<Response, String>,
)
    requires
        before.machine is Some,
        answered(Request::RunForCycles { cycles }, before, after, result),
        result is Ok,
    ensures
        after.machine is Some,
        ({
            let earlier = before.machine->0;
            let later = after.machine->0;
            result matches Ok(Response::Ran(run)) && {
                &&& run.cycles_elapsed == Some((later.cycle_counter - earlier.cycle_counter) as u64)
                &&& run.instructions_retired == later.instruction_counter
                    - earlier.instruction_counter
                &&& run.watchpoint == later.pending_watchpoint
                &&& earlier.run_for_cycles(earlier.cycle_counter, cycles).outcome == Ok::<
                    StopReason,
                    GbError,
                >(StopReason::RunLimitReached) ==> run.stop == RunStop::CyclesSpent
                &&& run.report.snapshot == later.snapshot()
            }
        }),
{
}

/// A session that loaded a ROM without naming a model has the common one, with power just on, and keeps
/// cartridge state next to the ROM exactly where no place was given and the cartridge has a battery or
/// a clock.
pub proof fn law_loaded_rom_is_at_power_on(
    path: String,
    rom: Vec<u8>,
    before: SessionView,
    after: SessionView,
    result: Result<Response, String>,
)
    requires
        answered(
            Request::LoadRom {
                path,
                rom,
                model: None,
                bootrom: None,
                cart_state_path: None,
            },
            before,
            after,
            result,
        ),
        result is Ok,
    ensures
        after.machine is Some,
        ({
            let machine = after.machine->0;
            let code = rom@[0x147];
            let kept = code == 0x03 || code == 0x06 || code == 0x09 || code == 0x0F || code == 0x10
                || code == 0x13 || code == 0x1B || code == 0x1E || code == 0xFF;
            &&& machine.model == GbModel::Dmg
            &&& machine.cartridge.rom == rom@
            &&& machine.registers.pc == 0 && machine.registers.sp == 0
            &&& machine.cycle_counter == 0 && machine.breakpoints.len() == 0
            &&& machine.bootrom_active
            &&& after.rom_path == Some(path@)
            &&& kept ==> after.cart_state_path == Some(path@ + ".gbbrain-cart.json"@)
            &&& !kept ==> after.cart_state_path is None
        }),
{
}

} // verus!
