//! Running test ROMs: how a run of one is driven, how its result is told, and the tally.

use vstd::prelude::*;
use vstd::string::*;

use crate::cartridge::before_zero;
use crate::encoding::{lossy_text, text_from_utf8_lossy};
use crate::control::names_of;
use crate::text::{
    characters, contains_text, decimal, decimal_text, holds_text, joined, joined3, same_text,
    trim_text, trimmed_end, trimmed_start,
};

verus! {

/// The instructions that are run between two looks at the output.
pub const RUN_CHUNK: u64 = 4096;

/// The halted runs after which a ROM counts as stalled.
pub const HALT_SPIN_LIMIT: u64 = 50_000;

/// The opcode that a Mooneye ROM stops at.
pub const MOONEYE_BREAKPOINT: u32 = 0x40;

/// Where a Blargg ROM leaves its result, and how much of it is looked at.
pub const BLARGG_RESULT_ADDRESS: u32 = 0xA000;

pub const BLARGG_RESULT_LEN: usize = 64;

#[derive(Debug, Clone, Copy, PartialEq, Eq, Structural)]
pub enum SuiteStatus {
    Pass,
    Fail,
    Unsupported,
    Error,
}

impl SuiteStatus {
    pub open spec fn label_text(self) -> Seq<char> {
        match self {
            SuiteStatus::Pass => "PASS"@,
            SuiteStatus::Fail => "FAIL"@,
            SuiteStatus::Unsupported => "UNSUPPORTED"@,
            SuiteStatus::Error => "ERROR"@,
        }
    }

    pub fn label(self) -> (label: &'static str)
        ensures
            label@ == self.label_text(),
    {
        match self {
            SuiteStatus::Pass => "PASS",
            SuiteStatus::Fail => "FAIL",
            SuiteStatus::Unsupported => "UNSUPPORTED",
            SuiteStatus::Error => "ERROR",
        }
    }
}

/// The result of one ROM.
#[derive(Debug)]
pub struct SuiteResult {
    pub status: SuiteStatus,
    pub detail: Option<String>,
    pub serial_output: String,
}

impl SuiteResult {
    /// Whether this is the result with a status, a detail and an output.
    pub open spec fn is_result(
        self,
        status: SuiteStatus,
        detail: Seq<char>,
        serial: Seq<char>,
    ) -> bool {
        &&& self.status == status
        &&& self.detail is Some
        &&& self.detail->0@ == detail
        &&& self.serial_output@ == serial
    }
}

/// Which ROMs are run.
#[derive(Debug, Clone, Copy, PartialEq, Eq, Structural)]
pub enum SuiteSelection {
    Blargg,
    Mooneye,
    All,
}

/// The selection that arguments make, or why they make none. Without arguments, all ROMs of the
/// one platform are run.
pub open spec fn selected_suite(platform: Option<Seq<char>>, suite: Option<Seq<char>>) -> Result<
    SuiteSelection,
    Seq<char>,
> {
    if platform is Some && platform->0 != "dmg"@ {
        Err("unsupported suite platform: "@ + platform->0)
    } else if suite is None || suite->0 == "all"@ {
        Ok(SuiteSelection::All)
    } else if suite->0 == "blargg"@ {
        Ok(SuiteSelection::Blargg)
    } else if suite->0 == "mooneye"@ {
        Ok(SuiteSelection::Mooneye)
    } else {
        Err("unsupported suite selection: "@ + suite->0)
    }
}

/// The characters of an optional text.
pub open spec fn argument_text(argument: Option<&str>) -> Option<Seq<char>> {
    match argument {
        Some(text) => Some(text@),
        None => None,
    }
}

pub fn parse_suite(platform: Option<&str>, suite: Option<&str>) -> (selection: Result<
    SuiteSelection,
    String,
>)
    ensures
        match selected_suite(argument_text(platform), argument_text(suite)) {
            Ok(found) => selection is Ok && selection->Ok_0 == found,
            Err(text) => selection is Err && selection->Err_0@ == text,
        },
{
    if let Some(platform) = platform {
        if !same_text(platform, "dmg") {
            return Err(joined("unsupported suite platform: ", platform));
        }
    }
    match suite {
        None => Ok(SuiteSelection::All),
        Some(suite) => {
            if same_text(suite, "all") {
                Ok(SuiteSelection::All)
            } else if same_text(suite, "blargg") {
                Ok(SuiteSelection::Blargg)
            } else if same_text(suite, "mooneye") {
                Ok(SuiteSelection::Mooneye)
            } else {
                Err(joined("unsupported suite selection: ", suite))
            }
        },
    }
}

/// The results so far.
#[derive(Debug, Clone, Copy, PartialEq, Eq, Structural)]
pub struct SuiteTally {
    pub passed: u64,
    pub failed: u64,
    pub unsupported: u64,
}

impl Default for SuiteTally {
    fn default() -> (tally: Self)
        ensures
            tally == (SuiteTally { passed: 0, failed: 0, unsupported: 0 }),
    {
        SuiteTally { passed: 0, failed: 0, unsupported: 0 }
    }
}

impl SuiteTally {
    pub open spec fn with(self, status: SuiteStatus) -> SuiteTally {
        match status {
            SuiteStatus::Pass => SuiteTally { passed: (self.passed + 1) as u64, ..self },
            SuiteStatus::Fail => SuiteTally { failed: (self.failed + 1) as u64, ..self },
            _ => SuiteTally { unsupported: (self.unsupported + 1) as u64, ..self },
        }
    }

    /// Counts a result.
    pub fn count(&mut self, status: SuiteStatus)
        requires
            old(self).passed < u64::MAX,
            old(self).failed < u64::MAX,
            old(self).unsupported < u64::MAX,
        ensures
            *final(self) == old(self).with(status),
    {
        match status {
            SuiteStatus::Pass => self.passed = self.passed + 1,
            SuiteStatus::Fail => self.failed = self.failed + 1,
            SuiteStatus::Unsupported | SuiteStatus::Error => self.unsupported = self.unsupported + 1,
        }
    }

    /// Whether all ROMs passed.
    pub fn success(&self) -> (success: bool)
        ensures
            success == (self.failed == 0 && self.unsupported == 0),
    {
        self.failed == 0 && self.unsupported == 0
    }

    pub fn summary(&self) -> (text: String)
        ensures
            text@ == "summary: pass="@ + decimal(self.passed as nat) + " fail="@ + decimal(
                self.failed as nat,
            ) + " unsupported_or_error="@ + decimal(self.unsupported as nat),
    {
        let mut text: String = joined3(
            "summary: pass=",
            decimal_text(self.passed).as_str(),
            " fail=",
        );
        text.append(decimal_text(self.failed).as_str());
        text.append(" unsupported_or_error=");
        text.append(decimal_text(self.unsupported).as_str());
        text
    }
}

/// The Blargg ROMs that are run where they are there.
pub open spec fn blargg_roms() -> Seq<Seq<char>> {
    seq![
        "test-roms/blargg/cpu_instrs/individual/01-special.gb"@,
        "test-roms/blargg/cpu_instrs/individual/02-interrupts.gb"@,
        "test-roms/blargg/cpu_instrs/individual/03-op sp,hl.gb"@,
        "test-roms/blargg/cpu_instrs/individual/04-op r,imm.gb"@,
        "test-roms/blargg/cpu_instrs/individual/05-op rp.gb"@,
        "test-roms/blargg/cpu_instrs/individual/06-ld r,r.gb"@,
        "test-roms/blargg/cpu_instrs/individual/07-jr,jp,call,ret,rst.gb"@,
        "test-roms/blargg/cpu_instrs/individual/08-misc instrs.gb"@,
        "test-roms/blargg/cpu_instrs/individual/09-op r,r.gb"@,
        "test-roms/blargg/cpu_instrs/individual/10-bit ops.gb"@,
        "test-roms/blargg/cpu_instrs/individual/11-op a,(hl).gb"@,
        "test-roms/blargg/instr_timing/instr_timing.gb"@,
        "test-roms/blargg/mem_timing/mem_timing.gb"@,
        "test-roms/blargg/mem_timing-2/mem_timing.gb"@,
        "test-roms/blargg/halt_bug.gb"@,
        "test-roms/blargg/oam_bug/oam_bug.gb"@,
    ]
}

pub fn blargg_candidates() -> (paths: Vec<&'static str>)
    ensures
        names_of(paths@) == blargg_roms(),
{
    let mut paths: Vec<&'static str> = Vec::new();
    paths.push("test-roms/blargg/cpu_instrs/individual/01-special.gb");
    paths.push("test-roms/blargg/cpu_instrs/individual/02-interrupts.gb");
    paths.push("test-roms/blargg/cpu_instrs/individual/03-op sp,hl.gb");
    paths.push("test-roms/blargg/cpu_instrs/individual/04-op r,imm.gb");
    paths.push("test-roms/blargg/cpu_instrs/individual/05-op rp.gb");
    paths.push("test-roms/blargg/cpu_instrs/individual/06-ld r,r.gb");
    paths.push("test-roms/blargg/cpu_instrs/individual/07-jr,jp,call,ret,rst.gb");
    paths.push("test-roms/blargg/cpu_instrs/individual/08-misc instrs.gb");
    paths.push("test-roms/blargg/cpu_instrs/individual/09-op r,r.gb");
    paths.push("test-roms/blargg/cpu_instrs/individual/10-bit ops.gb");
    paths.push("test-roms/blargg/cpu_instrs/individual/11-op a,(hl).gb");
    paths.push("test-roms/blargg/instr_timing/instr_timing.gb");
    paths.push("test-roms/blargg/mem_timing/mem_timing.gb");
    paths.push("test-roms/blargg/mem_timing-2/mem_timing.gb");
    paths.push("test-roms/blargg/halt_bug.gb");
    paths.push("test-roms/blargg/oam_bug/oam_bug.gb");
    assert(names_of(paths@) =~= blargg_roms());
    paths
}

/// Whether a Mooneye ROM is, by its file name, not meant for another model.
pub open spec fn is_dmg_name(name: Seq<char>) -> bool {
    &&& !holds_text(name, "-cgb"@)
    &&& !holds_text(name, "-agb"@)
    &&& !holds_text(name, "-ags"@)
    &&& !holds_text(name, "-sgb"@)
    &&& !holds_text(name, "-sgb2"@)
}

pub fn is_dmg_rom(name: &str) -> (dmg: bool)
    ensures
        dmg == is_dmg_name(name@),
{
    let chars: Vec<char> = characters(name);
    !contains_text(&chars, "-cgb") && !contains_text(&chars, "-agb") && !contains_text(
        &chars,
        "-ags",
    ) && !contains_text(&chars, "-sgb") && !contains_text(&chars, "-sgb2")
}

/// The status of the result code of a Blargg ROM.
pub open spec fn blargg_status(code: u8) -> SuiteStatus {
    if code == 0 {
        SuiteStatus::Pass
    } else {
        SuiteStatus::Fail
    }
}

/// The detail of the result of a Blargg ROM, of its code and its output.
pub open spec fn blargg_detail(code: u8, output: Seq<char>) -> Seq<char> {
    let text = trimmed_end(trimmed_start(output));
    let coded = "detected Blargg RAM result code "@ + decimal(code as nat);
    if text.len() == 0 {
        coded
    } else {
        coded + ": "@ + text
    }
}

/// Tells the result of a Blargg ROM, of its code and its output.
pub fn describe_blargg_result(code: u8, output: &str) -> (described: (SuiteStatus, String))
    ensures
        described.0 == blargg_status(code),
        described.1@ == blargg_detail(code, output@),
{
    let text: String = trim_text(output);
    let mut detail: String = joined(
        "detected Blargg RAM result code ",
        decimal_text(code as u64).as_str(),
    );
    if !text.as_str().is_empty() {
        detail.append(": ");
        detail.append(text.as_str());
    }
    let status: SuiteStatus = if code == 0 {
        SuiteStatus::Pass
    } else {
        SuiteStatus::Fail
    };
    (status, detail)
}

/// Whether RAM shows the result of a Blargg ROM that is done: a signature, and a code that does
/// not say that it is still running.
pub open spec fn has_blargg_result(bytes: Seq<u8>) -> bool {
    &&& bytes.len() >= 4
    &&& bytes[1] == 0xDE
    &&& bytes[2] == 0xB0
    &&& bytes[3] == 0x61
    &&& bytes[0] != 0x80
}

/// The output behind the signature, up to the first zero.
pub open spec fn blargg_output(bytes: Seq<u8>) -> Seq<u8> {
    bytes.skip(4).take(before_zero(bytes.skip(4)) as int)
}

pub fn detect_blargg_ram_result(bytes: &[u8]) -> (result: Option<(SuiteStatus, String)>)
    requires
        bytes@.len() * 3 <= isize::MAX,
    ensures
        has_blargg_result(bytes@) ==> {
            &&& result matches Some((status, detail))
            &&& status == blargg_status(bytes@[0])
            &&& detail@ == blargg_detail(bytes@[0], lossy_text(blargg_output(bytes@)))
        },
        !has_blargg_result(bytes@) ==> result is None,
{
    if bytes.len() < 4 || bytes[1] != 0xDE || bytes[2] != 0xB0 || bytes[3] != 0x61 {
        return None;
    }
    let code: u8 = bytes[0];
    if code == 0x80 {
        return None;
    }
    let rest: &[u8] = vstd::slice::slice_subrange(bytes, 4, bytes.len());
    assert(rest@ =~= bytes@.skip(4));
    let mut len: usize = 0;
    while len < rest.len() && rest[len] != 0
        invariant
            len <= rest@.len(),
            forall|i: int| 0 <= i < len ==> rest@[i] != 0,
        decreases rest@.len() - len,
    {
        len = len + 1;
    }
    proof {
        crate::cartridge::lemma_before_zero(rest@, len as nat);
        assert(rest@.subrange(0, len as int) =~= blargg_output(bytes@));
    }
    let output: String = text_from_utf8_lossy(vstd::slice::slice_subrange(rest, 0, len));
    Some(describe_blargg_result(code, output.as_str()))
}

/// The registers by which a Mooneye ROM tells its result.
#[derive(Debug, Clone, Copy, PartialEq, Eq, Structural)]
pub struct SignatureRegisters {
    pub b: u32,
    pub c: u32,
    pub d: u32,
    pub e: u32,
    pub h: u32,
    pub l: u32,
}

/// Fibonacci numbers in the registers tell that a Mooneye ROM passed.
pub open spec fn mooneye_passed() -> SignatureRegisters {
    SignatureRegisters { b: 3, c: 5, d: 8, e: 13, h: 21, l: 34 }
}

pub open spec fn mooneye_failed() -> SignatureRegisters {
    SignatureRegisters { b: 0x42, c: 0x42, d: 0x42, e: 0x42, h: 0x42, l: 0x42 }
}

pub open spec fn mooneye_result(registers: SignatureRegisters) -> Option<SuiteStatus> {
    if registers == mooneye_passed() {
        Some(SuiteStatus::Pass)
    } else if registers == mooneye_failed() {
        Some(SuiteStatus::Fail)
    } else {
        None
    }
}

pub fn detect_mooneye_result(registers: SignatureRegisters) -> (result: Option<SuiteStatus>)
    ensures
        result == mooneye_result(registers),
{
    let pass: SignatureRegisters = SignatureRegisters { b: 3, c: 5, d: 8, e: 13, h: 21, l: 34 };
    let fail: SignatureRegisters = SignatureRegisters {
        b: 0x42,
        c: 0x42,
        d: 0x42,
        e: 0x42,
        h: 0x42,
        l: 0x42,
    };
    if registers == pass {
        Some(SuiteStatus::Pass)
    } else if registers == fail {
        Some(SuiteStatus::Fail)
    } else {
        None
    }
}

/// What the run of a ROM waits for.
#[derive(Debug, Clone, Copy, PartialEq, Eq, Structural)]
pub enum SuitePhase {
    Starting,
    Loading,
    Arming,
    Polling,
    Probing,
    Running,
    Matching,
    Disarming,
    Stepping,
    Rearming,
    Spinning,
    Confirming(SuiteStatus),
    Unsupported,
    Stalled,
    Finished,
}

/// What is to be done next for a ROM.
#[derive(Debug)]
pub enum SuiteAction {
    Start,
    LoadRom,
    AddBreakpoint { kind: &'static str, address: u32 },
    ReadSerial,
    InspectMemory { region: &'static str, address: u32, len: usize },
    Run { max_instructions: u64 },
    Snapshot,
    ClearBreakpoints,
    Step { count: u64 },
    RunForCycles { cycles: u64 },
    Finish(SuiteResult),
}

/// What came of it.
#[derive(Debug)]
pub enum SuiteEvent {
    Failed(String),
    Done,
    Serial(String),
    Memory(Vec<u8>),
    Stopped(String),
    Registers(SignatureRegisters),
}

/// The run of one ROM.
#[derive(Debug)]
pub struct SuiteRun {
    pub mooneye: bool,
    pub halt_spins: u64,
    pub serial: String,
    pub failure: String,
    pub phase: SuitePhase,
}

/// What the run of a ROM holds.
pub struct SuiteRunView {
    pub mooneye: bool,
    pub halt_spins: u64,
    pub serial: Seq<char>,
    pub failure: Seq<char>,
    pub phase: SuitePhase,
}

impl View for SuiteRun {
    type V = SuiteRunView;

    open spec fn view(&self) -> SuiteRunView {
        SuiteRunView {
            mooneye: self.mooneye,
            halt_spins: self.halt_spins,
            serial: self.serial@,
            failure: self.failure@,
            phase: self.phase,
        }
    }
}

/// Whether an action is the one with these contents.
pub open spec fn adds_breakpoint(action: SuiteAction) -> bool {
    action matches SuiteAction::AddBreakpoint { kind, address } && kind@ == "opcode"@ && address
        == MOONEYE_BREAKPOINT
}

pub open spec fn inspects_result(action: SuiteAction) -> bool {
    action matches SuiteAction::InspectMemory { region, address, len } && region@ == "system"@
        && address == BLARGG_RESULT_ADDRESS && len == BLARGG_RESULT_LEN
}

pub open spec fn runs_chunk(action: SuiteAction) -> bool {
    action matches SuiteAction::Run { max_instructions } && max_instructions == RUN_CHUNK
}

impl SuiteRunView {
    pub open spec fn in_phase(self, phase: SuitePhase) -> SuiteRunView {
        SuiteRunView { phase, ..self }
    }

    /// Whether an event answers what the run waits for.
    pub open spec fn fits(self, event: SuiteEvent) -> bool {
        &&& self.phase != SuitePhase::Finished
        &&& match event {
            SuiteEvent::Failed(_) => true,
            SuiteEvent::Done => {
                ||| self.phase == SuitePhase::Starting
                ||| self.phase == SuitePhase::Loading
                ||| self.phase == SuitePhase::Arming
                ||| self.phase == SuitePhase::Disarming
                ||| self.phase == SuitePhase::Stepping
                ||| self.phase == SuitePhase::Rearming
                ||| self.phase == SuitePhase::Spinning
            },
            SuiteEvent::Serial(_) => {
                ||| self.phase == SuitePhase::Polling
                ||| self.phase is Confirming
                ||| self.phase == SuitePhase::Unsupported
                ||| self.phase == SuitePhase::Stalled
            },
            SuiteEvent::Memory(bytes) => self.phase == SuitePhase::Probing && bytes@.len() * 3
                <= isize::MAX,
            SuiteEvent::Stopped(_) => self.phase == SuitePhase::Running && self.halt_spins
                < HALT_SPIN_LIMIT,
            SuiteEvent::Registers(_) => self.phase == SuitePhase::Matching,
        }
    }

    /// Whether the run ends with a result.
    pub open spec fn finishes(
        self,
        after: SuiteRunView,
        action: SuiteAction,
        status: SuiteStatus,
        detail: Seq<char>,
        serial: Seq<char>,
    ) -> bool {
        &&& after == self.in_phase(SuitePhase::Finished)
        &&& action matches SuiteAction::Finish(result) && result.is_result(status, detail, serial)
    }

    /// What follows a failure: an error with the output so far, but a failed run is a ROM that is
    /// not supported, and where only the output was missing the result is told without it.
    pub open spec fn after_failure(
        self,
        error: Seq<char>,
        after: SuiteRunView,
        action: SuiteAction,
    ) -> bool {
        let nothing = Seq::<char>::empty();
        match self.phase {
            SuitePhase::Starting => self.finishes(
                after,
                action,
                SuiteStatus::Error,
                "failed to start gbbrain serve: "@ + error,
                nothing,
            ),
            SuitePhase::Loading | SuitePhase::Arming | SuitePhase::Polling => self.finishes(
                after,
                action,
                SuiteStatus::Error,
                error,
                nothing,
            ),
            SuitePhase::Running => {
                &&& after == (SuiteRunView {
                    failure: error,
                    ..self.in_phase(SuitePhase::Unsupported)
                })
                &&& action is ReadSerial
            },
            SuitePhase::Confirming(status) => self.confirmed(status, self.serial, after, action),
            SuitePhase::Unsupported => self.finishes(
                after,
                action,
                SuiteStatus::Unsupported,
                self.failure,
                nothing,
            ),
            SuitePhase::Stalled => self.stalled(nothing, after, action),
            _ => self.finishes(after, action, SuiteStatus::Error, error, self.serial),
        }
    }

    pub open spec fn confirmed(
        self,
        status: SuiteStatus,
        serial: Seq<char>,
        after: SuiteRunView,
        action: SuiteAction,
    ) -> bool {
        self.finishes(
            after,
            action,
            status,
            "detected Mooneye pass/fail signature at opcode breakpoint"@,
            serial,
        )
    }

    pub open spec fn stalled(
        self,
        serial: Seq<char>,
        after: SuiteRunView,
        action: SuiteAction,
    ) -> bool {
        self.finishes(
            after,
            action,
            SuiteStatus::Fail,
            if serial.len() == 0 {
                "no pass/fail signature before repeated halted state"@
            } else {
                "execution stalled after repeated halted state without pass/fail signature"@
            },
            serial,
        )
    }

    /// What follows the output: it may tell the result.
    pub open spec fn after_serial(
        self,
        serial: Seq<char>,
        after: SuiteRunView,
        action: SuiteAction,
    ) -> bool {
        let polled = SuiteRunView { serial, ..self };
        if holds_text(serial, "Passed"@) || holds_text(serial, "passed"@) {
            polled.finishes(
                after,
                action,
                SuiteStatus::Pass,
                "detected Blargg serial success output"@,
                serial,
            )
        } else if holds_text(serial, "Failed"@) || holds_text(serial, "failed"@) {
            polled.finishes(
                after,
                action,
                SuiteStatus::Fail,
                "detected Blargg serial failure output"@,
                serial,
            )
        } else if self.mooneye {
            after == polled.in_phase(SuitePhase::Running) && runs_chunk(action)
        } else {
            after == polled.in_phase(SuitePhase::Probing) && inspects_result(action)
        }
    }

    /// What follows a look at RAM: it may show the result.
    pub open spec fn after_memory(
        self,
        bytes: Seq<u8>,
        after: SuiteRunView,
        action: SuiteAction,
    ) -> bool {
        if has_blargg_result(bytes) {
            self.finishes(
                after,
                action,
                blargg_status(bytes[0]),
                blargg_detail(bytes[0], lossy_text(blargg_output(bytes))),
                self.serial,
            )
        } else {
            after == self.in_phase(SuitePhase::Running) && runs_chunk(action)
        }
    }

    /// What follows a chunk: a Mooneye ROM's breakpoint is looked at; a halted ROM gets some time,
    /// but not for ever.
    pub open spec fn after_stop(
        self,
        reason: Seq<char>,
        after: SuiteRunView,
        action: SuiteAction,
    ) -> bool {
        if self.mooneye && reason == "breakpoint_hit"@ {
            after == self.in_phase(SuitePhase::Matching) && action is Snapshot
        } else if reason == "halted"@ {
            let spun = SuiteRunView { halt_spins: (self.halt_spins + 1) as u64, ..self };
            if spun.halt_spins >= HALT_SPIN_LIMIT {
                after == spun.in_phase(SuitePhase::Stalled) && action is ReadSerial
            } else {
                &&& after == spun.in_phase(SuitePhase::Spinning)
                &&& action matches SuiteAction::RunForCycles { cycles } && cycles == RUN_CHUNK * 4
            }
        } else {
            &&& after == (SuiteRunView { halt_spins: 0, ..self.in_phase(SuitePhase::Polling) })
            &&& action is ReadSerial
        }
    }

    /// What follows the registers at a breakpoint: without a result, the run goes on past it.
    pub open spec fn after_registers(
        self,
        registers: SignatureRegisters,
        after: SuiteRunView,
        action: SuiteAction,
    ) -> bool {
        match mooneye_result(registers) {
            Some(status) => {
                &&& after == self.in_phase(SuitePhase::Confirming(status))
                &&& action is ReadSerial
            },
            None => {
                &&& after == self.in_phase(SuitePhase::Disarming)
                &&& action is ClearBreakpoints
            },
        }
    }

    /// What follows an action that only had to succeed.
    pub open spec fn after_done(self, after: SuiteRunView, action: SuiteAction) -> bool {
        match self.phase {
            SuitePhase::Starting => after == self.in_phase(SuitePhase::Loading) && action
                is LoadRom,
            SuitePhase::Loading if self.mooneye => after == self.in_phase(SuitePhase::Arming)
                && adds_breakpoint(action),
            SuitePhase::Disarming => {
                &&& after == self.in_phase(SuitePhase::Stepping)
                &&& action matches SuiteAction::Step { count } && count == 1
            },
            SuitePhase::Stepping => after == self.in_phase(SuitePhase::Rearming)
                && adds_breakpoint(action),
            SuitePhase::Rearming => {
                &&& after == (SuiteRunView { halt_spins: 0, ..self.in_phase(SuitePhase::Polling) })
                &&& action is ReadSerial
            },
            _ => after == self.in_phase(SuitePhase::Polling) && action is ReadSerial,
        }
    }

    /// What follows an event: the next state and the next action.
    pub open spec fn advanced(
        self,
        event: SuiteEvent,
        after: SuiteRunView,
        action: SuiteAction,
    ) -> bool {
        match event {
            SuiteEvent::Failed(error) => self.after_failure(error@, after, action),
            SuiteEvent::Done => self.after_done(after, action),
            SuiteEvent::Serial(serial) => match self.phase {
                SuitePhase::Confirming(status) => self.confirmed(status, serial@, after, action),
                SuitePhase::Unsupported => self.finishes(
                    after,
                    action,
                    SuiteStatus::Unsupported,
                    self.failure,
                    serial@,
                ),
                SuitePhase::Stalled => self.stalled(serial@, after, action),
                _ => self.after_serial(serial@, after, action),
            },
            SuiteEvent::Memory(bytes) => self.after_memory(bytes@, after, action),
            SuiteEvent::Stopped(reason) => self.after_stop(reason@, after, action),
            SuiteEvent::Registers(registers) => self.after_registers(registers, after, action),
        }
    }
}

fn finish(status: SuiteStatus, detail: String, serial_output: String) -> (action: SuiteAction)
    ensures
        action matches SuiteAction::Finish(result) && result.is_result(
            status,
            detail@,
            serial_output@,
        ),
{
    SuiteAction::Finish(SuiteResult { status, detail: Some(detail), serial_output })
}

fn stall_detail(serial: &str) -> (detail: String)
    ensures
        detail@ == (if serial@.len() == 0 {
            "no pass/fail signature before repeated halted state"@
        } else {
            "execution stalled after repeated halted state without pass/fail signature"@
        }),
{
    if serial.is_empty() {
        "no pass/fail signature before repeated halted state".to_owned()
    } else {
        "execution stalled after repeated halted state without pass/fail signature".to_owned()
    }
}

fn mooneye_breakpoint() -> (action: SuiteAction)
    ensures
        adds_breakpoint(action),
{
    SuiteAction::AddBreakpoint { kind: "opcode", address: MOONEYE_BREAKPOINT }
}

impl SuiteRun {
    /// The run of a ROM, before anything is done for it.
    pub fn new(mooneye: bool) -> (run: (Self, SuiteAction))
        ensures
            run.0@ == (SuiteRunView {
                mooneye,
                halt_spins: 0,
                serial: Seq::empty(),
                failure: Seq::empty(),
                phase: SuitePhase::Starting,
            }),
            run.1 is Start,
    {
        (
            SuiteRun {
                mooneye,
                halt_spins: 0,
                serial: String::new(),
                failure: String::new(),
                phase: SuitePhase::Starting,
            },
            SuiteAction::Start,
        )
    }

    fn finish(&mut self, status: SuiteStatus, detail: String, serial: String) -> (action:
        SuiteAction)
        ensures
            old(self)@.finishes(final(self)@, action, status, detail@, serial@),
    {
        self.phase = SuitePhase::Finished;
        finish(status, detail, serial)
    }

    fn after_failure(&mut self, error: String) -> (action: SuiteAction)
        ensures
            old(self)@.after_failure(error@, final(self)@, action),
    {
        match self.phase {
            SuitePhase::Starting => self.finish(
                SuiteStatus::Error,
                joined("failed to start gbbrain serve: ", error.as_str()),
                String::new(),
            ),
            SuitePhase::Loading | SuitePhase::Arming | SuitePhase::Polling => self.finish(
                SuiteStatus::Error,
                error,
                String::new(),
            ),
            SuitePhase::Running => {
                self.failure = error;
                self.phase = SuitePhase::Unsupported;
                SuiteAction::ReadSerial
            },
            SuitePhase::Confirming(status) => {
                let serial: String = self.serial.clone();
                self.confirm(status, serial)
            },
            SuitePhase::Unsupported => {
                let failure: String = self.failure.clone();
                self.finish(SuiteStatus::Unsupported, failure, String::new())
            },
            SuitePhase::Stalled => {
                let serial: String = String::new();
                let detail: String = stall_detail(serial.as_str());
                self.finish(SuiteStatus::Fail, detail, serial)
            },
            _ => {
                let serial: String = self.serial.clone();
                self.finish(SuiteStatus::Error, error, serial)
            },
        }
    }

    fn confirm(&mut self, status: SuiteStatus, serial: String) -> (action: SuiteAction)
        ensures
            old(self)@.confirmed(status, serial@, final(self)@, action),
    {
        self.finish(
            status,
            "detected Mooneye pass/fail signature at opcode breakpoint".to_owned(),
            serial,
        )
    }

    fn after_serial(&mut self, serial: String) -> (action: SuiteAction)
        ensures
            old(self)@.after_serial(serial@, final(self)@, action),
    {
        let chars: Vec<char> = characters(serial.as_str());
        self.serial = serial.clone();
        if contains_text(&chars, "Passed") || contains_text(&chars, "passed") {
            return self.finish(
                SuiteStatus::Pass,
                "detected Blargg serial success output".to_owned(),
                serial,
            );
        }
        if contains_text(&chars, "Failed") || contains_text(&chars, "failed") {
            return self.finish(
                SuiteStatus::Fail,
                "detected Blargg serial failure output".to_owned(),
                serial,
            );
        }
        if self.mooneye {
            self.phase = SuitePhase::Running;
            SuiteAction::Run { max_instructions: RUN_CHUNK }
        } else {
            self.phase = SuitePhase::Probing;
            SuiteAction::InspectMemory {
                region: "system",
                address: BLARGG_RESULT_ADDRESS,
                len: BLARGG_RESULT_LEN,
            }
        }
    }

    fn after_memory(&mut self, bytes: &[u8]) -> (action: SuiteAction)
        requires
            bytes@.len() * 3 <= isize::MAX,
        ensures
            old(self)@.after_memory(bytes@, final(self)@, action),
    {
        match detect_blargg_ram_result(bytes) {
            Some((status, detail)) => {
                let serial: String = self.serial.clone();
                self.finish(status, detail, serial)
            },
            None => {
                self.phase = SuitePhase::Running;
                SuiteAction::Run { max_instructions: RUN_CHUNK }
            },
        }
    }

    fn after_stop(&mut self, reason: &str) -> (action: SuiteAction)
        requires
            old(self)@.halt_spins < HALT_SPIN_LIMIT,
        ensures
            old(self)@.after_stop(reason@, final(self)@, action),
    {
        if self.mooneye && same_text(reason, "breakpoint_hit") {
            self.phase = SuitePhase::Matching;
            return SuiteAction::Snapshot;
        }
        if same_text(reason, "halted") {
            self.halt_spins = self.halt_spins + 1;
            if self.halt_spins >= HALT_SPIN_LIMIT {
                self.phase = SuitePhase::Stalled;
                return SuiteAction::ReadSerial;
            }
            self.phase = SuitePhase::Spinning;
            return SuiteAction::RunForCycles { cycles: RUN_CHUNK * 4 };
        }
        self.halt_spins = 0;
        self.phase = SuitePhase::Polling;
        SuiteAction::ReadSerial
    }

    fn after_registers(&mut self, registers: SignatureRegisters) -> (action: SuiteAction)
        ensures
            old(self)@.after_registers(registers, final(self)@, action),
    {
        match detect_mooneye_result(registers) {
            Some(status) => {
                self.phase = SuitePhase::Confirming(status);
                SuiteAction::ReadSerial
            },
            None => {
                self.phase = SuitePhase::Disarming;
                SuiteAction::ClearBreakpoints
            },
        }
    }

    fn after_done(&mut self) -> (action: SuiteAction)
        ensures
            old(self)@.after_done(final(self)@, action),
    {
        match self.phase {
            SuitePhase::Starting => {
                self.phase = SuitePhase::Loading;
                SuiteAction::LoadRom
            },
            SuitePhase::Loading if self.mooneye => {
                self.phase = SuitePhase::Arming;
                mooneye_breakpoint()
            },
            SuitePhase::Disarming => {
                self.phase = SuitePhase::Stepping;
                SuiteAction::Step { count: 1 }
            },
            SuitePhase::Stepping => {
                self.phase = SuitePhase::Rearming;
                mooneye_breakpoint()
            },
            SuitePhase::Rearming => {
                self.halt_spins = 0;
                self.phase = SuitePhase::Polling;
                SuiteAction::ReadSerial
            },
            _ => {
                self.phase = SuitePhase::Polling;
                SuiteAction::ReadSerial
            },
        }
    }

    /// Takes in what came of the last action, and tells the next.
    pub fn advance(&mut self, event: SuiteEvent) -> (action: SuiteAction)
        requires
            old(self)@.fits(event),
        ensures
            old(self)@.advanced(event, final(self)@, action),
    {
        match event {
            SuiteEvent::Failed(error) => self.after_failure(error),
            SuiteEvent::Done => self.after_done(),
            SuiteEvent::Serial(serial) => match self.phase {
                SuitePhase::Confirming(status) => self.confirm(status, serial),
                SuitePhase::Unsupported => {
                    let failure: String = self.failure.clone();
                    self.finish(SuiteStatus::Unsupported, failure, serial)
                },
                SuitePhase::Stalled => {
                    let detail: String = stall_detail(serial.as_str());
                    self.finish(SuiteStatus::Fail, detail, serial)
                },
                _ => self.after_serial(serial),
            },
            SuiteEvent::Memory(bytes) => self.after_memory(bytes.as_slice()),
            SuiteEvent::Stopped(reason) => self.after_stop(reason.as_str()),
            SuiteEvent::Registers(registers) => self.after_registers(registers),
        }
    }
}

impl SuiteRunView {
    /// Whether a halted ROM is still given time.
    pub open spec fn patient(self) -> bool {
        ||| self.halt_spins < HALT_SPIN_LIMIT
        ||| self.phase == SuitePhase::Stalled
        ||| self.phase == SuitePhase::Finished
    }
}

/// A ROM that keeps halting is given up at the limit: no run goes on past it.
pub proof fn law_halting_rom_is_given_up(
    before: SuiteRunView,
    event: SuiteEvent,
    after: SuiteRunView,
    action: SuiteAction,
)
    requires
        before.patient(),
        before.fits(event),
        before.advanced(event, after, action),
    ensures
        after.patient(),
        after.phase == SuitePhase::Finished <==> action is Finish,
{
}

} // verus!
