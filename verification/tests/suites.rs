use gbbrain::suite::{
    blargg_candidates, describe_blargg_result, detect_blargg_ram_result, detect_mooneye_result,
    is_dmg_rom, parse_suite, SignatureRegisters, SuiteAction, SuiteEvent, SuiteResult, SuiteRun,
    SuiteSelection, SuiteStatus, SuiteTally,
};
use gbbrain::text::{characters, contains_text, trim_text};

fn result_of(action: SuiteAction) -> SuiteResult {
    match action {
        SuiteAction::Finish(result) => result,
        other => panic!("expected a result, got {other:?}"),
    }
}

fn started(mooneye: bool) -> SuiteRun {
    let (mut run, action) = SuiteRun::new(mooneye);
    assert!(matches!(action, SuiteAction::Start));
    assert!(matches!(run.advance(SuiteEvent::Done), SuiteAction::LoadRom));
    if mooneye {
        assert!(matches!(
            run.advance(SuiteEvent::Done),
            SuiteAction::AddBreakpoint { kind: "opcode", address: 0x40 }
        ));
    }
    assert!(matches!(run.advance(SuiteEvent::Done), SuiteAction::ReadSerial));
    run
}

fn registers(values: [u32; 6]) -> SignatureRegisters {
    SignatureRegisters {
        b: values[0],
        c: values[1],
        d: values[2],
        e: values[3],
        h: values[4],
        l: values[5],
    }
}

#[test]
fn serial_output_tells_the_result() {
    let mut run = started(false);
    let result = result_of(run.advance(SuiteEvent::Serial("01\nPassed".to_string())));
    assert_eq!(result.status, SuiteStatus::Pass);
    assert_eq!(result.detail.unwrap(), "detected Blargg serial success output");
    assert_eq!(result.serial_output, "01\nPassed");

    let mut run = started(true);
    let result = result_of(run.advance(SuiteEvent::Serial("it failed".to_string())));
    assert_eq!(result.status, SuiteStatus::Fail);
    assert_eq!(result.detail.unwrap(), "detected Blargg serial failure output");
}

#[test]
fn memory_tells_the_result_of_a_blargg_rom() {
    let mut run = started(false);
    assert!(matches!(
        run.advance(SuiteEvent::Serial(String::new())),
        SuiteAction::InspectMemory { region: "system", address: 0xA000, len: 64 }
    ));
    assert!(matches!(
        run.advance(SuiteEvent::Memory(vec![0xFF; 64])),
        SuiteAction::Run { max_instructions: 4096 }
    ));
    assert!(matches!(
        run.advance(SuiteEvent::Stopped("instruction_budget_exhausted".to_string())),
        SuiteAction::ReadSerial
    ));
    run.advance(SuiteEvent::Serial("x".to_string()));
    let mut bytes = vec![0x00, 0xDE, 0xB0, 0x61];
    bytes.extend_from_slice(b"\n done \0junk");
    let result = result_of(run.advance(SuiteEvent::Memory(bytes)));
    assert_eq!(result.status, SuiteStatus::Pass);
    assert_eq!(result.detail.unwrap(), "detected Blargg RAM result code 0: done");
    assert_eq!(result.serial_output, "x");
}

#[test]
fn registers_tell_the_result_of_a_mooneye_rom() {
    let mut run = started(true);
    assert!(matches!(
        run.advance(SuiteEvent::Serial(String::new())),
        SuiteAction::Run { max_instructions: 4096 }
    ));
    let hit = || SuiteEvent::Stopped("breakpoint_hit".to_string());
    assert!(matches!(run.advance(hit()), SuiteAction::Snapshot));
    assert!(matches!(
        run.advance(SuiteEvent::Registers(registers([0; 6]))),
        SuiteAction::ClearBreakpoints
    ));
    assert!(matches!(run.advance(SuiteEvent::Done), SuiteAction::Step { count: 1 }));
    assert!(matches!(run.advance(SuiteEvent::Done), SuiteAction::AddBreakpoint { .. }));
    assert!(matches!(run.advance(SuiteEvent::Done), SuiteAction::ReadSerial));
    run.advance(SuiteEvent::Serial("now".to_string()));
    run.advance(hit());
    assert!(matches!(
        run.advance(SuiteEvent::Registers(registers([3, 5, 8, 13, 21, 34]))),
        SuiteAction::ReadSerial
    ));
    let result = result_of(run.advance(SuiteEvent::Failed("gone".to_string())));
    assert_eq!(result.status, SuiteStatus::Pass);
    assert_eq!(
        result.detail.unwrap(),
        "detected Mooneye pass/fail signature at opcode breakpoint"
    );
    assert_eq!(result.serial_output, "now");
}

#[test]
fn failures_are_told() {
    let (mut run, _) = SuiteRun::new(false);
    let result = result_of(run.advance(SuiteEvent::Failed("no exe".to_string())));
    assert_eq!(result.status, SuiteStatus::Error);
    assert_eq!(result.detail.unwrap(), "failed to start gbbrain serve: no exe");

    let mut run = started(true);
    run.advance(SuiteEvent::Serial("so far".to_string()));
    assert!(matches!(
        run.advance(SuiteEvent::Failed("illegal opcode".to_string())),
        SuiteAction::ReadSerial
    ));
    let result = result_of(run.advance(SuiteEvent::Serial("more".to_string())));
    assert_eq!(result.status, SuiteStatus::Unsupported);
    assert_eq!(result.detail.unwrap(), "illegal opcode");
    assert_eq!(result.serial_output, "more");

    let mut run = started(false);
    run.advance(SuiteEvent::Serial("so far".to_string()));
    let result = result_of(run.advance(SuiteEvent::Failed("broken".to_string())));
    assert_eq!(result.status, SuiteStatus::Error);
    assert_eq!(result.serial_output, "so far");
}

#[test]
fn halting_rom_is_given_up_after_its_limit() {
    let mut run = started(true);
    for _ in 0..49_999 {
        assert!(matches!(
            run.advance(SuiteEvent::Serial(String::new())),
            SuiteAction::Run { .. }
        ));
        assert!(matches!(
            run.advance(SuiteEvent::Stopped("halted".to_string())),
            SuiteAction::RunForCycles { cycles: 16384 }
        ));
        assert!(matches!(run.advance(SuiteEvent::Done), SuiteAction::ReadSerial));
    }
    run.advance(SuiteEvent::Serial(String::new()));
    assert!(matches!(
        run.advance(SuiteEvent::Stopped("halted".to_string())),
        SuiteAction::ReadSerial
    ));
    let result = result_of(run.advance(SuiteEvent::Serial("tail".to_string())));
    assert_eq!(result.status, SuiteStatus::Fail);
    assert_eq!(
        result.detail.unwrap(),
        "execution stalled after repeated halted state without pass/fail signature"
    );
}

#[test]
fn signatures_are_detected() {
    assert_eq!(
        detect_mooneye_result(registers([0x42; 6])),
        Some(SuiteStatus::Fail)
    );
    assert_eq!(detect_mooneye_result(registers([3, 5, 8, 13, 21, 35])), None);
    assert!(detect_blargg_ram_result(&[0x00, 0xDE, 0xB0]).is_none());
    assert!(detect_blargg_ram_result(&[0x80, 0xDE, 0xB0, 0x61]).is_none());
    assert!(detect_blargg_ram_result(&[0x00, 0xDE, 0xB1, 0x61]).is_none());
    let (status, detail) = detect_blargg_ram_result(&[0x05, 0xDE, 0xB0, 0x61, 0xC3]).unwrap();
    assert_eq!(status, SuiteStatus::Fail);
    assert_eq!(detail, "detected Blargg RAM result code 5: \u{FFFD}");
    assert_eq!(
        describe_blargg_result(255, " \t\u{3000}\r\n"),
        (SuiteStatus::Fail, "detected Blargg RAM result code 255".to_string())
    );
}

#[test]
fn selections_are_parsed() {
    assert_eq!(parse_suite(None, None), Ok(SuiteSelection::All));
    assert_eq!(parse_suite(Some("dmg"), Some("blargg")), Ok(SuiteSelection::Blargg));
    assert_eq!(parse_suite(Some("dmg"), Some("mooneye")), Ok(SuiteSelection::Mooneye));
    assert_eq!(
        parse_suite(Some("gba"), None),
        Err("unsupported suite platform: gba".to_string())
    );
    assert_eq!(
        parse_suite(Some("dmg"), Some("own")),
        Err("unsupported suite selection: own".to_string())
    );
    assert_eq!(blargg_candidates().len(), 16);
    assert!(blargg_candidates()[15].ends_with("oam_bug.gb"));
    assert!(is_dmg_rom("boot_regs-dmgABC.gb"));
    assert!(!is_dmg_rom("boot_regs-cgb.gb"));
    assert!(!is_dmg_rom("x-sgb2.gb"));
}

#[test]
fn results_are_counted() {
    let mut tally = SuiteTally::default();
    assert!(tally.success());
    tally.count(SuiteStatus::Pass);
    assert!(tally.success());
    tally.count(SuiteStatus::Fail);
    tally.count(SuiteStatus::Unsupported);
    tally.count(SuiteStatus::Error);
    assert!(!tally.success());
    assert_eq!(tally.summary(), "summary: pass=1 fail=1 unsupported_or_error=2");
    assert_eq!(SuiteStatus::Unsupported.label(), "UNSUPPORTED");
    assert_eq!(SuiteStatus::Pass.label(), "PASS");
}

#[test]
fn text_is_searched_and_trimmed_as_the_standard_library_does() {
    let samples = ["", " ", "a", "  padded text\t", "\u{A0}x\u{2028}", "aab", "\u{200B}z"];
    for sample in samples {
        assert_eq!(trim_text(sample), sample.trim());
        for wanted in ["", "a", "ab", "text", "\u{2028}"] {
            assert_eq!(
                contains_text(&characters(sample), wanted),
                sample.contains(wanted)
            );
        }
    }
}
