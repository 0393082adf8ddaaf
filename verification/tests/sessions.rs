use gbbrain::cartridge::PersistentState;
use gbbrain::interface::{AddressSpace, Breakpoint, MemoryRegion, RenderTarget, StopReason};
use gbbrain::session::{
    decode_state, encode_state, memory_region_name, parse_breakpoint, parse_buttons,
    parse_memory_region, parse_model, parse_render_target, rom_read_error, run_stop_name,
    state_format, stop_reason_name, Request, Response, RunStop, SessionState,
};
use gbbrain::snapshot::{SnapshotState, SnapshotTraceEntry};

fn session_rom(kind: u8, rom_size: u8, ram_size: u8) -> Vec<u8> {
    let mut rom = vec![0u8; 0x8000 << rom_size];
    rom[0x147] = kind;
    rom[0x148] = rom_size;
    rom[0x149] = ram_size;
    rom[0x134..0x138].copy_from_slice(b"SESS");
    rom
}

fn load(session: &mut SessionState, rom: Vec<u8>) -> Response {
    session
        .handle(Request::LoadRom {
            path: "/tmp/game.gb".to_string(),
            rom,
            model: None,
            bootrom: None,
            cart_state_path: None,
        })
        .unwrap()
}

fn loaded_session() -> SessionState {
    let mut session = SessionState::default();
    load(&mut session, session_rom(0x00, 0x00, 0x00));
    session
}

fn saved(session: &mut SessionState) -> SnapshotState {
    match session.handle(Request::SaveSnapshot).unwrap() {
        Response::State(state) => state,
        other => panic!("expected a state, got {other:?}"),
    }
}

fn saved_cart(session: &mut SessionState) -> PersistentState {
    match session.handle(Request::SaveCartState).unwrap() {
        Response::CartState(state) => state,
        other => panic!("expected cartridge state, got {other:?}"),
    }
}

#[test]
fn ping_is_answered_and_help_lists_the_commands() {
    let mut session = SessionState::default();
    assert!(matches!(session.handle(Request::Ping), Ok(Response::Pong)));
    match session.handle(Request::Help).unwrap() {
        Response::Help { commands, breakpoint_kinds, models } => {
            assert_eq!(commands.len(), 32);
            assert_eq!(commands[0], "ping");
            assert!(commands.contains(&"write_address"));
            assert_eq!(commands[31], "shutdown");
            assert_eq!(breakpoint_kinds, vec!["pc", "opcode", "memory_read", "memory_write"]);
            assert_eq!(models, vec!["dmg0", "dmg", "mgb", "sgb", "sgb2"]);
        }
        other => panic!("expected the help, got {other:?}"),
    }
}

#[test]
fn requests_fail_without_a_rom() {
    let mut session = SessionState::default();
    assert_eq!(session.handle(Request::Snapshot).unwrap_err(), "no ROM loaded");
    assert_eq!(session.handle(Request::Reset).unwrap_err(), "no ROM loaded");
    assert_eq!(
        session.handle(Request::Step { count: None }).unwrap_err(),
        "no ROM loaded"
    );
    assert!(matches!(
        session.handle(Request::Shutdown),
        Ok(Response::Shutdown { save: None })
    ));
}

#[test]
fn loading_reports_the_cartridge() {
    let mut session = SessionState::default();
    match load(&mut session, session_rom(0x03, 0x00, 0x02)) {
        Response::RomLoaded { rom_path, cartridge, cart_state_path, report } => {
            assert_eq!(rom_path, "/tmp/game.gb");
            assert_eq!(cartridge.title, "SESS");
            assert_eq!(cartridge.type_code, 0x03);
            assert!(cartridge.has_battery && !cartridge.has_rtc);
            assert_eq!(cart_state_path.unwrap(), "/tmp/game.gb.gbbrain-cart.json");
            assert_eq!(report.snapshot.registers.pc, 0);
            assert_eq!(report.debug.cycle_counter, 0);
        }
        other => panic!("expected a loaded ROM, got {other:?}"),
    }
    match session.handle(Request::CartridgeInfo).unwrap() {
        Response::Cartridge(info) => assert_eq!(info.title, "SESS"),
        other => panic!("expected cartridge information, got {other:?}"),
    }
}

#[test]
fn refused_rom_leaves_the_session() {
    let mut session = loaded_session();
    session.handle(Request::WriteAddress { address: 0xC000, value: 7 }).unwrap();
    let error = session
        .handle(Request::LoadRom {
            path: "bad.gb".to_string(),
            rom: vec![0; 5],
            model: None,
            bootrom: None,
            cart_state_path: None,
        })
        .unwrap_err();
    assert_eq!(error, "ROM length must be a non-zero multiple of 16 KiB, got 5");
    assert_eq!(session.rom_path.as_deref(), Some("/tmp/game.gb"));
    assert!(matches!(
        session.handle(Request::ReadAddress { address: 0xC000 }),
        Ok(Response::Byte { address: 0xC000, value: 7 })
    ));
    let error = session
        .handle(Request::LoadRom {
            path: "bad.gb".to_string(),
            rom: session_rom(0x00, 0x00, 0x00),
            model: Some("cgb".to_string()),
            bootrom: None,
            cart_state_path: None,
        })
        .unwrap_err();
    assert_eq!(error, "unsupported model: cgb");
}

#[test]
fn steps_and_runs_are_reported() {
    let mut session = loaded_session();
    match session.handle(Request::Step { count: Some(5) }).unwrap() {
        Response::Ran(run) => {
            assert_eq!(run.stop, RunStop::Reason(StopReason::StepComplete));
            assert_eq!(run.instructions_retired, 5);
            assert_eq!(run.cycles_elapsed, None);
            assert!(run.watchpoint.is_none());
            assert_eq!(run.report.snapshot.instruction_counter, 5);
        }
        other => panic!("expected a run, got {other:?}"),
    }
    match session.handle(Request::RunForInstructions { count: 7 }).unwrap() {
        Response::Ran(run) => {
            assert_eq!(run.stop, RunStop::Reason(StopReason::RunLimitReached));
            assert_eq!(run.instructions_retired, 7);
        }
        other => panic!("expected a run, got {other:?}"),
    }
    match session.handle(Request::RunForCycles { cycles: 100 }).unwrap() {
        Response::Ran(run) => {
            assert_eq!(run.stop, RunStop::CyclesSpent);
            let cycles = run.cycles_elapsed.unwrap();
            assert!((100..132).contains(&cycles));
        }
        other => panic!("expected a run, got {other:?}"),
    }
    session
        .handle(Request::AddBreakpoint { kind: "pc".to_string(), address: 0x0100 })
        .unwrap();
    match session.handle(Request::Run { max_instructions: None }).unwrap() {
        Response::Ran(run) => {
            assert_eq!(run.stop, RunStop::Reason(StopReason::BreakpointHit));
            assert_eq!(run.report.snapshot.registers.pc, 0x0100);
        }
        other => panic!("expected a run, got {other:?}"),
    }
    assert!(matches!(session.handle(Request::ClearBreakpoints), Ok(Response::Cleared)));
    assert!(matches!(session.handle(Request::Reset), Ok(Response::Report(_))));
}

#[test]
fn illegal_opcode_is_answered_by_its_error() {
    let mut session = SessionState::default();
    let mut boot = vec![0u8; 0x100];
    boot[1] = 0xFC;
    session
        .handle(Request::LoadRom {
            path: "x.gb".to_string(),
            rom: session_rom(0x00, 0x00, 0x00),
            model: Some("mgb".to_string()),
            bootrom: Some(boot),
            cart_state_path: None,
        })
        .unwrap();
    assert_eq!(
        session.handle(Request::Run { max_instructions: Some(10) }).unwrap_err(),
        "illegal opcode 0xfc at PC 0x0001"
    );
}

#[test]
fn memory_is_inspected_by_region() {
    let mut session = loaded_session();
    let ask = |session: &mut SessionState, region: &str, address: u32, len: usize| {
        session.handle(Request::InspectMemory { region: region.to_string(), address, len })
    };
    match ask(&mut session, "rom", 0x134, 4).unwrap() {
        Response::Memory { region, address, bytes } => {
            assert_eq!(region, MemoryRegion::Rom);
            assert_eq!(address, 0x134);
            assert_eq!(bytes, b"SESS");
        }
        other => panic!("expected memory, got {other:?}"),
    }
    assert!(ask(&mut session, "oam", 0, 0xA0).is_ok());
    assert_eq!(
        ask(&mut session, "oam", 1, 0xA0).unwrap_err(),
        "requested memory range is unavailable"
    );
    match ask(&mut session, "system", 0xFFFF, 0).unwrap() {
        Response::Memory { bytes, .. } => assert_eq!(bytes, vec![0]),
        other => panic!("expected memory, got {other:?}"),
    }
    assert!(ask(&mut session, "system", 0x10000, 1).is_err());
    assert!(ask(&mut session, "system", 0xFFFF, 2).is_err());
    assert_eq!(
        ask(&mut session, "flash", 0, 1).unwrap_err(),
        "unsupported memory region: flash"
    );
}

#[test]
fn input_is_set_by_names() {
    let mut session = loaded_session();
    session.handle(Request::WriteAddress { address: 0xFF00, value: 0x10 }).unwrap();
    match session
        .handle(Request::SetInput { buttons: vec!["start".to_string(), "a".to_string()] })
        .unwrap()
    {
        Response::Input { buttons, p1 } => {
            assert_eq!(buttons, vec!["a", "start"]);
            assert_eq!(p1, 0xD6);
        }
        other => panic!("expected the input, got {other:?}"),
    }
    assert_eq!(
        session
            .handle(Request::SetInput { buttons: vec!["turbo".to_string()] })
            .unwrap_err(),
        "unsupported button: turbo"
    );
    match session.handle(Request::GetInput).unwrap() {
        Response::Input { buttons, .. } => assert_eq!(buttons, vec!["a", "start"]),
        other => panic!("expected the input, got {other:?}"),
    }
}

#[test]
fn snapshot_brings_the_machine_back() {
    let mut session = loaded_session();
    session.handle(Request::WriteAddress { address: 0xC000, value: 0x42 }).unwrap();
    session
        .handle(Request::AddBreakpoint { kind: "write".to_string(), address: 5 })
        .unwrap();
    session.handle(Request::Step { count: Some(600) }).unwrap();
    let state = saved(&mut session);
    assert!(state.is_usable());
    let kept = saved(&mut session);
    session.handle(Request::WriteAddress { address: 0xC000, value: 0 }).unwrap();
    session.handle(Request::Step { count: Some(9) }).unwrap();
    session.handle(Request::LoadSnapshot { state }).unwrap();
    let restored = saved(&mut session);
    assert_eq!(restored.wram, kept.wram);
    assert_eq!(restored.io, kept.io);
    assert_eq!(restored.registers, kept.registers);
    assert_eq!(restored.cycle_counter, kept.cycle_counter);
    assert_eq!(restored.breakpoints, kept.breakpoints);
    assert_eq!(restored.trace, kept.trace);
    assert_eq!(restored.trace.len(), 512);
    assert_eq!(restored.trace[511].stop_reason, 0);
}

#[test]
fn snapshot_of_a_bad_rom_is_refused() {
    let mut session = loaded_session();
    let mut state = saved(&mut session);
    state.cartridge.rom[0x147] = 0x07;
    assert_eq!(
        session.handle(Request::LoadSnapshot { state }).unwrap_err(),
        "unsupported cartridge type 0x07"
    );
    let mut state = saved(&mut session);
    state.bootrom = Some(vec![0; 2]);
    assert_eq!(
        session.handle(Request::LoadSnapshot { state }).unwrap_err(),
        "boot ROM must be exactly 256 bytes, got 2"
    );
    let mut state = saved(&mut session);
    state.hram.pop();
    assert!(!state.is_usable());
}

#[test]
fn unknown_stop_reasons_of_a_snapshot_are_the_last() {
    let mut session = loaded_session();
    let mut state = saved(&mut session);
    let entry = SnapshotTraceEntry {
        instruction_counter: 1,
        pc: 2,
        opcode: 3,
        a: 4,
        f: 5,
        b: 6,
        c: 7,
        d: 8,
        e: 9,
        h: 10,
        l: 11,
        sp: 12,
        stop_reason: 77,
    };
    state.trace.push(entry);
    state.halted = true;
    session.handle(Request::LoadSnapshot { state }).unwrap();
    match session.handle(Request::GetTrace { limit: None }).unwrap() {
        Response::Trace(trace) => {
            assert_eq!(trace[0].stop_reason, StopReason::RunLimitReached);
            assert_eq!(trace[0].sp, 12);
        }
        other => panic!("expected a trace, got {other:?}"),
    }
    match session.handle(Request::Snapshot).unwrap() {
        Response::Report(report) => assert!(report.snapshot.halted),
        other => panic!("expected a report, got {other:?}"),
    }
}

#[test]
fn cartridge_state_comes_back_and_is_saved_at_the_end() {
    let mut session = SessionState::default();
    load(&mut session, session_rom(0x03, 0x00, 0x02));
    session.handle(Request::WriteAddress { address: 0x0000, value: 0x0A }).unwrap();
    session.handle(Request::WriteAddress { address: 0xA000, value: 0x66 }).unwrap();
    let state = saved_cart(&mut session);
    assert_eq!(state.ram[0], 0x66);
    session.handle(Request::WriteAddress { address: 0xA000, value: 0x00 }).unwrap();
    session.handle(Request::LoadCartState { state }).unwrap();
    match session.handle(Request::ExportSaveRam).unwrap() {
        Response::SaveRam(bytes) => {
            assert_eq!(bytes.len(), 8192);
            assert_eq!(bytes[0], 0x66);
        }
        other => panic!("expected RAM, got {other:?}"),
    }
    assert_eq!(
        session.handle(Request::ImportSaveRam { bytes: vec![1] }).unwrap_err(),
        "persistent cartridge RAM size mismatch: expected 8192 bytes, got 1"
    );
    session.handle(Request::ImportSaveRam { bytes: vec![0x11; 8192] }).unwrap();
    match session.handle(Request::Shutdown).unwrap() {
        Response::Shutdown { save: Some(save) } => {
            assert_eq!(save.path, "/tmp/game.gb.gbbrain-cart.json");
            assert_eq!(save.state.ram, vec![0x11; 8192]);
        }
        other => panic!("expected state to save, got {other:?}"),
    }
}

#[test]
fn traces_and_listings_are_limited() {
    let mut session = loaded_session();
    session.handle(Request::Step { count: Some(6) }).unwrap();
    match session.handle(Request::GetTrace { limit: Some(2) }).unwrap() {
        Response::Trace(trace) => {
            assert_eq!(trace.len(), 2);
            assert_eq!(trace[1].instruction_counter, 6);
        }
        other => panic!("expected a trace, got {other:?}"),
    }
    session.handle(Request::ClearTrace).unwrap();
    match session.handle(Request::GetTrace { limit: Some(2) }).unwrap() {
        Response::Trace(trace) => assert!(trace.is_empty()),
        other => panic!("expected a trace, got {other:?}"),
    }
    match session.handle(Request::Disassemble { address: 0, count: None }).unwrap() {
        Response::Instructions(lines) => {
            assert_eq!(lines.len(), 8);
            assert_eq!(lines[0].text, "JR +8");
        }
        other => panic!("expected instructions, got {other:?}"),
    }
    assert_eq!(
        session
            .handle(Request::Disassemble { address: 65536, count: Some(1) })
            .unwrap_err(),
        "address out of range: 65536"
    );
}

#[test]
fn serial_output_has_three_encodings() {
    let mut session = loaded_session();
    for byte in [b'O', b'K', 0xFF] {
        session.handle(Request::WriteAddress { address: 0xFF01, value: byte }).unwrap();
        session.handle(Request::WriteAddress { address: 0xFF02, value: 0x81 }).unwrap();
    }
    let ask = |session: &mut SessionState, encoding: Option<&str>| {
        session.handle(Request::GetSerialOutput { encoding: encoding.map(|e| e.to_string()) })
    };
    match ask(&mut session, None).unwrap() {
        Response::SerialText(text) => assert_eq!(text, "OK\u{FFFD}"),
        other => panic!("expected text, got {other:?}"),
    }
    match ask(&mut session, Some("bytes")).unwrap() {
        Response::SerialBytes(bytes) => assert_eq!(bytes, vec![b'O', b'K', 0xFF]),
        other => panic!("expected bytes, got {other:?}"),
    }
    match ask(&mut session, Some("base64")).unwrap() {
        Response::SerialBase64(text) => assert_eq!(text, "T0v/"),
        other => panic!("expected base64, got {other:?}"),
    }
    assert_eq!(
        ask(&mut session, Some("hex")).unwrap_err(),
        "unsupported serial encoding: hex"
    );
    session.handle(Request::ClearSerialOutput).unwrap();
    match ask(&mut session, Some("text")).unwrap() {
        Response::SerialText(text) => assert_eq!(text, ""),
        other => panic!("expected text, got {other:?}"),
    }
}

#[test]
fn frames_have_two_encodings() {
    let mut session = loaded_session();
    match session.handle(Request::RenderFrame { target: None, encoding: None }).unwrap() {
        Response::FrameBase64 { width, height, bytes_base64 } => {
            assert_eq!((width, height), (160, 144));
            assert_eq!(bytes_base64.len(), 122880);
            assert!(bytes_base64.starts_with("4ODg/+Dg4P/g4OD/"));
        }
        other => panic!("expected a frame, got {other:?}"),
    }
    match session
        .handle(Request::RenderFrame {
            target: Some("main".to_string()),
            encoding: Some("summary".to_string()),
        })
        .unwrap()
    {
        Response::FrameSummary { width, height, byte_len } => {
            assert_eq!((width, height, byte_len), (160, 144, 92160));
        }
        other => panic!("expected a summary, got {other:?}"),
    }
    assert_eq!(
        session
            .handle(Request::RenderFrame { target: Some("sub".to_string()), encoding: None })
            .unwrap_err(),
        "unsupported render target: sub"
    );
    assert_eq!(
        session
            .handle(Request::RenderFrame { target: None, encoding: Some("png".to_string()) })
            .unwrap_err(),
        "unsupported frame encoding: png"
    );
}

#[test]
fn watchpoint_is_part_of_a_run_report() {
    let mut session = SessionState::default();
    let mut boot = vec![0u8; 0x100];
    boot[..3].copy_from_slice(&[0xEA, 0x05, 0xC0]);
    session
        .handle(Request::LoadRom {
            path: "x.gb".to_string(),
            rom: session_rom(0x00, 0x00, 0x00),
            model: None,
            bootrom: Some(boot),
            cart_state_path: Some("given.json".to_string()),
        })
        .unwrap();
    assert_eq!(session.cart_state_path.as_deref(), Some("given.json"));
    match session
        .handle(Request::AddBreakpoint { kind: "write".to_string(), address: 0xC005 })
        .unwrap()
    {
        Response::BreakpointAdded { kind, address } => {
            assert_eq!((kind.as_str(), address), ("write", 0xC005));
        }
        other => panic!("expected a breakpoint, got {other:?}"),
    }
    match session.handle(Request::Run { max_instructions: Some(100) }).unwrap() {
        Response::Ran(run) => {
            assert_eq!(run.stop, RunStop::Reason(StopReason::WatchpointHit));
            assert_eq!(run.watchpoint.unwrap().address, 0xC005);
        }
        other => panic!("expected a run, got {other:?}"),
    }
}

#[test]
fn names_are_parsed() {
    assert_eq!(
        parse_memory_region("system").unwrap(),
        MemoryRegion::AddressSpace(AddressSpace::System)
    );
    for name in ["rom", "ram", "vram", "oam", "system"] {
        assert_eq!(memory_region_name(parse_memory_region(name).unwrap()), name);
    }
    assert_eq!(parse_breakpoint("pc", 70000).unwrap(), Breakpoint::ProgramCounter(70000));
    assert_eq!(parse_breakpoint("opcode", 0x40).unwrap(), Breakpoint::Opcode(0x40));
    assert_eq!(parse_breakpoint("memory_read", 1).unwrap(), Breakpoint::MemoryRead(1));
    assert_eq!(parse_breakpoint("memory_write", 2).unwrap(), Breakpoint::MemoryWrite(2));
    assert_eq!(
        parse_breakpoint("opcode", 256).unwrap_err(),
        "opcode breakpoint out of range: 256"
    );
    assert_eq!(
        parse_breakpoint("irq", 0).unwrap_err(),
        "unsupported breakpoint kind: irq"
    );
    assert_eq!(parse_render_target("main").unwrap(), RenderTarget::Main);
    assert_eq!(parse_model(&None).unwrap().as_name(), "dmg");
    assert_eq!(parse_buttons(&vec!["up".to_string(), "up".to_string()]).unwrap(), 0x04);
    assert_eq!(stop_reason_name(StopReason::WatchpointHit), "watchpoint_hit");
    assert_eq!(stop_reason_name(StopReason::FrameComplete), "frame_complete");
    assert_eq!(
        run_stop_name(RunStop::Reason(StopReason::RunLimitReached)),
        "instruction_budget_exhausted"
    );
    assert_eq!(run_stop_name(RunStop::CyclesSpent), "cycle_budget_exhausted");
    assert_eq!(rom_read_error("a.gb", "gone"), "failed to read ROM 'a.gb': gone");
    assert_eq!(state_format(), "gbbrain.gb.state.v1+json");
}

#[test]
fn encoded_state_decodes_to_itself() {
    let bytes: Vec<u8> = (0..=255u8).collect();
    let text = encode_state(&bytes);
    assert!(text.starts_with("AAECAwQFBgcICQoL"));
    assert_eq!(text.len(), 344);
    assert_eq!(decode_state(&text, "snapshot").unwrap(), bytes);
    assert_eq!(encode_state(b"A"), "QQ==");
    let error = decode_state("***", "snapshot").unwrap_err();
    assert!(error.starts_with("invalid base64 snapshot: "));
    assert!(error.len() > "invalid base64 snapshot: ".len());
}
