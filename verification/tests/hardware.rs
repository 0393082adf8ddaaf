use gbbrain::cpu::{AddrMode8, Condition, In8, Out8, Reg8Id};
use gbbrain::interface::{
    Breakpoint, FrameBuffer, Machine, MachineControl, Platform, RenderTarget, StopReason,
};
use gbbrain::machine::{
    GbMachine, OamCorruptionKind, PpuMode, DMA_REGISTER, IF_REGISTER, LCDC_REGISTER, LYC_REGISTER,
    LY_REGISTER, STAT_REGISTER, TIMER_DIV, TIMER_TAC, TIMER_TIMA, TIMER_TMA,
};
use gbbrain::model::GbModel;

fn plain_rom() -> Vec<u8> {
    let mut rom = vec![0u8; 0x8000];
    for (i, byte) in rom.iter_mut().enumerate().skip(0x200) {
        *byte = (i % 251) as u8;
    }
    rom
}

fn plain_machine() -> GbMachine {
    GbMachine::new(plain_rom()).unwrap()
}

#[test]
fn work_ram_and_its_echo_are_one_memory() {
    let mut machine = plain_machine();
    machine.write8(0xC123, 0x5A);
    assert_eq!(machine.read8(0xC123), 0x5A);
    assert_eq!(machine.read8(0xE123), 0x5A);
    machine.write8(0xFDFF, 0xA5);
    assert_eq!(machine.read8(0xDDFF), 0xA5);
    assert_eq!(machine.read8(0xC124), 0x00);
}

#[test]
fn high_ram_and_enable_register_read_back() {
    let mut machine = plain_machine();
    machine.write8(0xFF80, 1);
    machine.write8(0xFFFE, 2);
    machine.write8(0xFFFF, 3);
    assert_eq!((machine.read8(0xFF80), machine.read8(0xFFFE), machine.read8(0xFFFF)), (1, 2, 3));
    assert_eq!(machine.read8(0xFEA0), 0xFF);
}

#[test]
fn sound_registers_show_their_unreadable_bits() {
    let mut machine = plain_machine();
    machine.write8(0xFF11, 0x40);
    machine.write8(0xFF13, 0x12);
    machine.write8(0xFF1C, 0x20);
    machine.write8(0xFF26, 0x80);
    machine.write8(0xFF14, 0x80);
    machine.write8(0xFF23, 0x80);
    assert_eq!(machine.read8(0xFF11), 0x7F);
    assert_eq!(machine.read8(0xFF13), 0xFF);
    assert_eq!(machine.read8(0xFF1C), 0xBF);
    assert_eq!(machine.read8(0xFF14), 0xBF);
    assert_eq!(machine.read8(0xFF26), 0xF9);
    machine.write8(0xFF26, 0x00);
    assert_eq!(machine.read8(0xFF26), 0x70);
    assert_eq!(machine.read8(0xFF03), 0xFF);
    assert_eq!(machine.read8(0xFF7F), 0xFF);
}

#[test]
fn copy_fills_object_memory_and_blocks_the_bus() {
    let mut machine = plain_machine();
    for i in 0..0xA0u16 {
        machine.write8(0xC100 + i, i as u8 ^ 0x55);
    }
    machine.write8(DMA_REGISTER, 0xC1);
    machine.tick_timers(8);
    assert_eq!(machine.read8(0xC100), 0xFF);
    machine.tick_timers(4 * 159);
    assert!(machine.dma_active);
    machine.tick_timers(4);
    assert!(!machine.dma_active);
    for i in 0..0xA0u16 {
        assert_eq!(machine.read8(0xFE00 + i), i as u8 ^ 0x55);
    }
    assert_eq!(machine.read8(0xC100), 0x55);
}

#[test]
fn copy_sees_work_ram_above_the_echo() {
    let mut machine = plain_machine();
    machine.write8(0xDE07, 0x99);
    assert_eq!(machine.dma_source_byte(0xFE07), 0x99);
    assert_eq!(machine.dma_source_byte(0x0300), (0x300 % 251) as u8);
}

#[test]
fn divider_counts_every_64_machine_cycles() {
    let mut machine = plain_machine();
    machine.write8(TIMER_DIV, 0xFF);
    assert_eq!(machine.read8(TIMER_DIV), 0);
    machine.tick_timers(255);
    assert_eq!(machine.read8(TIMER_DIV), 0);
    machine.tick_timers(1);
    assert_eq!(machine.read8(TIMER_DIV), 1);
}

#[test]
fn timer_counts_at_the_selected_rate() {
    let mut machine = plain_machine();
    machine.write8(TIMER_DIV, 0);
    machine.write8(TIMER_TAC, 0x06);
    machine.tick_timers(63);
    assert_eq!(machine.read8(TIMER_TIMA), 0);
    machine.tick_timers(1);
    assert_eq!(machine.read8(TIMER_TIMA), 1);
    assert_eq!(machine.read8(TIMER_TAC), 0xFE);
}

#[test]
fn write_during_the_overflow_cancels_the_reload() {
    let mut machine = plain_machine();
    machine.write8(IF_REGISTER, 0);
    machine.write8(TIMER_DIV, 0);
    machine.write8(TIMER_TMA, 0x10);
    machine.write8(TIMER_TIMA, 0xFF);
    machine.write8(TIMER_TAC, 0x05);
    machine.tick_timers(16);
    machine.write8(TIMER_TIMA, 0x42);
    machine.tick_timers(4);
    assert_eq!(machine.read8(TIMER_TIMA), 0x42);
    assert_eq!(machine.read8(IF_REGISTER) & 0x04, 0);
}

#[test]
fn divider_write_can_count_the_timer() {
    let mut machine = plain_machine();
    machine.write8(TIMER_DIV, 0);
    machine.write8(TIMER_TAC, 0x05);
    machine.tick_timers(8);
    machine.write8(TIMER_DIV, 0);
    assert_eq!(machine.read8(TIMER_TIMA), 1);
}

#[test]
fn display_walks_through_modes_and_lines() {
    let mut machine = plain_machine();
    machine.write8(LCDC_REGISTER, 0x80);
    machine.write8(IF_REGISTER, 0);
    let mut seen = [false; 4];
    let mut highest = 0;
    for _ in 0..40_000 {
        machine.tick_timers(4);
        seen[(machine.read8(STAT_REGISTER) & 0x03) as usize] = true;
        let line = machine.read8(LY_REGISTER);
        assert!(line <= 153);
        if line > highest {
            highest = line;
        }
    }
    assert_eq!(seen, [true; 4]);
    assert_eq!(highest, 153);
    machine.flush_pending_t34_interrupts();
    assert_eq!(machine.read8(IF_REGISTER) & 0x01, 0x01);
}

#[test]
fn display_switched_off_starts_over() {
    let mut machine = plain_machine();
    machine.write8(LCDC_REGISTER, 0x80);
    machine.tick_timers(5000);
    assert_ne!(machine.read8(LY_REGISTER), 0);
    machine.write8(LCDC_REGISTER, 0x00);
    assert_eq!(machine.read8(LY_REGISTER), 0);
    assert_eq!(machine.read8(STAT_REGISTER), 0x80);
    machine.tick_timers(5000);
    assert_eq!(machine.read8(LY_REGISTER), 0);
}

#[test]
fn compared_line_requests_the_status_interrupt() {
    let mut machine = plain_machine();
    machine.write8(LCDC_REGISTER, 0x80);
    machine.write8(STAT_REGISTER, 0x40);
    machine.write8(LYC_REGISTER, 0x01);
    machine.write8(IF_REGISTER, 0);
    machine.tick_timers(80);
    machine.flush_pending_t34_interrupts();
    assert_eq!(machine.read8(LY_REGISTER), 1);
    assert_eq!(machine.read8(IF_REGISTER) & 0x02, 0x02);
    assert_eq!(machine.read8(STAT_REGISTER) & 0x04, 0x04);
}

#[test]
fn video_memory_is_hidden_while_it_is_drawn() {
    let mut machine = plain_machine();
    machine.write8(0x8000, 0x12);
    machine.write8(0xFE00, 0x34);
    machine.write8(LCDC_REGISTER, 0x80);
    while machine.read8(STAT_REGISTER) & 0x03 != 3 {
        machine.tick_timers(4);
    }
    assert_eq!(machine.read8(0x8000), 0xFF);
    machine.write8(0x8000, 0x99);
    machine.write8(LCDC_REGISTER, 0x00);
    assert_eq!(machine.read8(0x8000), 0x12);
    assert_eq!(machine.read8(0xFE00), 0x34);
}

#[test]
fn access_during_the_object_scan_disturbs_a_row() {
    let mut machine = plain_machine();
    for i in 0..0xA0u16 {
        machine.write8(0xFE00 + i, i as u8);
    }
    machine.write8(LCDC_REGISTER, 0x80);
    machine.ppu_mode = PpuMode::AccessOam;
    machine.ppu_cycle_counter = 8;
    machine.maybe_trigger_oam_bug(0xFE00, OamCorruptionKind::Write);
    let a: u16 = 0x1110;
    let b: u16 = 0x0908;
    let c: u16 = 0x0D0C;
    let first = ((a ^ c) & (b ^ c)) ^ c;
    assert_eq!(machine.oam[16], first as u8);
    assert_eq!(machine.oam[17], (first >> 8) as u8);
    assert_eq!(machine.oam[18..24], [10, 11, 12, 13, 14, 15]);
    assert_eq!(machine.oam[24], 24);
    machine.maybe_trigger_oam_bug(0xFE00, OamCorruptionKind::Read);
    assert_eq!(machine.oam[16], (b | (first & c)) as u8);
    machine.maybe_trigger_oam_bug(0xFD00, OamCorruptionKind::Write);
    assert_eq!(machine.oam[16], (b | (first & c)) as u8);
}

#[test]
fn power_on_state_is_the_same_after_a_reset() {
    let mut machine = plain_machine();
    let fresh = (machine.snapshot(), machine.debug_state());
    machine.run_steps(1000).unwrap();
    machine.write8(0xC000, 1);
    machine.reset().unwrap();
    assert_eq!((machine.snapshot(), machine.debug_state()), fresh);
    assert_eq!(machine.read8(0xC000), 0);
    assert!(machine.bootrom_active);
}

#[test]
fn every_model_enters_with_its_registers() {
    let expected = [
        (GbModel::Dmg0, 0x01, 0x00, 0x00FF13C1u32, 0x8403),
        (GbModel::Dmg, 0x01, 0xB0, 0x000013D8, 0x014D),
        (GbModel::Mgb, 0xFF, 0xB0, 0x000013D8, 0x014D),
        (GbModel::Sgb, 0x01, 0x00, 0x00001400, 0xC060),
        (GbModel::Sgb2, 0xFF, 0x00, 0x00001400, 0xC060),
    ];
    for (model, a, f, bce, hl) in expected {
        let mut machine = GbMachine::new_with_model(plain_rom(), model).unwrap();
        while machine.snapshot().registers.pc != 0x0100 {
            machine.step_instruction().unwrap();
        }
        let r = machine.snapshot().registers;
        assert_eq!((r.a, r.f), (a, f));
        assert_eq!((r.b << 16) | (r.c << 8) | r.e, bce);
        assert_eq!((r.h << 8) | r.l, hl);
        assert_eq!(r.sp, 0xFFFE);
        assert!(!machine.bootrom_active);
        assert_eq!(machine.model_name(), model.as_name());
        assert_eq!(machine.platform(), Platform::Gb);
    }
}

#[test]
fn every_model_starts_its_hardware() {
    for model in [GbModel::Dmg0, GbModel::Dmg, GbModel::Mgb, GbModel::Sgb, GbModel::Sgb2] {
        let mut machine = GbMachine::new_with_model(plain_rom(), model).unwrap();
        while machine.snapshot().registers.pc != 0x0100 {
            machine.step_instruction().unwrap();
        }
        let lines: u8 = if matches!(model, GbModel::Sgb | GbModel::Sgb2) { 0xFF } else { 0xCF };
        assert_eq!(machine.read8(0xFF00), lines);
        assert_eq!(machine.read8(IF_REGISTER), 0xE1);
        assert_eq!(machine.read8(0xFF26) & 0xF0, 0xF0);
        assert_eq!(machine.read8(LCDC_REGISTER), 0x91);
        assert_eq!(machine.read8(0xFF47), 0xFC);
        assert_ne!(machine.debug_state().div_counter, 0);
    }
}

#[test]
fn same_calls_have_the_same_effect() {
    let mut first = plain_machine();
    first.run_steps(900).unwrap();
    let saved = first.save_state().unwrap();
    let mut second = GbMachine::load_state(&saved).unwrap();
    for machine in [&mut first, &mut second] {
        machine.set_pressed_buttons_mask(0x21);
        machine.write8(0xFF00, 0x10);
        machine.write8(0xC000, 0x5A);
        machine.step_instruction().unwrap();
        machine.run_for_cycles(70_000).unwrap();
        machine.add_breakpoint(Breakpoint::MemoryWrite(0xC000)).unwrap();
        machine.write8(0xC000, 0xA5);
    }
    assert_eq!(first.read8(0xFF0F), second.read8(0xFF0F));
    assert_eq!(
        first.run_steps(20).unwrap().stop_reason,
        second.run_steps(20).unwrap().stop_reason
    );
    assert!(first.cycle_counter > saved.cycle_counter);
    assert_eq!(
        format!("{:?}", first.save_state().unwrap()),
        format!("{:?}", second.save_state().unwrap())
    );
}

#[test]
fn boot_rom_hands_over_with_the_entry_registers() {
    let mut halting = plain_rom();
    halting[0xA8] = 0x76;
    let mut machine = GbMachine::new(halting).unwrap();
    while machine.bootrom_active {
        machine.step_instruction().unwrap();
    }
    let r = machine.snapshot().registers;
    assert_eq!(r.pc, 0xA8);
    assert_eq!((r.a, r.f, r.b, r.c), (0x01, 0xB0, 0x00, 0x13));
    assert_eq!((r.d, r.e, r.h, r.l), (0x00, 0xD8, 0x01, 0x4D));
    assert_eq!(machine.run().unwrap().stop_reason, StopReason::Halted);

    let mut jumping = plain_rom();
    jumping[0xA9..0xAC].copy_from_slice(&[0xC3, 0x00, 0x01]);
    let mut machine = GbMachine::new(jumping).unwrap();
    while machine.bootrom_active {
        machine.step_instruction().unwrap();
    }
    machine.step_instruction().unwrap();
    machine.step_instruction().unwrap();
    let entered = machine.snapshot().registers;
    assert_eq!(entered.pc, 0x0100);
    assert_eq!((entered.a, entered.f, entered.sp), (0x01, 0xB0, 0xFFFE));
}

#[test]
fn boot_rom_has_the_shortest_delays() {
    let code = GbMachine::synthetic_bootrom(GbModel::Dmg);
    assert_eq!(code[..10], [0x18, 0x08, 0x4A, 0x0D, 0x20, 0xFD, 0x05, 0x20, 0xF9, 0xC9]);
    assert_eq!(code[10..17], [0x06, 19, 0x16, 32, 0xCD, 0x02, 0x00]);
    assert_eq!(code[17..21], [0x3E, 0xCF, 0xE0, 0x00]);
    assert_eq!(code[137..141], [0x3E, 0x91, 0xE0, 0x40]);
    assert_eq!(code[141..148], [0x06, 1, 0x16, 12, 0xCD, 0x02, 0x00]);
    assert_eq!(code[164..171], [0x3E, 0x01, 0xE0, 0x50, 0xC3, 0x00, 0x01]);
    assert_eq!(code[171..], [0u8; 85]);
}

#[test]
fn buttons_have_names() {
    let mut machine = plain_machine();
    assert!(machine.pressed_buttons().is_empty());
    GbMachine::set_pressed_buttons_mask(&mut machine, 0x40);
    assert_eq!(machine.pressed_buttons(), ["select"]);
    GbMachine::set_pressed_buttons_mask(&mut machine, 0x91);
    assert!(machine.pressed_buttons().is_empty());
    assert_eq!(machine.pressed_button_names(), vec!["right", "a", "start"]);
    assert_eq!(machine.pressed_buttons_mask(), 0x91);
}

#[test]
fn front_sprite_is_the_left_one_and_then_the_first() {
    let mut machine = plain_machine();
    machine.write8(0xFF48, 0xE4);
    machine.write8(0xFF49, 0x1B);
    for row in 0..8u16 {
        machine.write8(0x8000 + row * 2, 0xFF);
        machine.write8(0x8010 + row * 2 + 1, 0xFF);
    }
    let sprites: [[u8; 4]; 3] = [[16, 12, 0, 0x00], [16, 8, 1, 0x10], [16, 8, 0, 0x00]];
    for (i, sprite) in sprites.iter().enumerate() {
        for (j, byte) in sprite.iter().enumerate() {
            machine.write8(0xFE00 + (i * 4 + j) as u16, *byte);
        }
    }
    machine.write8(LCDC_REGISTER, 0x82);
    let frame = machine.render_frame(RenderTarget::Main).unwrap();
    assert_eq!(frame.pixels_rgba8.len(), 160 * 144 * 4);
    assert_eq!(frame.pixels_rgba8[0..4], [0xA8, 0xA8, 0xA8, 0xFF]);
    assert_eq!(frame.pixels_rgba8[7 * 4], 0xA8);
    assert_eq!(frame.pixels_rgba8[8 * 4], 0xA8);
    assert_eq!(frame.pixels_rgba8[12 * 4], 0xE0);
    assert_eq!(frame.pixels_rgba8[(8 * 160) * 4], 0xE0);
}

#[test]
fn dark_display_shows_the_lightest_shade() {
    let frame = plain_machine().render_frame(RenderTarget::Main).unwrap();
    for pixel in frame.pixels_rgba8.chunks_exact(4) {
        assert_eq!(pixel, [0xE0, 0xE0, 0xE0, 0xFF]);
    }
}

#[test]
fn frame_buffers_have_four_bytes_a_pixel() {
    assert_eq!(FrameBuffer::new_rgba(3, 2).pixels_rgba8, vec![0; 24]);
    assert_eq!(FrameBuffer::new_rgba(0x10000, 0x10000).pixels_rgba8.len(), 0);
    assert_eq!(FrameBuffer::new_rgba(0x8000, 0x8000).pixels_rgba8.len(), 0);
}

#[test]
fn opcodes_name_their_operands() {
    assert_eq!(GbMachine::decode_r8_in(6), In8::Addr(AddrMode8::Hl));
    assert_eq!(GbMachine::decode_r8_out(7), Out8::Reg(Reg8Id::A));
    assert_eq!(GbMachine::decode_condition(3), Condition::C);
    assert_eq!(GbMachine::decode_rst_vector(0xDF), 0x18);
}
