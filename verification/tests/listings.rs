use gbbrain::interface::UnimplementedMachine;
use gbbrain::machine::GbMachine;
use gbbrain::model::GbModel;

fn listing(code: &[u8], count: usize) -> Vec<(u16, u8, String)> {
    let mut boot = vec![0u8; 0x100];
    boot[..code.len()].copy_from_slice(code);
    let machine =
        GbMachine::new_with_model_and_bootrom(vec![0; 0x8000], GbModel::Dmg, Some(boot)).unwrap();
    GbMachine::disassemble_range(&machine, 0, count)
        .into_iter()
        .map(|line| {
            assert_eq!(line.bytes.len(), line.len as usize);
            assert_eq!(line.bytes[0], code[line.address as usize]);
            (line.address, line.len, line.text)
        })
        .collect()
}

fn text_of(code: &[u8]) -> String {
    listing(code, 1)[0].2.clone()
}

#[test]
fn listing_follows_the_lengths() {
    let lines = listing(&[0x00, 0x01, 0x34, 0x12, 0x3E, 0xAB, 0xC9], 4);
    assert_eq!(
        lines,
        vec![
            (0, 1, "NOP".to_string()),
            (1, 3, "LD BC,$1234".to_string()),
            (4, 2, "LD A,$AB".to_string()),
            (6, 1, "RET".to_string()),
        ]
    );
}

#[test]
fn listed_instructions_have_one_to_three_bytes() {
    let code: Vec<u8> = (0..=255).collect();
    let lines = listing(&code[..0xF0], 40);
    assert_eq!(lines.len(), 40);
    assert!(lines.iter().all(|line| 1 <= line.1 && line.1 <= 3));
}

#[test]
fn instructions_have_their_texts() {
    assert_eq!(text_of(&[0x18, 0xFE]), "JR -2");
    assert_eq!(text_of(&[0x20, 0x7F]), "JR NZ,+127");
    assert_eq!(text_of(&[0x28, 0x00]), "JR Z,+0");
    assert_eq!(text_of(&[0x18, 0x80]), "JR -128");
    assert_eq!(text_of(&[0x10, 0x00]), "STOP");
    assert_eq!(text_of(&[0x7E]), "LD A,(HL)");
    assert_eq!(text_of(&[0xAF]), "XOR A");
    assert_eq!(text_of(&[0xB1]), "OR C");
    assert_eq!(text_of(&[0xE0, 0x40]), "LDH ($FF40),A");
    assert_eq!(text_of(&[0xF0, 0x0F]), "LDH A,($FF0F)");
    assert_eq!(text_of(&[0xEA, 0xCD, 0xAB]), "LD ($ABCD),A");
    assert_eq!(text_of(&[0xFE, 0x90]), "CP $90");
    assert_eq!(text_of(&[0xCD, 0x00, 0x01]), "CALL $0100");
    assert_eq!(text_of(&[0xD3]), "ILLEGAL $D3");
    assert_eq!(text_of(&[0x02]), "DB $02");
    assert_eq!(text_of(&[0x22]), "LD (HL+),A");
}

#[test]
fn prefixed_instructions_have_their_texts() {
    assert_eq!(text_of(&[0xCB, 0x00]), "CB RLC B");
    assert_eq!(text_of(&[0xCB, 0x1E]), "CB RR (HL)");
    assert_eq!(text_of(&[0xCB, 0x37]), "CB SWAP A");
    assert_eq!(text_of(&[0xCB, 0x7C]), "CB BIT 7,H");
    assert_eq!(text_of(&[0xCB, 0x86]), "CB RES 0,(HL)");
    assert_eq!(text_of(&[0xCB, 0xEF]), "CB SET 5,A");
}

#[test]
fn placeholder_error_has_its_text() {
    assert_eq!(UnimplementedMachine.message(), "machine behavior not implemented yet");
}
