//! Hardware models and the errors of a machine.

use vstd::prelude::*;
use vstd::string::*;

use crate::text::{decimal, decimal_text, hex2, hex2_text, hex4, hex4_text, joined, joined3, same_text};

verus! {

/// Hardware revisions of the Game Boy.
#[derive(Debug, Clone, Copy, PartialEq, Eq, Structural)]
pub enum GbModel {
    Dmg0,
    Dmg,
    Mgb,
    Sgb,
    Sgb2,
}

/// The name of a model.
pub open spec fn model_name(model: GbModel) -> Seq<char> {
    match model {
        GbModel::Dmg0 => "dmg0"@,
        GbModel::Dmg => "dmg"@,
        GbModel::Mgb => "mgb"@,
        GbModel::Sgb => "sgb"@,
        GbModel::Sgb2 => "sgb2"@,
    }
}

/// The model that a name stands for.
pub open spec fn named_model(name: Seq<char>) -> Option<GbModel> {
    if name == "dmg0"@ {
        Some(GbModel::Dmg0)
    } else if name == "dmg"@ {
        Some(GbModel::Dmg)
    } else if name == "mgb"@ {
        Some(GbModel::Mgb)
    } else if name == "sgb"@ {
        Some(GbModel::Sgb)
    } else if name == "sgb2"@ {
        Some(GbModel::Sgb2)
    } else {
        None
    }
}

impl GbModel {
    /// The model of that name.
    pub fn from_name(name: &str) -> (model: Option<Self>)
        ensures
            model == named_model(name@),
    {
        if same_text(name, "dmg0") {
            Some(GbModel::Dmg0)
        } else if same_text(name, "dmg") {
            Some(GbModel::Dmg)
        } else if same_text(name, "mgb") {
            Some(GbModel::Mgb)
        } else if same_text(name, "sgb") {
            Some(GbModel::Sgb)
        } else if same_text(name, "sgb2") {
            Some(GbModel::Sgb2)
        } else {
            None
        }
    }

    pub fn as_name(self) -> (name: &'static str)
        ensures
            name@ == model_name(self),
    {
        match self {
            GbModel::Dmg0 => "dmg0",
            GbModel::Dmg => "dmg",
            GbModel::Mgb => "mgb",
            GbModel::Sgb => "sgb",
            GbModel::Sgb2 => "sgb2",
        }
    }
}

/// A model is found by its name, and only by that.
pub proof fn law_model_is_found_by_its_name(model: GbModel, name: Seq<char>)
    ensures
        named_model(model_name(model)) == Some(model),
        named_model(name) == Some(model) ==> name == model_name(model),
{
    reveal_strlit("dmg0");
    reveal_strlit("dmg");
    reveal_strlit("mgb");
    reveal_strlit("sgb");
    reveal_strlit("sgb2");
    assert("dmg"@[0] != "mgb"@[0] && "dmg"@[0] != "sgb"@[0] && "mgb"@[0] != "sgb"@[0]);
    assert("dmg0"@[0] != "sgb2"@[0]);
    assert("dmg0"@.len() != "dmg"@.len() && "sgb2"@.len() != "sgb"@.len());
    assert("dmg0"@.len() != "mgb"@.len() && "dmg0"@.len() != "sgb"@.len());
    assert("sgb2"@.len() != "mgb"@.len() && "sgb2"@.len() != "dmg"@.len());
}

/// What a machine or a cartridge refuses.
#[derive(Debug, Clone, Copy)]
pub enum GbError {
    EmptyRom,
    InvalidBootromSize(usize),
    InvalidRomLength(usize),
    UnsupportedCartridgeType(u8),
    UnsupportedRomSize(u8),
    UnsupportedRamSize(u8),
    RomSizeMismatch { header_size: usize, actual_size: usize },
    MissingRamForCartridge(u8),
    UnexpectedRamSize { cartridge_type: u8, ram_size: u8 },
    PersistentStateRamSizeMismatch { expected: usize, actual: usize },
    PersistentStateCartridgeMismatch,
    PersistentStateRtcMismatch,
    IllegalOpcode { opcode: u8, pc: u16 },
    StopInstruction { pc: u16 },
    StackOverflow(u16),
}

/// The text of an error.
pub open spec fn error_text(error: GbError) -> Seq<char> {
    match error {
        GbError::EmptyRom => "ROM is empty"@,
        GbError::InvalidBootromSize(size) => "boot ROM must be exactly 256 bytes, got "@ + decimal(
            size as nat,
        ),
        GbError::InvalidRomLength(size) => "ROM length must be a non-zero multiple of 16 KiB, got "@
            + decimal(size as nat),
        GbError::UnsupportedCartridgeType(kind) => "unsupported cartridge type 0x"@ + hex2(
            kind,
            false,
        ),
        GbError::UnsupportedRomSize(size) => "unsupported ROM size header 0x"@ + hex2(size, false),
        GbError::UnsupportedRamSize(size) => "unsupported RAM size header 0x"@ + hex2(size, false),
        GbError::RomSizeMismatch { header_size, actual_size } => "ROM size header expects "@
            + decimal(header_size as nat) + " bytes, got "@ + decimal(actual_size as nat),
        GbError::MissingRamForCartridge(kind) => "cartridge type 0x"@ + hex2(kind, false)
            + " requires external RAM"@,
        GbError::UnexpectedRamSize { cartridge_type, ram_size } => "cartridge type 0x"@ + hex2(
            cartridge_type,
            false,
        ) + " should not declare RAM size 0x"@ + hex2(ram_size, false),
        GbError::PersistentStateRamSizeMismatch { expected, actual } =>
            "persistent cartridge RAM size mismatch: expected "@ + decimal(expected as nat)
                + " bytes, got "@ + decimal(actual as nat),
        GbError::PersistentStateCartridgeMismatch =>
            "persistent cartridge state does not match loaded cartridge"@,
        GbError::PersistentStateRtcMismatch =>
            "persistent cartridge RTC state does not match loaded cartridge"@,
        GbError::IllegalOpcode { opcode, pc } => "illegal opcode 0x"@ + hex2(opcode, false)
            + " at PC 0x"@ + hex4(pc, false),
        GbError::StopInstruction { pc } => "STOP instruction encountered at PC 0x"@ + hex4(
            pc,
            false,
        ),
        GbError::StackOverflow(address) => "stack access failed at address 0x"@ + hex4(
            address,
            false,
        ),
    }
}

impl GbError {
    /// The error's text.
    pub fn message(&self) -> (text: String)
        ensures
            text@ == error_text(*self),
    {
        match self {
            GbError::EmptyRom => "ROM is empty".to_owned(),
            GbError::InvalidBootromSize(size) => joined(
                "boot ROM must be exactly 256 bytes, got ",
                decimal_text(*size as u64).as_str(),
            ),
            GbError::InvalidRomLength(size) => joined(
                "ROM length must be a non-zero multiple of 16 KiB, got ",
                decimal_text(*size as u64).as_str(),
            ),
            GbError::UnsupportedCartridgeType(kind) => joined(
                "unsupported cartridge type 0x",
                hex2_text(*kind, false).as_str(),
            ),
            GbError::UnsupportedRomSize(size) => joined(
                "unsupported ROM size header 0x",
                hex2_text(*size, false).as_str(),
            ),
            GbError::UnsupportedRamSize(size) => joined(
                "unsupported RAM size header 0x",
                hex2_text(*size, false).as_str(),
            ),
            GbError::RomSizeMismatch { header_size, actual_size } => joined3(
                joined("ROM size header expects ", decimal_text(*header_size as u64).as_str()).as_str(),
                " bytes, got ",
                decimal_text(*actual_size as u64).as_str(),
            ),
            GbError::MissingRamForCartridge(kind) => joined3(
                "cartridge type 0x",
                hex2_text(*kind, false).as_str(),
                " requires external RAM",
            ),
            GbError::UnexpectedRamSize { cartridge_type, ram_size } => joined3(
                joined("cartridge type 0x", hex2_text(*cartridge_type, false).as_str()).as_str(),
                " should not declare RAM size 0x",
                hex2_text(*ram_size, false).as_str(),
            ),
            GbError::PersistentStateRamSizeMismatch { expected, actual } => joined3(
                joined(
                    "persistent cartridge RAM size mismatch: expected ",
                    decimal_text(*expected as u64).as_str(),
                ).as_str(),
                " bytes, got ",
                decimal_text(*actual as u64).as_str(),
            ),
            GbError::PersistentStateCartridgeMismatch =>
                "persistent cartridge state does not match loaded cartridge".to_owned(),
            GbError::PersistentStateRtcMismatch =>
                "persistent cartridge RTC state does not match loaded cartridge".to_owned(),
            GbError::IllegalOpcode { opcode, pc } => joined3(
                joined("illegal opcode 0x", hex2_text(*opcode, false).as_str()).as_str(),
                " at PC 0x",
                hex4_text(*pc, false).as_str(),
            ),
            GbError::StopInstruction { pc } => joined(
                "STOP instruction encountered at PC 0x",
                hex4_text(*pc, false).as_str(),
            ),
            GbError::StackOverflow(address) => joined(
                "stack access failed at address 0x",
                hex4_text(*address, false).as_str(),
            ),
        }
    }
}

} // verus!
