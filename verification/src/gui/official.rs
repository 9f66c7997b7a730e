//! The vendor's tool: its commands, and what each of them asks for.
use vstd::prelude::*;

verus! {

/// The commands of the vendor's tool.
#[derive(Clone, Copy, Debug, Eq, PartialEq, Structural)]
pub enum OfficialCommand {
    ListDevices,
    DeviceLog,
    ContinueBoot,
    GoToBootloader,
    ImageInfo,
    ExtractImage,
    UpgradeImage,
    ListMedia,
    ListPartitions,
    DumpPartition,
    FlashErase,
    RamBoot,
    ShellCommand,
    WriteMemory,
    ReadMemory,
    WriteLong,
    ReadLong,
    MemTest,
    Exec,
    HexDump,
    Fill,
    Clear,
    JtagUnlock,
    JtagUnlockData,
    Raw,
}

/// The fields that the form for a command shows.
#[derive(Clone, Copy, Debug, Eq, PartialEq, Structural)]
pub struct FormFields {
    pub image: bool,
    pub input: bool,
    pub output: bool,
    pub media: bool,
    pub partition: bool,
    pub shell: bool,
    pub fwc_list: bool,
    pub address: bool,
    pub length: bool,
    pub value: bool,
    pub round: bool,
    pub skip: bool,
    pub ram_boot: bool,
    pub raw_args: bool,
}

/// Whether a command works on an image.
pub open spec fn wants_image(c: OfficialCommand) -> bool {
    c is ImageInfo || c is ExtractImage || c is UpgradeImage || c is ListMedia || c is FlashErase
        || c is RamBoot
}

/// Whether a command gives a file.
pub open spec fn wants_output(c: OfficialCommand) -> bool {
    c is DumpPartition || c is ReadMemory || c is JtagUnlockData
}

/// Whether a command works on a storage medium.
pub open spec fn wants_media(c: OfficialCommand) -> bool {
    c is DumpPartition || c is ListPartitions || c is FlashErase
}

/// Whether a command works on memory.
pub open spec fn wants_address(c: OfficialCommand) -> bool {
    c is WriteMemory || c is ReadMemory || c is WriteLong || c is ReadLong || c is MemTest || c is Exec
        || c is HexDump || c is Fill || c is Clear
}

/// Whether a command works on a range of memory.
pub open spec fn wants_length(c: OfficialCommand) -> bool {
    c is ReadMemory || c is MemTest || c is HexDump || c is Fill || c is Clear || c is WriteMemory
}

/// The fields that the form for a command shows.
pub open spec fn fields_of(c: OfficialCommand) -> FormFields {
    FormFields {
        image: wants_image(c),
        input: c is WriteMemory,
        output: wants_output(c),
        media: wants_media(c),
        partition: c is DumpPartition,
        shell: c is ShellCommand,
        fwc_list: c is UpgradeImage,
        address: wants_address(c),
        length: wants_length(c),
        value: c is WriteLong || c is Fill,
        round: c is MemTest,
        skip: c is WriteMemory,
        ram_boot: c is RamBoot,
        raw_args: c is Raw || c is JtagUnlock,
    }
}

/// The fields that the form for a command shows.
pub fn form_fields(command: OfficialCommand) -> (f: FormFields)
    ensures
        f == fields_of(command),
{
    let image = matches!(
        command,
        OfficialCommand::ImageInfo | OfficialCommand::ExtractImage | OfficialCommand::UpgradeImage
            | OfficialCommand::ListMedia | OfficialCommand::FlashErase | OfficialCommand::RamBoot
    );
    let output = matches!(
        command,
        OfficialCommand::DumpPartition | OfficialCommand::ReadMemory
            | OfficialCommand::JtagUnlockData
    );
    let media = matches!(
        command,
        OfficialCommand::DumpPartition | OfficialCommand::ListPartitions
            | OfficialCommand::FlashErase
    );
    let address = matches!(
        command,
        OfficialCommand::WriteMemory | OfficialCommand::ReadMemory | OfficialCommand::WriteLong
            | OfficialCommand::ReadLong | OfficialCommand::MemTest | OfficialCommand::Exec
            | OfficialCommand::HexDump | OfficialCommand::Fill | OfficialCommand::Clear
    );
    let length = matches!(
        command,
        OfficialCommand::ReadMemory | OfficialCommand::MemTest | OfficialCommand::HexDump
            | OfficialCommand::Fill | OfficialCommand::Clear | OfficialCommand::WriteMemory
    );
    FormFields {
        image,
        input: matches!(command, OfficialCommand::WriteMemory),
        output,
        media,
        partition: matches!(command, OfficialCommand::DumpPartition),
        shell: matches!(command, OfficialCommand::ShellCommand),
        fwc_list: matches!(command, OfficialCommand::UpgradeImage),
        address,
        length,
        value: matches!(command, OfficialCommand::WriteLong | OfficialCommand::Fill),
        round: matches!(command, OfficialCommand::MemTest),
        skip: matches!(command, OfficialCommand::WriteMemory),
        ram_boot: matches!(command, OfficialCommand::RamBoot),
        raw_args: matches!(command, OfficialCommand::Raw | OfficialCommand::JtagUnlock),
    }
}

/// What asks for more of a range of memory asks for its address too, and no command asks both
/// for an image and for memory.
pub proof fn forms_are_consistent(c: OfficialCommand)
    ensures
        fields_of(c).length ==> fields_of(c).address,
        fields_of(c).value ==> fields_of(c).address,
        fields_of(c).round ==> fields_of(c).address,
        fields_of(c).partition ==> fields_of(c).media,
        !(fields_of(c).image && fields_of(c).address),
        !(fields_of(c).input && fields_of(c).output),
{
}

} // verus!
