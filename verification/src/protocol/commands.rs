//! Command codes and the description of a firmware component.
use vstd::prelude::*;

verus! {

/// The codes by which a device knows the upgrade commands, and the number of the mode that
/// rewrites the whole medium.
#[derive(Clone, Copy, Debug, Eq, PartialEq, Structural)]
pub struct CommandSet {
    pub get_hwinfo: u8,
    pub run_shell_str: u8,
    pub set_upg_cfg: u8,
    pub set_upg_end: u8,
    pub get_log_size: u8,
    pub get_log_data: u8,
    pub set_uart_args: u8,
    pub set_fwc_meta: u8,
    pub get_block_size: u8,
    pub send_fwc_data: u8,
    pub get_storage_media: u8,
    pub full_disk_upgrade: u8,
}

/// One firmware component of an image: its name and target partition, where its data lies in
/// the image, the checksum it should have, and the record as the device expects it.
#[derive(Clone, Debug)]
pub struct FwcMeta {
    pub name: String,
    pub partition: String,
    pub offset: u32,
    pub size: u32,
    pub crc: u32,
    pub record: Vec<u8>,
}

impl FwcMeta {
    /// The name.
    pub fn name_str(&self) -> (s: &str)
        ensures
            s@ == self.name@,
    {
        self.name.as_str()
    }

    /// The partition.
    pub fn partition_str(&self) -> (s: &str)
        ensures
            s@ == self.partition@,
    {
        self.partition.as_str()
    }

    /// Where the data begins in the image.
    pub fn offset_val(&self) -> (n: u32)
        ensures
            n == self.offset,
    {
        self.offset
    }

    /// How long the data is.
    pub fn size_val(&self) -> (n: u32)
        ensures
            n == self.size,
    {
        self.size
    }

    /// The checksum of the data.
    pub fn crc_val(&self) -> (n: u32)
        ensures
            n == self.crc,
    {
        self.crc
    }

    /// The record as it is sent to the device.
    pub fn to_bytes(&self) -> (b: &[u8])
        ensures
            b@ == self.record@,
    {
        self.record.as_slice()
    }
}

} // verus!
