//! The AHCI host bus adapter's registers and in-memory command structures,
//! as values, and the rules that program them.
use vstd::prelude::*;

use crate::dma::{AtaCommand, DmaBuffer};

verus! {

/// Global host control: HBA reset.
pub const GHC_HR: u32 = 0x1;
/// Global host control: interrupt enable.
pub const GHC_IE: u32 = 0x2;
/// Global host control: MSI revert to single message.
pub const GHC_MRSM: u32 = 0x4;
/// Global host control: AHCI enable.
pub const GHC_AE: u32 = 0x8000_0000;

/// Port command: start the command list.
pub const CMD_ST: u32 = 0x1;
/// Port command: FIS receive enable.
pub const CMD_FRE: u32 = 0x10;
/// Port command: FIS receive running.
pub const CMD_FR: u32 = 0x4000;
/// Port command: command list running.
pub const CMD_CR: u32 = 0x8000;

/// Command header: ATAPI.
pub const HDR_A: u16 = 0x20;
/// Command header: the command writes to the device.
pub const HDR_W: u16 = 0x40;
/// Command header: prefetchable.
pub const HDR_P: u16 = 0x80;
/// Command header: reset.
pub const HDR_R: u16 = 0x100;
/// Command header: built-in self test.
pub const HDR_B: u16 = 0x200;
/// Command header: clear busy upon R_OK.
pub const HDR_C: u16 = 0x400;
/// Command header: the command FIS length field (bits 0 to 4), in dwords.
pub const HDR_CFL_MASK: u16 = 0x1F;

/// Length in dwords of a host-to-device register FIS (20 bytes).
pub const FIS_REG_H2D_DWORDS: u16 = 5;

/// Byte-count field of a PRDT entry (bits 0 to 21): the byte count minus one.
pub const PRDT_DBC_MASK: u32 = 0x3F_FFFF;

/// Physical region descriptors that each command table has room for.
pub const PRDT_ENTRIES: usize = 8;

/// Sectors that one command may move.
pub const MAX_COMMAND_SECTORS: usize = 128;

/// Command slots of a port.
pub const COMMAND_SLOTS: usize = 32;

/// Device register of the FIS: LBA addressing.
pub const FIS_DEVICE_LBA: u8 = 0x40;

/// FIS flags: the FIS carries a command.
pub const FIS_FLAG_COMMAND: u8 = 0x80;

/// PCI vendor id of Intel.
pub const INTEL_VENDOR_ID: u16 = 0x8086;
/// PCI class of mass storage controllers.
pub const CLASS_MASS_STORAGE: u8 = 0x01;
/// PCI subclass of SATA controllers.
pub const SUBCLASS_SATA: u8 = 0x06;

/// Whether this driver takes the PCI function with these ids: an Intel
/// SATA controller.
pub fn handles(vendor_id: u16, class: u8, subclass: u8) -> (r: bool)
    ensures
        r == (vendor_id == INTEL_VENDOR_ID && class == CLASS_MASS_STORAGE && subclass
            == SUBCLASS_SATA),
{
    vendor_id == INTEL_VENDOR_ID && class == CLASS_MASS_STORAGE && subclass == SUBCLASS_SATA
}

/// Kinds of frame information structure.
#[derive(Debug, Copy, Clone, PartialEq, Eq, Structural)]
pub enum FisType {
    /// Register FIS, host to device.
    RegH2D,
}

impl FisType {
    /// The type byte that opens the FIS.
    pub fn code(&self) -> (r: u8)
        ensures
            r == 0x27,
    {
        match self {
            FisType::RegH2D => 0x27,
        }
    }
}

/// Device detection field of the SATA status register.
#[derive(Debug, Copy, Clone, PartialEq, Eq, Structural)]
pub enum HbaPortDd {
    NotPresent,
    PresentNotE,
    PresentAndE,
    Offline,
}

/// Interface power management field of the SATA status register.
#[derive(Debug, Copy, Clone, PartialEq, Eq, Structural)]
pub enum HbaPortIpm {
    NotPresent,
    Active,
    Partial,
    Slumber,
    DevSleep,
}

/// A value of a port's SATA status register.
#[derive(Debug, Copy, Clone)]
pub struct HbaSataStatus(pub u64);

impl HbaSataStatus {
    /// The device detection field: bits 0 to 3.
    pub open spec fn det(self) -> int {
        self.0 as int % 16
    }

    /// The interface power management field: bits 8 to 11.
    pub open spec fn ipm(self) -> int {
        (self.0 as int / 256) % 16
    }

    /// Decodes the device detection field; `None` for a reserved value.
    pub fn device_detection(&self) -> (r: Option<HbaPortDd>)
        ensures
            r == (if self.det() == 0 {
                Some(HbaPortDd::NotPresent)
            } else if self.det() == 1 {
                Some(HbaPortDd::PresentNotE)
            } else if self.det() == 3 {
                Some(HbaPortDd::PresentAndE)
            } else if self.det() == 4 {
                Some(HbaPortDd::Offline)
            } else {
                None
            }),
    {
        let v = self.0;
        let bits = v & 0xF;
        assert(bits == v % 16) by (bit_vector)
            requires
                bits == v & 0xF,
        ;
        match bits {
            0 => Some(HbaPortDd::NotPresent),
            1 => Some(HbaPortDd::PresentNotE),
            3 => Some(HbaPortDd::PresentAndE),
            4 => Some(HbaPortDd::Offline),
            _ => None,
        }
    }

    /// Decodes the interface power management field; `None` for a reserved
    /// value.
    pub fn interface_power_management(&self) -> (r: Option<HbaPortIpm>)
        ensures
            r == (if self.ipm() == 0 {
                Some(HbaPortIpm::NotPresent)
            } else if self.ipm() == 1 {
                Some(HbaPortIpm::Active)
            } else if self.ipm() == 2 {
                Some(HbaPortIpm::Partial)
            } else if self.ipm() == 6 {
                Some(HbaPortIpm::Slumber)
            } else if self.ipm() == 8 {
                Some(HbaPortIpm::DevSleep)
            } else {
                None
            }),
    {
        let v = self.0;
        let bits = (v >> 8) & 0xF;
        assert(bits == (v / 256) % 16) by (bit_vector)
            requires
                bits == (v >> 8) & 0xF,
        ;
        match bits {
            0 => Some(HbaPortIpm::NotPresent),
            1 => Some(HbaPortIpm::Active),
            2 => Some(HbaPortIpm::Partial),
            6 => Some(HbaPortIpm::Slumber),
            8 => Some(HbaPortIpm::DevSleep),
            _ => None,
        }
    }
}

/// The global registers of the adapter, as read at one moment.
#[derive(Debug, Copy, Clone)]
pub struct HbaMemory {
    pub host_capability: u32,
    pub global_host_control: u32,
    pub interrupt_status: u32,
    pub ports_implemented: u32,
    pub version: u32,
    pub ccc_control: u32,
    pub ccc_ports: u32,
    pub enclosure_management_location: u32,
    pub enclosure_management_control: u32,
    pub host_capabilities_extended: u32,
    pub bios_handoff_ctrl_sts: u32,
}

/// Bit `i` of `bits` is set.
pub open spec fn bit_set(bits: u32, i: int) -> bool {
    (bits as int / vstd::arithmetic::power2::pow2(i as nat) as int) % 2 == 1
}

impl HbaMemory {
    /// Sets the AHCI-enable and interrupt-enable bits of global host
    /// control, keeping the others.
    pub fn enable(&mut self)
        ensures
            final(self).global_host_control == old(self).global_host_control | GHC_AE | GHC_IE,
            final(self).global_host_control & GHC_AE != 0,
            final(self).global_host_control & GHC_IE != 0,
            *final(self) == (HbaMemory {
                global_host_control: final(self).global_host_control,
                ..*old(self)
            }),
    {
        let old_value = self.global_host_control;
        let value = old_value | GHC_AE | GHC_IE;
        assert(value & GHC_AE != 0 && value & GHC_IE != 0) by (bit_vector)
            requires
                value == old_value | 0x8000_0000u32 | 2u32,
        ;
        self.global_host_control = value;
    }

    /// The indices of the ports that the ports-implemented register lists,
    /// in increasing order.
    pub fn implemented_ports(&self) -> (r: Vec<usize>)
        ensures
            forall|k: int| 0 <= k < r@.len() ==> #[trigger] r@[k] < COMMAND_SLOTS,
            forall|k: int| 0 <= k < r@.len() ==> bit_set(self.ports_implemented, #[trigger] r@[k] as int),
            forall|j: int, k: int| 0 <= j < k < r@.len() ==> r@[j] < r@[k],
            forall|i: int|
                0 <= i < COMMAND_SLOTS && bit_set(self.ports_implemented, i) ==> r@.contains(
                    i as usize,
                ),
    {
        let pi = self.ports_implemented;
        let mut r: Vec<usize> = Vec::new();
        let mut rest = pi;
        let mut i: usize = 0;
        proof {
            vstd::arithmetic::power2::lemma2_to64();
        }
        while i < COMMAND_SLOTS
            invariant
                i <= COMMAND_SLOTS,
                rest as int == pi as int / vstd::arithmetic::power2::pow2(i as nat) as int,
                forall|k: int| 0 <= k < r@.len() ==> #[trigger] r@[k] < i,
                forall|k: int| 0 <= k < r@.len() ==> bit_set(pi, #[trigger] r@[k] as int),
                forall|j: int, k: int| 0 <= j < k < r@.len() ==> r@[j] < r@[k],
                forall|b: int| 0 <= b < i && bit_set(pi, b) ==> r@.contains(b as usize),
            decreases COMMAND_SLOTS - i,
        {
            proof {
                vstd::arithmetic::power2::lemma_pow2_pos(i as nat);
                vstd::arithmetic::power2::lemma_pow2_adds(i as nat, 1);
                vstd::arithmetic::power2::lemma2_to64();
                vstd::arithmetic::div_mod::lemma_div_denominator(
                    pi as int,
                    vstd::arithmetic::power2::pow2(i as nat) as int,
                    2,
                );
            }
            let ghost before = r@;
            if rest % 2 == 1 {
                r.push(i);
            }
            assert forall|b: int| 0 <= b < i + 1 && bit_set(pi, b) implies r@.contains(b as usize) by {
                if b == i {
                    assert(r@[r@.len() - 1] == i);
                } else {
                    let k = choose|k: int| 0 <= k < before.len() && before[k] == b as usize;
                    assert(r@[k] == b as usize);
                }
            }
            rest = rest / 2;
            i = i + 1;
        }
        r
    }
}

/// The registers of one port, as read at one moment.
#[derive(Debug, Copy, Clone)]
pub struct HbaPort {
    pub clb: u64,
    pub fb: u64,
    pub is: u32,
    pub ie: u32,
    pub cmd: u32,
    pub tfd: u32,
    pub sig: u32,
    pub ssts: HbaSataStatus,
    pub sctl: u32,
    pub serr: u32,
    pub sact: u32,
    pub ci: u32,
    pub sntf: u32,
    pub fbs: u32,
    pub devslp: u32,
}

/// One entry of a port's command list.
#[derive(Debug, Copy, Clone, PartialEq, Eq, Structural)]
pub struct HbaCmdHeader {
    pub flags: u16,
    /// Number of physical region descriptors in the command table.
    pub prdtl: u16,
    /// Bytes transferred so far.
    pub prdbc: u32,
    /// Physical address of the command table.
    pub ctb: u64,
}

/// One physical region descriptor: where a DMA buffer is, and its size.
#[derive(Debug, Copy, Clone, PartialEq, Eq, Structural)]
pub struct HbaPrdtEntry {
    pub dba: u64,
    pub flags: u32,
}

/// A host-to-device register FIS.
#[derive(Debug, Copy, Clone, PartialEq, Eq, Structural)]
pub struct FisRegH2D {
    pub fis_type: FisType,
    pub flags: u8,
    pub command: AtaCommand,
    pub featurel: u8,
    pub lba0: u8,
    pub lba1: u8,
    pub lba2: u8,
    pub device: u8,
    pub lba3: u8,
    pub lba4: u8,
    pub lba5: u8,
    pub featureh: u8,
    pub count: u16,
    pub icc: u8,
    pub control: u8,
}

/// A command table: the command FIS and the region descriptors.
#[derive(Debug)]
pub struct HbaCmdTbl {
    pub cfis: FisRegH2D,
    pub prdt_entry: Vec<HbaPrdtEntry>,
}

/// Region descriptors that a command of `count` sectors uses: one per 16
/// sectors, rounded up.
pub open spec fn prdt_len(count: int) -> int {
    (count - 1) / 16 + 1
}

/// Header `h`, region descriptors `p` and FIS `fis` are what programming a
/// command of `count` sectors from `sector` through buffers `b` makes of
/// header `h0` and descriptors `p0`: the write bit follows the command, the
/// prefetch and clear-busy bits are set, the FIS length is that of a
/// register FIS, one descriptor per 16 sectors points at a buffer and holds
/// its size, and the FIS carries the command, the 48-bit LBA and the count.
pub open spec fn command_programmed(
    h0: HbaCmdHeader,
    h: HbaCmdHeader,
    p0: Seq<HbaPrdtEntry>,
    p: Seq<HbaPrdtEntry>,
    fis: FisRegH2D,
    command: AtaCommand,
    sector: usize,
    count: usize,
    b: Seq<DmaBuffer>,
) -> bool {
    &&& (h.flags & HDR_W != 0) == command.spec_is_write()
    &&& h.flags & HDR_P != 0
    &&& h.flags & HDR_C != 0
    &&& h.flags & HDR_CFL_MASK == FIS_REG_H2D_DWORDS
    &&& h.flags & !(HDR_W | HDR_P | HDR_C | HDR_CFL_MASK) == h0.flags & !(HDR_W | HDR_P | HDR_C
        | HDR_CFL_MASK)
    &&& h.prdtl == prdt_len(count as int)
    &&& h.prdbc == h0.prdbc
    &&& h.ctb == h0.ctb
    &&& p.len() == p0.len()
    &&& forall|i: int|
        0 <= i < prdt_len(count as int) ==> {
            &&& (#[trigger] p[i]).dba == b[i].start
            &&& p[i].flags & PRDT_DBC_MASK == b[i].data_size - 1
            &&& p[i].flags & !PRDT_DBC_MASK == p0[i].flags & !PRDT_DBC_MASK
        }
    &&& forall|i: int| prdt_len(count as int) <= i < p0.len() ==> #[trigger] p[i] == p0[i]
    &&& fis == (FisRegH2D {
        fis_type: FisType::RegH2D,
        flags: FIS_FLAG_COMMAND,
        command: command,
        featurel: 0,
        lba0: (sector as int % 0x100) as u8,
        lba1: (sector as int / 0x100 % 0x100) as u8,
        lba2: (sector as int / 0x1_0000 % 0x100) as u8,
        device: FIS_DEVICE_LBA,
        lba3: (sector as int / 0x100_0000 % 0x100) as u8,
        lba4: (sector as int / 0x1_0000_0000 % 0x100) as u8,
        lba5: (sector as int / 0x100_0000_0000 % 0x100) as u8,
        featureh: 0,
        count: count as u16,
        icc: 0,
        control: 0,
    })
}

impl HbaPort {
    /// The port has a device present with communication established, and
    /// its interface is active.
    pub open spec fn spec_probe(self) -> bool {
        self.ssts.det() == 3 && self.ssts.ipm() == 1
    }

    /// Whether the port may be enabled: a device is present and
    /// established, and the interface is active.
    pub fn probe(&self) -> (r: bool)
        ensures
            r == self.spec_probe(),
    {
        let ipm = self.ssts.interface_power_management();
        let dd = self.ssts.device_detection();
        match (dd, ipm) {
            (Some(HbaPortDd::PresentAndE), Some(HbaPortIpm::Active)) => true,
            _ => false,
        }
    }

    /// The command engine has halted: neither FIS receive nor the command
    /// list is running.
    pub open spec fn spec_engine_halted(self) -> bool {
        self.cmd & (CMD_FR | CMD_CR) == 0
    }

    pub fn engine_halted(&self) -> (r: bool)
        ensures
            r == self.spec_engine_halted(),
    {
        self.cmd & (CMD_FR | CMD_CR) == 0
    }

    /// The command list is not running.
    pub fn list_idle(&self) -> (r: bool)
        ensures
            r == (self.cmd & CMD_CR == 0),
    {
        self.cmd & CMD_CR == 0
    }

    /// Clears the start and FIS-receive-enable bits; the engine has halted
    /// once `engine_halted` holds of the register.
    pub fn stop_cmd(&mut self)
        ensures
            final(self).cmd == old(self).cmd & !(CMD_FRE | CMD_ST),
            *final(self) == (HbaPort { cmd: final(self).cmd, ..*old(self) }),
    {
        self.cmd = self.cmd & !(CMD_FRE | CMD_ST);
    }

    /// Sets the FIS-receive-enable and start bits; the command list must
    /// not be running.
    pub fn start_cmd(&mut self)
        requires
            old(self).cmd & CMD_CR == 0,
        ensures
            final(self).cmd == old(self).cmd | (CMD_FRE | CMD_ST),
            *final(self) == (HbaPort { cmd: final(self).cmd, ..*old(self) }),
    {
        self.cmd = self.cmd | (CMD_FRE | CMD_ST);
    }

    /// Installs the command list at `clb`, the received-FIS area at `fb`
    /// and one command table per slot from `tables`, then starts the
    /// engine. Returns the command list.
    ///
    /// The engine must have halted first.
    pub fn start(&mut self, clb: u64, fb: u64, tables: &Vec<u64>) -> (r: Vec<HbaCmdHeader>)
        requires
            old(self).spec_engine_halted(),
            old(self).cmd & (CMD_FRE | CMD_ST) == 0,
            tables@.len() == COMMAND_SLOTS,
        ensures
            final(self).clb == clb,
            final(self).fb == fb,
            final(self).cmd == old(self).cmd | (CMD_FRE | CMD_ST),
            *final(self) == (HbaPort {
                clb: clb,
                fb: fb,
                cmd: final(self).cmd,
                ..*old(self)
            }),
            r@.len() == COMMAND_SLOTS,
            forall|i: int|
                0 <= i < COMMAND_SLOTS ==> #[trigger] r@[i] == (HbaCmdHeader {
                    flags: 0,
                    prdtl: PRDT_ENTRIES as u16,
                    prdbc: 0,
                    ctb: tables@[i],
                }),
    {
        self.clb = clb;
        self.fb = fb;
        let mut list: Vec<HbaCmdHeader> = Vec::new();
        let mut i: usize = 0;
        while i < COMMAND_SLOTS
            invariant
                i <= COMMAND_SLOTS,
                tables@.len() == COMMAND_SLOTS,
                list@.len() == i,
                forall|k: int|
                    0 <= k < i ==> #[trigger] list@[k] == (HbaCmdHeader {
                        flags: 0,
                        prdtl: PRDT_ENTRIES as u16,
                        prdbc: 0,
                        ctb: tables@[k],
                    }),
            decreases COMMAND_SLOTS - i,
        {
            list.push(HbaCmdHeader { flags: 0, prdtl: PRDT_ENTRIES as u16, prdbc: 0, ctb: tables[i] });
            i = i + 1;
        }
        let cmd = self.cmd;
        assert(cmd & 0x8000u32 == 0) by (bit_vector)
            requires
                cmd & (0x4000u32 | 0x8000u32) == 0,
        ;
        self.start_cmd();
        list
    }

    /// Programs command slot `slot` to move `count` sectors from `sector`
    /// through `buffer`: fills its command `header` and command `table`,
    /// and returns the command-issue bit that starts it.
    pub fn run_command(
        header: &mut HbaCmdHeader,
        table: &mut HbaCmdTbl,
        command: AtaCommand,
        sector: usize,
        count: usize,
        slot: usize,
        buffer: &[DmaBuffer],
    ) -> (issue: u32)
        requires
            1 <= count <= MAX_COMMAND_SECTORS,
            slot < COMMAND_SLOTS,
            buffer@.len() >= prdt_len(count as int),
            old(table).prdt_entry@.len() >= prdt_len(count as int),
            forall|i: int|
                0 <= i < prdt_len(count as int) ==> 1 <= #[trigger] buffer@[i].data_size <= (
                PRDT_DBC_MASK + 1),
        ensures
            issue == 1u32 << slot as u32,
            command_programmed(
                *old(header),
                *final(header),
                old(table).prdt_entry@,
                final(table).prdt_entry@,
                final(table).cfis,
                command,
                sector,
                count,
                buffer@,
            ),
    {
        let old_flags = header.flags;
        let write = command == AtaCommand::AtaCommandWriteDmaExt || command
            == AtaCommand::AtaCommandWriteDma;
        let mut flags = if write {
            old_flags | HDR_W
        } else {
            old_flags & !HDR_W
        };
        flags = flags | (HDR_P | HDR_C);
        flags = (flags & !HDR_CFL_MASK) | FIS_REG_H2D_DWORDS;
        proof {
            let m: u16 = !(0x40u16 | 0x80u16 | 0x400u16 | 0x1Fu16);
            if write {
                assert(flags & 0x40 != 0 && flags & 0x80 != 0 && flags & 0x400 != 0 && flags & 0x1F
                    == 5 && flags & m == old_flags & m) by (bit_vector)
                    requires
                        flags == (((old_flags | 0x40u16) | (0x80u16 | 0x400u16)) & !0x1Fu16) | 5u16,
                        m == !(0x40u16 | 0x80u16 | 0x400u16 | 0x1Fu16),
                ;
            } else {
                assert(flags & 0x40 == 0 && flags & 0x80 != 0 && flags & 0x400 != 0 && flags & 0x1F
                    == 5 && flags & m == old_flags & m) by (bit_vector)
                    requires
                        flags == (((old_flags & !0x40u16) | (0x80u16 | 0x400u16)) & !0x1Fu16) | 5u16,
                        m == !(0x40u16 | 0x80u16 | 0x400u16 | 0x1Fu16),
                ;
            }
        }
        header.flags = flags;
        let c = count - 1;
        assert((c >> 4) == c / 16) by (bit_vector);
        let length = (c >> 4) + 1;
        header.prdtl = length as u16;

        let ghost before = table.prdt_entry@;
        let mut pri: usize = 0;
        while pri < length
            invariant
                length == prdt_len(count as int),
                length <= PRDT_ENTRIES,
                pri <= length,
                buffer@.len() >= length,
                table.prdt_entry@.len() == before.len(),
                before.len() >= length,
                forall|i: int|
                    0 <= i < length ==> 1 <= #[trigger] buffer@[i].data_size <= (PRDT_DBC_MASK + 1),
                forall|i: int|
                    0 <= i < pri ==> {
                        &&& (#[trigger] table.prdt_entry@[i]).dba == buffer@[i].start
                        &&& table.prdt_entry@[i].flags & PRDT_DBC_MASK == buffer@[i].data_size - 1
                        &&& table.prdt_entry@[i].flags & !PRDT_DBC_MASK == before[i].flags
                            & !PRDT_DBC_MASK
                    },
                forall|i: int| pri <= i < before.len() ==> #[trigger] table.prdt_entry@[i] == before[i],
            decreases length - pri,
        {
            let old_flags = table.prdt_entry[pri].flags;
            let size = (buffer[pri].data_size - 1) as u32;
            let entry_flags = (old_flags & !PRDT_DBC_MASK) | size;
            assert(entry_flags & 0x3F_FFFFu32 == size && entry_flags & !0x3F_FFFFu32 == old_flags
                & !0x3F_FFFFu32) by (bit_vector)
                requires
                    entry_flags == (old_flags & !0x3F_FFFFu32) | size,
                    size <= 0x3F_FFFFu32,
            ;
            table.prdt_entry.set(pri, HbaPrdtEntry { dba: buffer[pri].start, flags: entry_flags });
            pri = pri + 1;
        }

        let s = sector as u64;
        let lba0 = #[verifier::truncate] (s as u8);
        let lba1 = #[verifier::truncate] ((s >> 8) as u8);
        let lba2 = #[verifier::truncate] ((s >> 16) as u8);
        let lba3 = #[verifier::truncate] ((s >> 24) as u8);
        let lba4 = #[verifier::truncate] ((s >> 32) as u8);
        let lba5 = #[verifier::truncate] ((s >> 40) as u8);
        assert(lba0 == (s % 0x100) as u8 && lba1 == (s / 0x100 % 0x100) as u8 && lba2 == (s
            / 0x1_0000 % 0x100) as u8 && lba3 == (s / 0x100_0000 % 0x100) as u8 && lba4 == (s
            / 0x1_0000_0000 % 0x100) as u8 && lba5 == (s / 0x100_0000_0000 % 0x100) as u8)
            by (bit_vector)
            requires
                lba0 == s as u8,
                lba1 == (s >> 8) as u8,
                lba2 == (s >> 16) as u8,
                lba3 == (s >> 24) as u8,
                lba4 == (s >> 32) as u8,
                lba5 == (s >> 40) as u8,
        ;
        table.cfis = FisRegH2D {
            fis_type: FisType::RegH2D,
            flags: 0,
            command,
            featurel: 0,
            lba0,
            lba1,
            lba2,
            device: FIS_DEVICE_LBA,
            lba3,
            lba4,
            lba5,
            featureh: 0,
            count: count as u16,
            icc: 0,
            control: 0,
        };
        table.cfis.flags = table.cfis.flags | FIS_FLAG_COMMAND;
        assert(0u8 | 0x80u8 == 0x80u8) by (bit_vector);
        1u32 << slot as u32
    }
}

} // verus!
