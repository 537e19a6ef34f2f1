use std::sync::Arc;

use aero_storage::dma::{AtaCommand, DmaRequest, FrameAllocator};
use aero_storage::hba::{
    FisRegH2D, FisType, HbaCmdHeader, HbaCmdTbl, HbaMemory, HbaPort, HbaPortDd, HbaPortIpm,
    HbaPrdtEntry, HbaSataStatus, CMD_CR, CMD_FR, CMD_FRE, CMD_ST, GHC_AE, GHC_IE, HDR_C, HDR_P,
    HDR_W,
};
use aero_storage::port::AhciPortProtected;
use aero_storage::hba::handles;

struct Frames {
    next: u64,
}

impl FrameAllocator for Frames {
    fn allocate_frame(&mut self, _huge: bool) -> Option<u64> {
        let a = self.next;
        self.next += 0x2000;
        Some(a)
    }
}

fn request(sector: usize, count: usize) -> Arc<DmaRequest> {
    Arc::new(DmaRequest::new(sector, count, &mut Frames { next: 0x20_0000 }).unwrap())
}

fn blank_fis() -> FisRegH2D {
    FisRegH2D {
        fis_type: FisType::RegH2D,
        flags: 0,
        command: AtaCommand::AtaCommandNop,
        featurel: 0,
        lba0: 0,
        lba1: 0,
        lba2: 0,
        device: 0,
        lba3: 0,
        lba4: 0,
        lba5: 0,
        featureh: 0,
        count: 0,
        icc: 0,
        control: 0,
    }
}

fn table() -> HbaCmdTbl {
    HbaCmdTbl { cfis: blank_fis(), prdt_entry: vec![HbaPrdtEntry { dba: 0, flags: 0 }; 8] }
}

fn command_memory() -> (Vec<HbaCmdHeader>, Vec<HbaCmdTbl>) {
    let list = (0..32u64)
        .map(|i| HbaCmdHeader { flags: 0, prdtl: 8, prdbc: 0, ctb: 0x1000 * i })
        .collect();
    let tables = (0..32).map(|_| table()).collect();
    (list, tables)
}

fn port(ssts: u64, cmd: u32) -> HbaPort {
    HbaPort {
        clb: 0,
        fb: 0,
        is: 0,
        ie: 0,
        cmd,
        tfd: 0,
        sig: 0,
        ssts: HbaSataStatus(ssts),
        sctl: 0,
        serr: 0,
        sact: 0,
        ci: 0,
        sntf: 0,
        fbs: 0,
        devslp: 0,
    }
}

#[test]
fn status_fields_decode() {
    let s = HbaSataStatus(0x0000_0113);
    assert_eq!(s.device_detection(), Some(HbaPortDd::PresentAndE));
    assert_eq!(s.interface_power_management(), Some(HbaPortIpm::Active));
    assert_eq!(HbaSataStatus(0x0).device_detection(), Some(HbaPortDd::NotPresent));
    assert_eq!(HbaSataStatus(0x4).device_detection(), Some(HbaPortDd::Offline));
    assert_eq!(HbaSataStatus(0x2).device_detection(), None);
    assert_eq!(HbaSataStatus(0x600).interface_power_management(), Some(HbaPortIpm::Slumber));
    assert_eq!(HbaSataStatus(0x800).interface_power_management(), Some(HbaPortIpm::DevSleep));
    assert_eq!(HbaSataStatus(0x300).interface_power_management(), None);
}

#[test]
fn probe_needs_present_device_and_active_link() {
    assert!(port(0x103, 0).probe());
    assert!(port(0xF0_0103, 0).probe());
    assert!(!port(0x101, 0).probe());
    assert!(!port(0x203, 0).probe());
    assert!(!port(0x003, 0).probe());
    assert!(!port(0x104, 0).probe());
    assert!(!port(0x105, 0).probe());
    assert!(!port(0x0, 0).probe());
}

#[test]
fn stop_then_start_engine() {
    let mut p = port(0x103, CMD_ST | CMD_FRE | 0x100);
    p.stop_cmd();
    assert_eq!(p.cmd, 0x100);
    assert!(p.engine_halted());
    let busy = port(0x103, CMD_CR);
    assert!(!busy.engine_halted());
    assert!(!busy.list_idle());
    assert!(!port(0x103, CMD_FR).engine_halted());
    p.start_cmd();
    assert_eq!(p.cmd, 0x100 | CMD_ST | CMD_FRE);
}

#[test]
fn start_installs_command_structures() {
    let mut p = port(0x103, 0);
    let tables: Vec<u64> = (0..32u64).map(|i| 0x8000 + 0x1000 * i).collect();
    let list = p.start(0x1000, 0x2000, &tables);
    assert_eq!(p.clb, 0x1000);
    assert_eq!(p.fb, 0x2000);
    assert_eq!(p.cmd, CMD_ST | CMD_FRE);
    assert_eq!(list.len(), 32);
    assert_eq!(list[5], HbaCmdHeader { flags: 0, prdtl: 8, prdbc: 0, ctb: 0xD000 });
}

#[test]
fn enable_sets_ahci_and_interrupts() {
    let mut m = HbaMemory {
        host_capability: 0,
        global_host_control: 0x4,
        interrupt_status: 0,
        ports_implemented: 0b1010_0001,
        version: 0,
        ccc_control: 0,
        ccc_ports: 0,
        enclosure_management_location: 0,
        enclosure_management_control: 0,
        host_capabilities_extended: 0,
        bios_handoff_ctrl_sts: 0,
    };
    m.enable();
    assert_eq!(m.global_host_control, 0x4 | GHC_AE | GHC_IE);
    assert_eq!(m.implemented_ports(), vec![0, 5, 7]);
    m.ports_implemented = 0x8000_0001;
    assert_eq!(m.implemented_ports(), vec![0, 31]);
}

#[test]
fn run_command_programs_slot() {
    let r = request(0x0102_0304_0506, 20);
    let mut header = HbaCmdHeader { flags: 0xF840 | 0x1F, prdtl: 8, prdbc: 7, ctb: 0x5000 };
    let mut t = table();
    t.prdt_entry[0].flags = 0x8000_0000;
    let issue = HbaPort::run_command(
        &mut header,
        &mut t,
        AtaCommand::AtaCommandReadDmaExt,
        0x0102_0304_0506,
        20,
        3,
        r.at_offset(0),
    );
    assert_eq!(issue, 1 << 3);
    assert_eq!(header.flags & HDR_W, 0);
    assert_ne!(header.flags & HDR_P, 0);
    assert_ne!(header.flags & HDR_C, 0);
    assert_eq!(header.flags & 0x1F, 5);
    assert_eq!(header.flags & 0xF800 & !HDR_C, 0xF800 & !HDR_C);
    assert_eq!(header.prdtl, 2);
    assert_eq!(header.prdbc, 7);
    assert_eq!(header.ctb, 0x5000);
    assert_eq!(t.prdt_entry[0].dba, 0x20_0000);
    assert_eq!(t.prdt_entry[0].flags, 0x8000_0000 | 8191);
    assert_eq!(t.prdt_entry[1].dba, 0x20_2000);
    assert_eq!(t.prdt_entry[1].flags, 2047);
    assert_eq!(t.prdt_entry[2], HbaPrdtEntry { dba: 0, flags: 0 });
    let f = t.cfis;
    assert_eq!(f.fis_type, FisType::RegH2D);
    assert_eq!(f.fis_type.code(), 0x27);
    assert_eq!(f.flags, 0x80);
    assert_eq!(f.command, AtaCommand::AtaCommandReadDmaExt);
    assert_eq!([f.lba0, f.lba1, f.lba2, f.lba3, f.lba4, f.lba5], [6, 5, 4, 3, 2, 1]);
    assert_eq!(f.device, 0x40);
    assert_eq!(f.count, 20);
}

#[test]
fn write_command_sets_write_bit() {
    let r = request(0, 1);
    let mut header = HbaCmdHeader { flags: 0, prdtl: 0, prdbc: 0, ctb: 0 };
    let mut t = table();
    HbaPort::run_command(&mut header, &mut t, AtaCommand::AtaCommandWriteDma, 0, 1, 0, r.at_offset(0));
    assert_ne!(header.flags & HDR_W, 0);
    assert_eq!(header.prdtl, 1);
    assert_eq!(t.prdt_entry[0].flags, 511);
}

#[test]
fn twenty_sectors_use_one_slot() {
    let mut state = AhciPortProtected::new();
    assert_eq!(state.free_cmds, 32);
    let (mut list, mut tables) = command_memory();
    let r = request(100, 20);
    let d = state.run_request(r.clone(), 0, 0, &mut list, &mut tables).unwrap();
    assert_eq!(d.slot, 0);
    assert_eq!(d.count, 20);
    assert_eq!(d.sector, 100);
    assert_eq!(d.issue, 1);
    assert_eq!(state.free_cmds, 31);
    assert_eq!(list[0].prdtl, 2);
    assert_eq!(tables[0].cfis.command, AtaCommand::AtaCommandReadDma);
    assert_eq!(tables[0].cfis.count, 20);
}

#[test]
fn large_request_splits_into_commands() {
    let mut state = AhciPortProtected::new();
    let (mut list, mut tables) = command_memory();
    let r = request(1000, 300);
    let mut offset = 0;
    let mut counts = Vec::new();
    while offset < 300 {
        let d = state.run_request(r.clone(), offset, 0, &mut list, &mut tables).unwrap();
        assert_eq!(d.sector, 1000 + offset);
        counts.push((d.slot, d.count));
        offset += d.count;
    }
    assert_eq!(counts, vec![(0, 128), (1, 128), (2, 44)]);
    assert_eq!(tables[1].prdt_entry[0].dba, r.at_offset(128)[0].start);
    assert_eq!(list[2].prdtl, 3);
    assert_eq!(state.free_cmds, 29);
}

#[test]
fn dispatch_skips_slot_with_issue_bit_set() {
    let mut state = AhciPortProtected::new();
    let (mut list, mut tables) = command_memory();
    let r = request(0, 8);
    let d = state.run_request(r.clone(), 0, 0b111, &mut list, &mut tables).unwrap();
    assert_eq!(d.slot, 3);
    assert!(state.run_request(r.clone(), 0, u32::MAX, &mut list, &mut tables).is_none());
}

#[test]
fn second_submission_waits_for_the_only_free_slot() {
    let mut state = AhciPortProtected::new();
    let (mut list, mut tables) = command_memory();
    let filler = request(0, 1);
    for i in 0..31 {
        let d = state.run_request(filler.clone(), 0, 0, &mut list, &mut tables).unwrap();
        assert_eq!(d.slot, i);
    }
    assert_eq!(state.free_cmds, 1);
    let first = request(500, 4);
    let second = request(900, 4);
    let a = state.run_request(first.clone(), 0, 0, &mut list, &mut tables).unwrap();
    assert_eq!(a.slot, 31);
    assert_eq!(state.free_cmds, 0);
    let busy_ci = u32::MAX;
    state.complete(busy_ci);
    assert!(state.run_request(second.clone(), 0, busy_ci, &mut list, &mut tables).is_none());
    assert_eq!(state.free_cmds, 0);
    let ci = !(1u32 << 31);
    state.complete(ci);
    assert_eq!(state.free_cmds, 1);
    let b = state.run_request(second.clone(), 0, ci, &mut list, &mut tables).unwrap();
    assert_eq!(b.slot, 31);
    assert_eq!(b.sector, 900);
}

#[test]
fn complete_frees_finished_slots() {
    let mut state = AhciPortProtected::new();
    let (mut list, mut tables) = command_memory();
    let r = request(0, 1);
    for _ in 0..4 {
        state.run_request(r.clone(), 0, 0, &mut list, &mut tables).unwrap();
    }
    assert_eq!(state.free_cmds, 28);
    state.complete(0b0101);
    assert_eq!(state.free_cmds, 30);
    assert!(state.cmds[1].is_none());
    assert!(state.cmds[0].is_some());
    state.complete(0);
    assert_eq!(state.free_cmds, 32);
}

#[test]
fn driver_takes_intel_sata_controllers_only() {
    assert!(handles(0x8086, 0x01, 0x06));
    assert!(!handles(0x8086, 0x01, 0x01));
    assert!(!handles(0x1022, 0x01, 0x06));
    assert!(!handles(0x8086, 0x02, 0x06));
}

#[test]
fn claimed_slot_holds_the_request() {
    let mut state = AhciPortProtected::new();
    let (mut list, mut tables) = command_memory();
    let r = request(64, 3);
    let d = state.run_request(r.clone(), 0, 0, &mut list, &mut tables).unwrap();
    let held = state.cmds[d.slot].as_ref().unwrap();
    assert!(Arc::ptr_eq(&held.request, &r));
    assert_eq!(Arc::strong_count(&r), 2);
}
