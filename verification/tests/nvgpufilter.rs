use pixelflux::nvgpufilter::{
    device_gate, dyn_addr, dynamic_tables, elf64_r_sym, elf64_r_type, filter_ids, gpuid_to_minor,
    has_hidden_gpus, install, ioc_no_size, ioc_nr, is_ioctl, live_ids, page_prot, patch_ioctl_got,
    patch_slot, payload_gate, request_gate, rewrite_attached_ids, scrub_answer, scrub_call, scrub_device,
    slot_symbol, targets_library, Arch,
    DeviceIdentity, Elf64Dyn, GpuEntry, IdList, Install, NvRmControlParams, Scrub, ATTACHED_PARAMS_SIZE,
    DT_JMPREL, DT_NULL, DT_PLTRELSZ, DT_RELA, DT_RELASZ, DT_STRTAB, DT_SYMTAB, GPU_GET_ATTACHED_IDS,
    GPU_GET_PROBED_IDS, INVALID_GPU_ID, IOC_SIZESHIFT, MAX_ATTACHED_GPUS, NV_ESC_RM_CONTROL,
    NV_RM_CONTROL_REQUEST, PROBED_PARAMS_SIZE, PROT_EXEC, PROT_READ, PROT_WRITE,
};

/// Dropping a strict subset compacts the survivors and back-fills the rest.
#[test]
fn filter_keeps_strict_subset_and_invalidates_rest() {
    let mut ids = [INVALID_GPU_ID; MAX_ATTACHED_GPUS];
    ids[0] = 0x100;
    ids[1] = 0x200;
    ids[2] = 0x300;
    filter_ids(&mut ids, |id| id == 0x100 || id == 0x300);
    assert_eq!(ids[0], 0x100);
    assert_eq!(ids[1], 0x300);
    assert_eq!(ids[2], INVALID_GPU_ID);
    assert_eq!(ids[3], INVALID_GPU_ID);
}

/// Where every id is kept, the array stays as it is.
#[test]
fn filter_noop_when_all_kept() {
    let mut ids = [INVALID_GPU_ID; MAX_ATTACHED_GPUS];
    ids[0] = 0xAA;
    ids[1] = 0xBB;
    filter_ids(&mut ids, |_| true);
    assert_eq!(ids[0], 0xAA);
    assert_eq!(ids[1], 0xBB);
    assert_eq!(ids[2], INVALID_GPU_ID);
}

/// Where no id is kept, the array is never blanked.
#[test]
fn filter_noop_when_none_kept() {
    let mut ids = [INVALID_GPU_ID; MAX_ATTACHED_GPUS];
    ids[0] = 0xAA;
    ids[1] = 0xBB;
    filter_ids(&mut ids, |_| false);
    assert_eq!(ids[0], 0xAA);
    assert_eq!(ids[1], 0xBB);
}

#[test]
fn ioc_nr_extracts_low_byte() {
    assert_eq!(ioc_nr(0xC020462A), NV_ESC_RM_CONTROL);
}

/// Each supported architecture carries its own pair of relocation codes.
#[test]
fn reloc_types_track_the_target_arch() {
    for arch in [Arch::X86_64, Arch::Aarch64] {
        assert!(arch.reloc_arch_supported(), "x86-64 / aarch64 builds are supported");
        assert_ne!(arch.reloc_jump_slot(), arch.reloc_glob_dat());
    }
    assert_eq!(Arch::X86_64.reloc_jump_slot(), 7);
    assert_eq!(Arch::X86_64.reloc_glob_dat(), 6);
    assert_eq!(Arch::Aarch64.reloc_jump_slot(), 1026);
    assert_eq!(Arch::Aarch64.reloc_glob_dat(), 1025);
    assert!(!Arch::Other.reloc_arch_supported());
}

/// A request that differs in its size alone matches; one with another number does not.
#[test]
fn request_match_ignores_param_size() {
    let base = ioc_no_size(NV_RM_CONTROL_REQUEST);
    let other_size = base | (0x30 << IOC_SIZESHIFT);
    assert_ne!(other_size, NV_RM_CONTROL_REQUEST);
    assert_eq!(ioc_no_size(other_size), base);
    let other_nr = (NV_RM_CONTROL_REQUEST & !0xFF) | 0x2B;
    assert_ne!(ioc_no_size(other_nr), base);
}

/// The sizes that tell the two commands apart, and that of the control block.
#[test]
fn param_struct_sizes_match_nvidia_layout() {
    assert_eq!(ATTACHED_PARAMS_SIZE, 128);
    assert_eq!(PROBED_PARAMS_SIZE, 256);
    assert_eq!(std::mem::size_of::<NvRmControlParams>(), 32);
}

#[test]
fn control_blocks_are_read_field_by_field() {
    let mut raw = Vec::new();
    for v in [1u32, 2, 0x0201, 3] {
        raw.extend_from_slice(&v.to_le_bytes());
    }
    raw.extend_from_slice(&0x1122_3344_5566_7788u64.to_le_bytes());
    raw.extend_from_slice(&128u32.to_le_bytes());
    raw.extend_from_slice(&0u32.to_le_bytes());
    let p = NvRmControlParams::read(&raw);
    assert_eq!((p.h_client, p.h_object, p.cmd, p.flags), (1, 2, 0x0201, 3));
    assert_eq!((p.params, p.params_size, p.status), (0x1122_3344_5566_7788, 128, 0));
    assert!(matches!(payload_gate(&p), Some(IdList::Attached)));
}

#[test]
fn gates_let_only_the_two_commands_through() {
    assert!(request_gate(0, NV_RM_CONTROL_REQUEST, true));
    assert!(!request_gate(-1, NV_RM_CONTROL_REQUEST, true));
    assert!(!request_gate(0, NV_RM_CONTROL_REQUEST, false));
    assert!(!request_gate(0, (NV_RM_CONTROL_REQUEST & !0xFF) | 0x2B, true));

    let dev = |rdev| Some(DeviceIdentity { character: true, rdev });
    assert!(device_gate(7, dev(7)));
    assert!(!device_gate(7, dev(8)));
    assert!(!device_gate(7, Some(DeviceIdentity { character: false, rdev: 7 })));
    assert!(!device_gate(7, None));

    let block = |cmd, params_size, status| NvRmControlParams {
        h_client: 0, h_object: 0, cmd, flags: 0, params: 0x1000, params_size, status,
    };
    assert!(matches!(payload_gate(&block(GPU_GET_PROBED_IDS, 256, 0)), Some(IdList::Probed)));
    assert!(payload_gate(&block(GPU_GET_ATTACHED_IDS, 256, 0)).is_none());
    assert!(payload_gate(&block(GPU_GET_PROBED_IDS, 128, 0)).is_none());
    assert!(payload_gate(&block(GPU_GET_ATTACHED_IDS, 128, 1)).is_none());
    assert!(payload_gate(&block(0x0999, 128, 0)).is_none());
}

#[test]
fn rewriting_tells_how_many_ids_were_live() {
    let mut ids = [INVALID_GPU_ID; MAX_ATTACHED_GPUS];
    ids[0] = 0x100;
    ids[1] = 0x200;
    assert_eq!(live_ids(&ids), 2);
    assert_eq!(rewrite_attached_ids(&mut ids, |id| id == 0x200), (2, 1));
    assert_eq!(ids[0], 0x200);
    assert_eq!(live_ids(&ids), 1);
}

#[test]
fn minors_come_from_the_entry_of_the_bus_address() {
    let gpus = vec![
        GpuEntry { name: "0000:01:00.0".to_string(), information: Some("Model: \t X\nDevice Minor: \t 3\n".to_string()) },
        GpuEntry { name: "0000:65:00.0".to_string(), information: Some("Device Minor: 5\n".to_string()) },
        GpuEntry { name: "0000:66:00.0".to_string(), information: None },
    ];
    assert_eq!(gpuid_to_minor(0x100, &gpus), 3);
    assert_eq!(gpuid_to_minor(0x6500, &gpus), 5);
    assert_eq!(gpuid_to_minor(0x6600, &gpus), -1);
    assert_eq!(gpuid_to_minor(0x700, &gpus), -1);
}

#[test]
fn page_protections_are_those_of_the_mapping() {
    let maps = "00001000-00003000 r--p 00000000 00:00 0 /lib/a.so\n00003000-00004000 rw-p 0 00:00 0\n00004000-00005000 r-xp 0 00:00 0\n";
    assert_eq!(page_prot(Some(maps), 0x2000), PROT_READ);
    assert_eq!(page_prot(Some(maps), 0x3000), PROT_READ | PROT_WRITE);
    assert_eq!(page_prot(Some(maps), 0x4fff), PROT_READ | PROT_EXEC);
    assert_eq!(page_prot(Some(maps), 0x9000), -1);
    assert_eq!(page_prot(None, 0x2000), -1);
}

#[test]
fn dynamic_entries_give_the_tables() {
    let entries = vec![
        Elf64Dyn { d_tag: DT_SYMTAB, d_un: 0x10 },
        Elf64Dyn { d_tag: DT_STRTAB, d_un: 0x70_0020 },
        Elf64Dyn { d_tag: DT_JMPREL, d_un: 0x30 },
        Elf64Dyn { d_tag: DT_PLTRELSZ, d_un: 48 },
        Elf64Dyn { d_tag: DT_RELA, d_un: 0x40 },
        Elf64Dyn { d_tag: DT_RELASZ, d_un: 24 },
        Elf64Dyn { d_tag: DT_NULL, d_un: 0 },
        Elf64Dyn { d_tag: DT_SYMTAB, d_un: 0x99 },
    ];
    let t = dynamic_tables(0x70_0000, &entries);
    assert_eq!(t.symtab, 0x70_0010);
    assert_eq!(t.strtab, 0x70_0020);
    assert_eq!(t.jmprel, 0x70_0030);
    assert_eq!((t.pltrelsz, t.rela, t.relasz), (48, 0x70_0040, 24));
    assert_eq!(dyn_addr(0x70_0000, 0), 0x70_0000);
    let tables = patch_ioctl_got(None, &t, 4096);
    assert_eq!(tables.len(), 2);
    assert_eq!((tables[0].addr, tables[0].count), (0x70_0030, 2));
    assert_eq!((tables[1].addr, tables[1].count), (0x70_0040, 1));
}

#[test]
fn relocations_of_the_two_kinds_name_a_symbol() {
    let info = (5u64 << 32) | 7;
    assert_eq!(elf64_r_sym(info), 5);
    assert_eq!(elf64_r_type(info), 7);
    assert_eq!(slot_symbol(Arch::X86_64, info), Some(5));
    assert_eq!(slot_symbol(Arch::Aarch64, info), None);
    assert!(is_ioctl("ioctl"));
    assert!(!is_ioctl("ioctl64"));
    let p = patch_slot(Some("00005000-00006000 r--p 0 00:00 0\n"), 0x5000, 0x123, 0x1000);
    assert_eq!((p.slot, p.page, p.restore), (0x5123, 0x5000, PROT_READ));
}

#[test]
fn only_the_nvidia_libraries_are_patched_and_only_with_hidden_gpus() {
    assert!(targets_library("/usr/lib/libnvcuvid.so.1"));
    assert!(targets_library("/usr/lib/libnvidia-encode.so.550"));
    assert!(targets_library("/usr/lib/libcuda.so.1"));
    assert!(!targets_library("/usr/lib/libc.so.6"));

    let two = vec!["0000:01:00.0".to_string(), "0000:02:00.0".to_string()];
    let mut present = [false; MAX_ATTACHED_GPUS];
    present[0] = true;
    assert!(has_hidden_gpus(&two, &present));
    present[1] = true;
    assert!(!has_hidden_gpus(&two, &present));
    present[1] = false;
    assert!(matches!(install(true, Arch::X86_64, &two, &present), Install::Disabled));
    assert!(matches!(install(false, Arch::Other, &two, &present), Install::Unsupported));
    assert!(matches!(install(false, Arch::X86_64, &two, &present), Install::Patch));
    assert!(matches!(install(false, Arch::X86_64, &two[..1], &present), Install::Unneeded));
}

/// The tests run from the cheapest on, and the device is told only where the control device is known.
#[test]
fn answers_pass_one_test_after_another() {
    assert_eq!(scrub_call(0, NV_RM_CONTROL_REQUEST, true, 7), Scrub::TellDevice);
    assert_eq!(scrub_call(0, NV_RM_CONTROL_REQUEST, true, 0), Scrub::ReadArgument);
    assert_eq!(scrub_call(-1, NV_RM_CONTROL_REQUEST, true, 7), Scrub::Leave);
    let ctl = Some(DeviceIdentity { character: true, rdev: 7 });
    assert_eq!(scrub_device(7, ctl), Scrub::ReadArgument);
    assert_eq!(scrub_device(8, ctl), Scrub::Leave);
    let mut block = NvRmControlParams {
        h_client: 0, h_object: 0, cmd: GPU_GET_ATTACHED_IDS, flags: 0, params: 0x1000, params_size: 128, status: 0,
    };
    assert_eq!(scrub_answer(&block), Scrub::Rewrite(IdList::Attached));
    block.params = 0;
    assert_eq!(scrub_answer(&block), Scrub::Leave);
}

/// Only the entries that point to a table are taken for addresses.
#[test]
fn lengths_are_no_addresses() {
    let entries = vec![
        Elf64Dyn { d_tag: DT_SYMTAB, d_un: 0x10 },
        Elf64Dyn { d_tag: DT_RELASZ, d_un: u64::MAX - 0x20 },
        Elf64Dyn { d_tag: 99, d_un: u64::MAX - 0x20 },
        Elf64Dyn { d_tag: DT_NULL, d_un: 0 },
        Elf64Dyn { d_tag: DT_STRTAB, d_un: u64::MAX - 0x20 },
    ];
    let t = dynamic_tables(u64::MAX - 0x10, &entries);
    assert_eq!((t.symtab, t.strtab, t.relasz), (u64::MAX, 0, u64::MAX - 0x20));
}
