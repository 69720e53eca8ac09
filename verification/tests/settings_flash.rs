use firmware_core::devices::launchpad_pro::flash::Flash;
use firmware_core::devices::launchpad_x::extflash::ExtFlash;
use firmware_core::sys::settings_flash::{
    erase_plan, halfwords_to_program, pages_to_program, plan_write, read_region, readable_len,
    EraseError, UnitWrite,
};

fn apply(region: &mut Vec<u8>, writes: &[UnitWrite]) {
    for w in writes {
        let base = w.base as usize;
        region[base..base + w.bytes.len()].copy_from_slice(&w.bytes);
    }
}

#[test]
fn readable_len_clips_to_region() {
    assert_eq!(readable_len(10, 4, 100), 6);
    assert_eq!(readable_len(10, 4, 3), 3);
    assert_eq!(readable_len(10, 12, 5), 0);
    assert_eq!(readable_len(10, 10, 5), 0);
}

#[test]
fn read_region_pads_with_erased_bytes() {
    let region: Vec<u8> = (1..=8).collect();
    assert_eq!(read_region(&region, 6, 4), vec![7, 8, 0xff, 0xff]);
    assert_eq!(read_region(&region, 20, 2), vec![0xff, 0xff]);
    assert_eq!(read_region(&region, 0, 0), Vec::<u8>::new());
}

#[test]
fn plan_write_rewrites_each_touched_unit_whole() {
    let region = vec![0xffu8; 16];
    let writes = plan_write(&region, 4, 2, &[1, 2, 3]);
    assert_eq!(writes.len(), 2);
    assert_eq!(writes[0].base, 0);
    assert_eq!(writes[0].bytes, vec![0xff, 0xff, 1, 2]);
    assert_eq!(writes[1].base, 4);
    assert_eq!(writes[1].bytes, vec![3, 0xff, 0xff, 0xff]);
}

#[test]
fn plan_write_skips_unchanged_units() {
    let mut region = vec![0xffu8; 16];
    region[5] = 7;
    let writes = plan_write(&region, 4, 4, &[0xff, 7, 0xff, 0xff, 9]);
    assert_eq!(writes.len(), 1);
    assert_eq!(writes[0].base, 8);
    assert_eq!(writes[0].bytes, vec![9, 0xff, 0xff, 0xff]);
}

#[test]
fn writing_stored_bytes_programs_nothing() {
    let region: Vec<u8> = (0..32).collect();
    assert!(plan_write(&region, 8, 3, &region[3..20]).is_empty());
}

#[test]
fn plan_write_drops_bytes_past_the_region() {
    let region = vec![0u8; 8];
    let writes = plan_write(&region, 4, 6, &[9, 9, 9, 9]);
    assert_eq!(writes.len(), 1);
    assert_eq!(writes[0].base, 4);
    assert_eq!(writes[0].bytes, vec![0, 0, 9, 9]);
    assert!(plan_write(&region, 4, 8, &[1]).is_empty());
    assert!(plan_write(&region, 4, 0, &[]).is_empty());
}

#[test]
fn read_after_write_gives_the_written_bytes() {
    let mut region = vec![0xffu8; 64];
    let data: Vec<u8> = (10..40).collect();
    let writes = plan_write(&region, 16, 30, &data);
    apply(&mut region, &writes);
    let back = read_region(&region, 30, data.len());
    assert_eq!(&back[..data.len()], &data[..]);
    assert!(region[..30].iter().all(|b| *b == 0xff));
    assert!(region[60..].iter().all(|b| *b == 0xff));
}

#[test]
fn read_after_write_past_the_end_reads_erased() {
    let mut region = vec![0u8; 8];
    let writes = plan_write(&region, 4, 6, &[1, 2, 3, 4]);
    apply(&mut region, &writes);
    assert_eq!(read_region(&region, 6, 4), vec![1, 2, 0xff, 0xff]);
}

#[test]
fn pages_to_program_skips_erased_pages() {
    let mut unit = vec![0xffu8; 16];
    unit[5] = 0;
    unit[15] = 1;
    assert_eq!(pages_to_program(&unit, 4), vec![4, 12]);
    assert!(pages_to_program(&vec![0xffu8; 16], 4).is_empty());
}

#[test]
fn halfwords_to_program_skips_erased_halfwords() {
    let page = vec![0xff, 0xff, 0x34, 0x12, 0xff, 0x00, 0xff];
    assert_eq!(halfwords_to_program(&page), vec![(1, 0x1234), (2, 0x00ff)]);
}

#[test]
fn erase_plan_lists_each_unit() {
    assert_eq!(erase_plan(0, 8192, 4096).unwrap(), vec![0, 4096]);
    assert!(matches!(erase_plan(1, 4096, 4096), Err(EraseError::NotAligned)));
    assert!(matches!(erase_plan(4096, 4097, 4096), Err(EraseError::NotAligned)));
    assert!(matches!(erase_plan(4096, 4096, 4096), Err(EraseError::NotAligned)));
    assert!(matches!(erase_plan(8192, 4096, 4096), Err(EraseError::NotAligned)));
}

#[test]
fn pro_flash_uses_one_kib_pages() {
    let flash = Flash::new();
    assert_eq!(flash.settings_size(), 6144);
    let mut region = vec![0xffu8; 6144];
    let writes = flash.write_settings(&region, 1020, &[5, 6, 7, 8, 9]);
    assert_eq!(writes.len(), 2);
    assert_eq!(writes[0].base, 0);
    assert_eq!(writes[1].base, 1024);
    assert_eq!(writes[0].bytes.len(), 1024);
    apply(&mut region, &writes);
    assert_eq!(flash.read_settings(&region, 1020, 6), vec![5, 6, 7, 8, 9, 0xff]);
    assert!(flash.write_settings(&region, 6144, &[1]).is_empty());
}

#[test]
fn ext_flash_without_chip_reads_erased_and_writes_nothing() {
    let flash = ExtFlash::new(false);
    let region = vec![0u8; 8192];
    assert_eq!(flash.settings_size(), 8192);
    assert_eq!(flash.read_settings(&region, 0, 3), vec![0xff, 0xff, 0xff]);
    assert!(flash.write_settings(&region, 0, &[1, 2]).is_empty());
    assert_eq!(flash.erase(0, 4096).unwrap(), Vec::<u32>::new());
}

#[test]
fn ext_flash_erases_chip_sectors() {
    let flash = ExtFlash::new(true);
    assert_eq!(flash.erase(0, 8192).unwrap(), vec![0xfe000, 0xff000]);
    assert!(matches!(flash.erase(100, 4096), Err(EraseError::NotAligned)));
    let region = vec![0u8; 8192];
    assert_eq!(flash.read_settings(&region, 8190, 4), vec![0, 0, 0xff, 0xff]);
    let erased = vec![0xffu8; 8192];
    let writes = flash.write_settings(&erased, 4095, &[1, 1]);
    assert_eq!(writes.len(), 2);
    assert_eq!(writes[0].base, 0);
    assert_eq!(writes[1].base, 4096);
    assert_eq!(ExtFlash::sector_pages(&writes[0].bytes), vec![3840]);
    assert_eq!(ExtFlash::sector_pages(&writes[1].bytes), vec![0]);
}

#[test]
fn ext_flash_reads_back_what_it_wrote() {
    let flash = ExtFlash::new(true);
    let mut region = vec![0xffu8; 8192];
    region[100] = 7;
    let data: Vec<u8> = (0..=255u8).cycle().take(4000).collect();
    let writes = flash.write_settings(&region, 3000, &data);
    apply(&mut region, &writes);
    assert_eq!(flash.read_settings(&region, 3000, data.len()), data);
    assert_eq!(region[100], 7);
    let tail = flash.write_settings(&region, 8190, &[1, 2, 3]);
    apply(&mut region, &tail);
    assert_eq!(flash.read_settings(&region, 8190, 3), vec![1, 2, 0xff]);
}
