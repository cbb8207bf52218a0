use mcuboot::status::{
    next_action, upgrade_state, SlotInfo, SlotStatus, StatusStyle, UpgradeAction, UpgradeState,
};
use mcuboot::simflash::SimFlash;
use mcuboot::storage::Flash;
use mcuboot::styles::{k64_main, lpc_main};

fn slot(write_size: usize, erase_size: usize, image_size: usize) -> SlotInfo {
    SlotInfo { write_size, erase_size, capacity: 16 * erase_size, image_size }
}

#[test]
fn style_by_geometry() {
    assert_eq!(slot(8, 128 * 1024, 0).status_style(), StatusStyle::OverWrite);
    assert_eq!(slot(32, 128 * 1024, 0).status_style(), StatusStyle::OverWrite);
    assert_eq!(slot(64, 4096, 0).status_style(), StatusStyle::Paged);
    assert_eq!(slot(512, 512, 0).status_style(), StatusStyle::Paged);
}

#[test]
fn stm32f_overwrite_layout() {
    let main = slot(8, 128 * 1024, 76_177);
    let layout = main.status_layout(&slot(8, 128 * 1024, 76_177)).unwrap();
    assert_eq!(layout.style, StatusStyle::OverWrite);
    assert_eq!(layout.erase_size, 128 * 1024);
    assert_eq!(layout.tail_pos, 128 * 1024 - 48);
    assert_eq!(
        layout.flags,
        Some([128 * 1024 - 56, 128 * 1024 - 64, 128 * 1024 - 72])
    );
    assert_eq!(layout.image_sectors, [1, 1]);
    assert_eq!(layout.inline_hashes, 2);
    assert!(layout.hash_pages.is_empty());
}

#[test]
fn k64_layout() {
    let k = k64_main();
    let main = slot(k.write_size, k.erase_size, 76_177);
    assert_eq!(main.status_style(), StatusStyle::OverWrite);
    let layout = main.status_layout(&main).unwrap();
    assert_eq!(layout.tail_pos, 4096 - 48);
    assert_eq!(layout.flags, Some([4040, 4032, 4024]));
    assert_eq!(layout.image_sectors, [19, 19]);
    assert_eq!(layout.inline_hashes, 38);
    assert!(layout.hash_pages.is_empty());
}

#[test]
fn lpc_paged_layout_spills_hashes() {
    let l = lpc_main();
    let main = slot(l.write_size, l.erase_size, 76_177);
    assert_eq!(main.status_style(), StatusStyle::Paged);
    let layout = main.status_layout(&main).unwrap();
    assert_eq!(layout.flags, None);
    assert_eq!(layout.tail_pos, 512 - 48);
    assert_eq!(layout.image_sectors, [149, 149]);
    assert_eq!(layout.inline_hashes, 116);
    assert_eq!(&layout.hash_pages[..], &[128, 54]);
    let total: usize = layout.inline_hashes + layout.hash_pages.iter().sum::<usize>();
    assert_eq!(total, 298);
}

#[test]
fn larger_erase_size_of_the_two_slots() {
    let main = slot(4, 4096, 10_000);
    let upgrade = slot(8, 8192, 20_000);
    let layout = main.status_layout(&upgrade).unwrap();
    assert_eq!(layout.erase_size, 8192);
    assert_eq!(layout.write_size, 4);
    assert_eq!(layout.image_sectors, [2, 3]);
    assert_eq!(layout.tail_pos, 8192 - 48);
}

#[test]
fn largest_images_on_smallest_sectors() {
    let main = slot(512, 512, 1024 * 1024);
    let layout = main.status_layout(&main).unwrap();
    assert_eq!(layout.image_sectors, [2048, 2048]);
    assert_eq!(layout.inline_hashes, 116);
    assert_eq!(layout.hash_pages.len(), 32);
    assert_eq!(layout.hash_pages[31], 3980 - 31 * 128);
    let total: usize = layout.inline_hashes + layout.hash_pages.iter().sum::<usize>();
    assert_eq!(total, 4096);
}

fn tail(magic: bool, meta: bool, move_done: bool, copy_done: bool, image_ok: bool) -> SlotStatus {
    SlotStatus { magic, meta, move_done, copy_done, image_ok }
}

#[test]
fn upgrade_state_table() {
    let blank = tail(false, false, false, false, false);
    let magic = tail(true, false, false, false, false);
    let m = tail(true, true, false, false, false);
    let md = tail(true, true, true, false, false);
    let cd = tail(true, true, true, true, false);
    let ok = tail(true, true, true, true, true);
    assert_eq!(upgrade_state(&blank, &blank), UpgradeState::NoUpgrade);
    assert_eq!(upgrade_state(&blank, &magic), UpgradeState::Request);
    assert_eq!(upgrade_state(&magic, &magic), UpgradeState::Request);
    assert_eq!(upgrade_state(&m, &magic), UpgradeState::Started);
    assert_eq!(upgrade_state(&md, &magic), UpgradeState::MoveDone);
    assert_eq!(upgrade_state(&cd, &magic), UpgradeState::CopyDone);
    assert_eq!(upgrade_state(&ok, &magic), UpgradeState::ImageOk);
    assert_eq!(upgrade_state(&cd, &m), UpgradeState::RevertStarted);
    assert_eq!(upgrade_state(&cd, &md), UpgradeState::RevertMoveDone);
}

#[test]
fn upgrade_actions() {
    assert_eq!(next_action(UpgradeState::NoUpgrade, true), UpgradeAction::BootMain);
    assert_eq!(next_action(UpgradeState::Request, false), UpgradeAction::BeginSwap);
    assert_eq!(next_action(UpgradeState::Started, false), UpgradeAction::ResumeMove);
    assert_eq!(next_action(UpgradeState::MoveDone, false), UpgradeAction::ResumeCopy);
    assert_eq!(next_action(UpgradeState::CopyDone, true), UpgradeAction::ArmRevert);
    assert_eq!(next_action(UpgradeState::CopyDone, false), UpgradeAction::BootMain);
    assert_eq!(next_action(UpgradeState::ImageOk, true), UpgradeAction::BootMain);
    assert_eq!(next_action(UpgradeState::RevertStarted, true), UpgradeAction::UndoMove);
    assert_eq!(next_action(UpgradeState::RevertMoveDone, true), UpgradeAction::UndoCopy);
}

#[test]
fn read_status_tail() {
    let mut flash = SimFlash::new(1, 512, 512, 4).unwrap();
    let info = SlotInfo::from_data(1000, &flash);
    let layout = info.status_layout(&info).unwrap();
    assert_eq!(layout.tail_pos, 464);
    // Never written: blank.
    assert_eq!(layout.read(&mut flash), Ok(None));

    // An erased-looking page is blank too.
    assert_eq!(flash.erase(1536, 2048), Ok(()));
    assert_eq!(flash.write(1536, &[0xff; 512]), Ok(()));
    assert_eq!(layout.read(&mut flash), Ok(None));

    let mut page = [0xffu8; 512];
    let tail = &mut page[464..];
    tail[..16].fill(0);
    tail[16..20].copy_from_slice(&1000u32.to_le_bytes());
    tail[20..24].copy_from_slice(&2000u32.to_le_bytes());
    tail[24..28].copy_from_slice(&0x1234_5678u32.to_le_bytes());
    tail[28] = 9;
    tail[29] = 9;
    tail[30] = 0b0001;
    tail[31] = 3;
    tail[32..].copy_from_slice(&[0x77; 16]);
    assert_eq!(flash.erase(1536, 2048), Ok(()));
    assert_eq!(flash.write(1536, &page), Ok(()));
    let t = layout.read(&mut flash).unwrap().unwrap();
    assert_eq!(t.main_size, 1000);
    assert_eq!(t.upgrade_size, 2000);
    assert_eq!(t.hash_seed, 0x1234_5678);
    assert_eq!(t.write_log, 9);
    assert_eq!(t.flags, 1);
    assert_eq!(t.age, 3);
    assert!(!t.is_overwrite());
    assert_eq!(t.magic, [0x77; 16]);
    assert_eq!(t.enc_key, [0; 16]);
}
