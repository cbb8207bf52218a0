use mcuboot::gen::GenBuilder;
use mcuboot::image::{Image, IMAGE_MAGIC, TLV_SHA256};
use mcuboot::simflash::SimFlash;
use mcuboot::status::{SlotInfo, StatusStyle};
use mcuboot::storage::{self, Flash, ReadFlash};
use mcuboot::styles::{all_flashes, lpc_main, stm32f_main};
use mcuboot::Error;
use sha2::{Digest, Sha256};

/// Sign `input`, whose first `header_size` bytes are reserved for the
/// header, as the signing tool does: fill in the header and append a TLV
/// region holding the SHA-256 of everything before it.
fn sign(input: &[u8], header_size: usize) -> Vec<u8> {
    let mut out = input.to_vec();
    let img_size = (input.len() - header_size) as u32;
    let mut header = Vec::new();
    header.extend_from_slice(&IMAGE_MAGIC.to_le_bytes());
    header.extend_from_slice(&0u32.to_le_bytes());
    header.extend_from_slice(&(header_size as u16).to_le_bytes());
    header.extend_from_slice(&0u16.to_le_bytes());
    header.extend_from_slice(&img_size.to_le_bytes());
    header.extend_from_slice(&0u32.to_le_bytes());
    header.extend_from_slice(&[0, 1]);
    header.extend_from_slice(&0u16.to_le_bytes());
    header.extend_from_slice(&0u32.to_le_bytes());
    header.extend_from_slice(&0u32.to_le_bytes());
    assert_eq!(header.len(), 32);
    out[..32].copy_from_slice(&header);
    let digest = Sha256::digest(&out);
    out.extend_from_slice(&0x6907u16.to_le_bytes());
    out.extend_from_slice(&40u16.to_le_bytes());
    out.extend_from_slice(&0x10u16.to_le_bytes());
    out.extend_from_slice(&32u16.to_le_bytes());
    out.extend_from_slice(&digest);
    out
}

fn signed_image(size: usize, seed: usize) -> Vec<u8> {
    let mut builder = GenBuilder::default();
    let input = builder.size(size).seed(seed).input();
    sign(&input, builder.header_size())
}

fn installed(image: &[u8]) -> SimFlash {
    let mut flash = lpc_main().build().unwrap();
    flash.install(image, 0).unwrap();
    flash
}

#[test]
fn test_gen() {
    let builder = GenBuilder::default();
    let input = builder.input();
    assert_eq!(input.len(), 76_137);
    assert!(input[..256].iter().all(|&b| b == 0));
    assert!(input[256..].iter().any(|&b| b != 0));
    assert_eq!(builder.version(), "0.1.0");
    let img = sign(&input, builder.header_size());
    let mut flash = lpc_main().build().unwrap();
    flash.install(&img, 0).unwrap();
    let image = Image::from_flash(&mut flash).unwrap();
    image.validate(&mut flash).unwrap();
}

#[test]
fn generated_input_depends_on_seed() {
    let mut a = GenBuilder::default();
    let mut b = GenBuilder::default();
    let x = a.size(1000).seed(1).input();
    let y = b.size(1000).seed(2).input();
    assert_eq!(x.len(), 1000);
    assert_ne!(x[256..], y[256..]);
    assert_eq!(x, GenBuilder::default().size(1000).seed(1).input());
}

#[test]
fn image_test() {
    for flashes in all_flashes() {
        let (mut main, mut upgrade) = flashes.unwrap();

        let img1 = signed_image(71842, 1);
        let img2 = signed_image(76173, 2);

        main.install(&img1, 0).unwrap();
        upgrade.install(&img2, 0).unwrap();

        // Validate that this is a good image.
        let image = Image::from_flash(&mut main).unwrap();
        image.validate(&mut main).unwrap();

        let uimage = Image::from_flash(&mut upgrade).unwrap();
        uimage.validate(&mut upgrade).unwrap();

        // Compute the status area here.
        let main_size = image.full_image_size();
        let upgrade_size = image.full_image_size();
        assert_eq!(main_size, img1.len());
        let info = SlotInfo::from_data(main_size, &main);
        let upgrade_info = SlotInfo::from_data(upgrade_size, &upgrade);
        let sminfo = info.status_layout(&upgrade_info).unwrap();
        let suinfo = upgrade_info.status_layout(&info).unwrap();
        assert_eq!(sminfo.erase_size, suinfo.erase_size);
        assert_eq!(sminfo.image_sectors, suinfo.image_sectors);

        // Read the status area from each partition: nothing is written there.
        assert!(sminfo.read(&mut main).is_ok());
        assert!(suinfo.read(&mut upgrade).is_ok());
    }
}

#[test]
fn sim_lpc_good_path() {
    let img = signed_image(76 * 1024, 3);
    let mut flash = installed(&img);
    let image = Image::from_flash(&mut flash).unwrap();
    assert_eq!(image.header.magic, 0x96f3b83d);
    assert_eq!(image.header.hdr_size, 256);
    assert_eq!(image.header(), image.header);
    assert_eq!(image.header.img_size as usize, 76 * 1024 - 256);
    assert_eq!(image.validate(&mut flash), Ok(()));
    assert_eq!(
        image.full_image_size(),
        image.header.hdr_size as usize + image.header.img_size as usize + 40
    );
    assert_eq!(image.full_image_size(), img.len());
}

#[test]
fn corrupt_magic() {
    let mut img = signed_image(4096, 4);
    img[0] = 0x00;
    let mut flash = installed(&img);
    assert!(matches!(Image::from_flash(&mut flash), Err(Error::InvalidImage)));
}

#[test]
fn duplicate_sha_tlv() {
    let img = signed_image(4096, 5);
    let base = img.len() - 40;
    // A TLV region with two SHA-256 records, both correct.
    let mut dup = img[..base].to_vec();
    dup.extend_from_slice(&0x6907u16.to_le_bytes());
    dup.extend_from_slice(&76u16.to_le_bytes());
    for _ in 0..2 {
        dup.extend_from_slice(&img[base + 4..]);
    }
    let mut flash = installed(&dup);
    let image = Image::from_flash(&mut flash).unwrap();
    assert_eq!(image.validate(&mut flash), Err(Error::InvalidImage));
}

#[test]
fn hash_mismatch() {
    let mut img = signed_image(8192, 6);
    let mut flash = installed(&img);
    let image = Image::from_flash(&mut flash).unwrap();
    let at = image.header.hdr_size as usize + image.header.img_size as usize / 2;
    img[at] ^= 0x01;
    let mut flash = installed(&img);
    assert_eq!(image.validate(&mut flash), Err(Error::InvalidImage));
}

#[test]
fn flipped_payload_bit() {
    let mut img = signed_image(2048, 7);
    let n = img.len();
    img[n - 7] ^= 0x80;
    let mut flash = installed(&img);
    let image = Image::from_flash(&mut flash).unwrap();
    assert_eq!(image.validate(&mut flash), Err(Error::InvalidImage));
}

#[test]
fn oversized_image_is_invalid() {
    let mut img = signed_image(2048, 8);
    img[12..16].copy_from_slice(&u32::MAX.to_le_bytes());
    let mut flash = installed(&img);
    assert!(matches!(Image::from_flash(&mut flash), Err(Error::InvalidImage)));
}

#[test]
fn tlv_header_past_end_is_invalid() {
    let img = signed_image(2048, 9);
    let mut flash = SimFlash::new(1, 512, 512, 5).unwrap();
    flash.install(&img, 0).unwrap();
    assert_eq!(flash.capacity(), 2560);
    // The image ends 40 bytes after the end of the body, within the device.
    assert!(Image::from_flash(&mut flash).is_ok());
    let mut small = SimFlash::new(1, 8, 2048, 1).unwrap();
    assert_eq!(small.install(&img, 0), Err(storage::Error::OutOfBounds));
    small.install(&img[..2048], 0).unwrap();
    assert!(matches!(Image::from_flash(&mut small), Err(Error::InvalidImage)));
}

#[test]
fn unknown_tlv_kind_is_invalid() {
    let mut img = signed_image(2048, 10);
    let base = img.len() - 40;
    img[base + 4] = 0x20;
    let mut flash = installed(&img);
    let image = Image::from_flash(&mut flash).unwrap();
    assert_eq!(image.validate(&mut flash), Err(Error::InvalidImage));
}

#[test]
fn missing_sha_tlv_is_invalid() {
    let img = signed_image(2048, 11);
    let base = img.len() - 40;
    let mut bare = img[..base].to_vec();
    bare.extend_from_slice(&0x6907u16.to_le_bytes());
    bare.extend_from_slice(&4u16.to_le_bytes());
    let mut flash = installed(&bare);
    let image = Image::from_flash(&mut flash).unwrap();
    assert_eq!(image.full_image_size(), bare.len());
    assert_eq!(image.validate(&mut flash), Err(Error::InvalidImage));
}

#[test]
fn bad_tlv_magic_is_invalid() {
    let mut img = signed_image(2048, 12);
    let base = img.len() - 40;
    img[base] = 0;
    let mut flash = installed(&img);
    assert!(matches!(Image::from_flash(&mut flash), Err(Error::InvalidImage)));
}

#[test]
fn unwritten_slot_is_a_flash_error() {
    let mut flash = lpc_main().build().unwrap();
    assert!(matches!(
        Image::from_flash(&mut flash),
        Err(Error::Flash(storage::Error::NotWritten))
    ));
}

#[test]
fn tlv_iteration() {
    let img = signed_image(2048, 13);
    let mut flash = installed(&img);
    let image = Image::from_flash(&mut flash).unwrap();
    let mut iter = image.tlvs(&mut flash).unwrap();
    let entry = iter.next(&mut flash).unwrap().unwrap();
    assert_eq!(entry.kind(), TLV_SHA256);
    assert_eq!(entry.data_len(), 32);
    let mut short = [0u8; 16];
    assert_eq!(entry.read_data(&mut flash, &mut short), Err(Error::InvalidImage));
    let mut payload = [0u8; 32];
    assert_eq!(entry.read_data(&mut flash, &mut payload), Ok(()));
    assert_eq!(&payload[..], &img[img.len() - 32..]);
    assert!(iter.next(&mut flash).is_none());
}

#[test]
fn record_overrunning_region_is_invalid() {
    let mut img = signed_image(2048, 14);
    let base = img.len() - 40;
    // The record claims 33 payload bytes, one more than the region holds.
    img[base + 6] = 33;
    let mut flash = installed(&img);
    let image = Image::from_flash(&mut flash).unwrap();
    let mut iter = image.tlvs(&mut flash).unwrap();
    assert!(matches!(iter.next(&mut flash), Some(Err(Error::InvalidImage))));
    assert_eq!(image.validate(&mut flash), Err(Error::InvalidImage));
}

#[test]
fn status_on_stm32f() {
    let img = signed_image(76 * 1024, 15);
    let mut main = stm32f_main().build().unwrap();
    main.install(&img, 0).unwrap();
    let image = Image::from_flash(&mut main).unwrap();
    assert_eq!(image.validate(&mut main), Ok(()));
    let info = SlotInfo::from_data(image.full_image_size(), &main);
    assert_eq!(info.status_style(), StatusStyle::OverWrite);
    let layout = info.status_layout(&info).unwrap();
    assert_eq!(layout.tail_pos, 128 * 1024 - 48);
    assert!(layout.flags.is_some());
    assert!(layout.hash_pages.is_empty());
    assert_eq!(main.write_size(), 8);
}

#[test]
fn tlv_length_past_flash_end_is_accepted_by_from_flash() {
    let mut img = signed_image(2048, 16);
    let base = img.len() - 40;
    img[base + 2..base + 4].copy_from_slice(&0xffffu16.to_le_bytes());
    let mut flash = installed(&img);
    let image = Image::from_flash(&mut flash).unwrap();
    assert_eq!(image.full_image_size(), base + 0xffff);
    // The records are walked only by validation, which then fails.
    assert!(image.validate(&mut flash).is_err());
}
