use mcuboot::partition::Partition;
use mcuboot::simflash::SimFlash;
use mcuboot::storage::{
    check_erase, check_erase_range, check_range, check_read, check_slice, check_write, Error, Flash,
    ReadFlash,
};
use mcuboot::styles::{all_flashes, all_layouts, k64_main, lpc_main, stm32f_main, AreaLayout};

#[test]
fn test_simflash() {
    let mut f1 = SimFlash::new(1, 32, 128 * 1024, 6).unwrap();
    let mut buf = [0u8; 256];
    assert_eq!(f1.capacity(), 6 * 128 * 1024);
    assert_eq!(f1.read(0, &mut buf), Err(Error::NotWritten));
    assert_eq!(f1.erase(128 * 1024, 256 * 1024), Ok(()));
    assert_eq!(f1.write(128 * 1024, &mut buf), Ok(()));

    buf.fill(0x42);
    assert_eq!(f1.read(128 * 1024, &mut buf), Ok(()));
}

#[test]
fn read_at_capacity_is_out_of_bounds() {
    let mut f = lpc_main().build().unwrap();
    let capacity = f.capacity();
    assert_eq!(capacity, 256 * 512);
    assert_eq!(f.read(capacity, &mut [0u8; 1]), Err(Error::OutOfBounds));
}

#[test]
fn fresh_device_reads_not_written() {
    let mut f = lpc_main().build().unwrap();
    assert_eq!(f.read(0, &mut [0u8; 1]), Err(Error::NotWritten));
}

#[test]
fn read_checks_alignment_before_bounds() {
    let mut f = SimFlash::new(4, 8, 64, 2).unwrap();
    // Misaligned and out of range: alignment is reported.
    assert_eq!(f.read(130, &mut [0u8; 4]), Err(Error::NotAligned));
    assert_eq!(f.read(0, &mut [0u8; 3]), Err(Error::NotAligned));
    // Aligned and out of range.
    assert_eq!(f.read(128, &mut [0u8; 4]), Err(Error::OutOfBounds));
    assert_eq!(f.read(124, &mut [0u8; 8]), Err(Error::OutOfBounds));
    // Aligned, in range, unwritten.
    assert_eq!(f.read(124, &mut [0u8; 4]), Err(Error::NotWritten));
}

#[test]
fn reads_return_last_written_bytes() {
    let mut f = SimFlash::new(1, 4, 16, 2).unwrap();
    assert_eq!(f.erase(0, 32), Ok(()));
    assert_eq!(f.write(0, &[1, 2, 3, 4, 5, 6, 7, 8]), Ok(()));
    let mut buf = [0u8; 8];
    assert_eq!(f.read(0, &mut buf), Ok(()));
    assert_eq!(buf, [1, 2, 3, 4, 5, 6, 7, 8]);

    // Writing again without an erase is refused and changes nothing.
    assert_eq!(f.write(4, &[9, 9, 9, 9]), Err(Error::NotErased));
    assert_eq!(f.read(4, &mut buf[..4]), Ok(()));
    assert_eq!(&buf[..4], &[5, 6, 7, 8]);

    // Erasing makes the sector unreadable until it is written again.
    assert_eq!(f.erase(0, 16), Ok(()));
    assert_eq!(f.read(0, &mut [0u8; 1]), Err(Error::NotWritten));
    assert_eq!(f.write(4, &[0xa, 0xb, 0xc, 0xd]), Ok(()));
    let mut two = [0u8; 2];
    assert_eq!(f.read(6, &mut two), Ok(()));
    assert_eq!(two, [0xc, 0xd]);
    assert_eq!(f.read(0, &mut two), Err(Error::NotWritten));
}

#[test]
fn erase_and_write_argument_errors() {
    let mut f = SimFlash::new(1, 8, 64, 2).unwrap();
    assert_eq!(f.erase(8, 64), Err(Error::NotAligned));
    assert_eq!(f.erase(64, 0), Err(Error::OutOfBounds));
    assert_eq!(f.erase(0, 192), Err(Error::OutOfBounds));
    assert_eq!(f.write(4, &[0u8; 8]), Err(Error::NotAligned));
    assert_eq!(f.write(0, &[0u8; 4]), Err(Error::NotAligned));
    assert_eq!(f.write(128, &[0u8; 8]), Err(Error::OutOfBounds));
    assert_eq!(f.write(0, &[0u8; 8]), Err(Error::NotErased));
}

#[test]
fn check_helpers() {
    let f = SimFlash::new(2, 8, 64, 2).unwrap();
    assert_eq!(check_read(&f, 2, 4), Ok(()));
    assert_eq!(check_read(&f, 1, 4), Err(Error::NotAligned));
    assert_eq!(check_read(&f, 126, 4), Err(Error::OutOfBounds));
    assert_eq!(check_write(&f, 8, 8), Ok(()));
    assert_eq!(check_write(&f, 8, 4), Err(Error::NotAligned));
    assert_eq!(check_erase(&f, 0, 128), Ok(()));
    assert_eq!(check_erase(&f, 0, 100), Err(Error::NotAligned));
    assert_eq!(check_erase(&f, 128, 64), Err(Error::OutOfBounds));
    assert_eq!(check_slice(&f, 16, 16, 16), Ok(()));
    assert_eq!(check_slice(&f, 16, 120, 16), Err(Error::NotAligned));
    assert_eq!(check_range(100, 1, 90, 11), Err(Error::OutOfBounds));
    assert_eq!(check_range(100, 1, usize::MAX, 2), Err(Error::OutOfBounds));
    assert_eq!(check_erase_range(100, 10, 10, 100), Ok(()));
}

#[test]
fn install_places_image_and_pads() {
    let mut f = SimFlash::new(1, 8, 64, 4).unwrap();
    let image: Vec<u8> = (0..70u8).collect();
    assert_eq!(f.install(&image, 64), Ok(()));
    let mut back = vec![0u8; 70];
    assert_eq!(f.read(64, &mut back), Ok(()));
    assert_eq!(back, image);
    // The last write unit is padded with 0xff.
    let mut pad = [0u8; 2];
    assert_eq!(f.read(134, &mut pad), Ok(()));
    assert_eq!(pad, [0xff, 0xff]);
    // Nothing beyond the padded unit is readable.
    assert_eq!(f.read(136, &mut [0u8; 1]), Err(Error::NotWritten));
}

#[test]
fn install_that_does_not_fit() {
    let mut f = SimFlash::new(1, 8, 64, 2).unwrap();
    assert_eq!(f.install(&[0u8; 65], 64), Err(Error::OutOfBounds));
    assert_eq!(f.install(&[0u8; 64], 64), Ok(()));
}

#[test]
fn styles_build() {
    let layouts = all_layouts();
    assert_eq!(layouts.len(), 5);
    assert_eq!(
        stm32f_main(),
        AreaLayout { read_size: 1, write_size: 8, erase_size: 128 * 1024, sectors: 2 }
    );
    let flashes = all_flashes();
    assert_eq!(flashes.len(), 5);
    for (pair, (a, b)) in flashes.into_iter().zip(layouts) {
        let (fa, fb) = pair.unwrap();
        assert_eq!(fa.capacity(), a.sectors * a.erase_size);
        assert_eq!(fb.capacity(), b.sectors * b.erase_size);
        assert_eq!(fa.write_size(), a.write_size);
        assert_eq!(fb.erase_size(), b.erase_size);
    }
    assert_eq!(k64_main().build().unwrap().capacity(), 33 * 4096);
}

#[test]
fn partition_view() {
    let mut parent = SimFlash::new(1, 8, 64, 4).unwrap();
    let data: Vec<u8> = (0..64u8).collect();
    parent.install(&data, 64).unwrap();
    assert_eq!(Partition::new(SimFlash::new(1, 8, 64, 4).unwrap(), 0, 0).err(), Some(Error::OutOfBounds));
    assert_eq!(Partition::new(SimFlash::new(1, 8, 64, 4).unwrap(), 200, 100).err(), Some(Error::OutOfBounds));
    assert_eq!(Partition::new(SimFlash::new(2, 8, 64, 4).unwrap(), 1, 10).err(), Some(Error::NotAligned));
    let mut part = Partition::new(parent, 64, 64).unwrap();
    assert_eq!(part.capacity(), 64);
    assert_eq!(part.read_size(), 1);
    let mut buf = [0u8; 4];
    assert_eq!(part.read(10, &mut buf), Ok(()));
    assert_eq!(buf, [10, 11, 12, 13]);
    assert_eq!(part.read(62, &mut buf), Err(Error::OutOfBounds));
    let mut parent = part.into_parent();
    assert_eq!(parent.read(0, &mut buf), Err(Error::NotWritten));
    let mut part = Partition::new(parent, 0, 64).unwrap();
    assert_eq!(part.read(0, &mut buf), Err(Error::NotWritten));
}

#[test]
fn empty_accesses() {
    let mut f = SimFlash::new(1, 8, 64, 2).unwrap();
    // A zero-length read touches no unit, so nothing can be unwritten.
    assert_eq!(f.read(0, &mut []), Ok(()));
    assert_eq!(f.read(128, &mut []), Ok(()));
    assert_eq!(f.read(129, &mut []), Err(Error::OutOfBounds));
    assert_eq!(f.install(&[], 0), Ok(()));
    assert_eq!(f.install(&[], 128), Ok(()));
    assert_eq!(f.erase(64, 64), Ok(()));
}
