use sabios::fat::bpb::{detect_fat_type, get, read_entries, read_u16, read_u32, read_u8, FatType};
use sabios::fat::cluster_chain::ClusterChain;
use sabios::fat::directory::{read_cluster_entries, Directory};
use sabios::fat::directory_entry::{trim_trailing, DirectoryEntries, DirectoryEntry};
use sabios::fat::fat_entry::FatEntry;

const SECTOR: usize = 512;

fn set12(fat: &mut [u8], n: usize, v: u16) {
    let off = n + n / 2;
    if n % 2 == 0 {
        fat[off] = (v & 0xff) as u8;
        fat[off + 1] = (fat[off + 1] & 0xf0) | ((v >> 8) as u8 & 0x0f);
    } else {
        fat[off] = (fat[off] & 0x0f) | (((v & 0x0f) as u8) << 4);
        fat[off + 1] = (v >> 4) as u8;
    }
}

fn put_entry(img: &mut [u8], off: usize, name: &[u8; 11], attr: u8, cluster: u16, size: u32) {
    img[off..off + 11].copy_from_slice(name);
    img[off + 11] = attr;
    img[off + 26..off + 28].copy_from_slice(&cluster.to_le_bytes());
    img[off + 28..off + 32].copy_from_slice(&size.to_le_bytes());
}

/// A FAT12 volume of 20 sectors: boot sector, one FAT sector, one root
/// directory sector of 16 entries, then clusters 2.. from sector 3.
fn fat12_image() -> Vec<u8> {
    let mut img = vec![0u8; 20 * SECTOR];
    img[11..13].copy_from_slice(&512u16.to_le_bytes());
    img[13] = 1;
    img[14..16].copy_from_slice(&1u16.to_le_bytes());
    img[16] = 1;
    img[17..19].copy_from_slice(&16u16.to_le_bytes());
    img[19..21].copy_from_slice(&20u16.to_le_bytes());
    img[21] = 0xf8;
    img[22..24].copy_from_slice(&1u16.to_le_bytes());
    img[510] = 0x55;
    img[511] = 0xaa;
    {
        let fat = &mut img[SECTOR..2 * SECTOR];
        set12(fat, 0, 0xff8);
        set12(fat, 1, 0xfff);
        set12(fat, 2, 0xfff);
        set12(fat, 3, 0x004);
        set12(fat, 4, 0xfff);
        set12(fat, 6, 0xff7);
    }
    let root = 2 * SECTOR;
    put_entry(&mut img, root, b"HELLO   TXT", 0x20, 2, 5);
    put_entry(&mut img, root + 32, b"\xe5ONE    TXT", 0x20, 0, 0);
    put_entry(&mut img, root + 64, b"LONGNAME   ", 0x0f, 0, 0);
    put_entry(&mut img, root + 96, b"SUBDIR     ", 0x10, 3, 0);
    let sub = 4 * SECTOR;
    put_entry(&mut img, sub, b".          ", 0x10, 3, 0);
    put_entry(&mut img, sub + 32, b"..         ", 0x10, 0, 0);
    put_entry(&mut img, sub + 64, b"FILE    BIN", 0x20, 0, 0);
    img
}

#[test]
fn little_endian_reads() {
    let b = [0x11u8, 0x22, 0x33, 0x44, 0x55];
    assert_eq!(read_u8(&b, 4), 0x55);
    assert_eq!(read_u16(&b, 1), 0x3322);
    assert_eq!(read_u32(&b, 0), 0x4433_2211);
}

#[test]
fn fat_type_from_cluster_count() {
    let mut img = fat12_image();
    assert_eq!(detect_fat_type(&img), FatType::Fat12);
    // 4085 clusters and more is FAT16.
    img.resize(5000 * SECTOR, 0);
    img[19..21].copy_from_slice(&5000u16.to_le_bytes());
    assert_eq!(detect_fat_type(&img), FatType::Fat16);
    // 65525 clusters and more is FAT32; the 32-bit total is used when the
    // 16-bit one is zero.
    img[19..21].copy_from_slice(&0u16.to_le_bytes());
    img[32..36].copy_from_slice(&70000u32.to_le_bytes());
    assert_eq!(detect_fat_type(&img), FatType::Fat32);
}

#[test]
fn parameter_block_fields() {
    let img = fat12_image();
    let bpb = get(&img);
    assert_eq!(bpb.fat_type(), FatType::Fat12);
    assert_eq!(bpb.bytes_per_sector(), 512);
    assert_eq!(bpb.sectors_per_cluster(), 1);
    assert_eq!(bpb.reserved_sector_count(), 1);
    assert_eq!(bpb.num_fats(), 1);
    assert_eq!(bpb.root_entry_count(), 16);
    assert_eq!(bpb.total_sectors(), 20);
    assert_eq!(bpb.fat_size(), 1);
    assert_eq!(bpb.media(), 0xf8);
    assert_eq!(bpb.hidden_sectors(), 0);
    assert_eq!(bpb.boot_sign(), 0xaa55);
    assert_eq!(bpb.fat_start_sector(), 1);
    assert_eq!(bpb.root_dir_start_sector_16(), 2);
    assert_eq!(bpb.data_start_sector(), 3);
    assert_eq!(bpb.cluster_sector(2), 3);
    assert_eq!(bpb.cluster_sector(5), 6);
    assert_eq!(bpb.sector_offset(3), 1536);
    assert_eq!(bpb.sector_ptr(4), 2048);
    assert_eq!(bpb.image_bytes().len(), img.len());
}

#[test]
fn fat12_entries() {
    let img = fat12_image();
    let bpb = get(&img);
    assert_eq!(bpb.fat_entry(2), FatEntry::UsedEof(0xfff));
    assert_eq!(bpb.fat_entry(3), FatEntry::Used(4));
    assert_eq!(bpb.fat_entry(4), FatEntry::UsedEof(0xfff));
    assert_eq!(bpb.fat_entry(5), FatEntry::Unused);
    assert_eq!(bpb.fat_entry(6), FatEntry::Bad);
    assert_eq!(bpb.fat_entry(1_000_000), FatEntry::Bad);
}

#[test]
fn fat_entry_decoding() {
    assert_eq!(FatEntry::from_fat12(0), FatEntry::Unused);
    assert_eq!(FatEntry::from_fat12(1), FatEntry::Reserved);
    assert_eq!(FatEntry::from_fat12(0xff6), FatEntry::Used(0xff6));
    assert_eq!(FatEntry::from_fat12(0xff7), FatEntry::Bad);
    assert_eq!(FatEntry::from_fat12(0xff8), FatEntry::UsedEof(0xff8));
    assert_eq!(FatEntry::from_fat16(0xfff6), FatEntry::Used(0xfff6));
    assert_eq!(FatEntry::from_fat16(0xfff7), FatEntry::Bad);
    assert_eq!(FatEntry::from_fat16(0xffff), FatEntry::UsedEof(0xffff));
    assert_eq!(FatEntry::from_fat32(0x0fff_fff6), FatEntry::Used(0x0fff_fff6));
    assert_eq!(FatEntry::from_fat32(0x0fff_fff7), FatEntry::Bad);
    assert_eq!(FatEntry::from_fat32(0x0fff_ffff), FatEntry::UsedEof(0x0fff_ffff));
    assert_eq!(FatEntry::from_fat32(0x1000_0000), FatEntry::Bad);
}

#[test]
fn cluster_chain_follows_fat() {
    let img = fat12_image();
    let bpb = get(&img);
    let mut chain = ClusterChain::new(bpb, 3);
    assert_eq!(chain.next(), Some(Ok(3)));
    assert_eq!(chain.next(), Some(Ok(4)));
    assert_eq!(chain.next(), Some(Ok(0xfff)));
    assert_eq!(chain.next(), None);
    let mut broken = ClusterChain::new(bpb, 5);
    assert_eq!(broken.next(), Some(Ok(5)));
    assert_eq!(broken.next(), Some(Err(FatEntry::Unused)));
    assert_eq!(broken.next(), None);
    assert_eq!(chain.bpb().fat_type(), FatType::Fat12);
}

fn name_of(e: &DirectoryEntry) -> String {
    let mut s: String = e.basename().iter().map(|b| *b as char).collect();
    if !e.extension().is_empty() {
        s.push('.');
        s.extend(e.extension().iter().map(|b| *b as char));
    }
    s
}

#[test]
fn root_directory_walk() {
    let img = fat12_image();
    let bpb = get(&img);
    let mut entries = bpb.root_dir_entries();
    let first = entries.next().unwrap();
    assert_eq!(name_of(&first), "HELLO.TXT");
    assert_eq!(first.file_size(), 5);
    assert_eq!(first.first_cluster_low(), 2);
    assert_eq!(first.attr(), 0x20);
    // The deleted entry is skipped; this walk shows long name parts.
    assert_eq!(name_of(&entries.next().unwrap()), "LONGNAME");
    assert_eq!(name_of(&entries.next().unwrap()), "SUBDIR");
    assert!(entries.next().is_none());
    assert!(entries.next().is_none());
}

#[test]
fn directory_walks_skip_long_names() {
    let img = fat12_image();
    let bpb = get(&img);
    let raw = read_entries(&img, 2 * SECTOR, 16);
    assert_eq!(raw.len(), 16);
    let root = Directory::new_root_dir(&raw);
    let mut it = root.entries();
    let names: Vec<String> = std::iter::from_fn(|| it.next()).map(|r| name_of(&r.unwrap())).collect();
    assert_eq!(names, vec!["HELLO.TXT", "SUBDIR"]);

    let sub = Directory::new_cluster_chain(ClusterChain::new(bpb, 3));
    let mut it = sub.entries();
    let names: Vec<String> = std::iter::from_fn(|| it.next()).map(|r| name_of(&r.unwrap())).collect();
    assert_eq!(names, vec![".", "..", "FILE.BIN"]);

    let broken = Directory::new_cluster_chain(ClusterChain::new(bpb, 6));
    let mut it = broken.entries();
    // Cluster 6 is empty (end mark at once).
    assert!(it.next().is_none());
    let bad = Directory::new_cluster_chain(ClusterChain::new(bpb, 1000));
    let mut it = bad.entries();
    assert_eq!(it.next(), Some(Err(FatEntry::Bad)));
}

#[test]
fn cluster_entries_bounds() {
    let img = fat12_image();
    let bpb = get(&img);
    let e = read_cluster_entries(&bpb, 3).unwrap();
    assert_eq!(e.len(), 16);
    assert_eq!(name_of(&e[2]), "FILE.BIN");
    assert!(read_cluster_entries(&bpb, 1).is_none());
    assert!(read_cluster_entries(&bpb, 17).is_some());
    assert!(read_cluster_entries(&bpb, 19).is_none());
}

#[test]
fn entry_fields_and_trimming() {
    let mut raw = [0u8; 32];
    raw[..11].copy_from_slice(b"A B     C  ");
    raw[11] = 0xff;
    raw[12] = 7;
    raw[13] = 9;
    raw[14..16].copy_from_slice(&0x1234u16.to_le_bytes());
    raw[16..18].copy_from_slice(&0x2345u16.to_le_bytes());
    raw[18..20].copy_from_slice(&0x3456u16.to_le_bytes());
    raw[20..22].copy_from_slice(&0x0001u16.to_le_bytes());
    raw[22..24].copy_from_slice(&0x4567u16.to_le_bytes());
    raw[24..26].copy_from_slice(&0x5678u16.to_le_bytes());
    raw[26..28].copy_from_slice(&0x0002u16.to_le_bytes());
    raw[28..32].copy_from_slice(&0x0102_0304u32.to_le_bytes());
    let e = DirectoryEntry::from_bytes(&raw, 0);
    assert_eq!(e.as_bytes(), &raw);
    assert_eq!(&e.name(), b"A B     C  ");
    assert_eq!(e.attr(), 0x3f);
    assert_eq!(e.nt_res(), 7);
    assert_eq!(e.create_time_tenth(), 9);
    assert_eq!(e.create_time(), 0x1234);
    assert_eq!(e.create_date(), 0x2345);
    assert_eq!(e.last_access_date(), 0x3456);
    assert_eq!(e.first_cluster_high(), 1);
    assert_eq!(e.write_time(), 0x4567);
    assert_eq!(e.write_date(), 0x5678);
    assert_eq!(e.first_cluster_low(), 2);
    assert_eq!(e.file_size(), 0x0102_0304);
    assert_eq!(e.basename(), b"A B");
    assert_eq!(e.extension(), b"C");
    assert_eq!(trim_trailing(b"xx  ", b' '), b"xx");
    assert_eq!(trim_trailing(b"    ", b' '), b"");
}

#[test]
fn entry_list_walk_skips_deleted() {
    let mut img = vec![0u8; 4 * 32];
    put_entry(&mut img, 0, b"\xe5          ", 0, 0, 0);
    put_entry(&mut img, 32, b"KEEP       ", 0, 0, 0);
    put_entry(&mut img, 96, b"AFTER      ", 0, 0, 0);
    let entries: Vec<DirectoryEntry> = (0..4).map(|i| DirectoryEntry::from_bytes(&img, i * 32)).collect();
    let mut walk = DirectoryEntries::new(&entries);
    assert_eq!(name_of(&walk.next().unwrap()), "KEEP");
    assert!(walk.next().is_none());
}

#[test]
fn head_dump_format() {
    let img: Vec<u8> = (0..20u8).collect();
    let text: String = sabios::fat::dump_head(&img).iter().collect();
    assert_eq!(
        text,
        "0000 00 01 02 03 04 05 06 07  08 09 0a 0b 0c 0d 0e 0f \n0001 10 11 12 13\n"
    );
    let big = vec![0xabu8; 1000];
    let text: String = sabios::fat::dump_head(&big).iter().collect();
    assert_eq!(text.lines().count(), 16);
    assert!(text.lines().last().unwrap().starts_with("000f ab ab"));
    assert!(sabios::fat::dump_head(&[]).is_empty());
}

#[test]
fn volume_checks_and_root_directory() {
    let img = fat12_image();
    assert!(sabios::fat::bpb::is_detectable(&img));
    assert!(!sabios::fat::bpb::is_detectable(&img[..100]));
    let mut no_sectors = img.clone();
    no_sectors[11] = 0;
    no_sectors[12] = 0;
    assert!(!sabios::fat::bpb::is_detectable(&no_sectors));
    let mut too_small = img.clone();
    too_small[19..21].copy_from_slice(&2u16.to_le_bytes());
    assert!(!sabios::fat::bpb::is_detectable(&too_small));

    let bpb = get(&img);
    let root = sabios::fat::directory::root_dir(bpb).unwrap();
    let mut it = root.entries();
    let names: Vec<String> = std::iter::from_fn(|| it.next()).map(|r| name_of(&r.unwrap())).collect();
    assert_eq!(names, vec!["HELLO.TXT", "SUBDIR"]);

    // A FAT32 volume keeps its root directory in the chain from cluster 3.
    let mut img32 = fat12_image();
    img32[19..21].copy_from_slice(&0u16.to_le_bytes());
    img32[32..36].copy_from_slice(&70000u32.to_le_bytes());
    img32[22..24].copy_from_slice(&0u16.to_le_bytes());
    img32[36..40].copy_from_slice(&1u32.to_le_bytes());
    img32[44..48].copy_from_slice(&3u32.to_le_bytes());
    assert!(sabios::fat::bpb::is_detectable(&img32));
    let bpb32 = get(&img32);
    assert_eq!(bpb32.fat_type(), FatType::Fat32);
    assert!(matches!(sabios::fat::directory::root_dir(bpb32), Some(Directory::ClusterChain(_))));
}
