use std::io::Write;

use mcsigns::inflate::{chunk_nbt, level_nbt};
use mcsigns::naming::region_coords;
use mcsigns::normalize::{sign_line, strip_page, SignExtra, SignText};
use mcsigns::order::sort_by_position;
use mcsigns::chunk::{Book, BookWithPos};
use mcsigns::region::{read_slot, region_chunks, ChunkRead};
use mcsigns::report::{render_books, render_signs};
use mcsigns::version::{is_legacy_name, ChunkFormat, LevelDat, LevelDatData, LevelDatDataVersion};

fn version(id: i32, name: &str) -> LevelDatDataVersion {
    LevelDatDataVersion { id, name: name.to_string(), snapshot: false }
}

fn zlib(bytes: &[u8]) -> Vec<u8> {
    let mut e = flate2::write::ZlibEncoder::new(Vec::new(), flate2::Compression::default());
    e.write_all(bytes).unwrap();
    e.finish().unwrap()
}

/// A region file whose slot `slot` holds `payload` under `scheme`, at sector 2.
fn region_with(slot: usize, scheme: u8, payload: &[u8]) -> Vec<u8> {
    let mut data = vec![0u8; 8192];
    data[4 * slot + 2] = 2;
    data[4 * slot + 3] = 1;
    let len = (payload.len() + 1) as u32;
    data.extend_from_slice(&len.to_be_bytes());
    data.push(scheme);
    data.extend_from_slice(payload);
    while data.len() % 4096 != 0 {
        data.push(0);
    }
    data
}

fn extra(text: &str) -> SignExtra {
    SignExtra {
        text: text.to_string(),
        color: Some("red".to_string()),
        bold: Some(true),
        italic: None,
        underlined: None,
        strikethrough: None,
        obfuscated: None,
    }
}

#[test]
fn id_2730_takes_the_1_17_layout() {
    assert_eq!(version(2730, "1.17.1").chunk_format(), ChunkFormat::V1_17);
    assert_eq!(version(2682, "1.17").chunk_format(), ChunkFormat::V1_17);
}

#[test]
fn id_2731_takes_the_1_18_layout() {
    assert_eq!(version(2731, "1.18").chunk_format(), ChunkFormat::V1_18);
}

#[test]
fn id_2681_takes_the_legacy_layout() {
    assert_eq!(version(2681, "1.16.5").chunk_format(), ChunkFormat::Legacy);
}

#[test]
fn old_name_always_takes_the_legacy_layout() {
    assert_eq!(version(99999, "old").chunk_format(), ChunkFormat::Legacy);
    assert_eq!(version(2731, "old").chunk_format(), ChunkFormat::Legacy);
    assert!(version(1343, "old").is_legacy());
    assert!(!version(1343, "olde").is_legacy());
    assert!(!is_legacy_name("Old"));
}

#[test]
fn missing_version_compound_gives_legacy_descriptor() {
    let dat = LevelDat { data: LevelDatData { version: None, old_version: 1343 } };
    let v = dat.into_version();
    assert_eq!(v.id, 1343);
    assert_eq!(v.name, "old");
    assert!(!v.snapshot);
    let dat = LevelDat { data: LevelDatData { version: Some(version(3120, "1.19.2")), old_version: 19133 } };
    let v = dat.into_version();
    assert_eq!((v.id, v.name.as_str()), (3120, "1.19.2"));
}

#[test]
fn empty_region_file_has_no_slots() {
    assert!(region_chunks(&Vec::new()).is_empty());
}

#[test]
fn zero_location_table_gives_only_absent_slots() {
    let data = vec![0u8; 8192];
    let slots = region_chunks(&data);
    assert_eq!(slots.len(), 1024);
    assert!(slots.iter().all(|s| matches!(s.read, ChunkRead::Absent)));
    assert_eq!((slots[33].x, slots[33].z), (1, 1));
}

#[test]
fn zlib_chunk_is_found_and_inflated() {
    let nbt = b"chunk nbt bytes".to_vec();
    let data = region_with(1 + 32 * 3, 2, &zlib(&nbt));
    let slots = region_chunks(&data);
    let found: Vec<_> = slots.iter().filter(|s| !matches!(s.read, ChunkRead::Absent)).collect();
    assert_eq!(found.len(), 1);
    assert_eq!((found[0].x, found[0].z), (1, 3));
    assert_eq!(chunk_nbt(&found[0].read), Some(nbt));
}

#[test]
fn corrupt_zlib_stream_gives_no_nbt() {
    let data = region_with(0, 2, &[1, 2, 3, 4, 5]);
    let read = read_slot(&data, 0);
    assert!(matches!(read, ChunkRead::Zlib(_)));
    assert_eq!(chunk_nbt(&read), None);
}

#[test]
fn gzip_and_uncompressed_chunks_are_unsupported() {
    let data = region_with(5, 1, &[0; 10]);
    assert!(matches!(read_slot(&data, 5), ChunkRead::Unsupported(1)));
    let data = region_with(5, 3, &[0; 10]);
    assert!(matches!(read_slot(&data, 5), ChunkRead::Unsupported(3)));
    assert_eq!(chunk_nbt(&ChunkRead::Unsupported(3)), None);
}

#[test]
fn slot_pointing_past_the_end_is_unreadable() {
    let mut data = vec![0u8; 8192];
    data[2] = 9;
    data[3] = 1;
    assert!(matches!(read_slot(&data, 0), ChunkRead::Unreadable));
    let short = vec![0u8; 10];
    assert!(matches!(read_slot(&short, 100), ChunkRead::Unreadable));
}

#[test]
fn length_past_the_end_is_unreadable() {
    let mut data = region_with(0, 2, &[7; 4]);
    let at = 8192;
    data[at..at + 4].copy_from_slice(&100000u32.to_be_bytes());
    assert!(matches!(read_slot(&data, 0), ChunkRead::Unreadable));
    data[at..at + 4].copy_from_slice(&0u32.to_be_bytes());
    assert!(matches!(read_slot(&data, 0), ChunkRead::Unreadable));
}

#[test]
fn region_names_give_coordinates() {
    assert_eq!(region_coords("r.0.0.mca"), Some((0, 0)));
    assert_eq!(region_coords("r.-1.12.mca"), Some((-1, 12)));
    assert_eq!(region_coords("r.-2147483648.2147483647.mca"), Some((i32::MIN, i32::MAX)));
}

#[test]
fn other_names_are_ignored() {
    assert_eq!(region_coords("r.not.a.number.mca"), None);
    assert_eq!(region_coords("r.1.2.mcr"), None);
    assert_eq!(region_coords("r.1.mca"), None);
    assert_eq!(region_coords("r..2.mca"), None);
    assert_eq!(region_coords("r.1.-.mca"), None);
    assert_eq!(region_coords("r.2147483648.0.mca"), None);
    assert_eq!(region_coords("x.1.2.mca"), None);
    assert_eq!(region_coords(""), None);
}

#[test]
fn formatting_codes_are_stripped_from_pages() {
    assert_eq!(strip_page("§lHello §r§aworld§f!"), "Hello world!");
    assert_eq!(strip_page("§KA§LB§9C"), "ABC");
    assert_eq!(strip_page("50§"), "50");
    assert_eq!(strip_page("§x§zy"), "xzy");
    assert_eq!(strip_page(""), "");
}

#[test]
fn stripped_pages_hold_no_section_sign() {
    for page in ["§§§", "a§§lb", "§ §g§", "ü§eñ"] {
        assert!(!strip_page(page).contains('§'));
    }
}

#[test]
fn sign_component_text_is_flattened() {
    let t = SignText { text: "a".to_string(), extra: Some(vec![extra("b"), extra("c")]) };
    assert_eq!(t.flatten(), "abc");
    let t = SignText { text: "".to_string(), extra: Some(vec![]) };
    assert_eq!(t.flatten(), "");
}

#[test]
fn malformed_sign_line_becomes_empty() {
    assert_eq!(sign_line(false, &"{oops".to_string(), None), "");
    let parsed = SignText { text: "hi".to_string(), extra: None };
    assert_eq!(sign_line(false, &"{\"text\":\"hi\"}".to_string(), Some(parsed)), "hi");
}

#[test]
fn legacy_sign_line_is_stable_when_repeated() {
    let raw = "plain §1text".to_string();
    let once = sign_line(true, &raw, None);
    let twice = sign_line(true, &once, Some(SignText { text: "x".to_string(), extra: None }));
    assert_eq!(once, raw);
    assert_eq!(twice, once);
}

fn at(x: i32, y: i32, z: i32, title: &str) -> BookWithPos {
    BookWithPos { book: Book { pages: Some(vec![]), title: Some(title.to_string()), author: None }, x, y, z }
}

#[test]
fn records_sort_by_x_then_z_then_y() {
    let books = vec![at(1, 0, 0, "a"), at(0, 5, 1, "b"), at(0, 9, 0, "c"), at(0, 1, 0, "d"), at(-4, 0, 9, "e")];
    let sorted = sort_by_position(books);
    let titles: Vec<&str> = sorted.iter().map(|b| b.book.title.as_deref().unwrap()).collect();
    assert_eq!(titles, vec!["e", "d", "c", "b", "a"]);
}

#[test]
fn sort_keeps_order_of_equal_positions() {
    let books = vec![at(2, 2, 2, "first"), at(1, 1, 1, "x"), at(2, 2, 2, "second"), at(2, 2, 2, "third")];
    let sorted = sort_by_position(books);
    let titles: Vec<&str> = sorted.iter().map(|b| b.book.title.as_deref().unwrap()).collect();
    assert_eq!(titles, vec!["x", "first", "second", "third"]);
}

#[test]
fn sorting_twice_gives_identical_reports() {
    let make = || vec![at(3, 1, 1, "a"), at(3, 1, 0, "b"), at(-7, 2, 2, "c"), at(3, 1, 1, "d")];
    let first = render_books(&sort_by_position(make()));
    let second = render_books(&sort_by_position(make()));
    assert_eq!(first, second);
    let again = render_books(&sort_by_position(sort_by_position(make())));
    assert_eq!(first, again);
}

#[test]
fn no_records_give_empty_reports() {
    assert_eq!(render_signs(&vec![]), "");
    assert_eq!(render_books(&vec![]), "");
}

#[test]
fn level_dat_is_gunzipped() {
    let nbt = b"\x0a\x00\x00\x00".to_vec();
    let mut e = flate2::write::GzEncoder::new(Vec::new(), flate2::Compression::default());
    e.write_all(&nbt).unwrap();
    let gz = e.finish().unwrap();
    assert_eq!(level_nbt(&gz), Some(nbt));
    assert_eq!(level_nbt(&vec![1, 2, 3]), None);
}
