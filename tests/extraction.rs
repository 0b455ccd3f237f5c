use mcsigns::chunk::{
    Book, BookWithPos, Chunk, Chunk1_17, Chunk1_17Level, Chunk1_18, ChunkData, ChunkLevel,
    ChunkLevelTileEntities, ChunkView, Entity, Item,
};
use mcsigns::extract::{
    extract_chunk, folded_names_book, folded_names_sign, names_book, names_sign, take_book,
};
use mcsigns::normalize::{sign_line, SignText};
use mcsigns::report::{render_books, render_signs, SignRecord};

fn block(id: &str, x: i32, y: i32, z: i32) -> ChunkLevelTileEntities {
    ChunkLevelTileEntities {
        id: id.to_string(),
        x,
        y,
        z,
        text1: None,
        text2: None,
        text3: None,
        text4: None,
        items: None,
    }
}

fn sign(id: &str, x: i32, y: i32, z: i32, line: &str) -> ChunkLevelTileEntities {
    let mut b = block(id, x, y, z);
    b.text1 = Some(line.to_string());
    b.text2 = Some(line.to_string());
    b.text3 = Some(line.to_string());
    b.text4 = Some(line.to_string());
    b
}

fn book(pages: &[&str], title: Option<&str>, author: Option<&str>) -> Book {
    Book {
        pages: Some(pages.iter().map(|p| p.to_string()).collect()),
        title: title.map(|t| t.to_string()),
        author: author.map(|a| a.to_string()),
    }
}

fn item(id: &str, tag: Option<Book>) -> Item {
    Item { id: id.to_string(), slot: Some(0), count: 1, tag }
}

fn plain(text: &str) -> SignText {
    SignText { text: text.to_string(), extra: None }
}

fn record(be: &ChunkLevelTileEntities, legacy: bool, parsed: Vec<Option<SignText>>) -> SignRecord {
    let raws = [&be.text1, &be.text2, &be.text3, &be.text4];
    let mut lines = Vec::new();
    for (raw, p) in raws.iter().zip(parsed.into_iter()) {
        lines.push(sign_line(legacy, raw.as_ref().unwrap(), p));
    }
    SignRecord {
        x: be.x,
        y: be.y,
        z: be.z,
        line1: lines[0].clone(),
        line2: lines[1].clone(),
        line3: lines[2].clone(),
        line4: lines[3].clone(),
    }
}

#[test]
fn sign_in_1_17_chunk_is_reported_with_its_lines() {
    let raw = "{\"text\":\"hi\"}";
    let chunk = ChunkData::V1_17(Chunk1_17 {
        level: Chunk1_17Level { block_entities: vec![sign("minecraft:oak_sign", 10, 64, -5, raw)] },
    });
    let (signs, books) = extract_chunk(chunk.into_view());
    assert_eq!(signs.len(), 1);
    assert_eq!(books.len(), 0);
    let parsed = vec![Some(plain("hi")), Some(plain("hi")), Some(plain("hi")), Some(plain("hi"))];
    let r = record(&signs[0], false, parsed);
    assert_eq!(
        render_signs(&vec![r]),
        "========== sign location: 10,64,-5 ==========\ntext: hi\ntext: hi\ntext: hi\ntext: hi\n\n"
    );
}

#[test]
fn written_book_in_1_18_chest_is_reported() {
    let mut chest = block("minecraft:chest", 0, 70, 0);
    chest.items = Some(vec![item("minecraft:written_book", Some(book(&["a", "b"], Some("T"), Some("A"))))]);
    let chunk = ChunkData::V1_18(Chunk1_18 { block_entities: vec![chest] });
    let (signs, books) = extract_chunk(chunk.into_view());
    assert_eq!(signs.len(), 0);
    assert_eq!(books.len(), 1);
    assert_eq!((books[0].x, books[0].y, books[0].z), (0, 70, 0));
    assert_eq!(
        render_books(&books),
        "=========== book location: 0,70,0 ==========\ntitle: T\nauthor: A\npages: 2\n\
         ---------- page 1 ----------\na\n---------- page 2 ----------\nb\n\n"
    );
}

#[test]
fn legacy_sign_lines_are_verbatim() {
    let mut s = sign("Sign", 1, 2, 3, "x");
    s.text1 = Some("Hello".to_string());
    s.text2 = Some("{not json".to_string());
    s.text3 = Some("".to_string());
    s.text4 = Some("last line".to_string());
    let chunk = ChunkData::Legacy(Chunk {
        level: ChunkLevel { tile_entities: vec![s], entities: vec![] },
    });
    let (signs, _) = extract_chunk(chunk.into_view());
    assert_eq!(signs.len(), 1);
    let r = record(&signs[0], true, vec![None, None, None, None]);
    assert_eq!(
        render_signs(&vec![r]),
        "========== sign location: 1,2,3 ==========\ntext: Hello\ntext: {not json\ntext: \ntext: last line\n\n"
    );
}

#[test]
fn only_written_book_of_container_is_kept() {
    let mut chest = block("minecraft:chest", 5, 6, 7);
    chest.items = Some(vec![
        item("minecraft:enchanted_book", Some(book(&["e"], None, None))),
        item("minecraft:book", Some(book(&["b"], None, None))),
        item("minecraft:written_book", Some(book(&["w"], Some("W"), None))),
    ]);
    let view = ChunkView { block_entities: vec![chest], entities: vec![] };
    let (_, books) = extract_chunk(view);
    assert_eq!(books.len(), 1);
    assert_eq!(books[0].book.title.as_deref(), Some("W"));
}

#[test]
fn empty_chunk_contributes_nothing() {
    let view = ChunkView { block_entities: vec![], entities: vec![] };
    let (signs, books) = extract_chunk(view);
    assert!(signs.is_empty());
    assert!(books.is_empty());
}

#[test]
fn sign_with_missing_line_is_not_a_record() {
    let mut s = sign("minecraft:oak_sign", 0, 0, 0, "{\"text\":\"\"}");
    s.text3 = None;
    let view = ChunkView { block_entities: vec![s], entities: vec![] };
    let (signs, books) = extract_chunk(view);
    assert!(signs.is_empty());
    assert!(books.is_empty());
}

#[test]
fn books_without_tag_or_pages_are_skipped() {
    let mut chest = block("minecraft:chest", 0, 0, 0);
    let no_pages = Book { pages: None, title: Some("t".to_string()), author: None };
    chest.items = Some(vec![
        item("minecraft:writable_book", None),
        item("minecraft:written_book", Some(no_pages)),
        item("minecraft:writable_book", Some(book(&[], None, None))),
    ]);
    let view = ChunkView { block_entities: vec![chest], entities: vec![] };
    let (_, books) = extract_chunk(view);
    assert_eq!(books.len(), 1);
    assert_eq!(books[0].book.pages.as_ref().unwrap().len(), 0);
}

#[test]
fn item_entity_book_is_placed_at_its_block() {
    let e = Entity {
        id: "Item".to_string(),
        pos: vec![-1, 64, 3],
        item: Some(item("minecraft:written_book", Some(book(&["p"], None, None)))),
    };
    let short = Entity {
        id: "Item".to_string(),
        pos: vec![1, 2],
        item: Some(item("minecraft:written_book", Some(book(&["q"], None, None)))),
    };
    let chunk = ChunkData::Legacy(Chunk {
        level: ChunkLevel { tile_entities: vec![], entities: vec![e, short] },
    });
    let (_, books) = extract_chunk(chunk.into_view());
    assert_eq!(books.len(), 1);
    assert_eq!((books[0].x, books[0].y, books[0].z), (-1, 64, 3));
}

#[test]
fn entities_of_newer_layouts_are_not_read() {
    let chunk = ChunkData::V1_18(Chunk1_18 { block_entities: vec![] });
    let view = chunk.into_view();
    assert!(view.entities.is_empty());
}

#[test]
fn id_matching_ignores_case() {
    assert!(names_sign(&"Sign".to_string()));
    assert!(names_sign(&"minecraft:OAK_SIGN".to_string()));
    assert!(!names_sign(&"minecraft:chest".to_string()));
    assert!(names_book(&"minecraft:WRITTEN_BOOK".to_string()));
    assert!(names_book(&"minecraft:writable_book".to_string()));
    assert!(!names_book(&"minecraft:Enchanted_Book".to_string()));
    assert!(!names_book(&"minecraft:BOOK".to_string()));
    assert!(!names_book(&"minecraft:bookshelf".to_string()));
}

#[test]
fn take_book_needs_pages() {
    assert!(take_book(item("minecraft:written_book", Some(book(&["x"], None, None)))).is_some());
    assert!(take_book(item("minecraft:enchanted_book", Some(book(&["x"], None, None)))).is_none());
    assert!(take_book(item("minecraft:written_book", None)).is_none());
}

#[test]
fn excluded_ids_never_become_books() {
    let mut chest = block("minecraft:chest", 0, 0, 0);
    chest.items = Some(vec![
        item("minecraft:enchanted_book", Some(book(&["x"], None, None))),
        item("MINECRAFT:BOOK", Some(book(&["x"], None, None))),
    ]);
    let view = ChunkView { block_entities: vec![chest], entities: vec![] };
    let (_, books) = extract_chunk(view);
    assert!(books.is_empty());
}

#[test]
fn book_without_title_or_author_reports_unknown() {
    let b = BookWithPos { book: book(&["§lHello §r§aworld§f!"], None, None), x: -3, y: 0, z: 12 };
    assert_eq!(
        render_books(&vec![b]),
        "=========== book location: -3,0,12 ==========\ntitle: unknown\nauthor: unknown\npages: 1\n\
         ---------- page 1 ----------\nHello world!\n\n"
    );
}

#[test]
fn book_without_pages_reports_zero_pages() {
    let b = BookWithPos { book: Book { pages: None, title: None, author: None }, x: 0, y: 0, z: 0 };
    let out = render_books(&vec![b]);
    assert!(out.contains("pages: 0\n"));
    assert!(!out.contains("---------- page"));
}

#[test]
fn folded_ids_are_matched_by_suffix() {
    assert!(folded_names_sign("minecraft:birch_wall_sign"));
    assert!(!folded_names_sign("minecraft:SIGN"));
    assert!(folded_names_book("minecraft:writable_book"));
    assert!(!folded_names_book("minecraft:enchanted_book"));
    assert!(!folded_names_book("minecraft:book"));
    assert!(!folded_names_book("minecraft:chest"));
}
