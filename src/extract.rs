//! Classification of block entities and entities into sign records and
//! books with their positions.
use vstd::prelude::*;
use crate::chunk::{Book, BookWithPos, ChunkLevelTileEntities, ChunkView, Entity, Item};
use crate::text::{ends_with, lower_of, lowercase, seq_ends_with};

verus! {

/// Whether a lowercased id names a sign block.
pub open spec fn folded_is_sign(l: Seq<char>) -> bool {
    seq_ends_with(l, "sign"@)
}

/// Whether a lowercased id names a written or writable book: enchanted
/// books and the plain book item are left out.
pub open spec fn folded_is_book(l: Seq<char>) -> bool {
    seq_ends_with(l, "book"@) && !seq_ends_with(l, "enchanted_book"@) && !seq_ends_with(l, ":book"@)
}

/// Whether an id names a sign block, ignoring case.
pub open spec fn is_sign_id(id: Seq<char>) -> bool {
    folded_is_sign(lower_of(id))
}

/// Whether an id names a written or writable book, ignoring case.
pub open spec fn is_book_id(id: Seq<char>) -> bool {
    folded_is_book(lower_of(id))
}

/// A sign record: a sign block entity with all four lines present.
pub open spec fn is_sign(be: ChunkLevelTileEntities) -> bool {
    &&& is_sign_id(be.id@)
    &&& be.text1 is Some
    &&& be.text2 is Some
    &&& be.text3 is Some
    &&& be.text4 is Some
}

/// The book an item carries, if it is a book item whose tag has pages.
pub open spec fn book_of_item(item: Item) -> Option<Book> {
    if is_book_id(item.id@) && item.tag is Some && item.tag->Some_0.pages is Some {
        item.tag
    } else {
        None
    }
}

/// The books among `items`, placed at `(x, y, z)`, in order.
pub open spec fn item_books(items: Seq<Item>, x: i32, y: i32, z: i32) -> Seq<BookWithPos>
    decreases items.len(),
{
    if items.len() == 0 {
        Seq::empty()
    } else {
        let prev = item_books(items.drop_last(), x, y, z);
        match book_of_item(items.last()) {
            Some(b) => prev.push(BookWithPos { book: b, x, y, z }),
            None => prev,
        }
    }
}

/// The books held by a block entity that is not a sign.
pub open spec fn block_books(be: ChunkLevelTileEntities) -> Seq<BookWithPos> {
    if !is_sign_id(be.id@) && be.items is Some {
        item_books(be.items->Some_0@, be.x, be.y, be.z)
    } else {
        Seq::empty()
    }
}

/// The sign records among `bes`, in order.
pub open spec fn signs_of(bes: Seq<ChunkLevelTileEntities>) -> Seq<ChunkLevelTileEntities>
    decreases bes.len(),
{
    if bes.len() == 0 {
        Seq::empty()
    } else if is_sign(bes.last()) {
        signs_of(bes.drop_last()).push(bes.last())
    } else {
        signs_of(bes.drop_last())
    }
}

/// The books held by the block entities `bes`, in order.
pub open spec fn books_of_blocks(bes: Seq<ChunkLevelTileEntities>) -> Seq<BookWithPos>
    decreases bes.len(),
{
    if bes.len() == 0 {
        Seq::empty()
    } else {
        books_of_blocks(bes.drop_last()) + block_books(bes.last())
    }
}

/// The book an item entity carries, at the entity's block position.
pub open spec fn entity_book(e: Entity) -> Option<BookWithPos> {
    if e.pos@.len() >= 3 && e.item is Some && book_of_item(e.item->Some_0) is Some {
        Some(
            BookWithPos {
                book: book_of_item(e.item->Some_0)->Some_0,
                x: e.pos@[0],
                y: e.pos@[1],
                z: e.pos@[2],
            },
        )
    } else {
        None
    }
}

/// The books carried by the entities `es`, in order.
pub open spec fn books_of_entities(es: Seq<Entity>) -> Seq<BookWithPos>
    decreases es.len(),
{
    if es.len() == 0 {
        Seq::empty()
    } else {
        match entity_book(es.last()) {
            Some(b) => books_of_entities(es.drop_last()).push(b),
            None => books_of_entities(es.drop_last()),
        }
    }
}

/// Whether the lowercased id `folded` names a sign block.
pub fn folded_names_sign(folded: &str) -> (r: bool)
    ensures
        r == folded_is_sign(folded@),
{
    ends_with(folded, "sign")
}

/// Whether the lowercased id `folded` names a written or writable book.
pub fn folded_names_book(folded: &str) -> (r: bool)
    ensures
        r == folded_is_book(folded@),
{
    ends_with(folded, "book") && !ends_with(folded, "enchanted_book") && !ends_with(folded, ":book")
}

/// Whether `id` names a sign block, ignoring case.
pub fn names_sign(id: &String) -> (r: bool)
    ensures
        r == is_sign_id(id@),
{
    let l = lowercase(id.as_str());
    folded_names_sign(l.as_str())
}

/// Whether `id` names a written or writable book, ignoring case.
pub fn names_book(id: &String) -> (r: bool)
    ensures
        r == is_book_id(id@),
{
    let l = lowercase(id.as_str());
    folded_names_book(l.as_str())
}

/// The book an item carries, if any.
pub fn take_book(item: Item) -> (r: Option<Book>)
    ensures
        r == book_of_item(item),
{
    if !names_book(&item.id) {
        return None;
    }
    match item.tag {
        Some(book) => {
            if book.pages.is_some() {
                Some(book)
            } else {
                None
            }
        },
        None => None,
    }
}

/// Appends the books among `items`, placed at `(x, y, z)`, to `out`.
pub fn collect_item_books(items: Vec<Item>, x: i32, y: i32, z: i32, out: &mut Vec<BookWithPos>)
    ensures
        final(out)@ == old(out)@ + item_books(items@, x, y, z),
{
    let ghost all = items@;
    let ghost start = out@;
    let mut rest = items;
    let n = rest.len();
    let mut i: usize = 0;
    while i < n
        invariant
            n == all.len(),
            i <= n,
            rest@ == all.subrange(i as int, n as int),
            out@ == start + item_books(all.take(i as int), x, y, z),
        decreases n - i,
    {
        let item = rest.remove(0);
        assert(all.take(i + 1).drop_last() =~= all.take(i as int));
        assert(item == all.take(i + 1).last());
        match take_book(item) {
            Some(book) => {
                out.push(BookWithPos { book, x, y, z });
                assert(out@ =~= start + item_books(all.take(i + 1), x, y, z));
            },
            None => {},
        }
        assert(rest@ =~= all.subrange(i + 1, n as int));
        i = i + 1;
    }
    assert(all.take(n as int) =~= all);
}

/// Sorts the block entities of a chunk into sign records and books.
pub fn collect_block_entities(
    bes: Vec<ChunkLevelTileEntities>,
    signs: &mut Vec<ChunkLevelTileEntities>,
    books: &mut Vec<BookWithPos>,
)
    ensures
        final(signs)@ == old(signs)@ + signs_of(bes@),
        final(books)@ == old(books)@ + books_of_blocks(bes@),
{
    let ghost all = bes@;
    let ghost s0 = signs@;
    let ghost b0 = books@;
    let mut rest = bes;
    let n = rest.len();
    let mut i: usize = 0;
    while i < n
        invariant
            n == all.len(),
            i <= n,
            rest@ == all.subrange(i as int, n as int),
            signs@ == s0 + signs_of(all.take(i as int)),
            books@ == b0 + books_of_blocks(all.take(i as int)),
        decreases n - i,
    {
        let be = rest.remove(0);
        let ghost prefix = all.take(i + 1);
        assert(prefix.drop_last() =~= all.take(i as int));
        assert(be == prefix.last());
        let sign_id = names_sign(&be.id);
        if sign_id {
            if be.text1.is_some() && be.text2.is_some() && be.text3.is_some() && be.text4.is_some() {
                signs.push(be);
                assert(signs@ =~= s0 + signs_of(prefix));
            }
            assert(books@ =~= b0 + books_of_blocks(prefix));
        } else {
            match be.items {
                Some(items) => {
                    collect_item_books(items, be.x, be.y, be.z, books);
                },
                None => {},
            }
            assert(books@ =~= b0 + books_of_blocks(prefix));
        }
        assert(rest@ =~= all.subrange(i + 1, n as int));
        i = i + 1;
    }
    assert(all.take(n as int) =~= all);
}

/// Appends the books carried by the entities `es` to `out`.
pub fn collect_entity_books(es: Vec<Entity>, out: &mut Vec<BookWithPos>)
    ensures
        final(out)@ == old(out)@ + books_of_entities(es@),
{
    let ghost all = es@;
    let ghost start = out@;
    let mut rest = es;
    let n = rest.len();
    let mut i: usize = 0;
    while i < n
        invariant
            n == all.len(),
            i <= n,
            rest@ == all.subrange(i as int, n as int),
            out@ == start + books_of_entities(all.take(i as int)),
        decreases n - i,
    {
        let e = rest.remove(0);
        let ghost prefix = all.take(i + 1);
        assert(prefix.drop_last() =~= all.take(i as int));
        assert(e == prefix.last());
        if e.pos.len() >= 3 {
            let x = e.pos[0];
            let y = e.pos[1];
            let z = e.pos[2];
            match e.item {
                Some(item) => {
                    match take_book(item) {
                        Some(book) => {
                            out.push(BookWithPos { book, x, y, z });
                        },
                        None => {},
                    }
                },
                None => {},
            }
        }
        assert(out@ =~= start + books_of_entities(prefix));
        assert(rest@ =~= all.subrange(i + 1, n as int));
        i = i + 1;
    }
    assert(all.take(n as int) =~= all);
}

/// The sign records and the books of one chunk: signs in the order of the
/// block entities; books of block entities first, then those of entities.
pub fn extract_chunk(view: ChunkView) -> (r: (Vec<ChunkLevelTileEntities>, Vec<BookWithPos>))
    ensures
        r.0@ == signs_of(view.block_entities@),
        r.1@ == books_of_blocks(view.block_entities@) + books_of_entities(view.entities@),
{
    let mut signs: Vec<ChunkLevelTileEntities> = Vec::new();
    let mut books: Vec<BookWithPos> = Vec::new();
    let ghost bes = view.block_entities@;
    let ghost es = view.entities@;
    collect_block_entities(view.block_entities, &mut signs, &mut books);
    collect_entity_books(view.entities, &mut books);
    assert(signs@ =~= signs_of(bes));
    assert(books@ =~= books_of_blocks(bes) + books_of_entities(es));
    (signs, books)
}

/// An item whose case-folded id ends with `enchanted_book` or `:book`
/// yields no book, wherever it lies.
pub proof fn lemma_excluded_items_give_no_book(item: Item, x: i32, y: i32, z: i32)
    requires
        seq_ends_with(lower_of(item.id@), "enchanted_book"@) || seq_ends_with(
            lower_of(item.id@),
            ":book"@,
        ),
    ensures
        book_of_item(item) is None,
        item_books(seq![item], x, y, z) == Seq::<BookWithPos>::empty(),
{
    assert(seq![item].drop_last() =~= Seq::<Item>::empty());
    assert(seq![item].last() == item);
    assert(item_books(Seq::<Item>::empty(), x, y, z) == Seq::<BookWithPos>::empty());
}

/// A chunk with no block entities and no entities contributes nothing.
pub proof fn lemma_empty_chunk_contributes_nothing()
    ensures
        signs_of(Seq::empty()) == Seq::<ChunkLevelTileEntities>::empty(),
        books_of_blocks(Seq::empty()) + books_of_entities(Seq::empty()) == Seq::<
            BookWithPos,
        >::empty(),
{
    assert(Seq::<BookWithPos>::empty() + Seq::<BookWithPos>::empty() =~= Seq::<
        BookWithPos,
    >::empty());
}

} // verus!
