//! The text of the two reports: one block per sign and one per book.
use vstd::prelude::*;
use vstd::string::*;
use crate::chunk::{Book, BookWithPos};
use crate::normalize::{strip_formatting, strip_page};
use crate::text::push_char;

verus! {

/// A sign ready to be reported: its position and its four lines as plain
/// text.
pub struct SignRecord {
    pub x: i32,
    pub y: i32,
    pub z: i32,
    pub line1: String,
    pub line2: String,
    pub line3: String,
    pub line4: String,
}

/// The character of decimal digit `d`.
pub open spec fn digit_char(d: nat) -> char {
    seq!['0', '1', '2', '3', '4', '5', '6', '7', '8', '9'][d as int]
}

/// The decimal digits of `n`, without leading zeros.
pub open spec fn digits(n: nat) -> Seq<char>
    decreases n,
{
    if n < 10 {
        seq![digit_char(n)]
    } else {
        digits(n / 10).push(digit_char(n % 10))
    }
}

/// `n` written in decimal, with a leading `-` when negative.
pub open spec fn decimal(n: int) -> Seq<char> {
    if n < 0 {
        seq!['-'] + digits((-n) as nat)
    } else {
        digits(n as nat)
    }
}

fn digit(d: u64) -> (c: char)
    requires
        d < 10,
    ensures
        c == digit_char(d as nat),
{
    if d == 0 {
        '0'
    } else if d == 1 {
        '1'
    } else if d == 2 {
        '2'
    } else if d == 3 {
        '3'
    } else if d == 4 {
        '4'
    } else if d == 5 {
        '5'
    } else if d == 6 {
        '6'
    } else if d == 7 {
        '7'
    } else if d == 8 {
        '8'
    } else {
        '9'
    }
}

fn push_digits(out: &mut String, n: u64)
    ensures
        final(out)@ == old(out)@ + digits(n as nat),
    decreases n,
{
    if n >= 10 {
        push_digits(out, n / 10);
    }
    push_char(out, digit(n % 10));
    assert(final(out)@ =~= old(out)@ + digits(n as nat));
}

fn push_decimal(out: &mut String, n: i64)
    requires
        n > i64::MIN,
    ensures
        final(out)@ == old(out)@ + decimal(n as int),
{
    if n < 0 {
        push_char(out, '-');
        push_digits(out, (-n) as u64);
    } else {
        push_digits(out, n as u64);
    }
    assert(final(out)@ =~= old(out)@ + decimal(n as int));
}

/// The location line of a report block.
pub open spec fn location_line(head: Seq<char>, x: i32, y: i32, z: i32) -> Seq<char> {
    head + decimal(x as int) + ","@ + decimal(y as int) + ","@ + decimal(z as int)
        + " ==========\n"@
}

/// One reported line of sign text.
pub open spec fn text_line(line: Seq<char>) -> Seq<char> {
    "text: "@ + line + "\n"@
}

/// The block reporting one sign: its location, its four lines, a blank line.
pub open spec fn sign_block(r: SignRecord) -> Seq<char> {
    location_line("========== sign location: "@, r.x, r.y, r.z) + text_line(r.line1@) + text_line(
        r.line2@,
    ) + text_line(r.line3@) + text_line(r.line4@) + "\n"@
}

/// The signs report: the block of each sign, in order.
pub open spec fn signs_report(signs: Seq<SignRecord>) -> Seq<char> {
    signs.map_values(|r: SignRecord| sign_block(r)).flatten()
}

/// A title or author, or `unknown` where the book has none.
pub open spec fn or_unknown(o: Option<String>) -> Seq<char> {
    match o {
        Some(t) => t@,
        None => "unknown"@,
    }
}

/// The pages of a book; a book without pages has none.
pub open spec fn book_pages(b: Book) -> Seq<Seq<char>> {
    match b.pages {
        Some(p) => p@.map_values(|s: String| s@),
        None => Seq::empty(),
    }
}

/// Page `k` (counting from 1): its separator, then its text with the
/// formatting escapes removed.
pub open spec fn page_section(k: int, page: Seq<char>) -> Seq<char> {
    "---------- page "@ + decimal(k) + " ----------\n"@ + strip_formatting(page) + "\n"@
}

/// The sections of all pages, in order.
pub open spec fn pages_text(pages: Seq<Seq<char>>) -> Seq<char> {
    Seq::new(pages.len(), |k: int| page_section(k + 1, pages[k])).flatten()
}

/// The block reporting one book: location, title, author, page count, the
/// pages, a blank line.
pub open spec fn book_block(b: BookWithPos) -> Seq<char> {
    let pages = book_pages(b.book);
    location_line("=========== book location: "@, b.x, b.y, b.z) + "title: "@ + or_unknown(
        b.book.title,
    ) + "\n"@ + "author: "@ + or_unknown(b.book.author) + "\n"@ + "pages: "@ + decimal(
        pages.len() as int,
    ) + "\n"@ + pages_text(pages) + "\n"@
}

/// The books report: the block of each book, in order.
pub open spec fn books_report(books: Seq<BookWithPos>) -> Seq<char> {
    books.map_values(|b: BookWithPos| book_block(b)).flatten()
}

fn push_location(out: &mut String, head: &str, x: i32, y: i32, z: i32)
    ensures
        final(out)@ == old(out)@ + location_line(head@, x, y, z),
{
    out.append(head);
    push_decimal(out, x as i64);
    out.append(",");
    push_decimal(out, y as i64);
    out.append(",");
    push_decimal(out, z as i64);
    out.append(" ==========\n");
    assert(final(out)@ =~= old(out)@ + location_line(head@, x, y, z));
}

fn push_sign(out: &mut String, r: &SignRecord)
    ensures
        final(out)@ == old(out)@ + sign_block(*r),
{
    push_location(out, "========== sign location: ", r.x, r.y, r.z);
    out.append("text: ");
    out.append(r.line1.as_str());
    out.append("\n");
    out.append("text: ");
    out.append(r.line2.as_str());
    out.append("\n");
    out.append("text: ");
    out.append(r.line3.as_str());
    out.append("\n");
    out.append("text: ");
    out.append(r.line4.as_str());
    out.append("\n");
    out.append("\n");
    assert(final(out)@ =~= old(out)@ + sign_block(*r));
}

/// The signs report for `signs`.
pub fn render_signs(signs: &Vec<SignRecord>) -> (r: String)
    ensures
        r@ == signs_report(signs@),
{
    let mut out = String::new();
    let mut i: usize = 0;
    assert(signs@.take(0).map_values(|r: SignRecord| sign_block(r)) =~= Seq::<Seq<char>>::empty());
    while i < signs.len()
        invariant
            i <= signs@.len(),
            out@ == signs_report(signs@.take(i as int)),
        decreases signs@.len() - i,
    {
        let ghost before = signs@.take(i as int).map_values(|r: SignRecord| sign_block(r));
        push_sign(&mut out, &signs[i]);
        proof {
            assert(signs@.take(i + 1).map_values(|r: SignRecord| sign_block(r)) =~= before.push(
                sign_block(signs@[i as int]),
            ));
            before.lemma_flatten_push(sign_block(signs@[i as int]));
        }
        i = i + 1;
    }
    assert(signs@.take(signs@.len() as int) =~= signs@);
    out
}

fn push_or_unknown(out: &mut String, o: &Option<String>)
    ensures
        final(out)@ == old(out)@ + or_unknown(*o),
{
    match o {
        Some(t) => out.append(t.as_str()),
        None => out.append("unknown"),
    }
}

fn push_pages(out: &mut String, pages: &Vec<String>)
    ensures
        final(out)@ == old(out)@ + pages_text(pages@.map_values(|s: String| s@)),
{
    let ghost ps = pages@.map_values(|s: String| s@);
    let ghost start = out@;
    let mut i: usize = 0;
    assert(Seq::new(0, |k: int| page_section(k + 1, ps[k])) =~= Seq::<Seq<char>>::empty());
    while i < pages.len()
        invariant
            i <= pages@.len(),
            ps == pages@.map_values(|s: String| s@),
            out@ == start + Seq::new(i as nat, |k: int| page_section(k + 1, ps[k])).flatten(),
        decreases pages@.len() - i,
    {
        let ghost before = Seq::new(i as nat, |k: int| page_section(k + 1, ps[k]));
        out.append("---------- page ");
        push_digits(out, i as u64 + 1);
        out.append(" ----------\n");
        let page = strip_page(pages[i].as_str());
        out.append(page.as_str());
        out.append("\n");
        proof {
            assert(Seq::new((i + 1) as nat, |k: int| page_section(k + 1, ps[k])) =~= before.push(
                page_section(i + 1, ps[i as int]),
            ));
            before.lemma_flatten_push(page_section(i + 1, ps[i as int]));
            assert(out@ =~= start + before.flatten() + page_section(i + 1, ps[i as int]));
        }
        i = i + 1;
    }
}

fn push_book(out: &mut String, b: &BookWithPos)
    ensures
        final(out)@ == old(out)@ + book_block(*b),
{
    push_location(out, "=========== book location: ", b.x, b.y, b.z);
    out.append("title: ");
    push_or_unknown(out, &b.book.title);
    out.append("\n");
    out.append("author: ");
    push_or_unknown(out, &b.book.author);
    out.append("\n");
    out.append("pages: ");
    match &b.book.pages {
        Some(pages) => {
            push_digits(out, pages.len() as u64);
            out.append("\n");
            push_pages(out, pages);
        },
        None => {
            push_digits(out, 0);
            out.append("\n");
            assert(Seq::new(0, |k: int| page_section(k + 1, Seq::<Seq<char>>::empty()[k]))
                =~= Seq::<Seq<char>>::empty());
        },
    }
    out.append("\n");
    assert(final(out)@ =~= old(out)@ + book_block(*b));
}

/// The books report for `books`.
pub fn render_books(books: &Vec<BookWithPos>) -> (r: String)
    ensures
        r@ == books_report(books@),
{
    let mut out = String::new();
    let mut i: usize = 0;
    assert(books@.take(0).map_values(|b: BookWithPos| book_block(b)) =~= Seq::<Seq<char>>::empty());
    while i < books.len()
        invariant
            i <= books@.len(),
            out@ == books_report(books@.take(i as int)),
        decreases books@.len() - i,
    {
        let ghost before = books@.take(i as int).map_values(|b: BookWithPos| book_block(b));
        push_book(&mut out, &books[i]);
        proof {
            assert(books@.take(i + 1).map_values(|b: BookWithPos| book_block(b)) =~= before.push(
                book_block(books@[i as int]),
            ));
            before.lemma_flatten_push(book_block(books@[i as int]));
        }
        i = i + 1;
    }
    assert(books@.take(books@.len() as int) =~= books@);
    out
}


proof fn lemma_flatten_splits_at(blocks: Seq<Seq<char>>, i: int)
    requires
        0 <= i < blocks.len(),
    ensures
        blocks.flatten() == blocks.take(i).flatten() + blocks[i] + blocks.skip(i + 1).flatten(),
{
    let a = blocks.take(i);
    let b = seq![blocks[i]];
    let c = blocks.skip(i + 1);
    assert(blocks =~= a + b + c);
    vstd::seq_lib::lemma_flatten_concat(a + b, c);
    vstd::seq_lib::lemma_flatten_concat(a, b);
    b.lemma_flatten_one_element();
}

/// Every sign appears in the signs report as its own block, and that block
/// holds the location line followed by four `text: ` lines.
pub proof fn lemma_each_sign_reported(signs: Seq<SignRecord>, i: int)
    requires
        0 <= i < signs.len(),
    ensures
        exists|pre: Seq<char>, post: Seq<char>|
            signs_report(signs) == pre + sign_block(signs[i]) + post,
        sign_block(signs[i]) == location_line(
            "========== sign location: "@,
            signs[i].x,
            signs[i].y,
            signs[i].z,
        ) + text_line(signs[i].line1@) + text_line(signs[i].line2@) + text_line(signs[i].line3@)
            + text_line(signs[i].line4@) + "\n"@,
{
    let blocks = signs.map_values(|r: SignRecord| sign_block(r));
    lemma_flatten_splits_at(blocks, i);
    let pre = blocks.take(i).flatten();
    let post = blocks.skip(i + 1).flatten();
    assert(signs_report(signs) == pre + sign_block(signs[i]) + post);
}

/// Every book appears in the books report as its own block; the page count
/// in that block's header equals the number of page sections that follow,
/// and section `k` opens with the separator numbered `k + 1`.
pub proof fn lemma_each_book_reported(books: Seq<BookWithPos>, i: int)
    requires
        0 <= i < books.len(),
    ensures
        exists|pre: Seq<char>, post: Seq<char>|
            books_report(books) == pre + book_block(books[i]) + post,
        ({
            let b = books[i];
            let pages = book_pages(b.book);
            let sections = Seq::new(pages.len(), |k: int| page_section(k + 1, pages[k]));
            &&& sections.len() == pages.len()
            &&& book_block(b) == location_line("=========== book location: "@, b.x, b.y, b.z)
                + "title: "@ + or_unknown(b.book.title) + "\n"@ + "author: "@ + or_unknown(
                b.book.author,
            ) + "\n"@ + "pages: "@ + decimal(sections.len() as int) + "\n"@ + sections.flatten()
                + "\n"@
            &&& forall|k: int|
                0 <= k < sections.len() ==> #[trigger] sections[k] == "---------- page "@
                    + decimal(k + 1) + " ----------\n"@ + strip_formatting(pages[k]) + "\n"@
        }),
{
    let blocks = books.map_values(|b: BookWithPos| book_block(b));
    lemma_flatten_splits_at(blocks, i);
    let pre = blocks.take(i).flatten();
    let post = blocks.skip(i + 1).flatten();
    assert(books_report(books) == pre + book_block(books[i]) + post);
}

/// With no records, both reports are empty.
pub proof fn lemma_no_records_empty_reports()
    ensures
        signs_report(Seq::empty()) == Seq::<char>::empty(),
        books_report(Seq::empty()) == Seq::<char>::empty(),
{
    assert(Seq::<SignRecord>::empty().map_values(|r: SignRecord| sign_block(r))
        =~= Seq::<Seq<char>>::empty());
    assert(Seq::<BookWithPos>::empty().map_values(|b: BookWithPos| book_block(b))
        =~= Seq::<Seq<char>>::empty());
}

} // verus!
