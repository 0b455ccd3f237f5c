//! Normalization of sign lines and book pages to plain text.
use vstd::prelude::*;
use vstd::string::*;
use crate::text::push_char;

verus! {

/// The legacy in-band formatting escape.
pub const SECTION_SIGN: char = '§';

/// Whether `c` is a formatting code that may follow the section sign:
/// `k l m n o r 0-9 a-f`, in either case.
pub open spec fn is_format_code(c: char) -> bool {
    ||| ('0' <= c && c <= '9')
    ||| ('a' <= c && c <= 'f')
    ||| ('A' <= c && c <= 'F')
    ||| c == 'k' || c == 'l' || c == 'm' || c == 'n' || c == 'o' || c == 'r'
    ||| c == 'K' || c == 'L' || c == 'M' || c == 'N' || c == 'O' || c == 'R'
}

/// Page text with every section sign removed, together with the formatting
/// code that directly follows it.
pub open spec fn strip_formatting(s: Seq<char>) -> Seq<char>
    decreases s.len(),
{
    if s.len() == 0 {
        Seq::empty()
    } else if s[0] == SECTION_SIGN {
        if s.len() >= 2 && is_format_code(s[1]) {
            strip_formatting(s.skip(2))
        } else {
            strip_formatting(s.skip(1))
        }
    } else {
        seq![s[0]] + strip_formatting(s.skip(1))
    }
}

/// Whether `c` is a formatting code.
pub fn format_code(c: char) -> (r: bool)
    ensures
        r == is_format_code(c),
{
    ('0' <= c && c <= '9') || ('a' <= c && c <= 'f') || ('A' <= c && c <= 'F') || c == 'k' || c
        == 'l' || c == 'm' || c == 'n' || c == 'o' || c == 'r' || c == 'K' || c == 'L' || c == 'M'
        || c == 'N' || c == 'O' || c == 'R'
}

/// A book page with its formatting escapes removed.
pub fn strip_page(page: &str) -> (r: String)
    ensures
        r@ == strip_formatting(page@),
{
    let n = page.unicode_len();
    let mut out = String::new();
    let mut i: usize = 0;
    assert(page@.skip(0) =~= page@);
    assert(out@ + strip_formatting(page@) =~= strip_formatting(page@));
    while i < n
        invariant
            n == page@.len(),
            i <= n,
            out@ + strip_formatting(page@.skip(i as int)) == strip_formatting(page@),
        decreases n - i,
    {
        let c = page.get_char(i);
        let ghost rest = page@.skip(i as int);
        if c == SECTION_SIGN {
            if i + 1 < n && format_code(page.get_char(i + 1)) {
                assert(rest.skip(2) =~= page@.skip(i + 2));
                i = i + 2;
            } else {
                assert(rest.skip(1) =~= page@.skip(i + 1));
                i = i + 1;
            }
        } else {
            assert(rest.skip(1) =~= page@.skip(i + 1));
            push_char(&mut out, c);
            assert(out@ + strip_formatting(page@.skip(i + 1)) =~= strip_formatting(page@));
            i = i + 1;
        }
    }
    assert(page@.skip(n as int) =~= Seq::<char>::empty());
    assert(out@ =~= out@ + strip_formatting(page@.skip(n as int)));
    out
}

/// No section sign is left in a stripped page.
pub proof fn lemma_stripped_has_no_section_sign(s: Seq<char>)
    ensures
        forall|i: int|
            0 <= i < strip_formatting(s).len() ==> #[trigger] strip_formatting(s)[i]
                != SECTION_SIGN,
    decreases s.len(),
{
    if s.len() > 0 {
        lemma_stripped_has_no_section_sign(s.skip(1));
        if s.len() >= 2 {
            lemma_stripped_has_no_section_sign(s.skip(2));
        }
        if s[0] == SECTION_SIGN {
            if s.len() >= 2 && is_format_code(s[1]) {
                assert(strip_formatting(s) == strip_formatting(s.skip(2)));
            } else {
                assert(strip_formatting(s) == strip_formatting(s.skip(1)));
            }
        } else {
            let t = strip_formatting(s);
            let rest = strip_formatting(s.skip(1));
            assert(t == seq![s[0]] + rest);
            assert forall|i: int| 0 <= i < t.len() implies t[i] != SECTION_SIGN by {
                if i > 0 {
                    assert(t[i] == rest[i - 1]);
                }
            }
        }
    }
}

/// One entry of the `extra` list of a sign's text component.
pub struct SignExtra {
    pub text: String,
    pub color: Option<String>,
    pub bold: Option<bool>,
    pub italic: Option<bool>,
    pub underlined: Option<bool>,
    pub strikethrough: Option<bool>,
    pub obfuscated: Option<bool>,
}

/// The JSON text component stored in each line of a modern sign.
pub struct SignText {
    pub text: String,
    pub extra: Option<Vec<SignExtra>>,
}

/// The texts of `extras`, concatenated in order.
pub open spec fn extras_text(extras: Seq<SignExtra>) -> Seq<char>
    decreases extras.len(),
{
    if extras.len() == 0 {
        Seq::empty()
    } else {
        extras_text(extras.drop_last()) + extras.last().text@
    }
}

/// The plain text of a text component: its own text, then that of each
/// `extra` entry; styles are dropped.
pub open spec fn flat_text(t: SignText) -> Seq<char> {
    match t.extra {
        Some(extras) => t.text@ + extras_text(extras@),
        None => t.text@,
    }
}

impl SignText {
    /// The plain text of this component.
    pub fn flatten(&self) -> (r: String)
        ensures
            r@ == flat_text(*self),
    {
        let mut out = self.text.clone();
        match &self.extra {
            Some(extras) => {
                let mut i: usize = 0;
                while i < extras.len()
                    invariant
                        i <= extras@.len(),
                        out@ == self.text@ + extras_text(extras@.take(i as int)),
                    decreases extras@.len() - i,
                {
                    out.append(extras[i].text.as_str());
                    assert(extras@.take(i + 1).drop_last() =~= extras@.take(i as int));
                    assert(out@ =~= self.text@ + extras_text(extras@.take(i + 1)));
                    i = i + 1;
                }
                assert(extras@.take(extras@.len() as int) =~= extras@);
            },
            None => {},
        }
        out
    }
}

/// The text of one sign line: verbatim in a legacy world; otherwise the
/// plain text of the line's parsed component, or an empty line where the
/// line did not parse.
pub open spec fn sign_line_text(legacy: bool, raw: Seq<char>, parsed: Option<SignText>) -> Seq<
    char,
> {
    if legacy {
        raw
    } else {
        match parsed {
            Some(t) => flat_text(t),
            None => Seq::empty(),
        }
    }
}

/// Normalizes one sign line. `parsed` is the line read as a JSON text
/// component, or `None` where it is not one.
pub fn sign_line(legacy: bool, raw: &String, parsed: Option<SignText>) -> (r: String)
    ensures
        r@ == sign_line_text(legacy, raw@, parsed),
{
    if legacy {
        raw.clone()
    } else {
        match parsed {
            Some(t) => t.flatten(),
            None => String::new(),
        }
    }
}

/// On the legacy path a line passes through unchanged, so normalizing its
/// output again gives the same text.
pub proof fn lemma_legacy_line_idempotent(
    raw: Seq<char>,
    first: Option<SignText>,
    second: Option<SignText>,
)
    ensures
        sign_line_text(true, raw, first) == raw,
        sign_line_text(true, sign_line_text(true, raw, first), second) == sign_line_text(
            true,
            raw,
            first,
        ),
{
}

} // verus!
