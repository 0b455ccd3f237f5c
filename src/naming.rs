//! Region coordinates from region file names of the form `r.<rx>.<rz>.mca`.
use vstd::prelude::*;
use vstd::string::*;

verus! {

/// The value of decimal digit `c`, or -1 where `c` is not one.
pub open spec fn digit_value(c: char) -> int {
    if c == '0' {
        0
    } else if c == '1' {
        1
    } else if c == '2' {
        2
    } else if c == '3' {
        3
    } else if c == '4' {
        4
    } else if c == '5' {
        5
    } else if c == '6' {
        6
    } else if c == '7' {
        7
    } else if c == '8' {
        8
    } else if c == '9' {
        9
    } else {
        -1
    }
}

/// Whether `t` is a non-empty run of decimal digits.
pub open spec fn all_digits(t: Seq<char>) -> bool {
    t.len() > 0 && forall|i: int| 0 <= i < t.len() ==> digit_value(#[trigger] t[i]) >= 0
}

/// The number written by the decimal digits `t`.
pub open spec fn digits_value(t: Seq<char>) -> int
    decreases t.len(),
{
    if t.len() == 0 {
        0
    } else {
        digits_value(t.drop_last()) * 10 + digit_value(t.last())
    }
}

/// The integer written by `t`: digits, optionally after a minus sign.
pub open spec fn int_of(t: Seq<char>) -> Option<int> {
    if all_digits(t) {
        Some(digits_value(t))
    } else if t.len() > 0 && t[0] == '-' && all_digits(t.skip(1)) {
        Some(-digits_value(t.skip(1)))
    } else {
        None
    }
}

/// The integer written by `t`, where it fits in an `i32`.
pub open spec fn i32_of(t: Seq<char>) -> Option<i32> {
    match int_of(t) {
        Some(v) => if i32::MIN <= v <= i32::MAX {
            Some(v as i32)
        } else {
            None
        },
        None => None,
    }
}

/// Index of the first `.` in `m`, or `m.len()` where there is none.
pub open spec fn first_dot(m: Seq<char>) -> int
    decreases m.len(),
{
    if m.len() == 0 {
        0
    } else if m[0] == '.' {
        0
    } else {
        1 + first_dot(m.skip(1))
    }
}

/// The region coordinates a file name gives: `r.`, an integer, `.`, an
/// integer, `.mca`, each integer fitting in an `i32`.
pub open spec fn region_coords_of(name: Seq<char>) -> Option<(i32, i32)> {
    let n = name.len() as int;
    if n >= 6 && name.take(2) == "r."@ && name.skip(n - 4) == ".mca"@ {
        let m = name.subrange(2, n - 4);
        let d = first_dot(m);
        if d < m.len() {
            match (i32_of(m.take(d)), i32_of(m.skip(d + 1))) {
                (Some(a), Some(b)) => Some((a, b)),
                _ => None,
            }
        } else {
            None
        }
    } else {
        None
    }
}

proof fn lemma_digits_value_grows(t: Seq<char>, k: int)
    requires
        0 <= k <= t.len(),
        forall|i: int| 0 <= i < t.len() ==> digit_value(#[trigger] t[i]) >= 0,
    ensures
        digits_value(t) >= digits_value(t.take(k)) >= 0,
    decreases t.len(),
{
    if t.len() > 0 {
        let p = t.drop_last();
        assert(forall|i: int| 0 <= i < p.len() ==> p[i] == t[i]);
        if k == t.len() {
            assert(t.take(k) =~= t);
            lemma_digits_value_grows(p, p.len() as int);
        } else {
            assert(p.take(k) =~= t.take(k));
            lemma_digits_value_grows(p, k);
        }
    } else {
        assert(t.take(k) =~= t);
    }
}

fn digit_of(c: char) -> (r: i64)
    ensures
        r == digit_value(c),
{
    if c == '0' {
        0
    } else if c == '1' {
        1
    } else if c == '2' {
        2
    } else if c == '3' {
        3
    } else if c == '4' {
        4
    } else if c == '5' {
        5
    } else if c == '6' {
        6
    } else if c == '7' {
        7
    } else if c == '8' {
        8
    } else if c == '9' {
        9
    } else {
        -1
    }
}

/// Value of the digits `s[from..to]`, or `None` where that is not a
/// non-empty run of digits or its value exceeds `2^31`.
fn digits_at(s: &str, from: usize, to: usize) -> (r: Option<i64>)
    requires
        from <= to <= s@.len(),
    ensures
        match r {
            Some(v) => 0 <= v <= 0x8000_0000 && all_digits(s@.subrange(from as int, to as int)) && v == digits_value(
                s@.subrange(from as int, to as int),
            ),
            None => !all_digits(s@.subrange(from as int, to as int)) || digits_value(
                s@.subrange(from as int, to as int),
            ) > 0x8000_0000,
        },
{
    let ghost t = s@.subrange(from as int, to as int);
    if from == to {
        return None;
    }
    let mut v: i64 = 0;
    let mut i: usize = from;
    while i < to
        invariant
            from <= i <= to <= s@.len(),
            t == s@.subrange(from as int, to as int),
            0 <= v <= 0x8000_0000,
            forall|k: int| 0 <= k < i - from ==> digit_value(#[trigger] t[k]) >= 0,
            v == digits_value(t.take(i - from)),
        decreases to - i,
    {
        let d = digit_of(s.get_char(i));
        assert(t[i - from] == s@[i as int]);
        if d < 0 {
            return None;
        }
        assert(t.take(i - from + 1).drop_last() =~= t.take(i - from));
        let w = v * 10 + d;
        if w > 0x8000_0000 {
            proof {
                assert forall|k: int| 0 <= k < i - from + 1 implies digit_value(
                    #[trigger] t.take(i - from + 1)[k],
                ) >= 0 by {
                    assert(t.take(i - from + 1)[k] == t[k]);
                }
                if all_digits(t) {
                    lemma_digits_value_grows(t, i - from + 1);
                }
            }
            return None;
        }
        v = w;
        i = i + 1;
    }
    assert(t.take(to - from) =~= t);
    Some(v)
}

/// The integer written by `s[from..to]`, where it fits in an `i32`.
fn i32_at(s: &str, from: usize, to: usize) -> (r: Option<i32>)
    requires
        from <= to <= s@.len(),
    ensures
        r == i32_of(s@.subrange(from as int, to as int)),
{
    let ghost t = s@.subrange(from as int, to as int);
    if from < to && s.get_char(from) == '-' {
        assert(t[0] == '-');
        assert(!all_digits(t)) by {
            assert(digit_value(t[0]) < 0);
        }
        assert(t.skip(1) =~= s@.subrange(from + 1, to as int));
        match digits_at(s, from + 1, to) {
            Some(v) => {
                Some((-v) as i32)
            },
            None => None,
        }
    } else {
        proof {
            if from < to {
                assert(t[0] == s@[from as int]);
            }
        }
        match digits_at(s, from, to) {
            Some(v) => {
                if v > 0x7fff_ffff {
                    None
                } else {
                    Some(v as i32)
                }
            },
            None => None,
        }
    }
}

/// The region coordinates given by a region file name, or `None` for a
/// name that is not of the form `r.<rx>.<rz>.mca`.
pub fn region_coords(name: &str) -> (r: Option<(i32, i32)>)
    ensures
        r == region_coords_of(name@),
{
    let n = name.unicode_len();
    if n < 6 {
        return None;
    }
    proof {
        reveal_strlit("r.");
        reveal_strlit(".mca");
    }
    if name.get_char(0) != 'r' || name.get_char(1) != '.' {
        assert(name@.take(2)[0] == name@[0] && name@.take(2)[1] == name@[1]);
        return None;
    }
    assert(name@.take(2) =~= "r."@);
    let e = n - 4;
    if name.get_char(e) != '.' || name.get_char(e + 1) != 'm' || name.get_char(e + 2) != 'c'
        || name.get_char(e + 3) != 'a' {
        assert(name@.skip(e as int)[0] == name@[e as int]);
        assert(name@.skip(e as int)[1] == name@[e + 1]);
        assert(name@.skip(e as int)[2] == name@[e + 2]);
        assert(name@.skip(e as int)[3] == name@[e + 3]);
        return None;
    }
    assert(name@.skip(e as int) =~= ".mca"@);
    let ghost m = name@.subrange(2, e as int);
    let mut d: usize = 2;
    assert(m.skip(0) =~= m);
    while d < e && name.get_char(d) != '.'
        invariant
            2 <= d <= e,
            e == name@.len() - 4,
            m == name@.subrange(2, e as int),
            first_dot(m) == (d - 2) + first_dot(m.skip(d - 2)),
        decreases e - d,
    {
        assert(m.skip(d - 2)[0] == name@[d as int]);
        assert(m.skip(d - 2).skip(1) =~= m.skip(d - 1));
        d = d + 1;
    }
    if d == e {
        assert(m.skip(d - 2).len() == 0);
        return None;
    }
    assert(m.skip(d - 2)[0] == name@[d as int]);
    assert(m.take(d - 2) =~= name@.subrange(2, d as int));
    assert(m.skip(d - 1) =~= name@.subrange(d + 1, e as int));
    let a = i32_at(name, 2, d);
    let b = i32_at(name, d + 1, e);
    match (a, b) {
        (Some(a), Some(b)) => Some((a, b)),
        _ => None,
    }
}

} // verus!
