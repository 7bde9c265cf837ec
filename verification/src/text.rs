//! Case-insensitive ASCII matching over addresses and metadata bytes, and
//! lossy UTF-8 decoding of metadata for display.
//!
//! Matching folds only the ASCII letters `A`-`Z`; registry entries and
//! builder fragments are ASCII, so this is the case-insensitivity the
//! analysis needs.

use vstd::prelude::*;

verus! {

/// The ASCII lower-case fold of one byte.
pub open spec fn lower_byte(b: u8) -> u8 {
    if 65 <= b <= 90 {
        (b + 32) as u8
    } else {
        b
    }
}

/// The ASCII lower-case fold of one character's code point.
pub open spec fn lower_code(c: char) -> int {
    if 65 <= c as int <= 90 {
        c as int + 32
    } else {
        c as int
    }
}

/// `a` equals `e` after ASCII-lower-folding `a` alone; `e` is expected to be
/// lower-case already.
pub open spec fn folded_eq(a: Seq<char>, e: Seq<char>) -> bool {
    a.len() == e.len() && forall|i: int| 0 <= i < a.len() ==> lower_code(#[trigger] a[i]) == e[i] as int
}

/// The fragment occurs at position `i` of `data`, comparing bytes after
/// ASCII-lower-folding the data side.
pub open spec fn frag_matches_at(data: Seq<u8>, frag: Seq<char>, i: int) -> bool {
    forall|j: int| 0 <= j < frag.len() ==> lower_byte(data[i + j]) as int == #[trigger] frag[j] as int
}

/// The fragment occurs somewhere in `data`, case-insensitively.
pub open spec fn contains_frag(data: Seq<u8>, frag: Seq<char>) -> bool {
    exists|i: int| 0 <= i <= data.len() - frag.len() && frag_matches_at(data, frag, i)
}

/// Compares a string against an ASCII pattern, folding the string's ASCII
/// upper-case letters to lower case.
pub fn eq_fold_ascii(a: &str, e: &str) -> (r: bool)
    requires
        e.is_ascii(),
    ensures
        r == folded_eq(a@, e@),
{
    let alen = a.unicode_len();
    let elen = e.unicode_len();
    if alen != elen {
        return false;
    }
    let mut i: usize = 0;
    while i < alen
        invariant
            0 <= i <= alen == a@.len() == e@.len(),
            e.is_ascii(),
            forall|k: int| 0 <= k < i ==> lower_code(#[trigger] a@[k]) == e@[k] as int,
        decreases alen - i,
    {
        let ac = a.get_char(i) as u32;
        let ec = e.get_ascii(i) as u32;
        let folded = if 65 <= ac && ac <= 90 {
            ac + 32
        } else {
            ac
        };
        if folded != ec {
            assert(lower_code(a@[i as int]) != e@[i as int] as int);
            return false;
        }
        i = i + 1;
    }
    true
}

/// Whether the ASCII fragment matches `data` at position `i`, folding the
/// data bytes to lower case.
fn frag_at(data: &Vec<u8>, frag: &str, i: usize) -> (r: bool)
    requires
        frag.is_ascii(),
        i + frag@.len() <= data@.len(),
    ensures
        r == frag_matches_at(data@, frag@, i as int),
{
    let n = data.len();
    let m = frag.unicode_len();
    let mut j: usize = 0;
    while j < m
        invariant
            0 <= j <= m == frag@.len(),
            i + m <= n == data@.len(),
            frag.is_ascii(),
            forall|k: int|
                0 <= k < j ==> lower_byte(data@[i + k]) as int == #[trigger] frag@[k] as int,
        decreases m - j,
    {
        let db = data[i + j];
        let fb = frag.get_ascii(j);
        let folded = if 65 <= db && db <= 90 {
            db + 32
        } else {
            db
        };
        if folded != fb {
            assert(lower_byte(data@[i + j]) as int != frag@[j as int] as int);
            return false;
        }
        j = j + 1;
    }
    true
}

/// Whether the ASCII fragment occurs anywhere in `data`, case-insensitively.
pub fn contains_frag_ci(data: &Vec<u8>, frag: &str) -> (r: bool)
    requires
        frag.is_ascii(),
    ensures
        r == contains_frag(data@, frag@),
{
    let n = data.len();
    let m = frag.unicode_len();
    if m > n {
        return false;
    }
    let mut i: usize = 0;
    while i <= n - m
        invariant
            m <= n == data@.len(),
            m == frag@.len(),
            0 <= i <= n - m + 1,
            frag.is_ascii(),
            forall|k: int| 0 <= k < i ==> !frag_matches_at(data@, frag@, k),
        decreases n - m + 1 - i,
    {
        if frag_at(data, frag, i) {
            return true;
        }
        i = i + 1;
    }
    false
}

/// What `String::from_utf8_lossy` yields on the given bytes; a pure function
/// of the bytes alone.
pub uninterp spec fn utf8_lossy_of(bytes: Seq<u8>) -> Seq<char>;

/// Relies on `String::from_utf8_lossy`: the decoding depends on the bytes
/// alone, and all-ASCII bytes decode to exactly those characters (ASCII is
/// valid UTF-8, which the documentation promises passes through unchanged).
#[verifier::external_body]
pub fn utf8_lossy(bytes: &Vec<u8>) -> (s: String)
    ensures
        s@ == utf8_lossy_of(bytes@),
        (forall|i: int| 0 <= i < bytes@.len() ==> bytes@[i] < 128) ==> s@ == bytes@.map_values(
            |b: u8| b as char,
        ),
{
    String::from_utf8_lossy(bytes.as_slice()).into_owned()
}

} // verus!
