//! The memory that the process holds, from what the kernel tells of it.
use vstd::prelude::*;
use vstd::string::*;

use crate::text::{
    char_is_space, decimal, integer_of, is_digit, is_space, lemma_characters,
    lemma_decimal_reads_back, parse_i128, trim_front,
};

verus! {

/// A text from its first white space on.
pub open spec fn behind_word(s: Seq<char>) -> Seq<char>
    decreases s.len(),
{
    if s.len() == 0 || is_space(s[0]) {
        s
    } else {
        behind_word(s.drop_first())
    }
}

/// A text up to its first white space.
pub open spec fn leading_word(s: Seq<char>) -> Seq<char> {
    s.take(s.len() - behind_word(s).len())
}

/// The second of the words between white space; empty where there is none.
pub open spec fn second_word(s: Seq<char>) -> Seq<char> {
    leading_word(trim_front(behind_word(trim_front(s))))
}

/// A product, held to the range of 64 bits.
pub open spec fn capped_product(a: int, b: int) -> i64 {
    if a * b > i64::MAX {
        i64::MAX
    } else if a * b < i64::MIN {
        i64::MIN
    } else {
        (a * b) as i64
    }
}

/// The bytes that a page count in `statm` form stands for.
pub open spec fn resident(statm: Seq<char>, page_size: i64) -> Option<i64> {
    match integer_of(second_word(statm)) {
        Some(pages) => if i64::MIN <= pages <= i64::MAX && page_size > 0 {
            Some(capped_product(pages, page_size as int))
        } else {
            None
        },
        None => None,
    }
}

fn skip_spaces(s: &str, from: usize) -> (r: usize)
    requires
        from <= s@.len(),
    ensures
        from <= r <= s@.len(),
        s@.skip(r as int) == trim_front(s@.skip(from as int)),
{
    let n: usize = s.unicode_len();
    let mut i: usize = from;
    while i < n && char_is_space(s.get_char(i))
        invariant
            from <= i <= n,
            n == s@.len(),
            trim_front(s@.skip(i as int)) == trim_front(s@.skip(from as int)),
        decreases n - i,
    {
        assert(s@.skip(i as int).drop_first() =~= s@.skip(i + 1));
        i = i + 1;
    }
    i
}

fn skip_word(s: &str, from: usize) -> (r: usize)
    requires
        from <= s@.len(),
    ensures
        from <= r <= s@.len(),
        s@.skip(r as int) == behind_word(s@.skip(from as int)),
{
    let n: usize = s.unicode_len();
    let mut i: usize = from;
    while i < n && !char_is_space(s.get_char(i))
        invariant
            from <= i <= n,
            n == s@.len(),
            behind_word(s@.skip(i as int)) == behind_word(s@.skip(from as int)),
        decreases n - i,
    {
        assert(s@.skip(i as int).drop_first() =~= s@.skip(i + 1));
        i = i + 1;
    }
    i
}

/// The bytes that the process holds, from the text of its `statm` file and the size
/// of a page: the second word is the number of pages. Nothing where that is no
/// number, or where the page size is not known.
pub fn resident_memory_bytes(statm: &str, page_size: i64) -> (r: Option<i64>)
    ensures
        r == resident(statm@, page_size),
{
    assert(statm@.skip(0) =~= statm@);
    let a: usize = skip_spaces(statm, 0);
    let b: usize = skip_word(statm, a);
    let c: usize = skip_spaces(statm, b);
    let d: usize = skip_word(statm, c);
    let word = statm.substring_char(c, d);
    proof {
        let tail = statm@.skip(c as int);
        assert(behind_word(tail).len() == statm@.len() - d);
        assert(word@ =~= leading_word(tail));
    }
    let pages: i128 = match parse_i128(word) {
        Some(p) => p,
        None => {
            return None;
        },
    };
    if pages < -0x8000_0000_0000_0000 || pages > 0x7fff_ffff_ffff_ffff || page_size <= 0 {
        return None;
    }
    let size: i128 = page_size as i128;
    assert(-0x8000_0000_0000_0000_0000_0000_0000_0000 <= pages * size
        <= 0x7fff_ffff_ffff_ffff_ffff_ffff_ffff_ffff) by (nonlinear_arith)
        requires
            -0x8000_0000_0000_0000 <= pages <= 0x7fff_ffff_ffff_ffff,
            0 < size <= 0x7fff_ffff_ffff_ffff,
    ;
    let bytes: i128 = pages * size;
    if bytes > 0x7fff_ffff_ffff_ffff {
        Some(i64::MAX)
    } else if bytes < -0x8000_0000_0000_0000 {
        Some(i64::MIN)
    } else {
        Some(bytes as i64)
    }
}

proof fn lemma_behind_word(word: Seq<char>, rest: Seq<char>)
    requires
        forall|i: int| 0 <= i < word.len() ==> !is_space(#[trigger] word[i]),
        rest.len() > 0 ==> is_space(rest[0]),
    ensures
        behind_word(word + rest) == rest,
        leading_word(word + rest) == word,
    decreases word.len(),
{
    let s = word + rest;
    if word.len() == 0 {
        assert(s =~= rest);
    } else {
        assert(s[0] == word[0]);
        assert forall|i: int| 0 <= i < word.drop_first().len() implies !is_space(
            #[trigger] word.drop_first()[i],
        ) by {
            assert(word.drop_first()[i] == word[i + 1]);
        }
        lemma_behind_word(word.drop_first(), rest);
        assert(s.drop_first() =~= word.drop_first() + rest);
    }
    assert(s.take(word.len() as int) =~= word);
}

proof fn lemma_trim_front_of(space: char, s: Seq<char>)
    requires
        is_space(space),
        s.len() > 0 ==> !is_space(s[0]),
    ensures
        trim_front(s) == s,
        trim_front(seq![space] + s) == s,
{
    assert((seq![space] + s).drop_first() =~= s);
}

/// The resident memory is the second number of the text, counted in pages: what stands
/// before and behind it plays no part.
pub proof fn lemma_the_second_number_counts(
    first: Seq<char>,
    pages: nat,
    rest: Seq<char>,
    page_size: i64,
)
    requires
        first.len() > 0,
        forall|i: int| 0 <= i < first.len() ==> !is_space(#[trigger] first[i]),
        page_size > 0,
        pages * page_size <= i64::MAX,
    ensures
        resident(first + seq![' '] + decimal(pages) + seq![' '] + rest, page_size) == Some(
            (pages * page_size) as i64,
        ),
{
    let d = decimal(pages);
    let tail = seq![' '] + rest;
    lemma_decimal_reads_back(pages);
    lemma_characters('0');
    assert(pages <= i64::MAX) by (nonlinear_arith)
        requires
            page_size > 0,
            pages * page_size <= i64::MAX,
    ;
    assert forall|i: int| 0 <= i < d.len() implies !is_space(#[trigger] d[i]) by {
        assert(is_digit(d[i]));
        lemma_characters(d[i]);
    }
    let s = first + seq![' '] + d + seq![' '] + rest;
    let behind = seq![' '] + (d + tail);
    assert(s =~= first + behind);
    assert(s[0] == first[0]);
    lemma_trim_front_of(' ', s);
    lemma_behind_word(first, behind);
    assert((d + tail)[0] == d[0]);
    lemma_trim_front_of(' ', d + tail);
    lemma_behind_word(d, tail);
    assert(second_word(s) == d);
}

/// Nothing is told without a known size of a page, nor of a text whose second word is no
/// number, and what 64 bits do not hold is told as the most they do.
pub proof fn lemma_when_memory_is_told(statm: Seq<char>, page_size: i64)
    ensures
        page_size <= 0 ==> resident(statm, page_size) is None,
        integer_of(second_word(statm)) is None ==> resident(statm, page_size) is None,
        (page_size > 0 && (integer_of(second_word(statm)) matches Some(n) && 0 <= n <= i64::MAX && n
            * page_size > i64::MAX)) ==> resident(statm, page_size) == Some(i64::MAX),
{
}

} // verus!
