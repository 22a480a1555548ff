//! Text: equality, ordering, splitting, trimming and number rendering over the
//! character sequence of a string.
use vstd::arithmetic::power::pow;
use vstd::prelude::*;
use vstd::string::*;
use vstd::utf8::*;

verus! {

/// The sixteen lower-case hexadecimal digits, in order of value.
pub const DIGITS: &'static str = "0123456789abcdef";

/// The digit that stands for `d`, for `d` below sixteen.
pub open spec fn digit(d: int) -> char {
    DIGITS@[d]
}

/// The decimal form of `n`, without leading zeros.
pub open spec fn decimal(n: nat) -> Seq<char>
    decreases n,
{
    if n < 10 {
        seq![digit(n as int)]
    } else {
        decimal(n / 10).push(digit((n % 10) as int))
    }
}

/// The decimal form of `n`, with a leading minus sign where `n` is negative.
pub open spec fn signed_decimal(n: int) -> Seq<char> {
    if n < 0 {
        "-"@ + decimal((-n) as nat)
    } else {
        decimal(n as nat)
    }
}

/// The last `width` hexadecimal digits of `n`, padded with zeros.
pub open spec fn hex(n: nat, width: nat) -> Seq<char>
    decreases width,
{
    if width == 0 {
        Seq::empty()
    } else {
        hex(n / 16, (width - 1) as nat).push(digit((n % 16) as int))
    }
}

/// Whether `c` is one of the sixteen lower-case hexadecimal digits.
pub open spec fn is_hex_digit(c: char) -> bool {
    DIGITS@.contains(c)
}

/// Whether `c` is white space as Unicode defines it (`White_Space`).
pub open spec fn is_space(c: char) -> bool {
    let u = c as u32;
    ||| 0x9 <= u <= 0xd
    ||| u == 0x20
    ||| u == 0x85
    ||| u == 0xa0
    ||| u == 0x1680
    ||| 0x2000 <= u <= 0x200a
    ||| u == 0x2028
    ||| u == 0x2029
    ||| u == 0x202f
    ||| u == 0x205f
    ||| u == 0x3000
}

/// `s` from its first character that is not white space on.
pub open spec fn trim_front(s: Seq<char>) -> Seq<char>
    decreases s.len(),
{
    if s.len() > 0 && is_space(s.first()) {
        trim_front(s.drop_first())
    } else {
        s
    }
}

/// `s` up to its last character that is not white space.
pub open spec fn trim_back(s: Seq<char>) -> Seq<char>
    decreases s.len(),
{
    if s.len() > 0 && is_space(s.last()) {
        trim_back(s.drop_last())
    } else {
        s
    }
}

/// `s` without the white space at either end.
pub open spec fn trimmed(s: Seq<char>) -> Seq<char> {
    trim_back(trim_front(s))
}

/// `s` without the run of `c` at its end.
pub open spec fn without_trailing(s: Seq<char>, c: char) -> Seq<char>
    decreases s.len(),
{
    if s.len() > 0 && s.last() == c {
        without_trailing(s.drop_last(), c)
    } else {
        s
    }
}

/// The first `n` characters of `s`, or all of it where it is shorter.
pub open spec fn head(s: Seq<char>, n: int) -> Seq<char> {
    if s.len() <= n {
        s
    } else {
        s.take(n)
    }
}

/// The pieces of `s` between the occurrences of `sep`, empty ones kept.
pub open spec fn pieces(s: Seq<char>, sep: char) -> Seq<Seq<char>>
    decreases s.len(),
{
    if s.len() == 0 {
        seq![Seq::empty()]
    } else {
        let before = pieces(s.drop_last(), sep);
        if s.last() == sep {
            before.push(Seq::empty())
        } else {
            before.drop_last().push(before.last().push(s.last()))
        }
    }
}

/// The pieces of `s` between the occurrences of `sep`, empty ones dropped.
pub open spec fn segments(s: Seq<char>, sep: char) -> Seq<Seq<char>> {
    pieces(s, sep).filter(|p: Seq<char>| p.len() > 0)
}

/// `parts` in order, with `glue` between neighbours.
pub open spec fn joined(parts: Seq<Seq<char>>, glue: Seq<char>) -> Seq<char>
    decreases parts.len(),
{
    if parts.len() == 0 {
        Seq::empty()
    } else if parts.len() == 1 {
        parts[0]
    } else {
        joined(parts.drop_last(), glue) + glue + parts.last()
    }
}

/// Whether `c` is a decimal digit.
pub open spec fn is_digit(c: char) -> bool {
    48 <= c as u32 <= 57
}

/// Whether `s` holds nothing but decimal digits.
pub open spec fn all_digits(s: Seq<char>) -> bool {
    forall|i: int| 0 <= i < s.len() ==> is_digit(#[trigger] s[i])
}

/// The number that decimal digits stand for.
pub open spec fn digits_value(s: Seq<char>) -> int
    decreases s.len(),
{
    if s.len() == 0 {
        0
    } else {
        10 * digits_value(s.drop_last()) + (s.last() as u32 - 48)
    }
}

/// The integer that a text stands for: digits with an optional sign in front.
pub open spec fn integer_of(s: Seq<char>) -> Option<int> {
    let signed = s.len() > 0 && (s[0] == '+' || s[0] == '-');
    let body = if signed {
        s.drop_first()
    } else {
        s
    };
    if body.len() == 0 || !all_digits(body) {
        None
    } else if signed && s[0] == '-' {
        Some(-digits_value(body))
    } else {
        Some(digits_value(body))
    }
}

/// Lexicographic order on byte sequences.
pub open spec fn bytes_before(a: Seq<u8>, b: Seq<u8>) -> bool
    decreases a.len(),
{
    if b.len() == 0 {
        false
    } else if a.len() == 0 {
        true
    } else if a[0] != b[0] {
        a[0] < b[0]
    } else {
        bytes_before(a.drop_first(), b.drop_first())
    }
}

/// The order of strings: lexicographic over their UTF-8 bytes.
pub open spec fn text_before(a: Seq<char>, b: Seq<char>) -> bool {
    bytes_before(encode_utf8(a), encode_utf8(b))
}

/// The character sequences of a list of strings.
pub open spec fn texts(v: Seq<String>) -> Seq<Seq<char>> {
    v.map_values(|s: String| s@)
}

/// The character sequences of a list of string slices.
pub open spec fn str_texts(v: Seq<&str>) -> Seq<Seq<char>> {
    v.map_values(|s: &str| s@)
}

/// The character sequence of an optional string.
pub open spec fn opt_text(o: Option<String>) -> Option<Seq<char>> {
    match o {
        Some(s) => Some(s@),
        None => None,
    }
}

/// The character sequence of an optional string slice.
pub open spec fn opt_str(o: Option<&str>) -> Option<Seq<char>> {
    match o {
        Some(s) => Some(s@),
        None => None,
    }
}

/// An optional text, or the empty one.
pub open spec fn or_empty(o: Option<String>) -> Seq<char> {
    match o {
        Some(s) => s@,
        None => ""@,
    }
}

pub proof fn lemma_bytes_before_irreflexive(a: Seq<u8>)
    ensures
        !bytes_before(a, a),
    decreases a.len(),
{
    if a.len() > 0 {
        lemma_bytes_before_irreflexive(a.drop_first());
    }
}

pub proof fn lemma_bytes_before_transitive(a: Seq<u8>, b: Seq<u8>, c: Seq<u8>)
    requires
        bytes_before(a, b),
        bytes_before(b, c),
    ensures
        bytes_before(a, c),
    decreases a.len(),
{
    if a.len() > 0 && a[0] == b[0] && b[0] == c[0] {
        lemma_bytes_before_transitive(a.drop_first(), b.drop_first(), c.drop_first());
    }
}

pub proof fn lemma_bytes_before_total(a: Seq<u8>, b: Seq<u8>)
    ensures
        a == b || bytes_before(a, b) || bytes_before(b, a),
    decreases a.len(),
{
    if a.len() > 0 && b.len() > 0 && a[0] == b[0] {
        lemma_bytes_before_total(a.drop_first(), b.drop_first());
        if a.drop_first() == b.drop_first() {
            assert(a =~= seq![a[0]] + a.drop_first());
            assert(b =~= seq![b[0]] + b.drop_first());
        }
    } else if a.len() == 0 && b.len() == 0 {
        assert(a =~= b);
    }
}

/// Strings are strictly and totally ordered.
pub proof fn lemma_text_order(a: Seq<char>, b: Seq<char>, c: Seq<char>)
    ensures
        !text_before(a, a),
        text_before(a, b) && text_before(b, c) ==> text_before(a, c),
        a == b || text_before(a, b) || text_before(b, a),
        text_before(a, b) ==> !text_before(b, a),
{
    let (x, y, z) = (encode_utf8(a), encode_utf8(b), encode_utf8(c));
    lemma_bytes_before_irreflexive(x);
    if bytes_before(x, y) && bytes_before(y, z) {
        lemma_bytes_before_transitive(x, y, z);
    }
    if bytes_before(x, y) && bytes_before(y, x) {
        lemma_bytes_before_transitive(x, y, x);
    }
    lemma_bytes_before_total(x, y);
    lemma_encode_injective(a, b);
}

/// Different strings have different UTF-8 encodings.
pub proof fn lemma_encode_injective(a: Seq<char>, b: Seq<char>)
    ensures
        encode_utf8(a) == encode_utf8(b) ==> a == b,
{
    encode_utf8_decode_utf8(a);
    encode_utf8_decode_utf8(b);
}

/// A string has at least as many bytes as characters.
pub proof fn lemma_chars_within_bytes(s: Seq<char>)
    ensures
        s.len() <= encode_utf8(s).len() <= 4 * s.len(),
    decreases s.len(),
{
    if s.len() > 0 {
        lemma_chars_within_bytes(s.drop_first());
    }
}

/// The encoding of two strings in a row is that of each in a row.
pub proof fn lemma_encode_concat(a: Seq<char>, b: Seq<char>)
    ensures
        encode_utf8(a + b) == encode_utf8(a) + encode_utf8(b),
    decreases a.len(),
{
    if a.len() == 0 {
        assert(a + b =~= b);
        assert(encode_utf8(a) + encode_utf8(b) =~= encode_utf8(b));
    } else {
        lemma_encode_concat(a.drop_first(), b);
        assert((a + b).drop_first() =~= a.drop_first() + b);
        assert(encode_utf8(a + b) =~= encode_utf8(a) + encode_utf8(b));
    }
}

proof fn lemma_digits_value_grows(s: Seq<char>, i: int)
    requires
        0 <= i <= s.len(),
        all_digits(s),
    ensures
        0 <= digits_value(s.take(i)) <= digits_value(s),
    decreases s.len(),
{
    if i == s.len() {
        assert(s.take(i) =~= s);
        if s.len() > 0 {
            lemma_digits_value_grows(s.drop_last(), s.len() - 1);
            assert(s.drop_last().take(s.len() - 1) =~= s.drop_last());
            assert(is_digit(s[s.len() - 1]));
        }
    } else {
        lemma_digits_value_grows(s.drop_last(), i);
        assert(s.drop_last().take(i) =~= s.take(i));
        assert(is_digit(s[s.len() - 1]));
    }
}

pub proof fn lemma_digits()
    ensures
        DIGITS@.len() == 16,
{
    reveal_strlit("0123456789abcdef");
}

pub proof fn lemma_hex(n: nat, width: nat)
    ensures
        hex(n, width).len() == width,
        forall|i: int| 0 <= i < width ==> is_hex_digit(#[trigger] hex(n, width)[i]),
    decreases width,
{
    lemma_digits();
    if width > 0 {
        lemma_hex(n / 16, (width - 1) as nat);
        assert(DIGITS@[(n % 16) as int] == digit((n % 16) as int));
    }
}

/// Each number has a digit of its own.
pub proof fn lemma_digits_differ(i: int, j: int)
    requires
        0 <= i < 16,
        0 <= j < 16,
        digit(i) == digit(j),
    ensures
        i == j,
{
    reveal_strlit("0123456789abcdef");
}

/// The digits of numbers that they are enough for tell the numbers apart.
pub proof fn lemma_hex_tells_numbers(a: nat, b: nat, width: nat)
    requires
        a < pow(16, width),
        b < pow(16, width),
        hex(a, width) == hex(b, width),
    ensures
        a == b,
    decreases width,
{
    reveal(pow);
    if width > 0 {
        let less = (width - 1) as nat;
        let (x, y) = (hex(a, width), hex(b, width));
        assert(x.drop_last() =~= hex(a / 16, less));
        assert(y.drop_last() =~= hex(b / 16, less));
        assert(x.last() == y.last());
        lemma_digits_differ((a % 16) as int, (b % 16) as int);
        assert(pow(16, width) == 16 * pow(16, less));
        lemma_hex_tells_numbers(a / 16, b / 16, less);
    }
}

pub proof fn lemma_decimal(n: nat)
    ensures
        decimal(n).len() >= 1,
        forall|i: int| 0 <= i < decimal(n).len() ==> is_hex_digit(#[trigger] decimal(n)[i]),
    decreases n,
{
    lemma_digits();
    if n < 10 {
        assert(DIGITS@[n as int] == digit(n as int));
    } else {
        lemma_decimal(n / 10);
        assert(DIGITS@[(n % 10) as int] == digit((n % 10) as int));
    }
}

/// Whether two strings hold the same characters.
pub fn same(a: &str, b: &str) -> (r: bool)
    ensures
        r == (a@ == b@),
{
    let x = a.as_bytes();
    let y = b.as_bytes();
    if x.len() != y.len() {
        return false;
    }
    let mut i: usize = 0;
    while i < x.len()
        invariant
            x@ == a.spec_bytes(),
            y@ == b.spec_bytes(),
            x@.len() == y@.len(),
            i <= x@.len(),
            forall|j: int| 0 <= j < i ==> x@[j] == y@[j],
        decreases x@.len() - i,
    {
        if x[i] != y[i] {
            assert(x@[i as int] != y@[i as int]);
            return false;
        }
        i += 1;
    }
    proof {
        assert(x@ =~= y@);
        lemma_encode_injective(a@, b@);
    }
    true
}

/// Whether two optional strings are both absent, or present with the same characters.
pub fn same_opt(a: Option<&str>, b: Option<&str>) -> (r: bool)
    ensures
        r == (opt_str(a) == opt_str(b)),
{
    match (a, b) {
        (None, None) => true,
        (Some(x), Some(y)) => same(x, y),
        _ => false,
    }
}

/// An optional text, or the empty one.
pub fn str_or_empty(o: &Option<String>) -> (r: &str)
    ensures
        r@ == or_empty(*o),
{
    match o {
        Some(s) => s.as_str(),
        None => "",
    }
}

/// Whether `a` comes before `b` in the order of strings.
pub fn is_before(a: &str, b: &str) -> (r: bool)
    ensures
        r == text_before(a@, b@),
{
    let x = a.as_bytes();
    let y = b.as_bytes();
    let mut i: usize = 0;
    proof {
        assert(x@.skip(0) =~= x@);
        assert(y@.skip(0) =~= y@);
    }
    while i < x.len() && i < y.len()
        invariant
            x@ == a.spec_bytes(),
            y@ == b.spec_bytes(),
            i <= x@.len(),
            i <= y@.len(),
            bytes_before(x@, y@) == bytes_before(x@.skip(i as int), y@.skip(i as int)),
        decreases x@.len() - i,
    {
        if x[i] != y[i] {
            return x[i] < y[i];
        }
        assert(x@.skip(i as int).drop_first() =~= x@.skip(i + 1));
        assert(y@.skip(i as int).drop_first() =~= y@.skip(i + 1));
        i += 1;
    }
    i < y.len()
}

/// The number of bytes in the UTF-8 encoding of `s`.
pub fn byte_len(s: &str) -> (n: usize)
    ensures
        n == encode_utf8(s@).len(),
{
    s.as_bytes().len()
}

/// The first `n` characters of `s`.
pub fn take_chars(s: &str, n: usize) -> (r: String)
    ensures
        r@ == head(s@, n as int),
{
    let len: usize = s.unicode_len();
    if len <= n {
        s.to_owned()
    } else {
        let part = s.substring_char(0, n);
        assert(s@.subrange(0, n as int) =~= s@.take(n as int));
        part.to_owned()
    }
}

/// `s` without the run of `c` at its end.
pub fn trim_end_matches(s: &str, c: char) -> (r: String)
    ensures
        r@ == without_trailing(s@, c),
{
    let mut n: usize = s.unicode_len();
    assert(s@.take(n as int) =~= s@);
    while n > 0 && s.get_char(n - 1) == c
        invariant
            n <= s@.len(),
            without_trailing(s@, c) == without_trailing(s@.take(n as int), c),
        decreases n,
    {
        assert(s@.take(n as int).drop_last() =~= s@.take(n - 1));
        n -= 1;
    }
    assert(n > 0 ==> s@.take(n as int).last() == s@[n - 1]);
    assert(s@.subrange(0, n as int) =~= s@.take(n as int));
    s.substring_char(0, n).to_owned()
}

/// Whether `c` is white space as Unicode defines it.
pub fn char_is_space(c: char) -> (r: bool)
    ensures
        r == is_space(c),
{
    let u: u32 = c as u32;
    (0x9 <= u && u <= 0xd) || u == 0x20 || u == 0x85 || u == 0xa0 || u == 0x1680 || (0x2000 <= u
        && u <= 0x200a) || u == 0x2028 || u == 0x2029 || u == 0x202f || u == 0x205f || u == 0x3000
}

/// `s` without the white space at either end.
pub fn trim(s: &str) -> (r: String)
    ensures
        r@ == trimmed(s@),
{
    let n: usize = s.unicode_len();
    let mut i: usize = 0;
    assert(s@.skip(0) =~= s@);
    while i < n && char_is_space(s.get_char(i))
        invariant
            n == s@.len(),
            i <= n,
            trim_front(s@) == trim_front(s@.skip(i as int)),
        decreases n - i,
    {
        assert(s@.skip(i as int).drop_first() =~= s@.skip(i + 1));
        i += 1;
    }
    assert(trim_front(s@) == s@.skip(i as int));
    let mut j: usize = n;
    assert(s@.subrange(i as int, n as int) =~= s@.skip(i as int));
    while j > i && char_is_space(s.get_char(j - 1))
        invariant
            n == s@.len(),
            i <= j <= n,
            trimmed(s@) == trim_back(s@.subrange(i as int, j as int)),
        decreases j,
    {
        assert(s@.subrange(i as int, j as int).drop_last() =~= s@.subrange(i as int, j - 1));
        j -= 1;
    }
    assert(j > i ==> s@.subrange(i as int, j as int).last() == s@[j - 1]);
    s.substring_char(i, j).to_owned()
}

/// The pieces of `s` between the occurrences of `sep`, empty ones kept.
pub fn split<'a>(s: &'a str, sep: char) -> (r: Vec<&'a str>)
    ensures
        str_texts(r@) == pieces(s@, sep),
{
    let n: usize = s.unicode_len();
    let mut out: Vec<&'a str> = Vec::new();
    let mut start: usize = 0;
    let mut i: usize = 0;
    assert(s@.subrange(0, 0) =~= Seq::<char>::empty());
    assert(str_texts(out@).push(s@.subrange(0, 0)) =~= seq![Seq::<char>::empty()]);
    while i < n
        invariant
            n == s@.len(),
            start <= i <= n,
            str_texts(out@).push(s@.subrange(start as int, i as int)) == pieces(s@.take(i as int), sep),
        decreases n - i,
    {
        let ghost was = str_texts(out@);
        proof {
            assert(s@.take(i + 1).drop_last() =~= s@.take(i as int));
        }
        if s.get_char(i) == sep {
            let part = s.substring_char(start, i);
            out.push(part);
            start = i + 1;
            assert(str_texts(out@) =~= was.push(part@));
            assert(s@.subrange(i + 1, i + 1) =~= Seq::<char>::empty());
        } else {
            assert(was.push(s@.subrange(start as int, i as int)).drop_last() =~= was);
            assert(s@.subrange(start as int, i + 1) =~= s@.subrange(start as int, i as int).push(s@[i as int]));
        }
        i += 1;
    }
    let last = s.substring_char(start, n);
    let ghost was = str_texts(out@);
    out.push(last);
    assert(str_texts(out@) =~= was.push(last@));
    assert(s@.take(n as int) =~= s@);
    out
}

/// The pieces of `s` between the occurrences of `sep`, empty ones dropped.
pub fn split_nonempty<'a>(s: &'a str, sep: char) -> (r: Vec<&'a str>)
    ensures
        str_texts(r@) == segments(s@, sep),
{
    let all = split(s, sep);
    let mut out: Vec<&'a str> = Vec::new();
    let mut i: usize = 0;
    let ghost keep = |p: Seq<char>| p.len() > 0;
    proof {
        reveal(Seq::filter);
        assert(str_texts(all@).take(0) =~= Seq::empty());
        assert(str_texts(out@) =~= Seq::<Seq<char>>::empty());
    }
    while i < all.len()
        invariant
            i <= all@.len(),
            keep == (|p: Seq<char>| p.len() > 0),
            str_texts(out@) == str_texts(all@).take(i as int).filter(keep),
        decreases all@.len() - i,
    {
        proof {
            reveal(Seq::filter);
            assert(str_texts(all@).take(i + 1).drop_last() =~= str_texts(all@).take(i as int));
            assert(str_texts(all@).take(i + 1).last() == all@[i as int]@);
        }
        if !all[i].is_empty() {
            let ghost was = str_texts(out@);
            out.push(all[i]);
            assert(str_texts(out@) =~= was.push(all@[i as int]@));
        }
        i += 1;
    }
    assert(str_texts(all@).take(i as int) =~= str_texts(all@));
    out
}

/// `parts` in order, with `glue` between neighbours.
pub fn join(parts: &Vec<String>, glue: &str) -> (r: String)
    ensures
        r@ == joined(texts(parts@), glue@),
{
    let mut out = String::new();
    let mut i: usize = 0;
    assert(texts(parts@).take(0) =~= Seq::empty());
    while i < parts.len()
        invariant
            i <= parts@.len(),
            out@ == joined(texts(parts@).take(i as int), glue@),
        decreases parts@.len() - i,
    {
        proof {
            assert(texts(parts@).take(i + 1).drop_last() =~= texts(parts@).take(i as int));
            assert(texts(parts@).take(i + 1).last() == parts@[i as int]@);
        }
        if i > 0 {
            out.append(glue);
        }
        let ghost was = out@;
        out.append(parts[i].as_str());
        proof {
            if i == 0 {
                assert(was + parts@[0]@ =~= parts@[0]@);
            }
        }
        i += 1;
    }
    assert(texts(parts@).take(i as int) =~= texts(parts@));
    out
}

/// Whether `s` begins with `prefix`.
pub fn starts_with(s: &str, prefix: &str) -> (r: bool)
    ensures
        r == prefix@.is_prefix_of(s@),
{
    let n: usize = prefix.unicode_len();
    if s.unicode_len() < n {
        return false;
    }
    same(s.substring_char(0, n), prefix)
}

/// Whether `s` ends in `suffix`.
pub open spec fn ends_in(s: Seq<char>, suffix: Seq<char>) -> bool {
    s.len() >= suffix.len() && s.skip(s.len() - suffix.len()) == suffix
}

/// What stands before `suffix` at the end of `s`.
pub fn strip_suffix<'a>(s: &'a str, suffix: &str) -> (r: Option<&'a str>)
    ensures
        match r {
            Some(front) => ends_in(s@, suffix@) && front@ == s@.take(s@.len() - suffix@.len()),
            None => !ends_in(s@, suffix@),
        },
{
    let n: usize = s.unicode_len();
    let k: usize = suffix.unicode_len();
    if n < k {
        return None;
    }
    assert(s@.subrange(n - k, n as int) =~= s@.skip(n - k));
    if same(s.substring_char(n - k, n), suffix) {
        assert(s@.subrange(0, n - k) =~= s@.take(n - k));
        Some(s.substring_char(0, n - k))
    } else {
        None
    }
}

/// The integer that a text stands for, where it is one that 128 bits hold.
pub fn parse_i128(s: &str) -> (r: Option<i128>)
    ensures
        match integer_of(s@) {
            Some(v) => if i128::MIN <= v <= i128::MAX {
                r == Some(v as i128)
            } else {
                r is None
            },
            None => r is None,
        },
{
    let n: usize = s.unicode_len();
    if n == 0 {
        return None;
    }
    let first: char = s.get_char(0);
    let signed = first == '+' || first == '-';
    let negative = first == '-';
    let from: usize = if signed {
        1
    } else {
        0
    };
    let ghost body = s@.skip(from as int);
    proof {
        if signed {
            assert(body =~= s@.drop_first());
        } else {
            assert(body =~= s@);
        }
        assert(body.take(0) =~= Seq::empty());
    }
    if from == n {
        return None;
    }
    let limit: u128 = if negative {
        0x8000_0000_0000_0000_0000_0000_0000_0000
    } else {
        0x7fff_ffff_ffff_ffff_ffff_ffff_ffff_ffff
    };
    let mut acc: u128 = 0;
    let mut i: usize = from;
    while i < n
        invariant
            n == s@.len(),
            from <= i <= n,
            from < n,
            body == s@.skip(from as int),
            signed == (s@[0] == '+' || s@[0] == '-'),
            negative == (s@[0] == '-'),
            from == (if signed {
                1int
            } else {
                0int
            }),
            body == (if signed {
                s@.drop_first()
            } else {
                s@
            }),
            limit == (if negative {
                0x8000_0000_0000_0000_0000_0000_0000_0000int
            } else {
                0x7fff_ffff_ffff_ffff_ffff_ffff_ffff_ffffint
            }),
            all_digits(body.take(i - from)),
            acc == digits_value(body.take(i - from)),
            acc <= limit,
        decreases n - i,
    {
        let c: char = s.get_char(i);
        let u: u32 = c as u32;
        let ghost at = i - from;
        assert(body[at] == c);
        if u < 48 || u > 57 {
            assert(!is_digit(body[at]));
            return None;
        }
        let d: u128 = (u - 48) as u128;
        assert(body.take(at + 1).drop_last() =~= body.take(at));
        assert(body.take(at + 1).last() == c);
        if acc > (limit - d) / 10 {
            proof {
                assert(10 * acc + d > limit) by (nonlinear_arith)
                    requires
                        acc > (limit - d) / 10,
                        d <= 9,
                        limit >= 10,
                ;
                if all_digits(body) {
                    lemma_digits_value_grows(body, at + 1);
                }
            }
            return None;
        }
        assert(10 * acc + d <= limit) by (nonlinear_arith)
            requires
                acc <= (limit - d) / 10,
                d <= 9,
                limit >= 10,
        ;
        acc = 10 * acc + d;
        assert forall|j: int| 0 <= j < at + 1 implies is_digit(#[trigger] body.take(at + 1)[j]) by {
            if j < at {
                assert(body.take(at)[j] == body[j]);
            }
        }
        i += 1;
    }
    assert(body.take(i - from) =~= body);
    if negative {
        if acc == 0x8000_0000_0000_0000_0000_0000_0000_0000 {
            Some(i128::MIN)
        } else {
            Some(-(acc as i128))
        }
    } else {
        Some(acc as i128)
    }
}

/// The decimal form of `n`.
pub fn decimal_text(n: u64) -> (r: String)
    ensures
        r@ == decimal(n as nat),
    decreases n,
{
    proof {
        lemma_digits();
    }
    let d: usize = (n % 10) as usize;
    let last = DIGITS.substring_char(d, d + 1);
    assert(last@ =~= seq![digit((n % 10) as int)]);
    if n < 10 {
        last.to_owned()
    } else {
        let mut out = decimal_text(n / 10);
        out.append(last);
        assert(out@ =~= decimal((n / 10) as nat).push(digit((n % 10) as int)));
        out
    }
}

/// The decimal form of `n`, with its sign where it is negative.
pub fn signed_decimal_text(n: i64) -> (r: String)
    ensures
        r@ == signed_decimal(n as int),
{
    if n < 0 {
        let mut out = "-".to_owned();
        let m: u64 = if n == i64::MIN {
            0x8000_0000_0000_0000
        } else {
            (-n) as u64
        };
        let digits = decimal_text(m);
        out.append(digits.as_str());
        out
    } else {
        decimal_text(n as u64)
    }
}

/// The last `width` hexadecimal digits of `n`, padded with zeros.
pub fn hex_text(n: u64, width: usize) -> (r: String)
    ensures
        r@ == hex(n as nat, width as nat),
    decreases width,
{
    if width == 0 {
        return String::new();
    }
    proof {
        lemma_digits();
    }
    let d: usize = (n % 16) as usize;
    let mut out = hex_text(n / 16, width - 1);
    let last = DIGITS.substring_char(d, d + 1);
    assert(last@ =~= seq![digit((n % 16) as int)]);
    out.append(last);
    assert(out@ =~= hex((n / 16) as nat, (width - 1) as nat).push(digit((n % 16) as int)));
    out
}

/// A decimal digit is one of the ten characters from `0` to `9`, and white space is none
/// of the printable ASCII characters.
pub proof fn lemma_characters(c: char)
    ensures
        is_digit(c) <==> '0' <= c <= '9',
        is_space(' ') && is_space('\t') && is_space('\n') && is_space('\r'),
        '!' <= c <= '~' ==> !is_space(c),
        is_digit(c) ==> !is_space(c),
{
}

/// Appending a digit to digits makes ten times the number and the digit.
pub proof fn lemma_digits_count_in_tens(s: Seq<char>, c: char)
    ensures
        digits_value(Seq::<char>::empty()) == 0,
        digits_value(s.push(c)) == 10 * digits_value(s) + (c as u32 - '0' as u32),
{
    assert(s.push(c).drop_last() =~= s);
}

/// A number is read back from its decimal form, which holds nothing but digits and does
/// not begin with a zero, unless it is zero.
pub proof fn lemma_decimal_reads_back(n: nat)
    ensures
        all_digits(decimal(n)),
        decimal(n).len() > 0,
        digits_value(decimal(n)) == n,
        integer_of(decimal(n)) == Some(n as int),
        n > 0 ==> decimal(n)[0] != '0',
    decreases n,
{
    reveal_strlit("0123456789abcdef");
    if n < 10 {
        assert(decimal(n).drop_last() =~= Seq::<char>::empty());
        assert(digits_value(decimal(n).drop_last()) == 0);
        assert(decimal(n).last() as u32 == 48 + n);
    } else {
        lemma_decimal_reads_back(n / 10);
        let front = decimal(n / 10);
        let c = digit((n % 10) as int);
        assert(decimal(n) == front.push(c));
        assert(c as u32 == 48 + n % 10);
        lemma_digits_count_in_tens(front, c);
        assert forall|i: int| 0 <= i < decimal(n).len() implies is_digit(#[trigger] decimal(n)[i]) by {
            if i < front.len() {
                assert(is_digit(front[i]));
            }
        }
    }
    assert(is_digit(decimal(n)[0]));
}

/// A number with a sign is read back from its decimal form too.
pub proof fn lemma_signed_decimal_reads_back(n: int)
    ensures
        integer_of(signed_decimal(n)) == Some(n),
{
    let size = (if n < 0 {
        -n
    } else {
        n
    }) as nat;
    lemma_decimal_reads_back(size);
    reveal_strlit("-");
    if n < 0 {
        let s = signed_decimal(n);
        assert(s.drop_first() =~= decimal(size));
        assert(s[0] == '-');
    }
}

/// A text stands for an integer exactly where it is digits, with one sign before them or
/// none; a minus turns the number round, a plus does not.
pub proof fn lemma_what_an_integer_is(d: Seq<char>)
    ensures
        d.len() > 0 && all_digits(d) ==> {
            &&& integer_of(d) == Some(digits_value(d))
            &&& integer_of(seq!['-'] + d) == Some(-digits_value(d))
            &&& integer_of(seq!['+'] + d) == Some(digits_value(d))
        },
        integer_of(Seq::<char>::empty()) is None,
        integer_of(seq!['-']) is None,
        integer_of(seq!['+']) is None,
        d.len() > 0 && !('0' <= d[0] <= '9') && d[0] != '-' && d[0] != '+' ==> integer_of(d) is None,
        forall|i: int| 0 < i < d.len() && !('0' <= #[trigger] d[i] <= '9') ==> integer_of(d) is None,
{
    assert((seq!['-'] + d).drop_first() =~= d);
    assert((seq!['+'] + d).drop_first() =~= d);
    assert(seq!['-'].drop_first() =~= Seq::<char>::empty());
    assert(seq!['+'].drop_first() =~= Seq::<char>::empty());
    if d.len() > 0 && all_digits(d) {
        assert(is_digit(d[0]));
    }
    assert forall|i: int| 0 < i < d.len() && !('0' <= #[trigger] d[i] <= '9') implies integer_of(d) is None by {
        lemma_characters(d[i]);
        assert(d.drop_first()[i - 1] == d[i]);
    }
    if d.len() > 0 && !('0' <= d[0] <= '9') && d[0] != '-' && d[0] != '+' {
        lemma_characters(d[0]);
    }
}

proof fn lemma_trim_front_parts(s: Seq<char>) -> (n: int)
    ensures
        0 <= n <= s.len(),
        trim_front(s) == s.skip(n),
        forall|i: int| 0 <= i < n ==> is_space(#[trigger] s[i]),
        n < s.len() ==> !is_space(s[n]),
    decreases s.len(),
{
    if s.len() > 0 && is_space(s.first()) {
        let m = lemma_trim_front_parts(s.drop_first());
        assert(s.drop_first().skip(m) =~= s.skip(m + 1));
        assert forall|i: int| 0 <= i < m + 1 implies is_space(#[trigger] s[i]) by {
            if i > 0 {
                assert(s.drop_first()[i - 1] == s[i]);
            }
        }
        m + 1
    } else {
        assert(s.skip(0) =~= s);
        0
    }
}

proof fn lemma_trim_back_parts(s: Seq<char>) -> (n: int)
    ensures
        0 <= n <= s.len(),
        trim_back(s) == s.take(n),
        forall|i: int| n <= i < s.len() ==> is_space(#[trigger] s[i]),
        n > 0 ==> !is_space(s[n - 1]),
    decreases s.len(),
{
    if s.len() > 0 && is_space(s.last()) {
        let m = lemma_trim_back_parts(s.drop_last());
        assert(s.drop_last().take(m) =~= s.take(m));
        assert forall|i: int| m <= i < s.len() implies is_space(#[trigger] s[i]) by {
            if i < s.len() - 1 {
                assert(s.drop_last()[i] == s[i]);
            }
        }
        m
    } else {
        assert(s.take(s.len() as int) =~= s);
        s.len() as int
    }
}

/// Trimming takes white space off either end, all of it and nothing else.
pub proof fn lemma_trimming(s: Seq<char>)
    ensures
        exists|a: int, b: int|
            #![trigger s.subrange(a, b)]
            0 <= a <= b <= s.len() && trimmed(s) == s.subrange(a, b) && (forall|i: int|
                0 <= i < s.len() && !(a <= i < b) ==> is_space(#[trigger] s[i])),
        trimmed(s).len() > 0 ==> !is_space(trimmed(s).first()) && !is_space(trimmed(s).last()),
{
    let a = lemma_trim_front_parts(s);
    let rest = s.skip(a);
    let n = lemma_trim_back_parts(rest);
    let b = a + n;
    assert(rest.take(n) =~= s.subrange(a, b));
    assert forall|i: int| 0 <= i < s.len() && !(a <= i < b) implies is_space(#[trigger] s[i]) by {
        if i >= b {
            assert(rest[i - a] == s[i]);
        }
    }
    if n > 0 {
        assert(trimmed(s).first() == s[a]);
        assert(rest[n - 1] == trimmed(s).last());
    }
}

/// A text without white space at its ends is left as it is.
pub proof fn lemma_trimmed_stays(s: Seq<char>)
    requires
        s.len() > 0 ==> !is_space(s.first()) && !is_space(s.last()),
    ensures
        trimmed(s) == s,
{
}

/// White space at either end does not show in what is trimmed.
pub proof fn lemma_trim_drops_ends(s: Seq<char>, c: char)
    requires
        is_space(c),
    ensures
        trimmed(s.push(c)) == trimmed(s),
        trimmed(seq![c] + s) == trimmed(s),
{
    assert((seq![c] + s).drop_first() =~= s);
    assert((seq![c] + s).first() == c);
    let t = s.push(c);
    let a = lemma_trim_front_parts(s);
    let b = lemma_trim_front_parts(t);
    if a < s.len() {
        assert(t[a] == s[a]);
        if b > a {
            assert(is_space(t[a]));
        }
        if b < a {
            assert(t[b] == s[b]);
            assert(is_space(s[b]));
        }
        assert(t.skip(a).drop_last() =~= s.skip(a));
        assert(t.skip(a).last() == c);
    } else {
        if b < s.len() {
            assert(t[b] == s[b]);
            assert(is_space(s[b]));
        }
        assert(t.last() == c);
        assert(t.skip(b).len() <= 1);
        if t.skip(b).len() == 1 {
            assert(t[b] == c);
        }
        assert(trim_front(t) =~= Seq::<char>::empty());
        assert(trim_front(s) =~= Seq::<char>::empty());
    }
}

/// What is cut off a run at the end is that run and nothing else.
pub proof fn lemma_without_trailing(s: Seq<char>, c: char)
    ensures
        without_trailing(s, c).len() <= s.len(),
        without_trailing(s, c) == s.take(without_trailing(s, c).len() as int),
        forall|i: int| without_trailing(s, c).len() <= i < s.len() ==> #[trigger] s[i] == c,
        without_trailing(s, c).len() > 0 ==> without_trailing(s, c).last() != c,
    decreases s.len(),
{
    if s.len() > 0 && s.last() == c {
        lemma_without_trailing(s.drop_last(), c);
        let n = without_trailing(s, c).len() as int;
        assert(s.drop_last().take(n) =~= s.take(n));
        assert forall|i: int| n <= i < s.len() implies #[trigger] s[i] == c by {
            if i < s.len() - 1 {
                assert(s.drop_last()[i] == s[i]);
            }
        }
    } else {
        assert(s.take(s.len() as int) =~= s);
    }
}

/// The head of a text is its beginning, no longer than was asked for, and the whole of it
/// where that is short enough.
pub proof fn lemma_head(s: Seq<char>, n: int)
    requires
        n >= 0,
    ensures
        head(s, n).len() == if s.len() <= n {
            s.len() as int
        } else {
            n
        },
        forall|i: int| 0 <= i < head(s, n).len() ==> #[trigger] head(s, n)[i] == s[i],
{
}

proof fn lemma_joined_next(parts: Seq<Seq<char>>, glue: Seq<char>, x: Seq<char>)
    requires
        parts.len() > 0,
    ensures
        joined(parts.push(x), glue) == joined(parts, glue) + glue + x,
{
    assert(parts.push(x).drop_last() =~= parts);
}

proof fn lemma_joined_grows(parts: Seq<Seq<char>>, glue: Seq<char>, c: char)
    requires
        parts.len() > 0,
    ensures
        joined(parts.drop_last().push(parts.last().push(c)), glue) == joined(parts, glue).push(c),
{
    let front = parts.drop_last();
    assert(front.push(parts.last()) =~= parts);
    if front.len() > 0 {
        lemma_joined_next(front, glue, parts.last());
        lemma_joined_next(front, glue, parts.last().push(c));
        assert(joined(front, glue) + glue + parts.last().push(c) =~= (joined(front, glue) + glue
            + parts.last()).push(c));
    } else {
        assert(front.push(parts.last().push(c))[0] =~= parts[0].push(c));
    }
}

/// A text is its pieces with the separator between them, and no piece holds the
/// separator: so they are the pieces between its occurrences, each in its place.
pub proof fn lemma_pieces(s: Seq<char>, sep: char)
    ensures
        pieces(s, sep).len() > 0,
        joined(pieces(s, sep), seq![sep]) == s,
        forall|i: int| 0 <= i < pieces(s, sep).len() ==> !(#[trigger] pieces(s, sep)[i]).contains(sep),
    decreases s.len(),
{
    let all = pieces(s, sep);
    if s.len() == 0 {
        assert(joined(all, seq![sep]) =~= s);
    } else {
        let front = s.drop_last();
        let before = pieces(front, sep);
        lemma_pieces(front, sep);
        if s.last() == sep {
            lemma_joined_next(before, seq![sep], Seq::empty());
            assert(joined(all, seq![sep]) =~= s);
            assert forall|i: int| 0 <= i < all.len() implies !(#[trigger] all[i]).contains(sep) by {
                if i < before.len() {
                    assert(all[i] == before[i]);
                }
            }
        } else {
            lemma_joined_grows(before, seq![sep], s.last());
            assert(joined(all, seq![sep]) =~= s);
            assert forall|i: int| 0 <= i < all.len() implies !(#[trigger] all[i]).contains(sep) by {
                if i < before.len() - 1 {
                    assert(all[i] == before[i]);
                } else {
                    let p = before.last();
                    assert(p == before[before.len() - 1]);
                    assert(!p.contains(sep));
                    assert(all[i] == p.push(s.last()));
                    assert forall|j: int| 0 <= j < all[i].len() implies all[i][j] != sep by {
                        if j < p.len() {
                            assert(p.contains(p[j]));
                        }
                    }
                }
            }
        }
    }
}

/// Joining puts the glue between neighbours, and nowhere else.
pub proof fn lemma_joining(parts: Seq<Seq<char>>, glue: Seq<char>, x: Seq<char>)
    ensures
        joined(Seq::empty(), glue) == Seq::<char>::empty(),
        joined(seq![x], glue) == x,
        parts.len() > 0 ==> joined(parts.push(x), glue) == joined(parts, glue) + glue + x,
{
    if parts.len() > 0 {
        lemma_joined_next(parts, glue, x);
    }
}

/// The first byte in which two byte sequences differ decides which comes first, and what
/// goes on comes behind what ends.
pub proof fn lemma_first_difference_decides(p: Seq<u8>, a: Seq<u8>, b: Seq<u8>)
    ensures
        a.len() > 0 && b.len() > 0 && a[0] < b[0] ==> bytes_before(p + a, p + b),
        b.len() > 0 ==> bytes_before(p, p + b),
    decreases p.len(),
{
    if p.len() > 0 {
        lemma_first_difference_decides(p.drop_first(), a, b);
        assert((p + a).drop_first() =~= p.drop_first() + a);
        assert((p + b).drop_first() =~= p.drop_first() + b);
    } else {
        assert(p + a =~= a);
        assert(p + b =~= b);
    }
}

/// A text ends in another exactly where something before the other makes it up.
pub proof fn lemma_what_an_end_is(front: Seq<char>, suffix: Seq<char>, s: Seq<char>)
    ensures
        ends_in(front + suffix, suffix),
        ends_in(s, suffix) ==> s == s.take(s.len() - suffix.len()) + suffix,
{
    assert((front + suffix).skip(front.len() as int) =~= suffix);
    if ends_in(s, suffix) {
        assert(s =~= s.take(s.len() - suffix.len()) + s.skip(s.len() - suffix.len()));
    }
}

/// The texts of a list are those of its items, in order.
pub proof fn lemma_texts(v: Seq<String>, i: int)
    ensures
        texts(v).len() == v.len(),
        0 <= i < v.len() ==> texts(v)[i] == v[i]@,
{
}

/// What is left where one item alone is wanted is that item.
pub proof fn lemma_filter_one<T>(v: Seq<T>, f: spec_fn(T) -> bool, at: int)
    requires
        0 <= at < v.len(),
        f(v[at]),
        forall|i: int| 0 <= i < v.len() && i != at ==> !f(#[trigger] v[i]),
    ensures
        v.filter(f) == seq![v[at]],
    decreases v.len(),
{
    reveal(Seq::filter);
    let front = v.drop_last();
    if at == v.len() - 1 {
        lemma_filter_none(front, f);
        assert(v.filter(f) =~= seq![v[at]]);
    } else {
        assert(front[at] == v[at]);
        assert forall|i: int| 0 <= i < front.len() && i != at implies !f(#[trigger] front[i]) by {
            assert(front[i] == v[i]);
        }
        lemma_filter_one(front, f, at);
        assert(!f(v[v.len() - 1]));
    }
}

/// Nothing is left where nothing is wanted.
pub proof fn lemma_filter_none<T>(v: Seq<T>, f: spec_fn(T) -> bool)
    requires
        forall|i: int| 0 <= i < v.len() ==> !f(#[trigger] v[i]),
    ensures
        v.filter(f) == Seq::<T>::empty(),
    decreases v.len(),
{
    reveal(Seq::filter);
    if v.len() > 0 {
        let front = v.drop_last();
        assert forall|i: int| 0 <= i < front.len() implies !f(#[trigger] front[i]) by {
            assert(front[i] == v[i]);
        }
        lemma_filter_none(front, f);
        assert(!f(v[v.len() - 1]));
    } else {
        assert(v.filter(f) =~= Seq::<T>::empty());
    }
}

/// Where something is wanted, something is left; where two items are wanted, two at least.
pub proof fn lemma_filter_some<T>(v: Seq<T>, f: spec_fn(T) -> bool, a: int, b: int)
    requires
        0 <= a <= b < v.len(),
        f(v[a]),
        f(v[b]),
    ensures
        v.filter(f).len() >= 1,
        a < b ==> v.filter(f).len() >= 2,
    decreases v.len(),
{
    reveal(Seq::filter);
    let front = v.drop_last();
    if b < v.len() - 1 {
        assert(front[a] == v[a] && front[b] == v[b]);
        lemma_filter_some(front, f, a, b);
    } else if a < b {
        assert(front[a] == v[a]);
        lemma_filter_some(front, f, a, a);
    }
}

/// What is left of what is left is what is wanted for both reasons.
pub proof fn lemma_filter_twice<T>(v: Seq<T>, f: spec_fn(T) -> bool, g: spec_fn(T) -> bool)
    ensures
        v.filter(f).filter(g) == v.filter(|x: T| f(x) && g(x)),
    decreases v.len(),
{
    reveal(Seq::filter);
    let both = |x: T| f(x) && g(x);
    if v.len() > 0 {
        let front = v.drop_last();
        lemma_filter_twice(front, f, g);
        if f(v.last()) {
            assert(v.filter(f).drop_last() =~= front.filter(f));
        }
    } else {
        assert(v.filter(f).filter(g) =~= v.filter(both));
    }
}

/// The segments of a text are those of its pieces that are not empty, in order.
pub proof fn lemma_segments(s: Seq<char>, sep: char, p: Seq<char>)
    ensures
        segments(s, sep).contains(p) <==> pieces(s, sep).contains(p) && p.len() > 0,
        segments(s, sep).len() <= pieces(s, sep).len(),
{
    let all = pieces(s, sep);
    let f = |p: Seq<char>| p.len() > 0;
    all.lemma_filter_len(f);
    if segments(s, sep).contains(p) {
        let i = all.filter(f).index_of(p);
        all.lemma_filter_pred(f, i);
        all.lemma_filter_contains_rev(f, p);
    }
    if all.contains(p) && p.len() > 0 {
        let i = all.index_of(p);
        all.lemma_filter_contains(f, i);
    }
}

proof fn lemma_piece_without_sep(p: Seq<char>, sep: char)
    requires
        !p.contains(sep),
    ensures
        pieces(p, sep) == seq![p],
    decreases p.len(),
{
    if p.len() == 0 {
        assert(p =~= Seq::<char>::empty());
        assert(pieces(p, sep) =~= seq![p]);
    } else {
        let front = p.drop_last();
        assert(!front.contains(sep)) by {
            if front.contains(sep) {
                let i = front.index_of(sep);
                assert(p[i] == sep);
            }
        }
        assert(p.last() != sep) by {
            assert(p.contains(p[p.len() - 1]));
        }
        lemma_piece_without_sep(front, sep);
        assert(front.push(p.last()) =~= p);
        assert(pieces(p, sep) =~= seq![p]);
    }
}

proof fn lemma_pieces_behind_sep(s: Seq<char>, sep: char, p: Seq<char>)
    requires
        !p.contains(sep),
    ensures
        pieces(s.push(sep) + p, sep) == pieces(s, sep).push(p),
    decreases p.len(),
{
    let t = s.push(sep) + p;
    if p.len() == 0 {
        assert(t =~= s.push(sep));
        assert(t.drop_last() =~= s);
        assert(p =~= Seq::<char>::empty());
    } else {
        let front = p.drop_last();
        assert(!front.contains(sep)) by {
            if front.contains(sep) {
                let i = front.index_of(sep);
                assert(p[i] == sep);
            }
        }
        assert(p.last() != sep) by {
            assert(p.contains(p[p.len() - 1]));
        }
        lemma_pieces_behind_sep(s, sep, front);
        assert(t.drop_last() =~= s.push(sep) + front);
        assert(front.push(p.last()) =~= p);
        let before = pieces(s, sep).push(front);
        assert(before.drop_last() =~= pieces(s, sep));
        assert(t.last() == p.last());
    }
}

/// The pieces of joined texts are those texts, where none holds the separator.
pub proof fn lemma_pieces_of_joined(parts: Seq<Seq<char>>, sep: char)
    requires
        parts.len() > 0,
        forall|i: int| 0 <= i < parts.len() ==> !(#[trigger] parts[i]).contains(sep),
    ensures
        pieces(joined(parts, seq![sep]), sep) == parts,
    decreases parts.len(),
{
    if parts.len() == 1 {
        lemma_piece_without_sep(parts[0], sep);
        assert(parts =~= seq![parts[0]]);
    } else {
        let front = parts.drop_last();
        assert forall|i: int| 0 <= i < front.len() implies !(#[trigger] front[i]).contains(sep) by {
            assert(front[i] == parts[i]);
        }
        lemma_pieces_of_joined(front, sep);
        let last = parts[parts.len() - 1];
        lemma_pieces_behind_sep(joined(front, seq![sep]), sep, last);
        assert(joined(parts, seq![sep]) =~= joined(front, seq![sep]).push(sep) + last);
        assert(front.push(last) =~= parts);
    }
}

proof fn lemma_filter_all<T>(v: Seq<T>, f: spec_fn(T) -> bool)
    requires
        forall|i: int| 0 <= i < v.len() ==> f(#[trigger] v[i]),
    ensures
        v.filter(f) == v,
    decreases v.len(),
{
    reveal(Seq::filter);
    if v.len() > 0 {
        let front = v.drop_last();
        assert forall|i: int| 0 <= i < front.len() implies f(#[trigger] front[i]) by {
            assert(front[i] == v[i]);
        }
        lemma_filter_all(front, f);
        assert(f(v[v.len() - 1]));
        assert(front.push(v.last()) =~= v);
    } else {
        assert(v.filter(f) =~= v);
    }
}

/// The segments of a path that begins with a separator, or with several, are the texts
/// that it is made of.
pub proof fn lemma_segments_of_path(parts: Seq<Seq<char>>, sep: char)
    requires
        parts.len() > 0,
        forall|i: int|
            0 <= i < parts.len() ==> (#[trigger] parts[i]).len() > 0 && !parts[i].contains(sep),
    ensures
        segments(joined(parts, seq![sep]), sep) == parts,
        segments(seq![sep] + joined(parts, seq![sep]), sep) == parts,
{
    let f = |p: Seq<char>| p.len() > 0;
    lemma_pieces_of_joined(parts, sep);
    lemma_filter_all(parts, f);
    let empty = Seq::<char>::empty();
    let more = seq![empty] + parts;
    assert forall|i: int| 0 <= i < more.len() implies !(#[trigger] more[i]).contains(sep) by {
        if i > 0 {
            assert(more[i] == parts[i - 1]);
        }
    }
    lemma_pieces_of_joined(more, sep);
    lemma_joined_behind_nothing(parts, seq![sep]);
    assert(more.filter(f) == parts) by {
        lemma_filter_behind(empty, parts, f);
    }
}

proof fn lemma_joined_behind_nothing(parts: Seq<Seq<char>>, glue: Seq<char>)
    requires
        parts.len() > 0,
    ensures
        joined(seq![Seq::<char>::empty()] + parts, glue) == glue + joined(parts, glue),
    decreases parts.len(),
{
    let empty = Seq::<char>::empty();
    let more = seq![empty] + parts;
    assert(more.last() == parts.last());
    assert(more.drop_last() =~= seq![empty] + parts.drop_last());
    if parts.len() == 1 {
        assert(more.drop_last() =~= seq![empty]);
        assert(joined(seq![empty], glue) == empty);
        assert(joined(parts, glue) == parts[0]);
        assert(joined(more, glue) == empty + glue + parts[0]);
        assert(joined(more, glue) =~= glue + joined(parts, glue));
    } else {
        lemma_joined_behind_nothing(parts.drop_last(), glue);
        assert(joined(more, glue) =~= glue + joined(parts, glue));
    }
}

proof fn lemma_filter_behind<T>(first: T, v: Seq<T>, f: spec_fn(T) -> bool)
    requires
        !f(first),
    ensures
        (seq![first] + v).filter(f) == v.filter(f),
    decreases v.len(),
{
    reveal(Seq::filter);
    let more = seq![first] + v;
    if v.len() == 0 {
        assert(more.drop_last() =~= Seq::<T>::empty());
        assert(more.drop_last().filter(f) =~= Seq::<T>::empty());
        assert(v.filter(f) =~= Seq::<T>::empty());
    } else {
        lemma_filter_behind(first, v.drop_last(), f);
        assert(more.drop_last() =~= seq![first] + v.drop_last());
        assert(more.last() == v.last());
    }
}

/// Whether a message holds a text somewhere.
pub open spec fn holds_text(m: Seq<char>, part: Seq<char>) -> bool {
    exists|a: Seq<char>, b: Seq<char>| m == #[trigger] (a + part + b)
}

/// What a message ends in, it holds.
pub broadcast proof fn lemma_holds_end(a: Seq<char>, part: Seq<char>)
    ensures
        #[trigger] holds_text(a + part, part),
{
    assert(a + part =~= a + part + Seq::<char>::empty());
}

/// What a message holds, it holds when it goes on.
pub broadcast proof fn lemma_holds_on(m: Seq<char>, x: Seq<char>, part: Seq<char>)
    requires
        holds_text(m, part),
    ensures
        #[trigger] holds_text(m + x, part),
{
    let (a, b) = choose|a: Seq<char>, b: Seq<char>| m == #[trigger] (a + part + b);
    assert(m + x =~= a + part + (b + x));
}

/// A message holds itself.
pub broadcast proof fn lemma_holds_itself(m: Seq<char>)
    ensures
        #[trigger] holds_text(m, m),
{
    assert(m =~= Seq::<char>::empty() + m + Seq::<char>::empty());
}

/// What a message holds stands in it as it is, at some place.
pub proof fn lemma_what_holding_is(m: Seq<char>, part: Seq<char>)
    requires
        holds_text(m, part),
    ensures
        exists|i: int|
            0 <= i <= m.len() - part.len() && #[trigger] m.subrange(i, i + part.len()) == part,
{
    let (a, b) = choose|a: Seq<char>, b: Seq<char>| m == #[trigger] (a + part + b);
    assert(m.subrange(a.len() as int, (a.len() + part.len()) as int) =~= part);
}

/// A text comes before those that go on from it, and of two that differ the one with the
/// smaller byte at the first difference comes first.
pub proof fn lemma_which_text_comes_first(p: Seq<char>, a: Seq<char>, b: Seq<char>)
    ensures
        a.len() > 0 ==> text_before(p, p + a),
        a.len() > 0 && b.len() > 0 && encode_utf8(a)[0] < encode_utf8(b)[0] ==> text_before(
            p + a,
            p + b,
        ),
{
    lemma_encode_concat(p, a);
    lemma_encode_concat(p, b);
    lemma_chars_within_bytes(a);
    lemma_chars_within_bytes(b);
    lemma_first_difference_decides(encode_utf8(p), encode_utf8(a), encode_utf8(b));
    lemma_first_difference_decides(encode_utf8(p), encode_utf8(b), encode_utf8(a));
}

/// The digits of a number are its digits to the base of sixteen, the last one for what is
/// left over, and to the base of ten alike.
pub proof fn lemma_how_numbers_are_written(n: nat, width: nat)
    ensures
        hex(n, width + 1) == hex(n / 16, width).push("0123456789abcdef"@[(n % 16) as int]),
        hex(n, 0).len() == 0,
        n < 10 ==> decimal(n) == seq!["0123456789abcdef"@[n as int]],
        n >= 10 ==> decimal(n) == decimal(n / 10).push("0123456789abcdef"@[(n % 10) as int]),
{
}

} // verus!
