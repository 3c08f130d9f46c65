//! Character-sequence helpers shared by the parsers and the search code.

use vstd::prelude::*;

verus! {

broadcast use {vstd::string::group_string_axioms, vstd::slice::group_slice_axioms};

/// Appends one character to a `String` (`String::push`).
#[verifier::external_body]
pub(crate) fn push_char(s: &mut String, c: char)
    ensures
        final(s)@ == old(s)@.push(c),
{
    s.push(c);
}

/// The characters of a string slice, in order.
pub fn chars_of(s: &str) -> (r: Vec<char>)
    ensures
        r@ == s@,
{
    let mut out: Vec<char> = Vec::new();
    for c in it: s.chars()
        invariant
            it.seq() == s@,
            out@ == it.seq().take(it.index() as int),
    {
        out.push(c);
    }
    out
}

/// A `String` holding exactly the given characters.
pub fn string_of(cs: &[char]) -> (s: String)
    ensures
        s@ == cs@,
{
    let mut s = String::new();
    let mut i: usize = 0;
    while i < cs.len()
        invariant
            i <= cs@.len(),
            s@ == cs@.take(i as int),
        decreases cs@.len() - i,
    {
        push_char(&mut s, cs[i]);
        i = i + 1;
        assert(s@ == cs@.take(i as int));
    }
    assert(cs@.take(cs@.len() as int) == cs@);
    s
}

} // verus!

verus! {

/// `needle` occurs in `hay` starting at index `i`.
pub open spec fn occurs_at(hay: Seq<char>, needle: Seq<char>, i: int) -> bool {
    &&& 0 <= i
    &&& i + needle.len() <= hay.len()
    &&& hay.subrange(i, i + needle.len()) == needle
}

/// `needle` occurs somewhere in `hay`.
pub open spec fn contains_seq(hay: Seq<char>, needle: Seq<char>) -> bool {
    exists|i: int| occurs_at(hay, needle, i)
}

/// The first index at or after `from` at which `needle` occurs in `hay`.
pub open spec fn first_occurrence_from(hay: Seq<char>, needle: Seq<char>, from: nat) -> Option<nat>
    decreases hay.len() - from,
{
    if from + needle.len() > hay.len() {
        None
    } else if occurs_at(hay, needle, from as int) {
        Some(from)
    } else if from >= hay.len() {
        None
    } else {
        first_occurrence_from(hay, needle, from + 1)
    }
}

/// What `first_occurrence_from` returns is an occurrence, and the first one.
pub proof fn lemma_first_occurrence(hay: Seq<char>, needle: Seq<char>, from: nat)
    ensures
        match first_occurrence_from(hay, needle, from) {
            Some(i) => {
                &&& from <= i
                &&& occurs_at(hay, needle, i as int)
                &&& forall|j: int| from <= j < i ==> !occurs_at(hay, needle, j)
            },
            None => forall|j: int| from <= j ==> !occurs_at(hay, needle, j),
        },
    decreases hay.len() - from,
{
    if from + needle.len() > hay.len() {
    } else if occurs_at(hay, needle, from as int) {
    } else if from >= hay.len() {
    } else {
        lemma_first_occurrence(hay, needle, from + 1);
    }
}

/// Occurrences in a suffix are occurrences in the whole, shifted.
pub proof fn lemma_occurs_skip(hay: Seq<char>, needle: Seq<char>, p: int, k: int)
    requires
        0 <= p <= hay.len(),
        0 <= k,
    ensures
        occurs_at(hay.skip(p), needle, k) == occurs_at(hay, needle, p + k),
{
    if 0 <= k && k + needle.len() <= hay.len() - p {
        assert(hay.skip(p).subrange(k, k + needle.len()) =~= hay.subrange(p + k, p + k + needle.len()));
    }
}

/// Searching a suffix finds the same first occurrence, shifted.
pub proof fn lemma_first_occurrence_skip(hay: Seq<char>, needle: Seq<char>, p: nat, k: nat)
    requires
        p <= hay.len(),
    ensures
        first_occurrence_from(hay.skip(p as int), needle, k) == (match first_occurrence_from(hay, needle, p + k) {
            Some(i) => Some((i - p) as nat),
            None => None,
        }),
    decreases hay.len() - p - k,
{
    lemma_occurs_skip(hay, needle, p as int, k as int);
    if k + needle.len() > hay.len() - p {
    } else if occurs_at(hay, needle, (p + k) as int) {
    } else if p + k >= hay.len() {
    } else {
        lemma_first_occurrence_skip(hay, needle, p, k + 1);
    }
}

/// Whether `needle` occurs in `hay` at index `i`.
pub fn matches_at(hay: &[char], needle: &[char], i: usize) -> (b: bool)
    ensures
        b == occurs_at(hay@, needle@, i as int),
{
    if i > hay.len() || needle.len() > hay.len() - i {
        return false;
    }
    let mut k: usize = 0;
    while k < needle.len()
        invariant
            k <= needle@.len(),
            i + needle@.len() <= hay@.len(),
            i + needle.len() <= hay.len(),
            forall|j: int| 0 <= j < k ==> hay@[i + j] == needle@[j],
        decreases needle@.len() - k,
    {
        if hay[i + k] != needle[k] {
            assert(hay@.subrange(i as int, i + needle@.len())[k as int] == hay@[i + k]);
            return false;
        }
        k = k + 1;
    }
    assert(hay@.subrange(i as int, i + needle@.len()) =~= needle@);
    true
}

/// The first occurrence of `needle` in `hay` at or after `from`.
pub fn find_from(hay: &[char], needle: &[char], from: usize) -> (r: Option<usize>)
    ensures
        match r {
            Some(i) => first_occurrence_from(hay@, needle@, from as nat) == Some(i as nat),
            None => first_occurrence_from(hay@, needle@, from as nat) is None,
        },
{
    if from > hay.len() {
        return None;
    }
    let mut i = from;
    while needle.len() <= hay.len() - i
        invariant
            from <= i <= hay@.len(),
            first_occurrence_from(hay@, needle@, from as nat) == first_occurrence_from(hay@, needle@, i as nat),
        decreases hay@.len() - i,
    {
        if matches_at(hay, needle, i) {
            return Some(i);
        }
        assert(needle@.len() > 0) by {
            if needle@.len() == 0 {
                assert(hay@.subrange(i as int, i as int) =~= needle@);
            }
        }
        i = i + 1;
    }
    None
}

/// Whether `needle` occurs anywhere in `hay`.
pub fn contains_chars(hay: &[char], needle: &[char]) -> (b: bool)
    ensures
        b == contains_seq(hay@, needle@),
{
    let r = find_from(hay, needle, 0);
    proof {
        lemma_first_occurrence(hay@, needle@, 0);
    }
    r.is_some()
}

} // verus!

verus! {

/// A copy of `s[from..to]`.
pub fn copy_range(s: &[char], from: usize, to: usize) -> (r: Vec<char>)
    requires
        from <= to <= s@.len(),
    ensures
        r@ == s@.subrange(from as int, to as int),
{
    let mut r: Vec<char> = Vec::new();
    let mut i = from;
    while i < to
        invariant
            from <= i <= to <= s@.len(),
            r@ == s@.subrange(from as int, i as int),
        decreases to - i,
    {
        r.push(s[i]);
        i = i + 1;
        assert(r@ =~= s@.subrange(from as int, i as int));
    }
    r
}

/// The pieces that cutting `hay` at every non-overlapping occurrence of `sep`,
/// scanning from the left, yields (the pieces of `str::split`).
pub open spec fn split_pieces(hay: Seq<char>, sep: Seq<char>) -> Seq<Seq<char>>
    decreases hay.len(),
{
    if sep.len() == 0 {
        seq![hay]
    } else {
        match first_occurrence_from(hay, sep, 0) {
            Some(i) => if i + sep.len() <= hay.len() {
                seq![hay.take(i as int)] + split_pieces(hay.skip((i + sep.len()) as int), sep)
            } else {
                seq![hay]
            },
            None => seq![hay],
        }
    }
}

/// Splitting always yields at least one piece.
pub proof fn lemma_split_pieces_nonempty(hay: Seq<char>, sep: Seq<char>)
    ensures
        split_pieces(hay, sep).len() >= 1,
    decreases hay.len(),
{
    if sep.len() > 0 {
        match first_occurrence_from(hay, sep, 0) {
            Some(i) => if i + sep.len() <= hay.len() {
                lemma_split_pieces_nonempty(hay.skip((i + sep.len()) as int), sep);
            },
            None => {},
        }
    }
}

/// Splits `hay` at every non-overlapping occurrence of the non-empty `sep`.
pub fn split_chars(hay: &[char], sep: &[char]) -> (pieces: Vec<Vec<char>>)
    requires
        sep@.len() > 0,
    ensures
        pieces.deep_view() == split_pieces(hay@, sep@),
{
    let mut pieces: Vec<Vec<char>> = Vec::new();
    let mut p: usize = 0;
    assert(hay@.skip(0) =~= hay@);
    assert(pieces.deep_view() =~= Seq::<Seq<char>>::empty());
    loop
        invariant
            p <= hay@.len(),
            sep@.len() > 0,
            pieces.deep_view() + split_pieces(hay@.skip(p as int), sep@) == split_pieces(hay@, sep@),
        decreases hay@.len() - p,
    {
        let ghost rest = hay@.skip(p as int);
        proof {
            lemma_first_occurrence_skip(hay@, sep@, p as nat, 0);
            lemma_first_occurrence(hay@, sep@, p as nat);
        }
        match find_from(hay, sep, p) {
            Some(i) => {
                assert(occurs_at(hay@, sep@, i as int));
                assert(i + sep.len() <= hay.len());
                let piece = copy_range(hay, p, i);
                assert(rest.take(i - p) =~= piece@);
                assert(rest.skip(i - p + sep@.len()) =~= hay@.skip(i + sep@.len()));
                let ghost old_pieces = pieces.deep_view();
                assert(piece.deep_view() =~= piece@);
                pieces.push(piece);
                assert(pieces.deep_view() =~= old_pieces.push(piece@));
                p = i + sep.len();
                assert(old_pieces + split_pieces(rest, sep@) =~= pieces.deep_view() + split_pieces(hay@.skip(p as int), sep@));
            },
            None => {
                let piece = copy_range(hay, p, hay.len());
                assert(rest =~= piece@);
                let ghost old_pieces = pieces.deep_view();
                assert(piece.deep_view() =~= piece@);
                pieces.push(piece);
                assert(pieces.deep_view() =~= old_pieces.push(piece@));
                assert(pieces.deep_view() =~= split_pieces(hay@, sep@));
                return pieces;
            },
        }
    }
}

} // verus!

verus! {

/// What `char::to_lowercase` yields for a character (Unicode case mapping).
pub uninterp spec fn char_lowercase(c: char) -> Seq<char>;

/// Whether `char::is_alphanumeric` holds (Unicode `Alphabetic` or `Numeric`).
pub uninterp spec fn char_is_alphanumeric(c: char) -> bool;

/// Whether a character beyond ASCII has the Unicode `White_Space`
/// property.
pub uninterp spec fn char_is_whitespace(c: char) -> bool;

/// What `str::to_lowercase` yields for a string.
pub uninterp spec fn str_lowercase(s: Seq<char>) -> Seq<char>;

/// `char::to_lowercase`, collected: the result is exactly the character's
/// Unicode lowercase mapping, which is left unstated beyond its name.
#[verifier::external_body]
pub(crate) fn lowercase_of(c: char) -> (r: Vec<char>)
    ensures
        r@ == char_lowercase(c),
{
    c.to_lowercase().collect()
}

/// `char::is_alphanumeric`; the Unicode property tables are not restated.
#[verifier::external_body]
pub(crate) fn is_alphanumeric(c: char) -> (b: bool)
    ensures
        b == char_is_alphanumeric(c),
{
    c.is_alphanumeric()
}

/// Whether `char::is_whitespace` holds: in ASCII exactly for the tab, line
/// feed, vertical tab, form feed, carriage return and space; beyond ASCII
/// as the Unicode `White_Space` property says.
pub open spec fn is_white_space(c: char) -> bool {
    if (c as int) < 128 {
        c == ' ' || ('\t' <= c && c <= '\r')
    } else {
        char_is_whitespace(c)
    }
}

/// `char::is_whitespace`: the Unicode `White_Space` property, whose ASCII
/// members the documentation lists; the table beyond ASCII is not
/// restated.
#[verifier::external_body]
pub(crate) fn is_whitespace(c: char) -> (b: bool)
    ensures
        b == is_white_space(c),
        (c as int) >= 128 ==> b == char_is_whitespace(c),
{
    c.is_whitespace()
}

/// `str::to_lowercase`; the Unicode case mapping is not restated.
#[verifier::external_body]
pub(crate) fn lowercase_str(s: &str) -> (r: String)
    ensures
        r@ == str_lowercase(s@),
{
    s.to_lowercase()
}

/// The alphanumeric characters of `s`, in order.
pub open spec fn alphanumeric_only(s: Seq<char>) -> Seq<char>
    decreases s.len(),
{
    if s.len() == 0 {
        seq![]
    } else if char_is_alphanumeric(s.last()) {
        alphanumeric_only(s.drop_last()).push(s.last())
    } else {
        alphanumeric_only(s.drop_last())
    }
}

/// Search form of a text: every character lowercased, then only the
/// alphanumeric characters kept.
pub open spec fn search_normalized(s: Seq<char>) -> Seq<char>
    decreases s.len(),
{
    if s.len() == 0 {
        seq![]
    } else {
        search_normalized(s.drop_last()) + alphanumeric_only(char_lowercase(s.last()))
    }
}

/// Appends the alphanumeric characters of `cs` to `out`.
fn push_alphanumeric(out: &mut Vec<char>, cs: &[char])
    ensures
        final(out)@ == old(out)@ + alphanumeric_only(cs@),
{
    let ghost start = out@;
    let mut j: usize = 0;
    while j < cs.len()
        invariant
            j <= cs@.len(),
            out@ == start + alphanumeric_only(cs@.take(j as int)),
        decreases cs@.len() - j,
    {
        let c = cs[j];
        assert(cs@.take(j + 1).drop_last() =~= cs@.take(j as int));
        if is_alphanumeric(c) {
            out.push(c);
        }
        j = j + 1;
    }
    assert(cs@.take(cs@.len() as int) =~= cs@);
}

/// Lowercases `cs` and keeps only the alphanumeric characters.
pub fn normalize_chars(cs: &[char]) -> (r: Vec<char>)
    ensures
        r@ == search_normalized(cs@),
{
    let mut out: Vec<char> = Vec::new();
    let mut i: usize = 0;
    while i < cs.len()
        invariant
            i <= cs@.len(),
            out@ == search_normalized(cs@.take(i as int)),
        decreases cs@.len() - i,
    {
        let lower = lowercase_of(cs[i]);
        assert(cs@.take(i + 1).drop_last() =~= cs@.take(i as int));
        push_alphanumeric(&mut out, &lower);
        i = i + 1;
    }
    assert(cs@.take(cs@.len() as int) =~= cs@);
    out
}

/// Lowercases `value` and keeps only its alphanumeric characters.
pub fn normalize_search_text(value: &str) -> (r: String)
    ensures
        r@ == search_normalized(value@),
{
    let cs = chars_of(value);
    let out = normalize_chars(&cs);
    string_of(&out)
}

/// Appends all of `cs` to `out`.
pub fn append_chars(out: &mut Vec<char>, cs: &[char])
    ensures
        final(out)@ == old(out)@ + cs@,
{
    let ghost start = out@;
    let mut i: usize = 0;
    while i < cs.len()
        invariant
            i <= cs@.len(),
            out@ == start + cs@.take(i as int),
        decreases cs@.len() - i,
    {
        out.push(cs[i]);
        i = i + 1;
        assert(out@ =~= start + cs@.take(i as int));
    }
    assert(cs@.take(cs@.len() as int) =~= cs@);
}

/// `s` without its leading whitespace.
pub open spec fn trim_start_seq(s: Seq<char>) -> Seq<char>
    decreases s.len(),
{
    if s.len() > 0 && is_white_space(s[0]) {
        trim_start_seq(s.drop_first())
    } else {
        s
    }
}

/// `s` without its trailing whitespace.
pub open spec fn trim_end_seq(s: Seq<char>) -> Seq<char>
    decreases s.len(),
{
    if s.len() > 0 && is_white_space(s.last()) {
        trim_end_seq(s.drop_last())
    } else {
        s
    }
}

/// `s` without leading and trailing whitespace (`str::trim`).
pub open spec fn trim_seq(s: Seq<char>) -> Seq<char> {
    trim_end_seq(trim_start_seq(s))
}

/// No whitespace at either end.
pub open spec fn is_trimmed(s: Seq<char>) -> bool {
    s.len() == 0 || (!is_white_space(s[0]) && !is_white_space(s.last()))
}

proof fn lemma_trim_start_shape(s: Seq<char>)
    ensures
        trim_start_seq(s).len() > 0 ==> !is_white_space(trim_start_seq(s)[0]),
    decreases s.len(),
{
    if s.len() > 0 && is_white_space(s[0]) {
        lemma_trim_start_shape(s.drop_first());
    }
}

proof fn lemma_trim_end_shape(s: Seq<char>)
    ensures
        trim_end_seq(s).len() <= s.len(),
        trim_end_seq(s) == s.take(trim_end_seq(s).len() as int),
        trim_end_seq(s).len() > 0 ==> !is_white_space(trim_end_seq(s).last()),
    decreases s.len(),
{
    if s.len() > 0 && is_white_space(s.last()) {
        lemma_trim_end_shape(s.drop_last());
        let t = trim_end_seq(s.drop_last());
        assert(s.drop_last().take(t.len() as int) =~= s.take(t.len() as int));
    } else {
        assert(s.take(s.len() as int) =~= s);
    }
}

/// Trimming leaves no whitespace at either end, and leaves a text with
/// none there as it is.
pub proof fn lemma_trim_shape(s: Seq<char>)
    ensures
        is_trimmed(trim_seq(s)),
        is_trimmed(s) ==> trim_seq(s) == s,
{
    lemma_trim_start_shape(s);
    let u = trim_start_seq(s);
    lemma_trim_end_shape(u);
    let v = trim_end_seq(u);
    if v.len() > 0 {
        assert(v[0] == u.take(v.len() as int)[0]);
    }
}

/// Removes leading and trailing whitespace.
pub fn trim_chars(s: &[char]) -> (r: Vec<char>)
    ensures
        r@ == trim_seq(s@),
{
    let mut a: usize = 0;
    assert(s@.skip(0) =~= s@);
    while a < s.len() && is_whitespace(s[a])
        invariant
            a <= s@.len(),
            trim_start_seq(s@) == trim_start_seq(s@.skip(a as int)),
        decreases s@.len() - a,
    {
        assert(s@.skip(a as int).drop_first() =~= s@.skip(a + 1));
        a = a + 1;
    }
    let mut b: usize = s.len();
    assert(s@.skip(a as int) =~= s@.subrange(a as int, b as int));
    while b > a && is_whitespace(s[b - 1])
        invariant
            a <= b <= s@.len(),
            trim_start_seq(s@) == s@.skip(a as int),
            trim_seq(s@) == trim_end_seq(s@.subrange(a as int, b as int)),
        decreases b,
    {
        assert(s@.subrange(a as int, b as int).drop_last() =~= s@.subrange(a as int, b - 1));
        b = b - 1;
    }
    copy_range(s, a, b)
}

/// The decimal digit character for `d` in `0..10`.
pub open spec fn digit_char(d: int) -> char {
    (48 + d) as char
}

/// Decimal representation of a natural number, without leading zeros.
pub open spec fn nat_decimal(n: nat) -> Seq<char>
    decreases n,
{
    if n < 10 {
        seq![digit_char(n as int)]
    } else {
        nat_decimal(n / 10).push(digit_char((n % 10) as int))
    }
}

/// Decimal representation of an integer, as `Display` writes it.
pub open spec fn int_decimal(v: int) -> Seq<char> {
    if v < 0 {
        seq!['-'] + nat_decimal((-v) as nat)
    } else {
        nat_decimal(v as nat)
    }
}

fn digit(d: u64) -> (c: char)
    requires
        d < 10,
    ensures
        c == digit_char(d as int),
{
    let b: u8 = 48 + d as u8;
    b as char
}

/// Appends the decimal digits of `n`.
pub fn push_decimal(out: &mut Vec<char>, n: u64)
    ensures
        final(out)@ == old(out)@ + nat_decimal(n as nat),
    decreases n,
{
    if n >= 10 {
        push_decimal(out, n / 10);
    }
    let ghost before = out@;
    out.push(digit(n % 10));
    assert(out@ =~= old(out)@ + nat_decimal(n as nat));
}

/// The decimal representation of `n`, as a `String`.
pub fn u64_text(n: u64) -> (r: String)
    ensures
        r@ == nat_decimal(n as nat),
{
    let mut out: Vec<char> = Vec::new();
    push_decimal(&mut out, n);
    assert(out@ =~= nat_decimal(n as nat));
    string_of(&out)
}

/// The decimal representation of `v` (what `i64`'s `Display` writes).
pub fn i64_to_decimal(v: i64) -> (r: Vec<char>)
    ensures
        r@ == int_decimal(v as int),
{
    let mut out: Vec<char> = Vec::new();
    if v < 0 {
        out.push('-');
        let magnitude: u64 = (0i128 - v as i128) as u64;
        push_decimal(&mut out, magnitude);
        assert(out@ =~= seq!['-'] + nat_decimal((-(v as int)) as nat));
    } else {
        push_decimal(&mut out, v as u64);
        assert(out@ =~= nat_decimal(v as nat));
    }
    out
}

/// A decimal digit character.
pub open spec fn is_digit(c: char) -> bool {
    '0' <= c && c <= '9'
}

/// Every character is a decimal digit.
pub open spec fn all_digits(s: Seq<char>) -> bool {
    forall|i: int| 0 <= i < s.len() ==> is_digit(#[trigger] s[i])
}

/// The value of a string of decimal digits.
pub open spec fn digits_value(s: Seq<char>) -> int
    decreases s.len(),
{
    if s.len() == 0 {
        0
    } else {
        digits_value(s.drop_last()) * 10 + (s.last() as int - 48)
    }
}

/// What `u64`'s `FromStr` accepts: an optional `+`, then one or more decimal
/// digits whose value fits in a `u64`.
pub open spec fn parse_u64_spec(s: Seq<char>) -> Option<u64> {
    let d = if s.len() > 0 && s[0] == '+' { s.drop_first() } else { s };
    if d.len() > 0 && all_digits(d) && digits_value(d) <= u64::MAX {
        Some(digits_value(d) as u64)
    } else {
        None
    }
}

proof fn lemma_digits_value_monotone(s: Seq<char>, k: int)
    requires
        all_digits(s),
        0 <= k <= s.len(),
    ensures
        0 <= digits_value(s.take(k)) <= digits_value(s),
    decreases s.len() - k,
{
    if k < s.len() {
        lemma_digits_value_monotone(s, k + 1);
        assert(s.take(k + 1).drop_last() =~= s.take(k));
        assert(is_digit(s[k]));
    } else {
        assert(s.take(k) =~= s);
        lemma_digits_value_nonneg(s);
    }
}

proof fn lemma_digits_value_nonneg(s: Seq<char>)
    requires
        all_digits(s),
    ensures
        digits_value(s) >= 0,
    decreases s.len(),
{
    if s.len() > 0 {
        assert(all_digits(s.drop_last()));
        assert(is_digit(s[s.len() - 1]));
        lemma_digits_value_nonneg(s.drop_last());
    }
}

/// Parses a `u64` the way `str::parse::<u64>` does.
pub fn parse_u64(s: &[char]) -> (r: Option<u64>)
    ensures
        r == parse_u64_spec(s@),
{
    let start: usize = if s.len() > 0 && s[0] == '+' { 1 } else { 0 };
    let ghost d = if s@.len() > 0 && s@[0] == '+' { s@.drop_first() } else { s@ };
    assert(d =~= s@.skip(start as int));
    if start >= s.len() {
        return None;
    }
    let mut acc: u64 = 0;
    let mut i: usize = start;
    while i < s.len()
        invariant
            start <= i <= s@.len(),
            d == s@.skip(start as int),
            d == (if s@.len() > 0 && s@[0] == '+' { s@.drop_first() } else { s@ }),
            all_digits(d.take(i - start)),
            acc as int == digits_value(d.take(i - start)),
        decreases s@.len() - i,
    {
        let c = s[i];
        assert(d[i - start] == c);
        if !('0' <= c && c <= '9') {
            assert(!all_digits(d));
            return None;
        }
        assert(d.take(i - start + 1).drop_last() =~= d.take(i - start));
        assert(all_digits(d.take(i - start + 1)));
        let v: u64 = (c as u32 - 48) as u64;
        if acc > (u64::MAX - v) / 10 {
            proof {
                assert(digits_value(d.take(i - start + 1)) > u64::MAX) by (nonlinear_arith)
                    requires
                        digits_value(d.take(i - start + 1)) == acc * 10 + v,
                        acc > (u64::MAX - v) / 10,
                        v < 10,
                ;
                if all_digits(d) {
                    lemma_digits_value_monotone(d, i - start + 1);
                }
            }
            return None;
        }
        proof {
            assert(acc * 10 + v <= u64::MAX) by (nonlinear_arith)
                requires
                    acc <= (u64::MAX - v) / 10,
                    v < 10,
            ;
        }
        acc = acc * 10 + v;
        i = i + 1;
    }
    assert(d.take(s@.len() - start) =~= d);
    Some(acc)
}

} // verus!

verus! {

/// `s` without leading copies of `prefix` (`str::trim_start_matches`).
pub open spec fn trim_leading(s: Seq<char>, prefix: Seq<char>) -> Seq<char>
    decreases s.len(),
{
    if prefix.len() > 0 && s.len() >= prefix.len() && s.take(prefix.len() as int) == prefix {
        trim_leading(s.skip(prefix.len() as int), prefix)
    } else {
        s
    }
}

pub fn trim_leading_chars(s: &[char], prefix: &[char]) -> (r: Vec<char>)
    ensures
        r@ == trim_leading(s@, prefix@),
{
    let mut a: usize = 0;
    assert(s@.skip(0) =~= s@);
    if prefix.len() == 0 {
        return copy_range(s, 0, s.len());
    }
    while a <= s.len() && prefix.len() <= s.len() - a && matches_at(s, prefix, a)
        invariant
            a <= s@.len(),
            prefix@.len() > 0,
            trim_leading(s@, prefix@) == trim_leading(s@.skip(a as int), prefix@),
        decreases s@.len() - a,
    {
        assert(s@.skip(a as int).take(prefix@.len() as int) =~= s@.subrange(a as int, a + prefix@.len()));
        assert(s@.skip(a as int).skip(prefix@.len() as int) =~= s@.skip(a + prefix@.len()));
        a = a + prefix.len();
    }
    proof {
        if prefix@.len() <= s@.len() - a {
            assert(s@.skip(a as int).take(prefix@.len() as int) =~= s@.subrange(a as int, a + prefix@.len()));
        }
    }
    let r = copy_range(s, a, s.len());
    assert(r@ =~= s@.skip(a as int));
    r
}

/// Pieces joined with `sep` between each two.
pub open spec fn joined_by(pieces: Seq<Seq<char>>, sep: char) -> Seq<char>
    decreases pieces.len(),
{
    if pieces.len() == 0 {
        Seq::empty()
    } else if pieces.len() == 1 {
        pieces[0]
    } else {
        joined_by(pieces.drop_last(), sep) + seq![sep] + pieces.last()
    }
}

/// What `i64`'s `FromStr` accepts: an optional sign, then one or more
/// decimal digits whose signed value fits in an `i64`.
pub open spec fn parse_i64_spec(s: Seq<char>) -> Option<i64> {
    let neg = s.len() > 0 && s[0] == '-';
    let d = if s.len() > 0 && (s[0] == '-' || s[0] == '+') {
        s.drop_first()
    } else {
        s
    };
    let v: int = if neg {
        -digits_value(d)
    } else {
        digits_value(d)
    };
    if d.len() > 0 && all_digits(d) && i64::MIN <= v && v <= i64::MAX {
        Some(v as i64)
    } else {
        None
    }
}

/// Parses an `i64` the way `str::parse::<i64>` does.
pub fn parse_i64(s: &[char]) -> (r: Option<i64>)
    ensures
        r == parse_i64_spec(s@),
{
    let signed = s.len() > 0 && (s[0] == '-' || s[0] == '+');
    let neg = s.len() > 0 && s[0] == '-';
    let start: usize = if signed { 1 } else { 0 };
    let d = copy_range(s, start, s.len());
    assert(d@ == (if s@.len() > 0 && (s@[0] == '-' || s@[0] == '+') {
        s@.drop_first()
    } else {
        s@
    }));
    if d.len() == 0 || !('0' <= d[0] && d[0] <= '9') {
        proof {
            if d@.len() > 0 {
                assert(!is_digit(d@[0]));
            }
        }
        return None;
    }
    let magnitude = parse_u64(&d);
    proof {
        if all_digits(d@) {
            lemma_digits_value_nonneg(d@);
        }
        assert(d@.len() > 0 && d@[0] != '+');
    }
    match magnitude {
        None => {
            proof {
                if all_digits(d@) {
                    assert(digits_value(d@) > u64::MAX);
                }
            }
            None
        },
        Some(m) => {
            if neg {
                if m <= 9223372036854775808u64 {
                    if m == 9223372036854775808u64 {
                        Some(i64::MIN)
                    } else {
                        Some(-(m as i64))
                    }
                } else {
                    None
                }
            } else {
                if m <= 9223372036854775807u64 {
                    Some(m as i64)
                } else {
                    None
                }
            }
        },
    }
}

/// Whether two character sequences are equal.
pub fn chars_equal(a: &[char], b: &[char]) -> (r: bool)
    ensures
        r == (a@ == b@),
{
    if a.len() != b.len() {
        return false;
    }
    let mut i: usize = 0;
    while i < a.len()
        invariant
            i <= a@.len(),
            a@.len() == b@.len(),
            forall|j: int| 0 <= j < i ==> a@[j] == b@[j],
        decreases a@.len() - i,
    {
        if a[i] != b[i] {
            return false;
        }
        i = i + 1;
    }
    assert(a@ =~= b@);
    true
}

/// Whether two strings hold the same characters.
pub fn str_equal(a: &str, b: &str) -> (r: bool)
    ensures
        r == (a@ == b@),
{
    chars_equal(&chars_of(a), &chars_of(b))
}

/// A `String` made of `prefix` followed by `rest`.
pub fn concat_str(prefix: &str, rest: &str) -> (r: String)
    ensures
        r@ == prefix@ + rest@,
{
    let mut r = prefix.to_string();
    r.append(rest);
    r
}

} // verus!
