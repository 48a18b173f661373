//! Characters and strings: classification, comparison, trimming, splitting and
//! joining.
//!
//! Contracts speak of a string by its sequence of characters.

use vstd::prelude::*;
use vstd::utf8::encode_utf8;

verus! {

/// `String::push` appends one character at the end.
pub assume_specification[ String::push ](s: &mut String, c: char)
    ensures
        final(s)@ == old(s)@.push(c),
;

/// The characters of each string of a list.
pub open spec fn texts(list: Seq<String>) -> Seq<Seq<char>> {
    Seq::new(list.len(), |i: int| list[i]@)
}

/// The characters of an optional string.
pub open spec fn text_of(s: Option<String>) -> Option<Seq<char>> {
    match s {
        Some(t) => Some(t@),
        None => None,
    }
}

/// The characters of an optional string slice.
pub open spec fn text_of_ref(s: Option<&str>) -> Option<Seq<char>> {
    match s {
        Some(t) => Some(t@),
        None => None,
    }
}

/// Length of a text in UTF-8 bytes.
pub open spec fn byte_len(s: Seq<char>) -> nat {
    encode_utf8(s).len()
}

// ---------------------------------------------------------------------------
// Character classes
// ---------------------------------------------------------------------------

/// Characters with the Unicode `White_Space` property.
pub open spec fn white_space(c: char) -> bool {
    let n = c as u32;
    ||| 0x09 <= n <= 0x0d
    ||| n == 0x20
    ||| n == 0x85
    ||| n == 0xa0
    ||| n == 0x1680
    ||| 0x2000 <= n <= 0x200a
    ||| n == 0x2028
    ||| n == 0x2029
    ||| n == 0x202f
    ||| n == 0x205f
    ||| n == 0x3000
}

/// Characters of the Unicode general category `Cc`.
pub open spec fn control(c: char) -> bool {
    let n = c as u32;
    n <= 0x1f || 0x7f <= n <= 0x9f
}

/// `0` to `9`.
pub open spec fn digit(c: char) -> bool {
    0x30 <= c as u32 <= 0x39
}

/// `A` to `Z`.
pub open spec fn upper_letter(c: char) -> bool {
    0x41 <= c as u32 <= 0x5a
}

/// `a` to `z`.
pub open spec fn lower_letter(c: char) -> bool {
    0x61 <= c as u32 <= 0x7a
}

/// ASCII letters and digits.
pub open spec fn alphanumeric(c: char) -> bool {
    digit(c) || upper_letter(c) || lower_letter(c)
}

/// Hexadecimal digits in either case.
pub open spec fn hex_digit(c: char) -> bool {
    digit(c) || 0x41 <= c as u32 <= 0x46 || 0x61 <= c as u32 <= 0x66
}

/// ASCII graphic characters and the space.
pub open spec fn printable(c: char) -> bool {
    0x20 <= c as u32 <= 0x7e
}

pub fn is_white_space(c: char) -> (r: bool)
    ensures
        r == white_space(c),
{
    let n: u32 = c as u32;
    (0x09 <= n && n <= 0x0d) || n == 0x20 || n == 0x85 || n == 0xa0 || n == 0x1680 || (0x2000 <= n
        && n <= 0x200a) || n == 0x2028 || n == 0x2029 || n == 0x202f || n == 0x205f || n == 0x3000
}

pub fn is_control(c: char) -> (r: bool)
    ensures
        r == control(c),
{
    let n: u32 = c as u32;
    n <= 0x1f || (0x7f <= n && n <= 0x9f)
}

pub fn is_digit(c: char) -> (r: bool)
    ensures
        r == digit(c),
{
    let n: u32 = c as u32;
    0x30 <= n && n <= 0x39
}

pub fn is_alphanumeric(c: char) -> (r: bool)
    ensures
        r == alphanumeric(c),
{
    let n: u32 = c as u32;
    (0x30 <= n && n <= 0x39) || (0x41 <= n && n <= 0x5a) || (0x61 <= n && n <= 0x7a)
}

pub fn is_hex_digit(c: char) -> (r: bool)
    ensures
        r == hex_digit(c),
{
    let n: u32 = c as u32;
    (0x30 <= n && n <= 0x39) || (0x41 <= n && n <= 0x46) || (0x61 <= n && n <= 0x66)
}

pub fn is_printable(c: char) -> (r: bool)
    ensures
        r == printable(c),
{
    let n: u32 = c as u32;
    0x20 <= n && n <= 0x7e
}

// ---------------------------------------------------------------------------
// Whole strings
// ---------------------------------------------------------------------------

/// The characters of a string, in order.
pub fn chars_of(s: &str) -> (r: Vec<char>)
    ensures
        r@ == s@,
{
    let mut r: Vec<char> = Vec::new();
    for c in it: s.chars()
        invariant
            it.seq() == s@,
            r@ == s@.take(it.index()),
    {
        r.push(c);
    }
    assert(s@.take(s@.len() as int) == s@);
    r
}

/// Length in UTF-8 bytes.
pub fn length_in_bytes(s: &str) -> (r: usize)
    ensures
        r == byte_len(s@),
{
    s.as_bytes().len()
}

/// Whether two texts are the same.
pub fn same_text(a: &str, b: &str) -> (r: bool)
    ensures
        r == (a@ == b@),
{
    let x = chars_of(a);
    let y = chars_of(b);
    if x.len() != y.len() {
        return false;
    }
    let mut i: usize = 0;
    while i < x.len()
        invariant
            x@ == a@,
            y@ == b@,
            x@.len() == y@.len(),
            i <= x@.len(),
            forall|j: int| 0 <= j < i ==> a@[j] == b@[j],
        decreases x@.len() - i,
    {
        if x[i] != y[i] {
            assert(a@[i as int] != b@[i as int]);
            return false;
        }
        i += 1;
    }
    assert(a@ =~= b@);
    true
}

/// Whether a text begins with another.
pub fn begins_with(s: &str, prefix: &str) -> (r: bool)
    ensures
        r == prefix@.is_prefix_of(s@),
{
    let x = chars_of(s);
    let y = chars_of(prefix);
    if x.len() < y.len() {
        return false;
    }
    let mut i: usize = 0;
    while i < y.len()
        invariant
            x@ == s@,
            y@ == prefix@,
            y@.len() <= x@.len(),
            i <= y@.len(),
            forall|j: int| 0 <= j < i ==> s@[j] == prefix@[j],
        decreases y@.len() - i,
    {
        if x[i] != y[i] {
            assert(s@.subrange(0, prefix@.len() as int)[i as int] != prefix@[i as int]);
            return false;
        }
        i += 1;
    }
    assert(prefix@ =~= s@.subrange(0, prefix@.len() as int));
    true
}

/// Two texts, one after the other.
pub fn concat(a: &str, b: &str) -> (r: String)
    ensures
        r@ == a@ + b@,
{
    let mut r = a.to_owned();
    r.append(b);
    r
}

// ---------------------------------------------------------------------------
// Trimming
// ---------------------------------------------------------------------------

/// `s` without its leading white space.
pub open spec fn trim_start(s: Seq<char>) -> Seq<char>
    decreases s.len(),
{
    if s.len() == 0 || !white_space(s.first()) {
        s
    } else {
        trim_start(s.drop_first())
    }
}

/// `s` without its trailing white space.
pub open spec fn trim_end(s: Seq<char>) -> Seq<char>
    decreases s.len(),
{
    if s.len() == 0 || !white_space(s.last()) {
        s
    } else {
        trim_end(s.drop_last())
    }
}

/// `s` without the white space at either end.
pub open spec fn trimmed(s: Seq<char>) -> Seq<char> {
    trim_end(trim_start(s))
}

/// Removes the white space at either end.
pub fn trim<'a>(s: &'a str) -> (r: &'a str)
    ensures
        r@ == trimmed(s@),
{
    let cs = chars_of(s);
    let n: usize = cs.len();
    let mut i: usize = 0;
    assert(s@.skip(0) =~= s@);
    while i < n && is_white_space(cs[i])
        invariant
            cs@ == s@,
            n == cs@.len(),
            i <= n,
            trim_start(s@) == trim_start(s@.skip(i as int)),
        decreases n - i,
    {
        assert(s@.skip(i as int).drop_first() =~= s@.skip(i + 1));
        i += 1;
    }
    assert(trim_start(s@) == s@.skip(i as int));
    let mut j: usize = n;
    assert(s@.subrange(i as int, n as int) =~= s@.skip(i as int));
    while i < j && is_white_space(cs[j - 1])
        invariant
            cs@ == s@,
            n == cs@.len(),
            i <= j <= n,
            trim_end(s@.skip(i as int)) == trim_end(s@.subrange(i as int, j as int)),
        decreases j,
    {
        assert(s@.subrange(i as int, j as int).drop_last() =~= s@.subrange(i as int, j - 1));
        j -= 1;
    }
    assert(trimmed(s@) == s@.subrange(i as int, j as int));
    s.substring_char(i, j)
}

// ---------------------------------------------------------------------------
// Splitting and joining
// ---------------------------------------------------------------------------

/// The white-space characters as a set of separators.
pub open spec fn blanks() -> Set<char> {
    Set::new(|c: char| white_space(c))
}

/// `pieces` after one more character of the text: a separator opens a new
/// piece, any other character extends the last one.
pub open spec fn extend_pieces(pieces: Seq<Seq<char>>, c: char, sep: Set<char>) -> Seq<Seq<char>> {
    if sep.contains(c) {
        pieces.push(Seq::empty())
    } else {
        pieces.drop_last().push(pieces.last().push(c))
    }
}

/// The pieces of `s` between the separators, empty ones included. There is
/// one piece more than there are separators in `s`.
pub open spec fn split(s: Seq<char>, sep: Set<char>) -> Seq<Seq<char>>
    decreases s.len(),
{
    if s.len() == 0 {
        seq![Seq::empty()]
    } else {
        extend_pieces(split(s.drop_last(), sep), s.last(), sep)
    }
}

/// The pieces that are not empty.
pub open spec fn non_empty(pieces: Seq<Seq<char>>) -> Seq<Seq<char>>
    decreases pieces.len(),
{
    if pieces.len() == 0 {
        Seq::empty()
    } else if pieces.last().len() == 0 {
        non_empty(pieces.drop_last())
    } else {
        non_empty(pieces.drop_last()).push(pieces.last())
    }
}

/// The words of `s`: its longest runs without white space.
pub open spec fn words(s: Seq<char>) -> Seq<Seq<char>> {
    non_empty(split(s, blanks()))
}

/// `parts` with `sep` between neighbours.
pub open spec fn joined(parts: Seq<Seq<char>>, sep: Seq<char>) -> Seq<char>
    decreases parts.len(),
{
    if parts.len() == 0 {
        Seq::empty()
    } else if parts.len() == 1 {
        parts[0]
    } else {
        joined(parts.drop_last(), sep) + sep + parts.last()
    }
}

/// What separates the pieces of a text.
pub enum Separator {
    WhiteSpace,
    Char(char),
    EitherChar(char, char),
}

impl Separator {
    pub open spec fn chars(&self) -> Set<char> {
        match *self {
            Separator::WhiteSpace => blanks(),
            Separator::Char(c) => set![c],
            Separator::EitherChar(c, d) => set![c, d],
        }
    }

    pub fn contains(&self, c: char) -> (r: bool)
        ensures
            r == self.chars().contains(c),
    {
        match self {
            Separator::WhiteSpace => is_white_space(c),
            Separator::Char(d) => c == *d,
            Separator::EitherChar(d, e) => c == *d || c == *e,
        }
    }
}

/// The pieces of `s` between the separators.
pub fn split_text(s: &str, sep: &Separator) -> (r: Vec<String>)
    ensures
        texts(r@) == split(s@, sep.chars()),
{
    let cs = chars_of(s);
    let mut done: Vec<String> = Vec::new();
    let mut current = String::new();
    let mut i: usize = 0;
    assert(s@.take(0) =~= Seq::<char>::empty());
    assert(texts(done@).push(current@) =~= split(s@.take(0), sep.chars()));
    while i < cs.len()
        invariant
            cs@ == s@,
            i <= cs@.len(),
            texts(done@).push(current@) == split(s@.take(i as int), sep.chars()),
        decreases cs@.len() - i,
    {
        let c: char = cs[i];
        let ghost before = texts(done@).push(current@);
        assert(s@.take(i + 1).drop_last() =~= s@.take(i as int));
        assert(s@.take(i + 1).last() == c);
        if sep.contains(c) {
            done.push(current);
            current = String::new();
            assert(texts(done@) =~= before);
        } else {
            current.push(c);
            assert(texts(done@) =~= before.drop_last());
        }
        i += 1;
    }
    assert(s@.take(s@.len() as int) =~= s@);
    let ghost all = texts(done@).push(current@);
    done.push(current);
    assert(texts(done@) =~= all);
    done
}

/// The words of `s`.
pub fn split_words(s: &str) -> (r: Vec<String>)
    ensures
        texts(r@) == words(s@),
{
    let pieces = split_text(s, &Separator::WhiteSpace);
    let mut r: Vec<String> = Vec::new();
    let mut i: usize = 0;
    assert(texts(pieces@).take(0) =~= Seq::<Seq<char>>::empty());
    assert(texts(r@) =~= Seq::<Seq<char>>::empty());
    while i < pieces.len()
        invariant
            i <= pieces@.len(),
            texts(r@) == non_empty(texts(pieces@).take(i as int)),
        decreases pieces@.len() - i,
    {
        let ghost before = texts(r@);
        assert(texts(pieces@).take(i + 1).drop_last() =~= texts(pieces@).take(i as int));
        if !pieces[i].as_str().is_empty() {
            r.push(pieces[i].clone());
            assert(texts(r@) =~= before.push(pieces@[i as int]@));
        }
        i += 1;
    }
    assert(texts(pieces@).take(pieces@.len() as int) =~= texts(pieces@));
    r
}

/// The first `n` strings of `parts` with `sep` between neighbours.
pub fn join_text(parts: &Vec<String>, n: usize, sep: &str) -> (r: String)
    requires
        n <= parts@.len(),
    ensures
        r@ == joined(texts(parts@).take(n as int), sep@),
{
    let mut r = String::new();
    let mut i: usize = 0;
    while i < n
        invariant
            i <= n <= parts@.len(),
            r@ == joined(texts(parts@).take(i as int), sep@),
        decreases n - i,
    {
        assert(texts(parts@).take(i + 1).drop_last() =~= texts(parts@).take(i as int));
        if i > 0 {
            r.append(sep);
        }
        r.append(parts[i].as_str());
        assert(r@ =~= joined(texts(parts@).take(i + 1), sep@));
        i += 1;
    }
    r
}

/// No character of `s` is a separator.
pub open spec fn free_of(s: Seq<char>, sep: Set<char>) -> bool {
    forall|i: int| 0 <= i < s.len() ==> !sep.contains(#[trigger] s[i])
}

/// There is always at least one piece.
pub proof fn lemma_split_len(s: Seq<char>, sep: Set<char>)
    ensures
        split(s, sep).len() > 0,
    decreases s.len(),
{
    if s.len() > 0 {
        lemma_split_len(s.drop_last(), sep);
    }
}

/// Pieces hold no separators.
pub proof fn lemma_pieces_free(s: Seq<char>, sep: Set<char>, k: int)
    requires
        0 <= k < split(s, sep).len(),
    ensures
        free_of(split(s, sep)[k], sep),
    decreases s.len(),
{
    if s.len() > 0 {
        let pieces = split(s.drop_last(), sep);
        lemma_split_len(s.drop_last(), sep);
        if k < pieces.len() {
            lemma_pieces_free(s.drop_last(), sep, k);
        }
    }
}

/// A text without separators is one piece.
pub proof fn lemma_split_single(s: Seq<char>, sep: Set<char>)
    requires
        free_of(s, sep),
    ensures
        split(s, sep) == seq![s],
    decreases s.len(),
{
    if s.len() > 0 {
        let rest = s.drop_last();
        assert forall|i: int| 0 <= i < rest.len() implies !sep.contains(#[trigger] rest[i]) by {
            assert(rest[i] == s[i]);
        }
        lemma_split_single(rest, sep);
        assert(!sep.contains(s[s.len() - 1]));
        assert(rest.push(s.last()) =~= s);
        assert(split(s, sep) =~= seq![s]);
    } else {
        assert(s =~= Seq::<char>::empty());
    }
}

/// A separator and a text without separators behind `a` add one piece.
pub proof fn lemma_split_append(a: Seq<char>, c: char, b: Seq<char>, sep: Set<char>)
    requires
        sep.contains(c),
        free_of(b, sep),
    ensures
        split(a.push(c) + b, sep) == split(a, sep).push(b),
    decreases b.len(),
{
    let s = a.push(c) + b;
    if b.len() == 0 {
        assert(s =~= a.push(c));
        assert(s.drop_last() =~= a);
        assert(b =~= Seq::<char>::empty());
    } else {
        let rest = b.drop_last();
        assert forall|i: int| 0 <= i < rest.len() implies !sep.contains(#[trigger] rest[i]) by {
            assert(rest[i] == b[i]);
        }
        lemma_split_append(a, c, rest, sep);
        assert(s.drop_last() =~= a.push(c) + rest);
        assert(!sep.contains(b[b.len() - 1]));
        assert(s.last() == b.last());
        assert(rest.push(b.last()) =~= b);
        assert(split(s, sep) =~= split(a, sep).push(b));
    }
}

/// Splitting undoes joining.
pub proof fn lemma_split_joined(parts: Seq<Seq<char>>, c: char, sep: Set<char>)
    requires
        parts.len() > 0,
        sep.contains(c),
        forall|k: int| 0 <= k < parts.len() ==> free_of(#[trigger] parts[k], sep),
    ensures
        split(joined(parts, seq![c]), sep) == parts,
    decreases parts.len(),
{
    if parts.len() == 1 {
        lemma_split_single(parts[0], sep);
        assert(parts =~= seq![parts[0]]);
    } else {
        let rest = parts.drop_last();
        assert forall|k: int| 0 <= k < rest.len() implies free_of(#[trigger] rest[k], sep) by {
            assert(rest[k] == parts[k]);
        }
        lemma_split_joined(rest, c, sep);
        assert(free_of(parts[parts.len() - 1], sep));
        lemma_split_append(joined(rest, seq![c]), c, parts.last(), sep);
        assert(joined(parts, seq![c]) =~= joined(rest, seq![c]).push(c) + parts.last());
        assert(rest.push(parts.last()) =~= parts);
    }
}

/// A text without white space is trimmed.
pub proof fn lemma_trimmed_word(s: Seq<char>)
    requires
        free_of(s, blanks()),
    ensures
        trimmed(s) == s,
{
    if s.len() > 0 {
        assert(!blanks().contains(s[0]));
        assert(!blanks().contains(s[s.len() - 1]));
    }
}

// ---------------------------------------------------------------------------
// Prefixes up to a character
// ---------------------------------------------------------------------------

/// Position of the first `c` in `s`, or the length of `s` without one.
pub open spec fn find(s: Seq<char>, c: char) -> nat
    decreases s.len(),
{
    if s.len() == 0 || s.first() == c {
        0
    } else {
        1 + find(s.drop_first(), c)
    }
}

/// The text before the first `c`; all of it when there is none.
pub open spec fn before(s: Seq<char>, c: char) -> Seq<char> {
    s.take(find(s, c) as int)
}

/// The text behind the first `c`; empty when there is none.
pub open spec fn behind(s: Seq<char>, c: char) -> Seq<char> {
    if find(s, c) < s.len() {
        s.skip(find(s, c) as int + 1)
    } else {
        Seq::empty()
    }
}

/// `find` is the one position that is free of `c` on its left and either
/// holds `c` or ends the text.
pub proof fn lemma_find(s: Seq<char>, c: char, i: int)
    requires
        0 <= i <= s.len(),
        forall|j: int| 0 <= j < i ==> s[j] != c,
        i < s.len() ==> s[i] == c,
    ensures
        find(s, c) == i,
    decreases s.len(),
{
    if i > 0 {
        lemma_find(s.drop_first(), c, i - 1);
    }
}

/// The text before the first `c` is the first piece between `c`s.
pub proof fn lemma_before_is_first_piece(s: Seq<char>, c: char)
    ensures
        split(s, set![c]).first() == before(s, c),
        find(s, c) <= s.len(),
    decreases s.len(),
{
    lemma_split_len(s, set![c]);
    lemma_find_bounds(s, c);
    if s.len() > 0 {
        let rest = s.drop_last();
        lemma_split_len(rest, set![c]);
        lemma_before_is_first_piece(rest, c);
        let n = find(rest, c) as int;
        lemma_find_bounds(rest, c);
        if n < rest.len() {
            assert forall|j: int| 0 <= j < n implies s[j] != c by {
                assert(s[j] == rest[j]);
            }
            assert(s[n] == rest[n]);
            lemma_find(s, c, n);
            assert(s.take(n) =~= rest.take(n));
            if split(rest, set![c]).len() == 1 {
                lemma_single_piece(rest, c);
                assert(rest[n] == c);
            }
        } else {
            lemma_split_single(rest, set![c]);
            assert forall|j: int| 0 <= j < rest.len() implies s[j] != c by {
                assert(s[j] == rest[j]);
            }
            if s.last() == c {
                lemma_find(s, c, rest.len() as int);
                assert(s.take(rest.len() as int) =~= rest);
                assert(rest.take(rest.len() as int) =~= rest);
            } else {
                lemma_find(s, c, s.len() as int);
                assert(s.take(s.len() as int) =~= s);
                assert(rest.push(s.last()) =~= s);
            }
        }
    }
}

/// `find` stays within the text, and passes over no `c`.
pub proof fn lemma_find_bounds(s: Seq<char>, c: char)
    ensures
        find(s, c) <= s.len(),
        forall|j: int| 0 <= j < find(s, c) ==> s[j] != c,
        find(s, c) < s.len() ==> s[find(s, c) as int] == c,
    decreases s.len(),
{
    if s.len() > 0 && s.first() != c {
        lemma_find_bounds(s.drop_first(), c);
        let n = find(s.drop_first(), c) as int;
        assert forall|j: int| 0 <= j < n + 1 implies s[j] != c by {
            if j > 0 {
                assert(s.drop_first()[j - 1] == s[j]);
            }
        }
        if n + 1 < s.len() {
            assert(s.drop_first()[n] == s[n + 1]);
        }
    }
}

/// A text that is one piece holds no separator.
proof fn lemma_single_piece(s: Seq<char>, c: char)
    requires
        split(s, set![c]).len() == 1,
    ensures
        forall|j: int| 0 <= j < s.len() ==> s[j] != c,
    decreases s.len(),
{
    if s.len() > 0 {
        lemma_split_len(s.drop_last(), set![c]);
        assert(s.last() != c);
        lemma_single_piece(s.drop_last(), c);
        assert forall|j: int| 0 <= j < s.len() implies s[j] != c by {
            if j < s.len() - 1 {
                assert(s.drop_last()[j] == s[j]);
            }
        }
    }
}

/// Position of the first `c`, or the length without one.
pub fn position(cs: &Vec<char>, c: char) -> (r: usize)
    ensures
        r == find(cs@, c),
        r <= cs@.len(),
{
    let mut i: usize = 0;
    while i < cs.len() && cs[i] != c
        invariant
            i <= cs@.len(),
            forall|j: int| 0 <= j < i ==> cs@[j] != c,
        decreases cs@.len() - i,
    {
        i += 1;
    }
    proof {
        lemma_find(cs@, c, i as int);
    }
    i
}

/// The text before the first `c`.
pub fn text_before<'a>(s: &'a str, c: char) -> (r: &'a str)
    ensures
        r@ == before(s@, c),
{
    let cs = chars_of(s);
    let i: usize = position(&cs, c);
    s.substring_char(0, i)
}

/// The text behind the first `c`.
pub fn text_behind<'a>(s: &'a str, c: char) -> (r: &'a str)
    ensures
        r@ == behind(s@, c),
{
    let cs = chars_of(s);
    let n: usize = cs.len();
    let i: usize = position(&cs, c);
    if i < n {
        s.substring_char(i + 1, n)
    } else {
        assert(s@.subrange(n as int, n as int) =~= Seq::<char>::empty());
        s.substring_char(n, n)
    }
}

// ---------------------------------------------------------------------------
// ASCII case and repetition
// ---------------------------------------------------------------------------

/// `c` in lower case when it is an ASCII letter, else `c` itself.
pub open spec fn lower(c: char) -> char {
    if upper_letter(c) {
        (c as u32 + 32) as char
    } else {
        c
    }
}

/// `s` with its ASCII letters in lower case.
pub open spec fn lowered(s: Seq<char>) -> Seq<char> {
    Seq::new(s.len(), |i: int| lower(s[i]))
}

pub fn to_lower(c: char) -> (r: char)
    ensures
        r == lower(c),
{
    let n: u32 = c as u32;
    if 0x41 <= n && n <= 0x5a {
        ((n as u8) + 32) as char
    } else {
        c
    }
}

/// `s` with its ASCII letters in lower case.
pub fn to_lowercase(s: &str) -> (r: String)
    ensures
        r@ == lowered(s@),
{
    let cs = chars_of(s);
    let mut r = String::new();
    let mut i: usize = 0;
    while i < cs.len()
        invariant
            cs@ == s@,
            i <= cs@.len(),
            r@ == lowered(s@).take(i as int),
        decreases cs@.len() - i,
    {
        r.push(to_lower(cs[i]));
        assert(r@ =~= lowered(s@).take(i + 1));
        i += 1;
    }
    assert(lowered(s@).take(s@.len() as int) =~= lowered(s@));
    r
}

/// Whether two texts agree up to the case of ASCII letters.
pub fn same_ignoring_case(a: &str, b: &str) -> (r: bool)
    ensures
        r == (lowered(a@) == lowered(b@)),
{
    let x = to_lowercase(a);
    let y = to_lowercase(b);
    same_text(x.as_str(), y.as_str())
}

/// `n` copies of `c`.
pub open spec fn repeated(c: char, n: nat) -> Seq<char> {
    Seq::new(n, |i: int| c)
}

/// Appends `n` copies of `c`.
pub fn push_repeated(out: &mut String, c: char, n: usize)
    ensures
        final(out)@ == old(out)@ + repeated(c, n as nat),
{
    let ghost start = out@;
    let mut i: usize = 0;
    assert(out@ =~= start + repeated(c, 0));
    while i < n
        invariant
            i <= n,
            out@ == start + repeated(c, i as nat),
        decreases n - i,
    {
        out.push(c);
        assert(out@ =~= start + repeated(c, (i + 1) as nat));
        i += 1;
    }
}

// ---------------------------------------------------------------------------
// Laws
// ---------------------------------------------------------------------------

/// The ASCII classes by their ranges: the digits are `0` to `9`, the letters
/// `a` to `z` and `A` to `Z`, hexadecimal digits go up to `f`, what is printable
/// lies between the space and the tilde, and control characters are those below
/// the space and those from DEL to the end of the second control block.
pub proof fn law_character_classes(c: char)
    ensures
        digit(c) <==> '0' as u32 <= c as u32 <= '9' as u32,
        upper_letter(c) <==> 'A' as u32 <= c as u32 <= 'Z' as u32,
        lower_letter(c) <==> 'a' as u32 <= c as u32 <= 'z' as u32,
        alphanumeric(c) <==> '0' as u32 <= c as u32 <= '9' as u32 || 'A' as u32 <= c as u32
            <= 'Z' as u32 || 'a' as u32 <= c as u32 <= 'z' as u32,
        hex_digit(c) <==> '0' as u32 <= c as u32 <= '9' as u32 || 'A' as u32 <= c as u32
            <= 'F' as u32 || 'a' as u32 <= c as u32 <= 'f' as u32,
        printable(c) <==> ' ' as u32 <= c as u32 <= '~' as u32,
        control(c) <==> (c as u32) < ' ' as u32 || 0x7f <= c as u32 <= 0x9f,
        white_space(c) <==> c == ' ' || 9 <= c as u32 <= 13 || c as u32 == 0x85 || c as u32 == 0xa0
            || c as u32 == 0x1680 || 0x2000 <= c as u32 <= 0x200a || c as u32 == 0x2028 || c as u32
            == 0x2029 || c as u32 == 0x202f || c as u32 == 0x205f || c as u32 == 0x3000,
{
}

/// Lists and optional strings are read string by string, and the length of a
/// text in bytes is that of its UTF-8 form.
pub proof fn law_readings(list: Seq<String>, s: String, t: &str)
    ensures
        texts(list).len() == list.len(),
        forall|i: int| 0 <= i < list.len() ==> #[trigger] texts(list)[i] == list[i]@,
        text_of(Some(s)) == Some(s@),
        text_of(None) == None::<Seq<char>>,
        text_of_ref(Some(t)) == Some(t@),
        text_of_ref(None) == None::<Seq<char>>,
        byte_len(s@) == encode_utf8(s@).len(),
{
}

/// Lower case keeps the length, moves `A` to `Z` to the letter 32 further on
/// and leaves every other character as it is.
pub proof fn law_lowered(s: Seq<char>, i: int)
    requires
        0 <= i < s.len(),
    ensures
        lowered(s).len() == s.len(),
        'A' as u32 <= s[i] as u32 <= 'Z' as u32 ==> lowered(s)[i] as u32 == s[i] as u32 + 32,
        !('A' as u32 <= s[i] as u32 <= 'Z' as u32) ==> lowered(s)[i] == s[i],
{
}

/// All characters are white space.
pub open spec fn all_blank(s: Seq<char>) -> bool {
    forall|i: int| 0 <= i < s.len() ==> white_space(#[trigger] s[i])
}

/// Neither end is white space, and there is something between them.
pub open spec fn solid(s: Seq<char>) -> bool {
    s.len() > 0 && !white_space(s.first()) && !white_space(s.last())
}

/// Trimming takes off what white space stands at either end, whatever stands
/// between.
pub proof fn law_trimmed(a: Seq<char>, t: Seq<char>, b: Seq<char>)
    requires
        all_blank(a),
        all_blank(b),
        solid(t) || t.len() == 0,
    ensures
        trimmed(a + t + b) == t,
    decreases a.len() + b.len(),
{
    let s = a + t + b;
    if a.len() > 0 {
        assert(white_space(a[0]));
        assert(s.first() == a[0]);
        assert(s.drop_first() =~= a.drop_first() + t + b);
        assert forall|i: int| 0 <= i < a.drop_first().len() implies white_space(
            #[trigger] a.drop_first()[i],
        ) by {
            assert(white_space(a[i + 1]));
        }
        law_trimmed(a.drop_first(), t, b);
    } else if t.len() == 0 {
        assert(s =~= b);
        lemma_blank_start(b);
        assert(t =~= Seq::<char>::empty());
    } else {
        assert(s =~= t + b);
        assert(s.first() == t.first());
        lemma_trim_end(t, b);
    }
}

proof fn lemma_blank_start(b: Seq<char>)
    requires
        all_blank(b),
    ensures
        trim_start(b) == Seq::<char>::empty(),
        trimmed(b) == Seq::<char>::empty(),
    decreases b.len(),
{
    if b.len() > 0 {
        assert(white_space(b[0]));
        assert forall|i: int| 0 <= i < b.drop_first().len() implies white_space(
            #[trigger] b.drop_first()[i],
        ) by {
            assert(white_space(b[i + 1]));
        }
        lemma_blank_start(b.drop_first());
    } else {
        assert(b =~= Seq::<char>::empty());
    }
}

proof fn lemma_trim_end(t: Seq<char>, b: Seq<char>)
    requires
        all_blank(b),
        solid(t),
    ensures
        trim_end(t + b) == t,
    decreases b.len(),
{
    if b.len() > 0 {
        let k = b.len() - 1;
        assert(white_space(b[k]));
        assert((t + b).last() == b[k]);
        assert((t + b).drop_last() =~= t + b.drop_last());
        assert forall|i: int| 0 <= i < b.drop_last().len() implies white_space(
            #[trigger] b.drop_last()[i],
        ) by {
            assert(white_space(b[i]));
        }
        lemma_trim_end(t, b.drop_last());
    } else {
        assert(t + b =~= t);
    }
}

/// A separator parts a text into what stands on its left and on its right, and
/// a text without one is a single piece.
pub proof fn law_split(a: Seq<char>, c: char, b: Seq<char>, sep: Set<char>)
    ensures
        sep.contains(c) ==> split(a.push(c) + b, sep) == split(a, sep) + split(b, sep),
        (forall|i: int| 0 <= i < b.len() ==> !sep.contains(#[trigger] b[i])) ==> split(b, sep)
            == seq![b],
    decreases b.len(),
{
    let s = a.push(c) + b;
    if free_of(b, sep) {
        lemma_split_single(b, sep);
    }
    if sep.contains(c) {
        if b.len() == 0 {
            assert(s.drop_last() =~= a);
            assert(split(s, sep) =~= split(a, sep) + split(b, sep));
        } else {
            let rest = b.drop_last();
            law_split(a, c, rest, sep);
            lemma_split_len(rest, sep);
            assert(s.drop_last() =~= a.push(c) + rest);
            assert(s.last() == b.last());
            assert(split(s, sep) =~= split(a, sep) + split(b, sep));
        }
    }
}

proof fn lemma_non_empty_append(x: Seq<Seq<char>>, y: Seq<Seq<char>>)
    ensures
        non_empty(x + y) == non_empty(x) + non_empty(y),
    decreases y.len(),
{
    if y.len() == 0 {
        assert(x + y =~= x);
        assert(non_empty(x) + non_empty(y) =~= non_empty(x));
    } else {
        assert((x + y).drop_last() =~= x + y.drop_last());
        lemma_non_empty_append(x, y.drop_last());
        assert(non_empty(x + y) =~= non_empty(x) + non_empty(y));
    }
}

/// White space parts the words on its left from those on its right, a text
/// without white space is one word, and nothing is no word.
pub proof fn law_words(a: Seq<char>, c: char, b: Seq<char>)
    ensures
        white_space(c) ==> words(a.push(c) + b) == words(a) + words(b),
        (forall|i: int| 0 <= i < b.len() ==> !white_space(#[trigger] b[i])) ==> words(b)
            == if b.len() > 0 {
            seq![b]
        } else {
            Seq::<Seq<char>>::empty()
        },
{
    law_split(a, c, b, blanks());
    if white_space(c) {
        lemma_non_empty_append(split(a, blanks()), split(b, blanks()));
    }
    if forall|i: int| 0 <= i < b.len() ==> !white_space(#[trigger] b[i]) {
        assert(free_of(b, blanks()));
        lemma_split_single(b, blanks());
        let one = split(b, blanks());
        assert(one.drop_last() =~= Seq::<Seq<char>>::empty());
        assert(non_empty(one.drop_last()) =~= Seq::<Seq<char>>::empty());
        assert(one.last() == b);
        assert(words(b) =~= if b.len() > 0 {
            seq![b]
        } else {
            Seq::<Seq<char>>::empty()
        });
    }
}

/// Joining two lists puts one separator between them; one text alone stays as
/// it is, and nothing gives nothing.
pub proof fn law_joined(a: Seq<Seq<char>>, b: Seq<Seq<char>>, t: Seq<char>, sep: Seq<char>)
    ensures
        a.len() > 0 && b.len() > 0 ==> joined(a + b, sep) == joined(a, sep) + sep + joined(b, sep),
        joined(seq![t], sep) == t,
        joined(Seq::<Seq<char>>::empty(), sep) == Seq::<char>::empty(),
    decreases b.len(),
{
    if a.len() > 0 && b.len() > 0 {
        assert((a + b).drop_last() =~= a + b.drop_last());
        assert((a + b).last() == b.last());
        if b.len() == 1 {
            assert(a + b.drop_last() =~= a);
        } else {
            law_joined(a, b.drop_last(), t, sep);
            assert(joined(a + b, sep) =~= joined(a, sep) + sep + joined(b, sep));
        }
    }
}

/// The first `c` parts a text into what stands before and behind it; without
/// one, all of the text stands before and nothing behind.
pub proof fn law_before_and_behind(a: Seq<char>, c: char, b: Seq<char>)
    requires
        forall|i: int| 0 <= i < a.len() ==> a[i] != c,
    ensures
        before(a.push(c) + b, c) == a,
        behind(a.push(c) + b, c) == b,
        before(a, c) == a,
        behind(a, c) == Seq::<char>::empty(),
{
    let s = a.push(c) + b;
    assert forall|j: int| 0 <= j < a.len() implies s[j] != c by {
        assert(s[j] == a[j]);
    }
    assert(s[a.len() as int] == c);
    lemma_find(s, c, a.len() as int);
    assert(s.take(a.len() as int) =~= a);
    assert(s.skip(a.len() as int + 1) =~= b);
    lemma_find(a, c, a.len() as int);
    assert(a.take(a.len() as int) =~= a);
}

/// Copies of one character, as many as asked for.
pub proof fn law_repeated(c: char, n: nat, i: int)
    requires
        0 <= i < n,
    ensures
        repeated(c, n).len() == n,
        repeated(c, n)[i] == c,
{
}

/// A text of ASCII characters has as many bytes as characters.
pub proof fn law_ascii_length(s: Seq<char>)
    requires
        forall|i: int| 0 <= i < s.len() ==> (#[trigger] s[i] as u32) < 0x80,
    ensures
        byte_len(s) == s.len(),
    decreases s.len(),
{
    if s.len() > 0 {
        let rest = s.drop_first();
        assert((s[0] as u32) < 0x80);
        assert forall|i: int| 0 <= i < rest.len() implies (#[trigger] rest[i] as u32) < 0x80 by {
            assert((s[i + 1] as u32) < 0x80);
        }
        law_ascii_length(rest);
    }
}

} // verus!
