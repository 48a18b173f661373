//! Language tags and the Chromium locale arguments made from them.

use vstd::prelude::*;

use crate::text::alphanumeric;
use crate::text::before;
use crate::text::blanks;
use crate::text::byte_len;
use crate::text::chars_of;
use crate::text::free_of;
use crate::text::is_alphanumeric;
use crate::text::join_text;
use crate::text::joined;
use crate::text::law_ascii_length;
use crate::text::law_split;
use crate::text::lemma_before_is_first_piece;
use crate::text::lemma_pieces_free;
use crate::text::lemma_split_joined;
use crate::text::lemma_split_len;
use crate::text::lemma_split_single;
use crate::text::lemma_trimmed_word;
use crate::text::length_in_bytes;
use crate::text::lowered;
use crate::text::same_ignoring_case;
use crate::text::same_text;
use crate::text::split;
use crate::text::split_text;
use crate::text::text_before;
use crate::text::texts;
use crate::text::trim;
use crate::text::trimmed;
use crate::text::Separator;

verus! {

/// All characters are ASCII letters or digits.
pub open spec fn all_alphanumeric(s: Seq<char>) -> bool {
    forall|i: int| 0 <= i < s.len() ==> alphanumeric(#[trigger] s[i])
}

/// One part of a language tag: 1 to 8 letters or digits.
pub open spec fn subtag(s: Seq<char>) -> bool {
    &&& s.len() > 0
    &&& byte_len(s) <= 8
    &&& all_alphanumeric(s)
}

/// A language tag: subtags separated by `-`, at most 35 bytes in all.
pub open spec fn language_tag(s: Seq<char>) -> bool {
    &&& s.len() > 0
    &&& byte_len(s) <= 35
    &&& forall|i: int|
        0 <= i < split(s, set!['-']).len() ==> subtag(#[trigger] split(s, set!['-'])[i])
}

/// The language tags among `pieces`, without the white space around them.
pub open spec fn tags_among(pieces: Seq<Seq<char>>) -> Seq<Seq<char>>
    decreases pieces.len(),
{
    if pieces.len() == 0 {
        Seq::empty()
    } else {
        let rest = tags_among(pieces.drop_last());
        if language_tag(trimmed(pieces.last())) {
            rest.push(trimmed(pieces.last()))
        } else {
            rest
        }
    }
}

/// The language tags of a list separated by `:` or `,`.
pub open spec fn listed_tags(raw: Seq<char>) -> Seq<Seq<char>> {
    tags_among(split(raw, set![':', ',']))
}

/// Some tag is `t` up to the case of its letters.
pub open spec fn lists_tag(tags: Seq<Seq<char>>, t: Seq<char>) -> bool {
    exists|i: int| 0 <= i < tags.len() && lowered(#[trigger] tags[i]) == lowered(t)
}

/// `tags` with the bare language of the first one behind them, where that
/// one has a region and the bare language is not listed.
pub open spec fn with_bare_language(tags: Seq<Seq<char>>) -> Seq<Seq<char>> {
    let base = before(tags.first(), '-');
    if base != tags.first() && !lists_tag(tags, base) {
        tags.push(base)
    } else {
        tags
    }
}

/// The primary tag of a list and the list itself as an `Accept-Language`
/// value; nothing when the list holds no valid tag.
pub open spec fn locale(raw: Seq<char>) -> Option<(Seq<char>, Seq<char>)> {
    let tags = listed_tags(raw);
    if tags.len() == 0 {
        None
    } else {
        Some((tags.first(), joined(with_bare_language(tags), ","@)))
    }
}

fn is_subtag(s: &str) -> (r: bool)
    ensures
        r == subtag(s@),
{
    if s.is_empty() || length_in_bytes(s) > 8 {
        return false;
    }
    let cs = chars_of(s);
    let mut i: usize = 0;
    while i < cs.len()
        invariant
            cs@ == s@,
            i <= cs@.len(),
            forall|j: int| 0 <= j < i ==> alphanumeric(#[trigger] s@[j]),
        decreases cs@.len() - i,
    {
        if !is_alphanumeric(cs[i]) {
            assert(!alphanumeric(s@[i as int]));
            return false;
        }
        i += 1;
    }
    true
}

/// Loose BCP 47 check: subtags of 1 to 8 alphanumerics separated by "-".
pub fn is_language_tag(tag: &str) -> (r: bool)
    ensures
        r == language_tag(tag@),
{
    if tag.is_empty() || length_in_bytes(tag) > 35 {
        return false;
    }
    let parts = split_text(tag, &Separator::Char('-'));
    let ghost pieces = split(tag@, set!['-']);
    let mut i: usize = 0;
    while i < parts.len()
        invariant
            texts(parts@) == pieces,
            pieces == split(tag@, set!['-']),
            i <= parts@.len(),
            forall|j: int| 0 <= j < i ==> subtag(#[trigger] pieces[j]),
        decreases parts@.len() - i,
    {
        assert(pieces[i as int] == parts@[i as int]@);
        if !is_subtag(parts[i].as_str()) {
            return false;
        }
        i += 1;
    }
    true
}

/// The language tags of a list separated by `:` or `,`.
fn list_tags(raw: &str) -> (r: Vec<String>)
    ensures
        texts(r@) == listed_tags(raw@),
{
    let pieces = split_text(raw, &Separator::EitherChar(':', ','));
    let ghost all = texts(pieces@);
    let mut tags: Vec<String> = Vec::new();
    let mut i: usize = 0;
    assert(all.take(0) =~= Seq::<Seq<char>>::empty());
    assert(texts(tags@) =~= Seq::<Seq<char>>::empty());
    while i < pieces.len()
        invariant
            all == texts(pieces@),
            i <= pieces@.len(),
            texts(tags@) == tags_among(all.take(i as int)),
        decreases pieces@.len() - i,
    {
        let ghost before = texts(tags@);
        assert(all.take(i + 1).drop_last() =~= all.take(i as int));
        assert(all.take(i + 1).last() == pieces@[i as int]@);
        let tag = trim(pieces[i].as_str());
        if is_language_tag(tag) {
            tags.push(tag.to_owned());
            assert(texts(tags@) =~= before.push(tag@));
        }
        i += 1;
    }
    assert(all.take(all.len() as int) =~= all);
    tags
}

/// Whether some tag is `t` up to the case of its letters.
fn has_tag(tags: &Vec<String>, t: &str) -> (r: bool)
    ensures
        r == lists_tag(texts(tags@), t@),
{
    let mut i: usize = 0;
    while i < tags.len()
        invariant
            i <= tags@.len(),
            forall|j: int| 0 <= j < i ==> lowered(#[trigger] texts(tags@)[j]) != lowered(t@),
        decreases tags@.len() - i,
    {
        assert(texts(tags@)[i as int] == tags@[i as int]@);
        if same_ignoring_case(tags[i].as_str(), t) {
            return true;
        }
        i += 1;
    }
    false
}

/// Turns "fr-FR:fr" or "fr-FR,fr" into ("fr-FR", "fr-FR,fr"), appending the
/// bare language when only a regional tag was given so that Accept-Language
/// keeps a fallback. Returns `None` when no valid tag is present.
pub fn language_args(raw: &str) -> (r: Option<(String, String)>)
    ensures
        match r {
            Some((primary, accept)) => locale(raw@) == Some((primary@, accept@)),
            None => locale(raw@) is None,
        },
{
    let mut tags = list_tags(raw);
    if tags.len() == 0 {
        return None;
    }
    let ghost listed = texts(tags@);
    let primary = tags[0].clone();
    assert(primary@ == listed.first());
    let base = text_before(primary.as_str(), '-').to_owned();
    if !same_text(base.as_str(), primary.as_str()) && !has_tag(&tags, base.as_str()) {
        tags.push(base);
        assert(texts(tags@) =~= with_bare_language(listed));
    }
    let n: usize = tags.len();
    assert(texts(tags@).take(n as int) =~= texts(tags@));
    let accept = join_text(&tags, n, ",");
    Some((primary, accept))
}

// ---------------------------------------------------------------------------
// Laws
// ---------------------------------------------------------------------------

/// All pieces of a list are language tags.
pub open spec fn all_tags(list: Seq<Seq<char>>) -> bool {
    forall|k: int| 0 <= k < list.len() ==> language_tag(#[trigger] list[k])
}

/// A text whose subtags are alphanumeric holds letters, digits and `-` only.
proof fn lemma_tag_chars(s: Seq<char>)
    requires
        forall|k: int|
            0 <= k < split(s, set!['-']).len() ==> all_alphanumeric(
                #[trigger] split(s, set!['-'])[k],
            ),
    ensures
        forall|i: int| 0 <= i < s.len() ==> alphanumeric(#[trigger] s[i]) || s[i] == '-',
    decreases s.len(),
{
    if s.len() > 0 {
        let rest = s.drop_last();
        let pieces = split(rest, set!['-']);
        let all = split(s, set!['-']);
        lemma_split_len(rest, set!['-']);
        assert forall|k: int| 0 <= k < pieces.len() implies all_alphanumeric(
            #[trigger] pieces[k],
        ) by {
            assert(all_alphanumeric(all[k]));
            if s.last() != '-' && k == pieces.len() - 1 {
                assert forall|i: int| 0 <= i < pieces[k].len() implies alphanumeric(
                    #[trigger] pieces[k][i],
                ) by {
                    assert(all[k][i] == pieces[k][i]);
                }
            }
        }
        lemma_tag_chars(rest);
        assert forall|i: int| 0 <= i < s.len() implies alphanumeric(#[trigger] s[i]) || s[i]
            == '-' by {
            if i < rest.len() {
                assert(rest[i] == s[i]);
            } else if s.last() != '-' {
                let k = all.len() - 1;
                assert(all_alphanumeric(all[k]));
                assert(all[k][all[k].len() - 1] == s.last());
            }
        }
    }
}

/// A language tag holds neither list separators nor white space.
proof fn lemma_tag_is_plain(t: Seq<char>)
    requires
        language_tag(t),
    ensures
        free_of(t, set![':', ',']),
        trimmed(t) == t,
{
    assert forall|k: int| 0 <= k < split(t, set!['-']).len() implies all_alphanumeric(
        #[trigger] split(t, set!['-'])[k],
    ) by {
        assert(subtag(split(t, set!['-'])[k]));
    }
    lemma_tag_chars(t);
    assert(free_of(t, blanks()));
    lemma_trimmed_word(t);
}

/// The bare language of a tag is a tag.
proof fn lemma_base_is_tag(t: Seq<char>)
    requires
        language_tag(t),
    ensures
        language_tag(before(t, '-')),
{
    let base = before(t, '-');
    lemma_split_len(t, set!['-']);
    lemma_before_is_first_piece(t, '-');
    assert(subtag(split(t, set!['-'])[0]));
    lemma_pieces_free(t, set!['-'], 0);
    lemma_split_single(base, set!['-']);
}

/// Only language tags are kept.
proof fn lemma_kept_are_tags(pieces: Seq<Seq<char>>)
    ensures
        all_tags(tags_among(pieces)),
    decreases pieces.len(),
{
    if pieces.len() > 0 {
        lemma_kept_are_tags(pieces.drop_last());
    }
}

/// A list of language tags is kept as it is.
proof fn lemma_tags_kept(tags: Seq<Seq<char>>)
    requires
        all_tags(tags),
    ensures
        tags_among(tags) == tags,
    decreases tags.len(),
{
    if tags.len() > 0 {
        let rest = tags.drop_last();
        assert forall|k: int| 0 <= k < rest.len() implies language_tag(#[trigger] rest[k]) by {
            assert(rest[k] == tags[k]);
        }
        lemma_tags_kept(rest);
        assert(language_tag(tags[tags.len() - 1]));
        lemma_tag_is_plain(tags.last());
        assert(rest.push(tags.last()) =~= tags);
    } else {
        assert(tags =~= Seq::<Seq<char>>::empty());
    }
}

/// Whatever a list holds, what is made of it is a valid list of language tags
/// that begins with the primary tag and has the bare language of that tag as
/// a fallback, and making it once more changes nothing.
pub proof fn law_locale_is_valid(raw: Seq<char>)
    requires
        locale(raw) is Some,
    ensures
        ({
            let (primary, accept) = locale(raw)->0;
            let tags = with_bare_language(listed_tags(raw));
            &&& all_tags(tags)
            &&& tags.first() == primary
            &&& lists_tag(tags, before(primary, '-'))
            &&& accept == joined(tags, ","@)
            &&& locale(accept) == Some((primary, accept))
        }),
{
    let listed = listed_tags(raw);
    let (primary, accept) = locale(raw)->0;
    let tags = with_bare_language(listed);
    let base = before(primary, '-');
    lemma_kept_are_tags(split(raw, set![':', ',']));
    assert(language_tag(listed[0]));
    lemma_base_is_tag(primary);
    assert(all_tags(tags));
    if base == primary {
        assert(lowered(tags[0]) == lowered(base));
    } else if !lists_tag(listed, base) {
        assert(lowered(tags[listed.len() as int]) == lowered(base));
    }
    assert(lists_tag(tags, base));
    reveal_strlit(",");
    assert(","@ =~= seq![',']);
    assert forall|k: int| 0 <= k < tags.len() implies free_of(
        #[trigger] tags[k],
        set![':', ','],
    ) by {
        assert(language_tag(tags[k]));
        lemma_tag_is_plain(tags[k]);
    }
    lemma_split_joined(tags, ',', set![':', ',']);
    lemma_tags_kept(tags);
}

proof fn lemma_ascii_len(s: Seq<char>)
    requires
        forall|i: int| 0 <= i < s.len() ==> alphanumeric(#[trigger] s[i]) || s[i] == '-',
    ensures
        byte_len(s) == s.len(),
{
    assert forall|i: int| 0 <= i < s.len() implies (#[trigger] s[i] as u32) < 0x80 by {
        assert(alphanumeric(s[i]) || s[i] == '-');
    }
    law_ascii_length(s);
}

/// A language tag is 1 to 35 characters long and made of parts with hyphens
/// between them, each of 1 to 8 ASCII letters or digits; and everything of that
/// form is a language tag.
pub proof fn law_language_tag(s: Seq<char>)
    ensures
        language_tag(s) <==> 1 <= s.len() <= 35 && forall|k: int|
            0 <= k < split(s, set!['-']).len() ==> 1 <= (#[trigger] split(s, set!['-'])[k]).len()
                <= 8 && forall|i: int|
                0 <= i < split(s, set!['-'])[k].len() ==> alphanumeric(
                    #[trigger] split(s, set!['-'])[k][i],
                ),
{
    let parts = split(s, set!['-']);
    let plain = forall|k: int| 0 <= k < parts.len() ==> all_alphanumeric(#[trigger] parts[k]);
    assert forall|k: int| 0 <= k < parts.len() && all_alphanumeric(
        #[trigger] parts[k],
    ) implies byte_len(parts[k]) == parts[k].len() by {
        lemma_ascii_len(parts[k]);
    }
    if plain {
        lemma_tag_chars(s);
        lemma_ascii_len(s);
    }
    if language_tag(s) {
        assert forall|k: int| 0 <= k < parts.len() implies all_alphanumeric(
            #[trigger] parts[k],
        ) by {
            assert(subtag(parts[k]));
        }
        assert forall|k: int| 0 <= k < parts.len() implies 1 <= (#[trigger] parts[k]).len() <= 8
            && forall|i: int| 0 <= i < parts[k].len() ==> alphanumeric(#[trigger] parts[k][i]) by {
            assert(subtag(parts[k]));
            assert(all_alphanumeric(parts[k]));
        }
    }
    if 1 <= s.len() <= 35 && forall|k: int|
        0 <= k < parts.len() ==> 1 <= (#[trigger] parts[k]).len() <= 8 && forall|i: int|
            0 <= i < parts[k].len() ==> alphanumeric(#[trigger] parts[k][i]) {
        assert forall|k: int| 0 <= k < parts.len() implies all_alphanumeric(
            #[trigger] parts[k],
        ) by {
            assert(1 <= parts[k].len() <= 8);
        }
        assert forall|k: int| 0 <= k < parts.len() implies subtag(#[trigger] parts[k]) by {
            assert(all_alphanumeric(parts[k]));
        }
    }
}

proof fn lemma_tags_append(x: Seq<Seq<char>>, y: Seq<Seq<char>>)
    ensures
        tags_among(x + y) == tags_among(x) + tags_among(y),
    decreases y.len(),
{
    if y.len() == 0 {
        assert(x + y =~= x);
        assert(tags_among(x) + tags_among(y) =~= tags_among(x));
    } else {
        assert((x + y).drop_last() =~= x + y.drop_last());
        lemma_tags_append(x, y.drop_last());
        assert(tags_among(x + y) =~= tags_among(x) + tags_among(y));
    }
}

/// Both a colon and a comma part a list of tags, in order and with none lost;
/// between them stands a tag exactly when it is one without the white space
/// around it.
pub proof fn law_listed_tags(a: Seq<char>, c: char, b: Seq<char>)
    ensures
        c == ':' || c == ',' ==> listed_tags(a.push(c) + b) == listed_tags(a) + listed_tags(b),
        (forall|i: int| 0 <= i < b.len() ==> #[trigger] b[i] != ':' && b[i] != ',')
            ==> listed_tags(b) == if language_tag(trimmed(b)) {
            seq![trimmed(b)]
        } else {
            Seq::<Seq<char>>::empty()
        },
{
    let sep = set![':', ','];
    law_split(a, c, b, sep);
    if c == ':' || c == ',' {
        lemma_tags_append(split(a, sep), split(b, sep));
    }
    if forall|i: int| 0 <= i < b.len() ==> #[trigger] b[i] != ':' && b[i] != ',' {
        assert(free_of(b, sep));
        lemma_split_single(b, sep);
        let one = split(b, sep);
        assert(one.drop_last() =~= Seq::<Seq<char>>::empty());
        assert(tags_among(one.drop_last()) =~= Seq::<Seq<char>>::empty());
        assert(one.last() == b);
        assert(listed_tags(b) =~= if language_tag(trimmed(b)) {
            seq![trimmed(b)]
        } else {
            Seq::<Seq<char>>::empty()
        });
    }
}

/// A list with at least one tag gives a locale. Its primary tag is the first one
/// listed, and its value for `Accept-Language` lists all tags in order, followed
/// by the part of the primary tag in front of its hyphen unless some tag is that
/// already, upper and lower case aside.
pub proof fn law_locale(raw: Seq<char>)
    ensures
        locale(raw) is None <==> listed_tags(raw).len() == 0,
        locale(raw) matches Some((primary, accept)) ==> {
            let tags = listed_tags(raw);
            let base = before(tags[0], '-');
            &&& primary == tags[0]
            &&& accept == if exists|i: int|
                0 <= i < tags.len() && lowered(#[trigger] tags[i]) == lowered(base) {
                joined(tags, ","@)
            } else {
                joined(tags, ","@) + ","@ + base
            }
        },
{
    let tags = listed_tags(raw);
    if tags.len() > 0 {
        let base = before(tags[0], '-');
        if base == tags[0] {
            assert(lowered(tags[0]) == lowered(base));
        }
        assert(tags.push(base).drop_last() =~= tags);
    }
}

} // verus!
