//! Subscribed feeds, and the orders in which a subscription list is shown.
use vstd::prelude::*;

use crate::order::{
    is_stable_sort, key_less, lemma_lex_order, lex_lt, sort_by_keys, KeyUnit,
};
use crate::text::chars_of;

verus! {

/// A subscribed feed: its title and its link.
#[derive(Debug)]
pub struct Feed {
    pub title: String,
    pub link: String,
}

/// One character of a title as the pinyin order sees it: a character
/// with no pinyin reading, or a Chinese character with its reading.
#[derive(Debug)]
pub enum PinyinSym {
    Other(char),
    Chinese(char, String),
}

impl DeepView for PinyinSym {
    /// Whether the character is Chinese, the character, and its reading
    /// (empty for other characters).
    type V = (bool, char, Seq<char>);

    open spec fn deep_view(&self) -> (bool, char, Seq<char>) {
        match self {
            PinyinSym::Other(c) => (false, *c, Seq::empty()),
            PinyinSym::Chinese(c, p) => (true, *c, p@),
        }
    }
}

impl KeyUnit for PinyinSym {
    /// The order of `pinyin_order::PinYin`: other characters come before
    /// Chinese ones; two other characters are ordered by character; two
    /// Chinese characters by reading, and by character where the readings
    /// are equal.
    open spec fn unit_lt(a: (bool, char, Seq<char>), b: (bool, char, Seq<char>)) -> bool {
        if a.0 != b.0 {
            !a.0
        } else if a.0 {
            if a.2 != b.2 {
                lex_lt::<char>(a.2, b.2)
            } else {
                a.1 < b.1
            }
        } else if a.1 != b.1 {
            a.1 < b.1
        } else {
            lex_lt::<char>(a.2, b.2)
        }
    }

    proof fn lemma_unit_order(
        a: (bool, char, Seq<char>),
        b: (bool, char, Seq<char>),
        c: (bool, char, Seq<char>),
    ) {
        lemma_lex_order::<char>(a.2, b.2, c.2);
        lemma_lex_order::<char>(a.2, c.2, b.2);
        lemma_lex_order::<char>(b.2, a.2, c.2);
        lemma_lex_order::<char>(b.2, c.2, a.2);
        lemma_lex_order::<char>(c.2, a.2, b.2);
        lemma_lex_order::<char>(c.2, b.2, a.2);
        if a != b && a.0 == b.0 && a.1 == b.1 {
            assert(a.2 != b.2);
        }
    }

    fn less(&self, other: &PinyinSym) -> (r: bool) {
        match (self, other) {
            (PinyinSym::Other(a), PinyinSym::Other(b)) => *a < *b,
            (PinyinSym::Other(_), PinyinSym::Chinese(_, _)) => true,
            (PinyinSym::Chinese(_, _), PinyinSym::Other(_)) => false,
            (PinyinSym::Chinese(a, pa), PinyinSym::Chinese(b, pb)) => {
                let ca = chars_of(pa.as_str());
                let cb = chars_of(pb.as_str());
                assert(ca.deep_view() =~= pa@);
                assert(cb.deep_view() =~= pb@);
                proof {
                    lemma_lex_order::<char>(pa@, pb@, pa@);
                    lemma_lex_order::<char>(pb@, pa@, pb@);
                }
                if key_less(&ca, &cb) {
                    true
                } else if key_less(&cb, &ca) {
                    false
                } else {
                    *a < *b
                }
            },
        }
    }
}

/// The pinyin order key that `pinyin_order::as_pinyin` gives a title.
pub uninterp spec fn pinyin_of(title: Seq<char>) -> Seq<(bool, char, Seq<char>)>;

/// Calls `pinyin_order::as_pinyin`, which maps each character of `title`,
/// in order, to itself alone or, where its table holds a reading for it, to
/// the character with that reading. The contract names the result and
/// states that it has one unit per character, holding that character.
#[verifier::external_body]
fn as_pinyin(title: &str) -> (key: Vec<PinyinSym>)
    ensures
        key.deep_view() == pinyin_of(title@),
        key@.len() == title@.len(),
        forall|i: int| 0 <= i < key@.len() ==> (#[trigger] key.deep_view()[i]).1 == title@[i],
{
    pinyin_order::as_pinyin(title).into_iter().map(|p| match p {
        pinyin_order::PinYin::Other(c) => PinyinSym::Other(c),
        pinyin_order::PinYin::Chinese(c, reading) => PinyinSym::Chinese(c, reading.to_string()),
    }).collect()
}

/// The key by which a list shown with links is ordered: the link.
pub open spec fn link_key() -> spec_fn(Feed) -> Seq<char> {
    |f: Feed| f.link@
}

/// The key by which a list shown by title is ordered: the pinyin key of the
/// title.
pub open spec fn title_pinyin_key() -> spec_fn(Feed) -> Seq<(bool, char, Seq<char>)> {
    |f: Feed| pinyin_of(f.title@)
}

/// Orders `feeds` by link, keeping feeds of equal links in their order.
pub fn sort_by_link(feeds: Vec<Feed>) -> (out: Vec<Feed>)
    ensures
        is_stable_sort::<char>(out@, feeds@, link_key()),
{
    let mut keys: Vec<Vec<char>> = Vec::new();
    let mut i: usize = 0;
    while i < feeds.len()
        invariant
            i <= feeds.len(),
            keys.len() == i,
            forall|m: int| 0 <= m < i ==> #[trigger] keys[m].deep_view() == (link_key())(feeds[m]),
        decreases feeds.len() - i,
    {
        let k = chars_of(feeds[i].link.as_str());
        assert(k.deep_view() =~= feeds[i as int].link@);
        keys.push(k);
        i = i + 1;
    }
    sort_by_keys(feeds, keys, Ghost(link_key()))
}

/// Orders `feeds` by the pinyin keys `keys` of their titles, keeping feeds
/// of equal keys in their order.
pub fn sort_by_pinyin_keys(feeds: Vec<Feed>, keys: Vec<Vec<PinyinSym>>) -> (out: Vec<Feed>)
    requires
        keys.len() == feeds.len(),
        forall|i: int| 0 <= i < feeds.len() ==> #[trigger] keys[i].deep_view() == pinyin_of(feeds[i].title@),
    ensures
        is_stable_sort::<PinyinSym>(out@, feeds@, title_pinyin_key()),
{
    sort_by_keys(feeds, keys, Ghost(title_pinyin_key()))
}

/// Orders `feeds` by the pinyin of their titles, keeping feeds of
/// equal keys in their order.
pub fn sort_by_title_pinyin(feeds: Vec<Feed>) -> (out: Vec<Feed>)
    ensures
        is_stable_sort::<PinyinSym>(out@, feeds@, title_pinyin_key()),
{
    let mut keys: Vec<Vec<PinyinSym>> = Vec::new();
    let mut i: usize = 0;
    while i < feeds.len()
        invariant
            i <= feeds.len(),
            keys.len() == i,
            forall|m: int| 0 <= m < i ==> #[trigger] keys[m].deep_view() == pinyin_of(feeds[m].title@),
        decreases feeds.len() - i,
    {
        let k = as_pinyin(feeds[i].title.as_str());
        keys.push(k);
        i = i + 1;
    }
    sort_by_pinyin_keys(feeds, keys)
}

/// The order of pinyin units, as `pinyin_order::PinYin` orders them: a
/// character without a reading comes before every Chinese character, and two
/// of them are ordered by code point; two Chinese characters are ordered by
/// the plain string order of their readings, and by code point where the
/// readings are equal.
pub proof fn lemma_pinyin_unit_order(c1: char, p1: Seq<char>, c2: char, p2: Seq<char>)
    ensures
        PinyinSym::unit_lt((false, c1, Seq::empty()), (false, c2, Seq::empty())) <==> (c1 as u32)
            < (c2 as u32),
        PinyinSym::unit_lt((false, c1, Seq::empty()), (true, c2, p2)),
        !PinyinSym::unit_lt((true, c1, p1), (false, c2, Seq::empty())),
        PinyinSym::unit_lt((true, c1, p1), (true, c2, p2)) <==> (lex_lt::<char>(p1, p2) || (p1
            == p2 && (c1 as u32) < (c2 as u32))),
{
    lemma_lex_order::<char>(p1, p2, p1);
    lemma_lex_order::<char>(Seq::<char>::empty(), Seq::<char>::empty(), Seq::<char>::empty());
}

} // verus!
