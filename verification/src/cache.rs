//! The layouts that a brush keeps, and the order in which they leave.
//!
//! The layouts are held in a linked hash map, which remembers the order in
//! which its entries were put in or asked for. Here that map is told by the
//! sequence of its entries, oldest first, and what asking for a section does
//! to it is a function on such sequences.

use crate::font::{FontId, PositionedGlyph};
use crate::geometry::Rect;
use crate::section::Color;
use linked_hash_map::LinkedHashMap;
use vstd::prelude::*;

verus! {

/// The layout of a section, as it is kept.
#[derive(Clone, Debug)]
pub struct GlyphedSection {
    /// The rectangle that the bounds of the section mark out.
    pub bounds: Rect,
    pub glyphs: Vec<(PositionedGlyph, Color, FontId)>,
    /// The depth at which the section is drawn.
    pub z: i32,
}

/// What a `GlyphedSection` holds, with its glyphs as a sequence.
pub struct GlyphedSectionView {
    pub bounds: Rect,
    pub glyphs: Seq<(PositionedGlyph, Color, FontId)>,
    pub z: i32,
}

impl View for GlyphedSection {
    type V = GlyphedSectionView;

    open spec fn view(&self) -> GlyphedSectionView {
        GlyphedSectionView { bounds: self.bounds, glyphs: self.glyphs@, z: self.z }
    }
}

/// Makes `linked_hash_map::LinkedHashMap` known as a type. Nothing is said of
/// what a map holds but through `cached`.
#[verifier::external_type_specification]
#[verifier::external_body]
#[verifier::reject_recursive_types(K)]
#[verifier::reject_recursive_types(V)]
#[verifier::reject_recursive_types(S)]
pub struct ExLinkedHashMap<K, V, S>(LinkedHashMap<K, V, S>);

/// The entries of a map, from the one that was put in or asked for longest
/// ago to the latest, each as its key and the view of its value.
pub uninterp spec fn cached(map: LinkedHashMap<u64, GlyphedSection>) -> Seq<
    (u64, GlyphedSectionView),
>;

/// The index of the last of the first `n` of `entries` that has the key
/// `key`; -1 if none has. A map holds a key once, so this is the index of the
/// key's one entry.
pub open spec fn find_key(entries: Seq<(u64, GlyphedSectionView)>, key: u64, n: int) -> int
    decreases n,
{
    if n <= 0 {
        -1
    } else if entries[n - 1].0 == key {
        n - 1
    } else {
        find_key(entries, key, n - 1)
    }
}

/// The index of the entry of `key` in `entries`; -1 if there is none.
pub open spec fn index_of(entries: Seq<(u64, GlyphedSectionView)>, key: u64) -> int {
    find_key(entries, key, entries.len() as int)
}

/// Whether one of `entries` has the key `key`.
pub open spec fn has_key(entries: Seq<(u64, GlyphedSectionView)>, key: u64) -> bool {
    index_of(entries, key) >= 0
}

/// `entries` with the entry of `key`, if there is one, moved to the end.
pub open spec fn refreshed(entries: Seq<(u64, GlyphedSectionView)>, key: u64) -> Seq<
    (u64, GlyphedSectionView),
> {
    let i = index_of(entries, key);
    if i >= 0 {
        entries.remove(i).push(entries[i])
    } else {
        entries
    }
}

/// `entries` with `value` under `key` at the end; an earlier entry of `key`
/// is gone.
pub open spec fn inserted(
    entries: Seq<(u64, GlyphedSectionView)>,
    key: u64,
    value: GlyphedSectionView,
) -> Seq<(u64, GlyphedSectionView)> {
    let i = index_of(entries, key);
    if i >= 0 {
        entries.remove(i).push((key, value))
    } else {
        entries.push((key, value))
    }
}

/// The last `limit` of `entries`, or all of them if there are no more.
pub open spec fn trimmed(entries: Seq<(u64, GlyphedSectionView)>, limit: int) -> Seq<
    (u64, GlyphedSectionView),
> {
    if entries.len() > limit {
        entries.skip(entries.len() - limit)
    } else {
        entries
    }
}

/// The number of layouts that a brush built for `size` layouts keeps: the one
/// that was asked for last always stays.
pub open spec fn limit_of(size: usize) -> int {
    if size == 0 {
        1
    } else {
        size as int
    }
}

/// The entries after a section with the key `key` was asked for. If the key
/// is there, its entry becomes the latest; if not, `fresh` is put in as the
/// latest. Then the oldest entries leave until no more than `size` are left,
/// but never the latest.
pub open spec fn after_query(
    entries: Seq<(u64, GlyphedSectionView)>,
    key: u64,
    fresh: GlyphedSectionView,
    size: usize,
) -> Seq<(u64, GlyphedSectionView)> {
    trimmed(
        if has_key(entries, key) {
            refreshed(entries, key)
        } else {
            entries.push((key, fresh))
        },
        limit_of(size),
    )
}

/// Makes an empty map with `LinkedHashMap::new`. Trusted: the new map has no
/// entry.
#[verifier::external_body]
pub(crate) fn cache_new() -> (map: LinkedHashMap<u64, GlyphedSection>)
    ensures
        cached(map) == Seq::<(u64, GlyphedSectionView)>::empty(),
{
    LinkedHashMap::new()
}

/// Calls `LinkedHashMap::len`. Trusted: it is the number of entries.
#[verifier::external_body]
pub(crate) fn cache_len(map: &LinkedHashMap<u64, GlyphedSection>) -> (n: usize)
    ensures
        n == cached(*map).len(),
{
    map.len()
}

/// Calls `LinkedHashMap::get_refresh` and says whether it found the key.
/// Trusted: an entry that is found becomes the latest, and nothing else
/// changes.
#[verifier::external_body]
pub(crate) fn cache_get_refresh(map: &mut LinkedHashMap<u64, GlyphedSection>, key: u64) -> (found:
    bool)
    ensures
        found == has_key(cached(*old(map)), key),
        cached(*final(map)) == refreshed(cached(*old(map)), key),
{
    map.get_refresh(&key).is_some()
}

/// Calls `LinkedHashMap::insert`. Trusted: the value stands under the key as
/// the latest entry; an earlier value under the key is replaced.
#[verifier::external_body]
pub(crate) fn cache_insert(
    map: &mut LinkedHashMap<u64, GlyphedSection>,
    key: u64,
    value: GlyphedSection,
)
    ensures
        cached(*final(map)) == inserted(cached(*old(map)), key, value@),
{
    map.insert(key, value);
}

/// Calls `LinkedHashMap::pop_front`. Trusted: the oldest entry leaves; an
/// empty map stays empty.
#[verifier::external_body]
pub(crate) fn cache_pop_front(map: &mut LinkedHashMap<u64, GlyphedSection>)
    ensures
        cached(*old(map)).len() > 0 ==> cached(*final(map)) == cached(*old(map)).drop_first(),
        cached(*old(map)).len() == 0 ==> cached(*final(map)) == cached(*old(map)),
{
    map.pop_front();
}

/// Calls `LinkedHashMap::back` and gives the value. Trusted: it is the value
/// of the latest entry, if there is any entry.
#[verifier::external_body]
pub(crate) fn cache_back(map: &LinkedHashMap<u64, GlyphedSection>) -> (value: Option<
    &GlyphedSection,
>)
    ensures
        value.is_some() == (cached(*map).len() > 0),
        value.is_some() ==> value.unwrap()@ == cached(*map).last().1,
{
    map.back().map(|entry| entry.1)
}

/// Collects what `LinkedHashMap::keys` yields. Trusted: the keys come in the
/// order of the entries, oldest first.
#[verifier::external_body]
pub(crate) fn cache_keys(map: &LinkedHashMap<u64, GlyphedSection>) -> (keys: Vec<u64>)
    ensures
        keys@ == Seq::new(cached(*map).len(), |i: int| cached(*map)[i].0),
{
    map.keys().copied().collect()
}

/// What `find_key` finds: the last entry with the key among the first `n`.
pub proof fn lemma_find_key(entries: Seq<(u64, GlyphedSectionView)>, key: u64, n: int)
    requires
        0 <= n <= entries.len(),
    ensures
        -1 <= find_key(entries, key, n) < n,
        find_key(entries, key, n) >= 0 ==> entries[find_key(entries, key, n)].0 == key,
        forall|j: int| find_key(entries, key, n) < j < n ==> entries[j].0 != key,
    decreases n,
{
    if n > 0 && entries[n - 1].0 != key {
        lemma_find_key(entries, key, n - 1);
    }
}

/// A brush never keeps more layouts than it was built for, and after a
/// section was asked for, its layout is the latest: the one that was kept
/// under its key before, or, if there was none, the one just made.
pub proof fn law_query_bounded(
    entries: Seq<(u64, GlyphedSectionView)>,
    key: u64,
    fresh: GlyphedSectionView,
    size: usize,
)
    ensures
        0 < after_query(entries, key, fresh, size).len() <= limit_of(size),
        has_key(after_query(entries, key, fresh, size), key),
        after_query(entries, key, fresh, size).last() == if has_key(entries, key) {
            entries[index_of(entries, key)]
        } else {
            (key, fresh)
        },
        after_query(entries, key, fresh, size).last().0 == key,
{
    lemma_find_key(entries, key, entries.len() as int);
    let kept = after_query(entries, key, fresh, size);
    lemma_find_key(kept, key, kept.len() as int);
}

/// Asking again for a section whose layout is kept makes no new layout and
/// changes nothing: the brush keeps what it kept, and the layout that comes
/// back is the one that came back the first time, whatever laying the section
/// out again would give.
pub proof fn law_asked_again(
    entries: Seq<(u64, GlyphedSectionView)>,
    key: u64,
    fresh: GlyphedSectionView,
    again: GlyphedSectionView,
    size: usize,
)
    ensures
        after_query(after_query(entries, key, fresh, size), key, again, size) == after_query(
            entries,
            key,
            fresh,
            size,
        ),
{
    law_query_bounded(entries, key, fresh, size);
    let first = after_query(entries, key, fresh, size);
    lemma_find_key(first, key, first.len() as int);
}

/// A layout under a new key takes the place of the oldest one when the
/// brush is full, and is added to the others when it is not: of more
/// sections than the brush was built for, the latest stay.
pub proof fn law_oldest_leaves_first(
    entries: Seq<(u64, GlyphedSectionView)>,
    key: u64,
    fresh: GlyphedSectionView,
    size: usize,
)
    requires
        !has_key(entries, key),
        entries.len() <= limit_of(size),
    ensures
        entries.len() < limit_of(size) ==> after_query(entries, key, fresh, size) == entries.push(
            (key, fresh),
        ),
        entries.len() == limit_of(size) ==> after_query(entries, key, fresh, size)
            == entries.drop_first().push((key, fresh)),
        entries.len() == limit_of(size) ==> after_query(entries, key, fresh, size).len()
            == limit_of(size),
{
    if entries.len() == limit_of(size) {
        assert(entries.push((key, fresh)).skip(1) == entries.drop_first().push((key, fresh)));
    }
}

/// The entries after the first `n` of `asked` were asked for one after the
/// other, each with the key and the layout that laying it out gives.
pub open spec fn after_queries(
    entries: Seq<(u64, GlyphedSectionView)>,
    asked: Seq<(u64, GlyphedSectionView)>,
    n: int,
    size: usize,
) -> Seq<(u64, GlyphedSectionView)>
    decreases n,
{
    if n <= 0 {
        entries
    } else {
        after_query(
            after_queries(entries, asked, n - 1, size),
            asked[n - 1].0,
            asked[n - 1].1,
            size,
        )
    }
}

/// Whether no two of `entries` have the same key.
pub open spec fn distinct_keys(entries: Seq<(u64, GlyphedSectionView)>) -> bool {
    forall|i: int, j: int| 0 <= i < j < entries.len() ==> entries[i].0 != entries[j].0
}

/// Of sections with different keys that a new brush is asked for one after
/// the other, it keeps the latest, as many as it was built for, in the order
/// in which they were asked for: with one section more than it keeps, the
/// first one is gone and all the others are there.
pub proof fn law_latest_stay(asked: Seq<(u64, GlyphedSectionView)>, n: int, size: usize)
    requires
        0 <= n <= asked.len(),
        distinct_keys(asked),
    ensures
        after_queries(Seq::empty(), asked, n, size) == trimmed(asked.take(n), limit_of(size)),
        n <= limit_of(size) ==> after_queries(Seq::empty(), asked, n, size) == asked.take(n),
        n == limit_of(size) + 1 ==> after_queries(Seq::empty(), asked, n, size) == asked.subrange(
            1,
            n,
        ),
    decreases n,
{
    let limit = limit_of(size);
    if n > 0 {
        law_latest_stay(asked, n - 1, size);
        let before = after_queries(Seq::empty(), asked, n - 1, size);
        let key = asked[n - 1].0;
        assert forall|j: int| 0 <= j < before.len() implies before[j].0 != key by {
            let from = asked.take(n - 1).len() - before.len();
            assert(before[j] == asked[from + j]);
        }
        lemma_absent(before, key, before.len() as int);
        let grown = before.push(asked[n - 1]);
        assert(trimmed(grown, limit) == trimmed(asked.take(n), limit)) by {
            assert(asked.take(n) == asked.take(n - 1).push(asked[n - 1]));
        }
    }
    if n == limit + 1 {
        assert(asked.take(n).skip(1) == asked.subrange(1, n));
    }
}

/// Asking for a section protects its layout: after that, a layout under a
/// new key does not make it leave, if the brush was built for two layouts or
/// more.
pub proof fn law_asking_protects(
    entries: Seq<(u64, GlyphedSectionView)>,
    key: u64,
    other: u64,
    fresh: GlyphedSectionView,
    size: usize,
)
    requires
        size >= 2,
        entries.len() <= size,
        has_key(entries, key),
        !has_key(entries, other),
    ensures
        has_key(
            after_query(after_query(entries, key, fresh, size), other, fresh, size),
            key,
        ),
{
    lemma_find_key(entries, key, entries.len() as int);
    lemma_find_key(entries, other, entries.len() as int);
    let touched = after_query(entries, key, fresh, size);
    assert(touched == refreshed(entries, key));
    assert forall|j: int| 0 <= j < touched.len() implies touched[j].0 != other by {
        let i = index_of(entries, key);
        if j < i {
            assert(touched[j] == entries[j]);
        } else if j < touched.len() - 1 {
            assert(touched[j] == entries[j + 1]);
        }
    }
    lemma_absent(touched, other, touched.len() as int);
    let kept = after_query(touched, other, fresh, size);
    assert(kept == trimmed(touched.push((other, fresh)), size as int));
    assert(kept[kept.len() - 2] == touched.last());
    lemma_present(kept, key, kept.len() as int, kept.len() - 2);
}

/// A key that none of the first `n` entries has is not found among them.
pub proof fn lemma_absent(entries: Seq<(u64, GlyphedSectionView)>, key: u64, n: int)
    requires
        0 <= n <= entries.len(),
        forall|j: int| 0 <= j < n ==> entries[j].0 != key,
    ensures
        find_key(entries, key, n) == -1,
    decreases n,
{
    if n > 0 {
        lemma_absent(entries, key, n - 1);
    }
}

/// A key that one of the first `n` entries has is found among them.
pub proof fn lemma_present(entries: Seq<(u64, GlyphedSectionView)>, key: u64, n: int, at: int)
    requires
        0 <= at < n <= entries.len(),
        entries[at].0 == key,
    ensures
        find_key(entries, key, n) >= at,
    decreases n,
{
    if entries[n - 1].0 != key {
        lemma_present(entries, key, n - 1, at);
    }
}

} // verus!
