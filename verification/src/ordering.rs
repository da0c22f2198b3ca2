//! The order of a directory listing: directories first, then by name without
//! regard to case.

use vstd::prelude::*;
use vstd::utf8::encode_utf8;
use crate::filesystem::{FileEntry, FileEntryView};
use crate::text::lowercase;

verus! {

/// Whether `a` comes before `b`, or equals it, in the order that compares
/// byte by byte and puts a sequence before its extensions.
pub open spec fn bytes_le(a: Seq<u8>, b: Seq<u8>) -> bool
    decreases a.len(),
{
    if a.len() == 0 {
        true
    } else if b.len() == 0 {
        false
    } else if a[0] != b[0] {
        a[0] < b[0]
    } else {
        bytes_le(a.drop_first(), b.drop_first())
    }
}

/// A listing entry with the key by which its name is ordered.
#[derive(Debug)]
pub struct KeyedEntry {
    pub entry: FileEntry,
    pub key: String,
}

/// The mathematical content of a [`KeyedEntry`].
pub struct KeyedEntryView {
    pub entry: FileEntryView,
    pub key: Seq<char>,
}

impl View for KeyedEntry {
    type V = KeyedEntryView;

    open spec fn view(&self) -> KeyedEntryView {
        KeyedEntryView { entry: self.entry@, key: self.key@ }
    }
}

/// The mathematical content of each item of `items`.
pub open spec fn keyed_views(items: Seq<KeyedEntry>) -> Seq<KeyedEntryView> {
    items.map_values(|item: KeyedEntry| item@)
}

/// Whether `a` may stand before `b`: a directory before a file; among
/// directories and among files, the one whose key has the smaller UTF-8
/// encoding first.
pub open spec fn entry_le(a: KeyedEntryView, b: KeyedEntryView) -> bool {
    if a.entry.is_dir != b.entry.is_dir {
        a.entry.is_dir
    } else {
        bytes_le(encode_utf8(a.key), encode_utf8(b.key))
    }
}

/// Whether the order cannot tell `a` and `b` apart.
pub open spec fn same_rank(a: KeyedEntryView, b: KeyedEntryView) -> bool {
    a.entry.is_dir == b.entry.is_dir && encode_utf8(a.key) == encode_utf8(b.key)
}

/// The items that the order cannot tell apart from `x`.
pub open spec fn of_rank(x: KeyedEntryView) -> spec_fn(KeyedEntryView) -> bool {
    |e: KeyedEntryView| same_rank(e, x)
}

/// Every item of `s` may stand before all that follow it.
pub open spec fn ordered(s: Seq<KeyedEntryView>) -> bool {
    forall|i: int, j: int| 0 <= i < j < s.len() ==> entry_le(#[trigger] s[i], #[trigger] s[j])
}

/// `sorted` is `items` sorted stably: it is ordered, and the items of each
/// rank are the same in both, in the same order. So it holds each item as
/// often as `items` does, and items that the order cannot tell apart stand
/// as they stood in `items`.
pub open spec fn is_stable_sort(sorted: Seq<KeyedEntryView>, items: Seq<KeyedEntryView>) -> bool {
    &&& ordered(sorted)
    &&& forall|x: KeyedEntryView| #[trigger]
        sorted.filter(of_rank(x)) == items.filter(of_rank(x))
}

/// A listing entry with the key that a listing orders it by: the lower-case
/// form of its name.
pub open spec fn with_key(entry: FileEntryView) -> KeyedEntryView {
    KeyedEntryView { entry, key: lowercase(entry.name) }
}

/// Each entry of `entries` with its key.
pub open spec fn with_keys(entries: Seq<FileEntryView>) -> Seq<KeyedEntryView> {
    entries.map_values(|entry: FileEntryView| with_key(entry))
}

/// `sorted` is `listing` in the order of a listing: directories first, then
/// by name without regard to case, and entries that this cannot tell apart
/// as they stood in `listing`.
pub open spec fn is_sorted_listing(sorted: Seq<FileEntryView>, listing: Seq<FileEntryView>) -> bool {
    is_stable_sort(with_keys(sorted), with_keys(listing))
}

/// Every byte string comes before or with itself.
pub proof fn lemma_bytes_le_reflexive(a: Seq<u8>)
    ensures
        bytes_le(a, a),
    decreases a.len(),
{
    if a.len() > 0 {
        lemma_bytes_le_reflexive(a.drop_first());
    }
}

/// Of two byte strings, one comes before or with the other.
pub proof fn lemma_bytes_le_total(a: Seq<u8>, b: Seq<u8>)
    ensures
        bytes_le(a, b) || bytes_le(b, a),
    decreases a.len(),
{
    if a.len() > 0 && b.len() > 0 && a[0] == b[0] {
        lemma_bytes_le_total(a.drop_first(), b.drop_first());
    }
}

/// What comes before or with a byte string comes before or with all that
/// this one comes before or with.
pub proof fn lemma_bytes_le_transitive(a: Seq<u8>, b: Seq<u8>, c: Seq<u8>)
    requires
        bytes_le(a, b),
        bytes_le(b, c),
    ensures
        bytes_le(a, c),
    decreases a.len(),
{
    if a.len() > 0 && b.len() > 0 && c.len() > 0 && a[0] == b[0] && b[0] == c[0] {
        lemma_bytes_le_transitive(a.drop_first(), b.drop_first(), c.drop_first());
    }
}

/// Two byte strings that each come before or with the other are equal.
pub proof fn lemma_bytes_le_antisymmetric(a: Seq<u8>, b: Seq<u8>)
    requires
        bytes_le(a, b),
        bytes_le(b, a),
    ensures
        a == b,
    decreases a.len(),
{
    if a.len() > 0 && b.len() > 0 {
        lemma_bytes_le_antisymmetric(a.drop_first(), b.drop_first());
        assert(a =~= seq![a[0]] + a.drop_first());
        assert(b =~= seq![b[0]] + b.drop_first());
    } else {
        assert(a =~= b);
    }
}

/// The order of a listing is total: of two entries, one may stand before the
/// other.
pub proof fn lemma_entry_le_total(a: KeyedEntryView, b: KeyedEntryView)
    ensures
        entry_le(a, b) || entry_le(b, a),
{
    lemma_bytes_le_total(encode_utf8(a.key), encode_utf8(b.key));
}

/// The order of a listing is transitive.
pub proof fn lemma_entry_le_transitive(a: KeyedEntryView, b: KeyedEntryView, c: KeyedEntryView)
    requires
        entry_le(a, b),
        entry_le(b, c),
    ensures
        entry_le(a, c),
{
    if a.entry.is_dir == b.entry.is_dir && b.entry.is_dir == c.entry.is_dir {
        lemma_bytes_le_transitive(encode_utf8(a.key), encode_utf8(b.key), encode_utf8(c.key));
    }
}

/// Two entries may each stand before the other exactly when the order
/// cannot tell them apart.
pub proof fn lemma_same_rank(a: KeyedEntryView, b: KeyedEntryView)
    ensures
        same_rank(a, b) <==> entry_le(a, b) && entry_le(b, a),
{
    if entry_le(a, b) && entry_le(b, a) {
        lemma_bytes_le_antisymmetric(encode_utf8(a.key), encode_utf8(b.key));
    }
    if same_rank(a, b) {
        lemma_bytes_le_reflexive(encode_utf8(a.key));
    }
}

proof fn lemma_filter_none(s: Seq<KeyedEntryView>, pred: spec_fn(KeyedEntryView) -> bool)
    requires
        forall|i: int| 0 <= i < s.len() ==> !pred(#[trigger] s[i]),
    ensures
        s.filter(pred) == Seq::<KeyedEntryView>::empty(),
    decreases s.len(),
{
    reveal(Seq::filter);
    if s.len() > 0 {
        assert forall|i: int| 0 <= i < s.drop_last().len() implies !pred(
            #[trigger] s.drop_last()[i],
        ) by {
            assert(s.drop_last()[i] == s[i]);
        }
        lemma_filter_none(s.drop_last(), pred);
    }
}

proof fn lemma_filter_push(
    s: Seq<KeyedEntryView>,
    e: KeyedEntryView,
    pred: spec_fn(KeyedEntryView) -> bool,
)
    ensures
        s.push(e).filter(pred) == if pred(e) {
            s.filter(pred).push(e)
        } else {
            s.filter(pred)
        },
{
    reveal(Seq::filter);
    assert(s.push(e).drop_last() =~= s);
}

proof fn lemma_filter_member(
    s: Seq<KeyedEntryView>,
    pred: spec_fn(KeyedEntryView) -> bool,
    i: int,
)
    requires
        0 <= i < s.filter(pred).len(),
    ensures
        s.contains(s.filter(pred)[i]),
    decreases s.len(),
{
    reveal(Seq::filter);
    if s.len() > 0 {
        let kept = s.drop_last().filter(pred);
        if i < kept.len() {
            lemma_filter_member(s.drop_last(), pred, i);
            let j = choose|j: int| 0 <= j < s.drop_last().len() && s.drop_last()[j] == kept[i];
            assert(s[j] == kept[i]);
        } else {
            assert(s[s.len() - 1] == s.filter(pred)[i]);
        }
    }
}

/// A stable sort holds the items it was made of and no others.
pub proof fn lemma_stable_sort_keeps_items(
    sorted: Seq<KeyedEntryView>,
    items: Seq<KeyedEntryView>,
)
    requires
        is_stable_sort(sorted, items),
    ensures
        forall|i: int| 0 <= i < sorted.len() ==> items.contains(#[trigger] sorted[i]),
        forall|i: int| 0 <= i < items.len() ==> sorted.contains(#[trigger] items[i]),
{
    assert forall|i: int| 0 <= i < sorted.len() implies items.contains(#[trigger] sorted[i]) by {
        let pred = of_rank(sorted[i]);
        assert(sorted.filter(pred) == items.filter(pred));
        sorted.lemma_filter_contains(pred, i);
        let k = choose|k: int|
            0 <= k < sorted.filter(pred).len() && sorted.filter(pred)[k] == sorted[i];
        lemma_filter_member(items, pred, k);
    }
    assert forall|i: int| 0 <= i < items.len() implies sorted.contains(#[trigger] items[i]) by {
        let pred = of_rank(items[i]);
        assert(sorted.filter(pred) == items.filter(pred));
        items.lemma_filter_contains(pred, i);
        let k = choose|k: int|
            0 <= k < items.filter(pred).len() && items.filter(pred)[k] == items[i];
        lemma_filter_member(sorted, pred, k);
    }
}

proof fn lemma_filter_keeps_count(
    s: Seq<KeyedEntryView>,
    pred: spec_fn(KeyedEntryView) -> bool,
    v: KeyedEntryView,
)
    requires
        pred(v),
    ensures
        s.filter(pred).to_multiset().count(v) == s.to_multiset().count(v),
    decreases s.len(),
{
    reveal(Seq::filter);
    if s.len() > 0 {
        let rest = s.drop_last();
        lemma_filter_keeps_count(rest, pred, v);
        assert(s =~= rest.push(s.last()));
        rest.to_multiset_ensures();
        rest.filter(pred).to_multiset_ensures();
    }
}

/// A stable sort holds each item as often as the items it was made of do,
/// so it is as long as they are.
pub proof fn lemma_stable_sort_is_permutation(
    sorted: Seq<KeyedEntryView>,
    items: Seq<KeyedEntryView>,
)
    requires
        is_stable_sort(sorted, items),
    ensures
        sorted.to_multiset() == items.to_multiset(),
        sorted.len() == items.len(),
{
    assert forall|v: KeyedEntryView|
        sorted.to_multiset().count(v) == items.to_multiset().count(v) by {
        let pred = of_rank(v);
        assert(sorted.filter(pred) == items.filter(pred));
        lemma_filter_keeps_count(sorted, pred, v);
        lemma_filter_keeps_count(items, pred, v);
    }
    assert(sorted.to_multiset() =~= items.to_multiset());
    sorted.to_multiset_ensures();
    items.to_multiset_ensures();
}

/// Two ordered sequences that hold the same items of each rank, in the same
/// order, are one and the same.
proof fn lemma_ordered_with_same_ranks(a: Seq<KeyedEntryView>, b: Seq<KeyedEntryView>)
    requires
        ordered(a),
        ordered(b),
        forall|x: KeyedEntryView| #[trigger] a.filter(of_rank(x)) == b.filter(of_rank(x)),
    ensures
        a == b,
    decreases a.len(),
{
    assert(is_stable_sort(a, b));
    lemma_stable_sort_is_permutation(a, b);
    if a.len() == 0 {
        assert(a =~= b);
    } else {
        lemma_stable_sort_keeps_items(a, b);
        let x = a.last();
        let y = b.last();
        assert(b.contains(a[a.len() - 1]));
        assert(a.contains(b[b.len() - 1]));
        let i = choose|i: int| 0 <= i < b.len() && b[i] == x;
        let j = choose|j: int| 0 <= j < a.len() && a[j] == y;
        lemma_same_rank(x, x);
        lemma_same_rank(x, y);
        assert(entry_le(x, y)) by {
            if i < b.len() - 1 {
                assert(entry_le(b[i], b[b.len() - 1]));
            }
        }
        assert(entry_le(y, x)) by {
            if j < a.len() - 1 {
                assert(entry_le(a[j], a[a.len() - 1]));
            }
        }
        assert(same_rank(x, y));
        let front_a = a.drop_last();
        let front_b = b.drop_last();
        assert(a =~= front_a.push(x));
        assert(b =~= front_b.push(y));
        lemma_filter_push(front_a, x, of_rank(x));
        lemma_filter_push(front_b, y, of_rank(x));
        assert(a.filter(of_rank(x)) == b.filter(of_rank(x)));
        assert(x == y) by {
            let fa = front_a.filter(of_rank(x)).push(x);
            let fb = front_b.filter(of_rank(x)).push(y);
            assert(fa == fb);
            assert(fa.last() == x);
            assert(fb.last() == y);
        }
        assert forall|z: KeyedEntryView| #[trigger]
            front_a.filter(of_rank(z)) == front_b.filter(of_rank(z)) by {
            let pred = of_rank(z);
            lemma_filter_push(front_a, x, pred);
            lemma_filter_push(front_b, y, pred);
            assert(a.filter(pred) == b.filter(pred));
            if pred(x) {
                let fa = front_a.filter(pred).push(x);
                let fb = front_b.filter(pred).push(y);
                assert(fa == fb);
                assert(fa.drop_last() =~= front_a.filter(pred));
                assert(fb.drop_last() =~= front_b.filter(pred));
            }
        }
        assert(ordered(front_a)) by {
            assert forall|i: int, j: int| 0 <= i < j < front_a.len() implies entry_le(
                #[trigger] front_a[i],
                #[trigger] front_a[j],
            ) by {
                assert(entry_le(a[i], a[j]));
            }
        }
        assert(ordered(front_b)) by {
            assert forall|i: int, j: int| 0 <= i < j < front_b.len() implies entry_le(
                #[trigger] front_b[i],
                #[trigger] front_b[j],
            ) by {
                assert(entry_le(b[i], b[j]));
            }
        }
        lemma_ordered_with_same_ranks(front_a, front_b);
    }
}

/// The stable sort of given items is unique: the order and the items
/// determine it.
pub proof fn lemma_stable_sort_is_unique(
    first: Seq<KeyedEntryView>,
    second: Seq<KeyedEntryView>,
    items: Seq<KeyedEntryView>,
)
    requires
        is_stable_sort(first, items),
        is_stable_sort(second, items),
    ensures
        first == second,
{
    assert forall|x: KeyedEntryView| #[trigger]
        first.filter(of_rank(x)) == second.filter(of_rank(x)) by {
        assert(first.filter(of_rank(x)) == items.filter(of_rank(x)));
        assert(second.filter(of_rank(x)) == items.filter(of_rank(x)));
    }
    lemma_ordered_with_same_ranks(first, second);
}

/// The sorted listing of a directory is unique, and it holds as many
/// entries as were listed.
pub proof fn lemma_sorted_listing_is_unique(
    first: Seq<FileEntryView>,
    second: Seq<FileEntryView>,
    listing: Seq<FileEntryView>,
)
    requires
        is_sorted_listing(first, listing),
        is_sorted_listing(second, listing),
    ensures
        first == second,
        first.len() == listing.len(),
{
    lemma_stable_sort_is_unique(with_keys(first), with_keys(second), with_keys(listing));
    lemma_stable_sort_is_permutation(with_keys(first), with_keys(listing));
    assert forall|i: int| 0 <= i < first.len() implies first[i] == second[i] by {
        assert(with_keys(first)[i].entry == first[i]);
        assert(with_keys(second)[i].entry == second[i]);
    }
    assert(with_keys(first).len() == first.len());
    assert(with_keys(second).len() == second.len());
    assert(first =~= second);
}

/// Putting `item` into a stable sort behind every item that may stand
/// before it, and in front of the others, gives the stable sort of the
/// items with `item` at their end.
pub proof fn lemma_insert_keeps_stable_sort(
    sorted: Seq<KeyedEntryView>,
    listing: Seq<KeyedEntryView>,
    item: KeyedEntryView,
    p: int,
)
    requires
        is_stable_sort(sorted, listing),
        0 <= p <= sorted.len(),
        forall|i: int| 0 <= i < p ==> entry_le(#[trigger] sorted[i], item),
        forall|j: int| p <= j < sorted.len() ==> !entry_le(#[trigger] sorted[j], item),
    ensures
        is_stable_sort(sorted.insert(p, item), listing.push(item)),
{
    let front = sorted.subrange(0, p);
    let back = sorted.subrange(p, sorted.len() as int);
    let next = sorted.insert(p, item);
    assert(sorted =~= front + back);
    assert forall|i: int, j: int| 0 <= i < j < next.len() implies entry_le(
        #[trigger] next[i],
        #[trigger] next[j],
    ) by {
        if i == p {
            assert(next[j] == sorted[j - 1]);
            lemma_entry_le_total(item, sorted[j - 1]);
        } else if j == p {
            assert(next[i] == sorted[i]);
        } else if i < p {
            assert(next[i] == sorted[i]);
            if j < p {
                assert(next[j] == sorted[j]);
            } else {
                assert(next[j] == sorted[j - 1]);
            }
        } else {
            assert(next[i] == sorted[i - 1]);
            assert(next[j] == sorted[j - 1]);
        }
    }
    assert forall|x: KeyedEntryView| #[trigger]
        next.filter(of_rank(x)) == listing.push(item).filter(of_rank(x)) by {
        let pred = of_rank(x);
        assert(sorted.filter(pred) == listing.filter(pred));
        Seq::filter_distributes_over_add(front, back, pred);
        Seq::filter_distributes_over_add(front.push(item), back, pred);
        lemma_filter_push(front, item, pred);
        lemma_filter_push(listing, item, pred);
        if pred(item) {
            assert forall|i: int| 0 <= i < back.len() implies !pred(#[trigger] back[i]) by {
                assert(back[i] == sorted[p + i]);
                lemma_same_rank(back[i], item);
            }
            lemma_filter_none(back, pred);
            assert(front.filter(pred) + Seq::<KeyedEntryView>::empty() =~= front.filter(pred));
            assert(front.filter(pred).push(item) + Seq::<KeyedEntryView>::empty()
                =~= front.filter(pred).push(item));
        }
    }
}

/// Compares two byte strings as [`bytes_le`] says.
pub fn bytes_before_or_equal(a: &[u8], b: &[u8]) -> (r: bool)
    ensures
        r == bytes_le(a@, b@),
{
    let mut i: usize = 0;
    assert(a@.skip(0) =~= a@ && b@.skip(0) =~= b@);
    while i < a.len() && i < b.len()
        invariant
            i <= a.len(),
            i <= b.len(),
            bytes_le(a@, b@) == bytes_le(a@.skip(i as int), b@.skip(i as int)),
        decreases a.len() - i,
    {
        if a[i] != b[i] {
            return a[i] < b[i];
        }
        proof {
            assert(a@.skip(i as int).drop_first() =~= a@.skip(i + 1));
            assert(b@.skip(i as int).drop_first() =~= b@.skip(i + 1));
        }
        i += 1;
    }
    i == a.len()
}

impl KeyedEntry {
    /// Whether this item may stand before `other`.
    pub fn may_precede(&self, other: &KeyedEntry) -> (r: bool)
        ensures
            r == entry_le(self@, other@),
    {
        if self.entry.is_dir != other.entry.is_dir {
            self.entry.is_dir
        } else {
            bytes_before_or_equal(self.key.as_str().as_bytes(), other.key.as_str().as_bytes())
        }
    }
}

/// Puts `item` into the sorted `sorted` behind the items that may stand
/// before it.
fn insert_sorted(
    sorted: &mut Vec<KeyedEntry>,
    item: KeyedEntry,
    Ghost(items): Ghost<Seq<KeyedEntryView>>,
)
    requires
        is_stable_sort(keyed_views(old(sorted)@), items),
    ensures
        is_stable_sort(keyed_views(final(sorted)@), items.push(item@)),
{
    let ghost before = keyed_views(sorted@);
    let mut p: usize = sorted.len();
    while p > 0 && !sorted[p - 1].may_precede(&item)
        invariant
            p <= sorted@.len(),
            sorted@ == old(sorted)@,
            forall|j: int| p <= j < sorted@.len() ==> !entry_le(#[trigger] before[j], item@),
            before == keyed_views(sorted@),
        decreases p,
    {
        p -= 1;
    }
    proof {
        assert forall|i: int| 0 <= i < p implies entry_le(#[trigger] before[i], item@) by {
            assert(entry_le(before[p - 1], item@));
            if i < p - 1 {
                assert(entry_le(before[i], before[p - 1]));
                lemma_entry_le_transitive(before[i], before[p - 1], item@);
            }
        }
        lemma_insert_keeps_stable_sort(before, items, item@, p as int);
    }
    let ghost item_view = item@;
    sorted.insert(p, item);
    proof {
        assert(keyed_views(sorted@) =~= before.insert(p as int, item_view));
    }
}

/// Sorts `items` stably: directories first, then by the bytes of the key;
/// items that this cannot tell apart stay in the order they came in.
pub fn sort_keyed(items: Vec<KeyedEntry>) -> (sorted: Vec<KeyedEntry>)
    ensures
        is_stable_sort(keyed_views(sorted@), keyed_views(items@)),
{
    let ghost input = items@;
    let mut sorted: Vec<KeyedEntry> = Vec::new();
    proof {
        assert(keyed_views(sorted@) =~= Seq::empty());
        assert(keyed_views(input.take(0)) =~= Seq::empty());
    }
    for item in it: items
        invariant
            it.seq() == input,
            is_stable_sort(keyed_views(sorted@), keyed_views(input.take(it.index()))),
    {
        let ghost done = keyed_views(input.take(it.index()));
        insert_sorted(&mut sorted, item, Ghost(done));
        proof {
            assert(keyed_views(input.take(it.index() + 1)) =~= done.push(item@));
        }
    }
    proof {
        assert(input.take(input.len() as int) =~= input);
    }
    sorted
}

} // verus!
