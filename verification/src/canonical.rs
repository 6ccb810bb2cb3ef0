//! Canonical document order: every list sorted by its explicit identity.
//!
//! Array-of-table order is presentation, never dependency or scheduling identity.
//! Sorting is stable, so entries with equal identities keep their document order.
use crate::dto::{
    ControllerDto, DeploymentDto, InstrumentDto, ManagedComponentDto, ReferenceDto, ResourceDto,
    SafeProfileDto,
};
use vstd::prelude::*;

verus! {

/// Lexicographic order of sort keys.
pub open spec fn key_le(a: (u64, u64), b: (u64, u64)) -> bool {
    a.0 < b.0 || (a.0 == b.0 && a.1 <= b.1)
}

/// Position at which a stable insertion places key `k` into `s`, scanning from `i`:
/// after every entry whose key is not greater than `k`.
pub open spec fn insert_position<T>(s: Seq<((u64, u64), T)>, k: (u64, u64), i: int) -> int
    decreases s.len() - i,
{
    if i < 0 || i >= s.len() {
        s.len() as int
    } else if key_le(s[i].0, k) {
        insert_position(s, k, i + 1)
    } else {
        i
    }
}

/// Stable insertion sort of keyed entries.
pub open spec fn sorted_by_key<T>(s: Seq<((u64, u64), T)>) -> Seq<((u64, u64), T)>
    decreases s.len(),
{
    if s.len() == 0 {
        s
    } else {
        let rest = sorted_by_key(s.drop_last());
        rest.insert(insert_position(rest, s.last().0, 0), s.last())
    }
}

/// Keys never decrease along the sequence.
pub open spec fn keys_ordered<T>(s: Seq<((u64, u64), T)>) -> bool {
    forall|a: int, b: int| 0 <= a < b < s.len() ==> key_le(#[trigger] s[a].0, #[trigger] s[b].0)
}

proof fn lemma_insert_position_bounds<T>(s: Seq<((u64, u64), T)>, k: (u64, u64), i: int)
    requires
        0 <= i <= s.len(),
    ensures
        i <= insert_position(s, k, i) <= s.len(),
        forall|j: int| i <= j < insert_position(s, k, i) ==> key_le(#[trigger] s[j].0, k),
        insert_position(s, k, i) < s.len() ==> !key_le(s[insert_position(s, k, i)].0, k),
    decreases s.len() - i,
{
    if i < s.len() && key_le(s[i].0, k) {
        lemma_insert_position_bounds(s, k, i + 1);
    }
}

/// Sorting yields keys in order and keeps every entry.
pub proof fn lemma_sorted_by_key<T>(s: Seq<((u64, u64), T)>)
    ensures
        keys_ordered(sorted_by_key(s)),
        sorted_by_key(s).len() == s.len(),
        sorted_by_key(s).to_multiset() == s.to_multiset(),
    decreases s.len(),
{
    if s.len() > 0 {
        let rest = sorted_by_key(s.drop_last());
        lemma_sorted_by_key(s.drop_last());
        let x = s.last();
        let p = insert_position(rest, x.0, 0);
        lemma_insert_position_bounds(rest, x.0, 0);
        let out = rest.insert(p, x);
        assert forall|a: int, b: int| 0 <= a < b < out.len() implies key_le(#[trigger] out[a].0, #[trigger] out[b].0) by {
            if b < p {
                assert(out[a] == rest[a] && out[b] == rest[b]);
            } else if b == p {
                assert(out[b] == x);
                assert(out[a] == rest[a]);
            } else if a < p {
                assert(out[a] == rest[a]);
                assert(out[b] == rest[b - 1]);
                if a < b - 1 {
                } 
            } else if a == p {
                assert(out[a] == x);
                assert(out[b] == rest[b - 1]);
                assert(!key_le(rest[p].0, x.0));
                if p < b - 1 {
                    assert(key_le(rest[p].0, rest[b - 1].0));
                }
            } else {
                assert(out[a] == rest[a - 1]);
                assert(out[b] == rest[b - 1]);
            }
        }
        vstd::seq_lib::to_multiset_insert(rest, p, x);
        vstd::seq_lib::to_multiset_build(s.drop_last(), x);
        assert(s =~= s.drop_last().push(x));
    }
}

/// Stable sort of keyed entries by key.
pub fn sort_by_key<T>(items: Vec<((u64, u64), T)>) -> (out: Vec<((u64, u64), T)>)
    ensures
        out@ == sorted_by_key(items@),
{
    let ghost original = items@;
    let mut rest = items;
    let mut out: Vec<((u64, u64), T)> = Vec::new();
    let mut i: usize = 0;
    let total: usize = rest.len();
    while rest.len() > 0
        invariant
            i + rest@.len() == original.len(),
            original.len() == total,
            rest@ == original.subrange(i as int, original.len() as int),
            out@ == sorted_by_key(original.subrange(0, i as int)),
        decreases rest@.len(),
    {
        let item = rest.remove(0);
        let ghost before = out@;
        let mut p: usize = 0;
        while p < out.len() && key_le_exec(out[p].0, item.0)
            invariant
                out@ == before,
                p <= out@.len(),
                insert_position(out@, item.0, 0) == insert_position(out@, item.0, p as int),
            decreases out@.len() - p,
        {
            p += 1;
        }
        proof {
            assert(original.subrange(0, i + 1).drop_last() =~= original.subrange(0, i as int));
            assert(original.subrange(0, i + 1).last() == item);
            assert(insert_position(out@, item.0, p as int) == p);
        }
        out.insert(p, item);
        proof {
            assert(rest@ =~= original.subrange(i + 1, original.len() as int));
        }
        i += 1;
    }
    proof {
        assert(original.subrange(0, original.len() as int) =~= original);
    }
    out
}

fn key_le_exec(a: (u64, u64), b: (u64, u64)) -> (r: bool)
    ensures
        r == key_le(a, b),
{
    a.0 < b.0 || (a.0 == b.0 && a.1 <= b.1)
}

/// Items of keyed entries.
pub open spec fn items_of<T>(s: Seq<((u64, u64), T)>) -> Seq<T> {
    s.map_values(|e: ((u64, u64), T)| e.1)
}

/// A declared entry with an explicit identity by which lists are ordered.
pub trait Keyed: Sized {
    /// The identity as a sort key.
    spec fn sort_key(&self) -> (u64, u64);

    /// The identity as a sort key.
    fn key(&self) -> (k: (u64, u64))
        ensures
            k == self.sort_key(),
    ;
}

/// The entries paired with their identities.
pub open spec fn keyed<T: Keyed>(s: Seq<T>) -> Seq<((u64, u64), T)> {
    s.map_values(|x: T| (x.sort_key(), x))
}

/// The list ordered by identity, entries with equal identities in list order.
pub open spec fn ordered<T: Keyed>(s: Seq<T>) -> Seq<T> {
    items_of(sorted_by_key(keyed(s)))
}

/// Sort a list by identity (stable).
pub fn sort_list<T: Keyed>(items: Vec<T>) -> (out: Vec<T>)
    ensures
        out@ == ordered(items@),
{
    let ghost original = items@;
    let mut pairs: Vec<((u64, u64), T)> = Vec::new();
    let mut rest = items;
    let mut i: usize = 0;
    let total: usize = rest.len();
    while rest.len() > 0
        invariant
            i + rest@.len() == original.len(),
            original.len() == total,
            rest@ == original.subrange(i as int, original.len() as int),
            pairs@ == keyed(original).subrange(0, i as int),
        decreases rest@.len(),
    {
        let item = rest.remove(0);
        let k = item.key();
        proof {
            assert(item == original[i as int]);
        }
        pairs.push((k, item));
        proof {
            assert(keyed(original).subrange(0, i + 1) =~= keyed(original).subrange(0, i as int).push((k, item)));
            assert(rest@ =~= original.subrange(i + 1, original.len() as int));
        }
        i += 1;
    }
    proof {
        assert(keyed(original).subrange(0, i as int) =~= keyed(original));
    }
    let sorted = sort_by_key(pairs);
    let ghost sorted_view = sorted@;
    let mut out: Vec<T> = Vec::new();
    let mut source = sorted;
    let mut j: usize = 0;
    let count: usize = source.len();
    while source.len() > 0
        invariant
            j + source@.len() == sorted_view.len(),
            sorted_view.len() == count,
            source@ == sorted_view.subrange(j as int, sorted_view.len() as int),
            out@ == items_of(sorted_view.subrange(0, j as int)),
        decreases source@.len(),
    {
        let entry = source.remove(0);
        proof {
            assert(entry == sorted_view[j as int]);
        }
        out.push(entry.1);
        proof {
            assert(items_of(sorted_view.subrange(0, j + 1)) =~= items_of(sorted_view.subrange(0, j as int)).push(entry.1));
            assert(source@ =~= sorted_view.subrange(j + 1, sorted_view.len() as int));
        }
        j += 1;
    }
    proof {
        assert(sorted_view.subrange(0, j as int) =~= sorted_view);
    }
    out
}

impl Keyed for ResourceDto {
    open spec fn sort_key(&self) -> (u64, u64) {
        (self.id, 0)
    }

    fn key(&self) -> (k: (u64, u64)) {
        (self.id, 0)
    }
}

impl Keyed for InstrumentDto {
    open spec fn sort_key(&self) -> (u64, u64) {
        (self.spec_id(), 0)
    }

    fn key(&self) -> (k: (u64, u64)) {
        (self.id(), 0)
    }
}

impl Keyed for ManagedComponentDto {
    open spec fn sort_key(&self) -> (u64, u64) {
        (self.id, 0)
    }

    fn key(&self) -> (k: (u64, u64)) {
        (self.id, 0)
    }
}

impl Keyed for ReferenceDto {
    open spec fn sort_key(&self) -> (u64, u64) {
        (self.id, 0)
    }

    fn key(&self) -> (k: (u64, u64)) {
        (self.id, 0)
    }
}

impl Keyed for ControllerDto {
    open spec fn sort_key(&self) -> (u64, u64) {
        (self.id, 0)
    }

    fn key(&self) -> (k: (u64, u64)) {
        (self.id, 0)
    }
}

impl Keyed for SafeProfileDto {
    open spec fn sort_key(&self) -> (u64, u64) {
        (self.instrument_id, self.parameter_id)
    }

    fn key(&self) -> (k: (u64, u64)) {
        (self.instrument_id, self.parameter_id)
    }
}

/// Canonical order is a reordering by identity: identities never decrease along
/// the result, and the result holds exactly the entries of the input, each as
/// often as the input does.
pub proof fn law_canonical_order_sorts_by_identity<T: Keyed>(s: Seq<T>)
    ensures
        ordered(s).len() == s.len(),
        keys_ordered(keyed(ordered(s))),
        keyed(ordered(s)).to_multiset() == keyed(s).to_multiset(),
{
    let sorted = sorted_by_key(keyed(s));
    lemma_sorted_by_key(keyed(s));
    assert forall|i: int| 0 <= i < sorted.len() implies #[trigger] sorted[i].0 == sorted[i].1.sort_key() by {
        vstd::seq_lib::to_multiset_contains(sorted, sorted[i]);
        vstd::seq_lib::to_multiset_contains(keyed(s), sorted[i]);
        assert(sorted.contains(sorted[i]));
        let j = choose|j: int| 0 <= j < keyed(s).len() && keyed(s)[j] == sorted[i];
        assert(keyed(s)[j] == (s[j].sort_key(), s[j]));
    }
    let items = items_of(sorted);
    assert(ordered(s) == items);
    assert forall|i: int| 0 <= i < sorted.len() implies #[trigger] keyed(items)[i] == sorted[i] by {
        assert(items[i] == sorted[i].1);
        assert(keyed(items)[i] == (items[i].sort_key(), items[i]));
    }
    assert(keyed(items) =~= sorted);
}

/// No two entries share an identity.
pub open spec fn distinct_keys<T: Keyed>(s: Seq<T>) -> bool {
    forall|i: int, j: int| 0 <= i < j < s.len() ==> (#[trigger] s[i]).sort_key() != (#[trigger] s[j]).sort_key()
}

/// No two keyed entries share a key.
pub open spec fn strictly_keyed<T>(r: Seq<((u64, u64), T)>) -> bool {
    forall|a: int, b: int| 0 <= a < r.len() && 0 <= b < r.len() && a != b ==> (#[trigger] r[a]).0 != (#[trigger] r[b]).0
}

proof fn lemma_keyed_contains<T: Keyed>(s: Seq<T>, e: ((u64, u64), T))
    ensures
        keyed(s).contains(e) ==> exists|p: int| 0 <= p < s.len() && e == (s[p].sort_key(), #[trigger] s[p]),
        (exists|p: int| 0 <= p < s.len() && e == (s[p].sort_key(), #[trigger] s[p])) ==> keyed(s).contains(e),
{
    if keyed(s).contains(e) {
        let p = choose|p: int| 0 <= p < keyed(s).len() && keyed(s)[p] == e;
        assert(keyed(s)[p] == (s[p].sort_key(), s[p]));
    }
    if exists|p: int| 0 <= p < s.len() && e == (s[p].sort_key(), #[trigger] s[p]) {
        let p = choose|p: int| 0 <= p < s.len() && e == (s[p].sort_key(), #[trigger] s[p]);
        assert(keyed(s)[p] == e);
    }
}

/// Sorting entries with distinct identities keeps exactly those entries, once each,
/// with strictly increasing keys.
proof fn lemma_sorted_distinct<T: Keyed>(s: Seq<T>)
    requires
        distinct_keys(s),
    ensures
        sorted_by_key(keyed(s)).len() == s.len(),
        keys_ordered(sorted_by_key(keyed(s))),
        strictly_keyed(sorted_by_key(keyed(s))),
        forall|e: ((u64, u64), T)| #[trigger] sorted_by_key(keyed(s)).contains(e) <==> keyed(s).contains(e),
{
    let k = keyed(s);
    let r = sorted_by_key(k);
    lemma_sorted_by_key(k);
    assert forall|e: ((u64, u64), T)| #[trigger] r.contains(e) <==> k.contains(e) by {
        vstd::seq_lib::to_multiset_contains(r, e);
        vstd::seq_lib::to_multiset_contains(k, e);
    }
    assert(k.no_duplicates()) by {
        assert forall|i: int, j: int| 0 <= i < k.len() && 0 <= j < k.len() && i != j implies k[i] != k[j] by {
            assert(k[i] == (s[i].sort_key(), s[i]));
            assert(k[j] == (s[j].sort_key(), s[j]));
            if i < j {
                assert(s[i].sort_key() != s[j].sort_key());
            } else {
                assert(s[j].sort_key() != s[i].sort_key());
            }
        }
    }
    k.lemma_multiset_has_no_duplicates();
    r.lemma_multiset_has_no_duplicates_conv();
    assert forall|a: int, b: int| 0 <= a < r.len() && 0 <= b < r.len() && a != b implies (#[trigger] r[a]).0 != (#[trigger] r[b]).0 by {
        assert(r.contains(r[a]));
        assert(r.contains(r[b]));
        lemma_keyed_contains(s, r[a]);
        lemma_keyed_contains(s, r[b]);
        let p = choose|p: int| 0 <= p < s.len() && r[a] == (s[p].sort_key(), #[trigger] s[p]);
        let q = choose|q: int| 0 <= q < s.len() && r[b] == (s[q].sort_key(), #[trigger] s[q]);
        if r[a].0 == r[b].0 {
            if p < q {
                assert(s[p].sort_key() != s[q].sort_key());
            } else if q < p {
                assert(s[q].sort_key() != s[p].sort_key());
            }
            assert(r[a] == r[b]);
        }
    }
}

/// Two strictly keyed, key-ordered sequences of the same length holding the same
/// entries agree on every position before `i`.
proof fn lemma_same_prefix<T>(r1: Seq<((u64, u64), T)>, r2: Seq<((u64, u64), T)>, i: int)
    requires
        r1.len() == r2.len(),
        0 <= i <= r1.len(),
        keys_ordered(r1),
        keys_ordered(r2),
        strictly_keyed(r1),
        strictly_keyed(r2),
        forall|e: ((u64, u64), T)| r1.contains(e) <==> r2.contains(e),
    ensures
        forall|j: int| 0 <= j < i ==> r1[j] == r2[j],
    decreases i,
{
    if i > 0 {
        lemma_same_prefix(r1, r2, i - 1);
        let n = i - 1;
        let x = r1[n];
        let y = r2[n];
        assert(r1.contains(x));
        assert(r2.contains(y));
        let m = choose|m: int| 0 <= m < r2.len() && r2[m] == x;
        let m2 = choose|m: int| 0 <= m < r1.len() && r1[m] == y;
        if m < n {
            assert(r1[m] == r2[m]);
            assert(r1[m].0 == r1[n].0);
        }
        if m2 < n {
            assert(r2[m2] == r1[m2]);
            assert(r2[m2].0 == r2[n].0);
        }
        if m > n {
            assert(key_le(r2[n].0, r2[m].0));
        }
        if m2 > n {
            assert(key_le(r1[n].0, r1[m2].0));
        }
        assert(x.0 == y.0);
        if m != n {
            assert(r2[m].0 == r2[n].0);
        }
    }
}

/// Canonical order is deterministic: two lists holding the same entries, each
/// identity once, in any order, have the same canonical order.
pub proof fn law_canonical_order_is_deterministic<T: Keyed>(s1: Seq<T>, s2: Seq<T>)
    requires
        s1.to_multiset() == s2.to_multiset(),
        distinct_keys(s1),
        distinct_keys(s2),
    ensures
        ordered(s1) == ordered(s2),
{
    let r1 = sorted_by_key(keyed(s1));
    let r2 = sorted_by_key(keyed(s2));
    lemma_sorted_distinct(s1);
    lemma_sorted_distinct(s2);
    vstd::seq_lib::to_multiset_len(s1);
    vstd::seq_lib::to_multiset_len(s2);
    assert forall|e: ((u64, u64), T)| r1.contains(e) <==> r2.contains(e) by {
        lemma_keyed_contains(s1, e);
        lemma_keyed_contains(s2, e);
        vstd::seq_lib::to_multiset_contains(s1, e.1);
        vstd::seq_lib::to_multiset_contains(s2, e.1);
        if exists|p: int| 0 <= p < s1.len() && e == (s1[p].sort_key(), #[trigger] s1[p]) {
            let p = choose|p: int| 0 <= p < s1.len() && e == (s1[p].sort_key(), #[trigger] s1[p]);
            assert(s1.contains(s1[p]));
            let q = choose|q: int| 0 <= q < s2.len() && s2[q] == e.1;
            assert(e == (s2[q].sort_key(), s2[q]));
        }
        if exists|p: int| 0 <= p < s2.len() && e == (s2[p].sort_key(), #[trigger] s2[p]) {
            let p = choose|p: int| 0 <= p < s2.len() && e == (s2[p].sort_key(), #[trigger] s2[p]);
            assert(s2.contains(s2[p]));
            let q = choose|q: int| 0 <= q < s1.len() && s1[q] == e.1;
            assert(e == (s1[q].sort_key(), s1[q]));
        }
    }
    lemma_same_prefix(r1, r2, r1.len() as int);
    assert(r1 =~= r2);
}

/// Put every list of the document in canonical identity order.
pub fn canonical_order(dto: DeploymentDto) -> (out: DeploymentDto)
    ensures
        out.schema_version == dto.schema_version,
        out.runtime == dto.runtime,
        out.server == dto.server,
        out.recording == dto.recording,
        out.resources@ == ordered(dto.resources@),
        out.instruments@ == ordered(dto.instruments@),
        out.managed_components@ == ordered(dto.managed_components@),
        out.references@ == ordered(dto.references@),
        out.controllers@ == ordered(dto.controllers@),
        out.safe_profiles@ == ordered(dto.safe_profiles@),
{
    let DeploymentDto {
        schema_version,
        runtime,
        server,
        recording,
        resources,
        instruments,
        managed_components,
        references,
        controllers,
        safe_profiles,
    } = dto;
    DeploymentDto {
        schema_version,
        runtime,
        server,
        recording,
        resources: sort_list(resources),
        instruments: sort_list(instruments),
        managed_components: sort_list(managed_components),
        references: sort_list(references),
        controllers: sort_list(controllers),
        safe_profiles: sort_list(safe_profiles),
    }
}

} // verus!
