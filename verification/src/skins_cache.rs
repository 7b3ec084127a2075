//! Cosmetic metadata cache: a read-mostly lookup from a compact player
//! identifier to optional skin texture data. Entries persist until cleared or
//! overwritten. The cache is process-scoped state, constructed at startup and
//! passed by reference to the components that read it.

use vstd::prelude::*;

verus! {

use crate::wire::wf_string;

/// One player's cosmetic metadata: a texture blob and an optional signature.
#[derive(Debug)]
pub struct SkinProperties {
    pub name: String,
    pub value: String,
    pub signature: Option<String>,
}

pub ghost struct SkinPropertiesV {
    pub name: Seq<char>,
    pub value: Seq<char>,
    pub signature: Option<Seq<char>>,
}

impl View for SkinProperties {
    type V = SkinPropertiesV;

    open spec fn view(&self) -> SkinPropertiesV {
        SkinPropertiesV {
            name: self.name@,
            value: self.value@,
            signature: match self.signature {
                Some(s) => Some(s@),
                None => None,
            },
        }
    }
}

/// The stored strings fit the wire's string fields, so a cached skin can
/// always be carried in a roster entry.
pub open spec fn wf_skin(p: SkinPropertiesV) -> bool {
    &&& wf_string(p.value)
    &&& match p.signature {
        Some(s) => wf_string(s),
        None => true,
    }
}

/// The map a sequence of cache slots stands for; a later slot with the same
/// key wins.
pub open spec fn entries_map(s: Seq<(i32, SkinProperties)>) -> Map<i32, SkinPropertiesV>
    decreases s.len(),
{
    if s.len() == 0 {
        Map::empty()
    } else {
        entries_map(s.drop_last()).insert(s.last().0, s.last().1@)
    }
}

pub struct SkinCache {
    entries: Vec<(i32, SkinProperties)>,
}

impl View for SkinCache {
    type V = Map<i32, SkinPropertiesV>;

    closed spec fn view(&self) -> Map<i32, SkinPropertiesV> {
        entries_map(self.entries@)
    }
}

proof fn lemma_entries_map_dom(s: Seq<(i32, SkinProperties)>, k: i32)
    ensures
        entries_map(s).contains_key(k) <==> exists|j: int| 0 <= j < s.len() && s[j].0 == k,
    decreases s.len(),
{
    if s.len() > 0 {
        lemma_entries_map_dom(s.drop_last(), k);
        if entries_map(s).contains_key(k) && s.last().0 != k {
            let j = choose|j: int| 0 <= j < s.len() - 1 && s.drop_last()[j].0 == k;
            assert(s[j].0 == k);
        }
        if exists|j: int| 0 <= j < s.len() && s[j].0 == k {
            let j = choose|j: int| 0 <= j < s.len() && s[j].0 == k;
            if j < s.len() - 1 {
                assert(s.drop_last()[j].0 == k);
            }
        }
    }
}

proof fn lemma_entries_map_at(s: Seq<(i32, SkinProperties)>, j: int)
    requires
        0 <= j < s.len(),
        forall|m: int| j < m < s.len() ==> s[m].0 != s[j].0,
    ensures
        entries_map(s).contains_key(s[j].0),
        entries_map(s)[s[j].0] == s[j].1@,
    decreases s.len(),
{
    if j == s.len() - 1 {
        lemma_entries_map_dom(s, s[j].0);
    } else {
        assert(forall|m: int| j < m < s.drop_last().len() ==> s.drop_last()[m].0 != s.drop_last()[
            j
        ].0);
        lemma_entries_map_at(s.drop_last(), j);
    }
}

impl SkinCache {
    /// Every key occupies at most one slot; constructors establish this and
    /// every operation preserves it.
    pub closed spec fn wf(&self) -> bool {
        &&& forall|i: int, j: int|
            0 <= i < j < self.entries@.len() ==> self.entries@[i].0 != self.entries@[j].0
        &&& forall|i: int| 0 <= i < self.entries@.len() ==> wf_skin(#[trigger] self.entries@[i].1@)
    }

    pub fn new() -> (r: SkinCache)
        ensures
            r@ == Map::<i32, SkinPropertiesV>::empty(),
            r.wf(),
    {
        SkinCache { entries: Vec::new() }
    }
}

/// Stores `props` under `short_uuid`, overwriting any earlier entry. The
/// stored strings must fit the wire's string field, so that a cached skin can
/// always travel in a roster entry; `check_wire_string` decides the bound at
/// run time.
pub fn insert_skin(cache: &mut SkinCache, short_uuid: i32, props: SkinProperties)
    requires
        old(cache).wf(),
        wf_skin(props@),
    ensures
        final(cache)@ == old(cache)@.insert(short_uuid, props@),
        final(cache).wf(),
{
    let ghost s0 = cache.entries@;
    let ghost pv = props@;
    let n = cache.entries.len();
    let mut i: usize = 0;
    while i < n
        invariant
            n == cache.entries@.len(),
            cache.entries@ == s0,
            s0 == old(cache).entries@,
            old(cache).wf(),
            wf_skin(pv),
            pv == props@,
            i <= n,
            forall|j: int| 0 <= j < i ==> s0[j].0 != short_uuid,
        decreases n - i,
    {
        if cache.entries[i].0 == short_uuid {
            let last = cache.entries.len() - 1;
            // replace the slot: move the last slot over it, drop the tail slot,
            // and put the new pair at the end
            cache.entries.swap_remove(i);
            cache.entries.push((short_uuid, props));
            proof {
                let s1 = cache.entries@;
                assert(s1.drop_last() =~= s0.update(i as int, s0.last()).drop_last());
                assert(forall|a: int, b: int| 0 <= a < b < s0.len() ==> s0[a].0 != s0[b].0);
                lemma_swap_replace(s0, i as int, s1, short_uuid);
                assert(s1.last().1@ == pv);
                assert forall|j: int| 0 <= j < s1.len() implies wf_skin(
                    #[trigger] s1[j].1@,
                ) by {
                    if j < s1.len() - 1 {
                        assert(s1[j] == s1.drop_last()[j]);
                        assert(s1[j] == s0.update(i as int, s0.last())[j]);
                        if j == i as int {
                            assert(s1[j] == s0[s0.len() - 1]);
                        } else {
                            assert(s1[j] == s0[j]);
                        }
                    }
                };
            }
            return ;
        }
        i = i + 1;
    }
    cache.entries.push((short_uuid, props));
    proof {
        assert(cache.entries@.drop_last() =~= s0);
        lemma_entries_map_dom(s0, short_uuid);
    }
}

proof fn lemma_swap_replace(s0: Seq<(i32, SkinProperties)>, i: int, s1: Seq<(i32, SkinProperties)>, k: i32)
    requires
        0 <= i < s0.len(),
        s0[i].0 == k,
        forall|a: int, b: int| 0 <= a < b < s0.len() ==> s0[a].0 != s0[b].0,
        s1.len() == s0.len(),
        s1.last().0 == k,
        s1.drop_last() =~= s0.update(i, s0.last()).drop_last(),
    ensures
        entries_map(s1) == entries_map(s0).insert(k, s1.last().1@),
        forall|a: int, b: int| 0 <= a < b < s1.len() ==> s1[a].0 != s1[b].0,
{
    let n = s0.len();
    let mid = s0.update(i, s0.last()).drop_last();
    // each non-final slot of s1 is a slot of s0: slot i now holds what the
    // final slot of s0 held, every other one is unchanged
    assert forall|j: int| 0 <= j < n - 1 implies #[trigger] s1[j] == (if j == i {
        s0[n - 1]
    } else {
        s0[j]
    }) by {
        assert(s1[j] == s1.drop_last()[j]);
        assert(s0.update(i, s0.last()).drop_last()[j] == s0.update(i, s0.last())[j]);
    };
    assert forall|q: i32| #[trigger] entries_map(s1).contains_key(q)
        <==> entries_map(s0).insert(k, s1.last().1@).contains_key(q) by {
        lemma_entries_map_dom(s1, q);
        lemma_entries_map_dom(s0, q);
        if q != k {
            if exists|j: int| 0 <= j < s1.len() && s1[j].0 == q {
                let j = choose|j: int| 0 <= j < s1.len() && s1[j].0 == q;
                assert(j < n - 1);
                if j == i {
                    assert(s0[n - 1].0 == q);
                } else {
                    assert(s0[j].0 == q);
                }
            }
            if exists|j: int| 0 <= j < s0.len() && s0[j].0 == q {
                let j = choose|j: int| 0 <= j < s0.len() && s0[j].0 == q;
                assert(j != i);
                if j < n - 1 {
                    assert(s1[j].0 == q);
                } else {
                    assert(i < n - 1);
                    assert(s1[i].0 == q);
                }
            }
        }
    };
    assert forall|q: i32| entries_map(s1).contains_key(q) implies #[trigger] entries_map(s1)[q]
        == entries_map(s0).insert(k, s1.last().1@)[q] by {
        if q == k {
            lemma_entries_map_at(s1, s1.len() - 1);
        } else {
            lemma_entries_map_dom(s1, q);
            let j = choose|j: int| 0 <= j < s1.len() && s1[j].0 == q;
            assert(j < n - 1);
            assert(forall|m: int| j < m < s1.len() ==> s1[m].0 != q);
            lemma_entries_map_at(s1, j);
            if j == i {
                assert(s0[n - 1].0 == q);
                lemma_entries_map_at(s0, n - 1);
            } else {
                assert(s0[j].0 == q);
                assert(forall|m: int| j < m < s0.len() ==> s0[m].0 != q);
                lemma_entries_map_at(s0, j);
            }
        }
    };
    assert(entries_map(s1) =~= entries_map(s0).insert(k, s1.last().1@));
    assert forall|a: int, b: int| 0 <= a < b < s1.len() implies s1[a].0 != s1[b].0 by {
        if b < n - 1 {
        } else {
            assert(s1[b].0 == k);
            if a == i {
                assert(i < n - 1);
                assert(s0[n - 1].0 != k);
            } else {
                assert(s0[a].0 != k);
            }
        }
    };
}

/// Looks up `short_uuid`, handing back a copy so concurrent readers never
/// hold a reference into the cache.
pub fn get_skin(cache: &SkinCache, short_uuid: i32) -> (r: Option<SkinProperties>)
    requires
        cache.wf(),
    ensures
        r is Some <==> cache@.contains_key(short_uuid),
        r matches Some(p) ==> p@ == cache@[short_uuid] && wf_skin(p@),
{
    proof {
        lemma_entries_map_dom(cache.entries@, short_uuid);
    }
    let n = cache.entries.len();
    let mut i: usize = 0;
    while i < n
        invariant
            n == cache.entries@.len(),
            i <= n,
            forall|j: int| 0 <= j < i ==> cache.entries@[j].0 != short_uuid,
            cache@ == entries_map(cache.entries@),
            cache.wf(),
        decreases n - i,
    {
        if cache.entries[i].0 == short_uuid {
            proof {
                lemma_entries_map_at(cache.entries@, i as int);
            }
            let e = &cache.entries[i].1;
            let copy = SkinProperties {
                name: e.name.clone(),
                value: e.value.clone(),
                signature: match &e.signature {
                    Some(s) => Some(s.clone()),
                    None => None,
                },
            };
            return Some(copy);
        }
        i = i + 1;
    }
    proof {
        lemma_entries_map_dom(cache.entries@, short_uuid);
    }
    None
}

/// Empties the cache.
pub fn clear_cache(cache: &mut SkinCache)
    ensures
        final(cache)@ == Map::<i32, SkinPropertiesV>::empty(),
        final(cache).wf(),
{
    cache.entries.clear();
}

} // verus!
