//! The player registry: the single source of truth for who is online. Maps a
//! connection entity to its full 128-bit identifier and display name, with
//! per-key insert, point lookup, removal, and a full-snapshot walk. An entry
//! is inserted whole, so no reader ever sees a half-written pair.

use vstd::prelude::*;

verus! {

use crate::wire::wf_string;

/// One registry row, as contracts see it.
pub ghost struct RegEntryV {
    pub entity: u64,
    pub uuid: u128,
    pub name: Seq<char>,
}

pub open spec fn contains_entity(s: Seq<RegEntryV>, e: u64) -> bool {
    exists|i: int| 0 <= i < s.len() && s[i].entity == e
}

/// The position of entity `e`; meaningful only under distinct entities.
pub open spec fn entity_index(s: Seq<RegEntryV>, e: u64) -> int {
    choose|i: int| 0 <= i < s.len() && s[i].entity == e
}

pub open spec fn distinct_reg_entities(s: Seq<RegEntryV>) -> bool {
    forall|i: int, j: int| 0 <= i < j < s.len() ==> s[i].entity != s[j].entity
}

pub open spec fn wf_reg_names(s: Seq<RegEntryV>) -> bool {
    forall|i: int| 0 <= i < s.len() ==> wf_string(#[trigger] s[i].name)
}

pub struct PlayerRegistry {
    entries: Vec<(u64, (u128, String))>,
}

impl View for PlayerRegistry {
    type V = Seq<RegEntryV>;

    closed spec fn view(&self) -> Seq<RegEntryV> {
        self.entries@.map_values(
            |p: (u64, (u128, String))|
                RegEntryV { entity: p.0, uuid: p.1.0, name: p.1.1@ },
        )
    }
}

impl PlayerRegistry {
    /// Every entity occupies at most one row, and every stored name fits the
    /// wire's string field.
    pub open spec fn wf(&self) -> bool {
        &&& distinct_reg_entities(self@)
        &&& wf_reg_names(self@)
    }

    pub fn new() -> (r: PlayerRegistry)
        ensures
            r@ == Seq::<RegEntryV>::empty(),
            r.wf(),
    {
        let r = PlayerRegistry { entries: Vec::new() };
        proof {
            assert(r@ =~= Seq::<RegEntryV>::empty());
        }
        r
    }

    pub fn len(&self) -> (r: usize)
        ensures
            r == self@.len(),
    {
        self.entries.len()
    }

    /// Whether `entity` is registered as online.
    pub fn is_connected(&self, entity: u64) -> (r: bool)
        ensures
            r == contains_entity(self@, entity),
    {
        let n = self.entries.len();
        let mut i: usize = 0;
        while i < n
            invariant
                n == self.entries@.len(),
                n == self@.len(),
                i <= n,
                forall|j: int| 0 <= j < i ==> self@[j].entity != entity,
                forall|j: int|
                    0 <= j < n ==> (#[trigger] self@[j]).entity == self.entries@[j].0,
            decreases n - i,
        {
            if self.entries[i].0 == entity {
                assert(self@[i as int].entity == entity);
                return true;
            }
            i = i + 1;
        }
        false
    }

    /// Registers `entity` under the pair, overwriting an earlier row whole.
    /// The name must fit the wire's string field — `check_wire_string`
    /// decides the bound — so that every registered player can travel in a
    /// roster entry.
    pub fn insert(&mut self, entity: u64, uuid: u128, name: String)
        requires
            old(self).wf(),
            wf_string(name@),
        ensures
            final(self).wf(),
            !contains_entity(old(self)@, entity) ==> final(self)@ == old(self)@.push(
                RegEntryV { entity, uuid, name: name@ },
            ),
            contains_entity(old(self)@, entity) ==> final(self)@ == old(self)@.update(
                entity_index(old(self)@, entity),
                RegEntryV { entity, uuid, name: name@ },
            ),
    {
        let n = self.entries.len();
        let mut i: usize = 0;
        while i < n
            invariant
                old(self).wf(),
                self == old(self),
                wf_string(name@),
                n == self.entries@.len(),
                i <= n,
                forall|j: int| 0 <= j < i ==> self@[j].entity != entity,
                forall|j: int|
                    0 <= j < n ==> (#[trigger] self@[j]).entity == self.entries@[j].0,
            decreases n - i,
        {
            if self.entries[i].0 == entity {
                assert(self@[i as int].entity == entity);
                self.entries.set(i, (entity, (uuid, name)));
                proof {
                    let k = entity_index(old(self)@, entity);
                    assert(old(self)@[k].entity == entity);
                    assert(k == i as int);
                    assert(final(self)@ =~= old(self)@.update(
                        k,
                        RegEntryV { entity, uuid, name: name@ },
                    ));
                    let s0 = old(self)@;
                    let s1 = final(self)@;
                    assert(forall|j: int|
                        0 <= j < s1.len() ==> #[trigger] s1[j].entity == s0[j].entity);
                    assert forall|j: int| 0 <= j < s1.len() implies wf_string(
                        #[trigger] s1[j].name,
                    ) by {
                        if j != k {
                            assert(s1[j] == s0[j]);
                        }
                    };
                }
                return ;
            }
            i = i + 1;
        }
        self.entries.push((entity, (uuid, name)));
        proof {
            assert(final(self)@ =~= old(self)@.push(RegEntryV { entity, uuid, name: name@ }));
        }
    }

    /// Looks up the registered pair of `entity`, handing back a copy.
    pub fn get(&self, entity: u64) -> (r: Option<(u128, String)>)
        requires
            self.wf(),
        ensures
            r is Some <==> contains_entity(self@, entity),
            r matches Some(p) ==> {
                let e = self@[entity_index(self@, entity)];
                p.0 == e.uuid && p.1@ == e.name
            },
    {
        let n = self.entries.len();
        let mut i: usize = 0;
        while i < n
            invariant
                self.wf(),
                n == self.entries@.len(),
                i <= n,
                forall|j: int| 0 <= j < i ==> self@[j].entity != entity,
                forall|j: int|
                    0 <= j < n ==> #[trigger] self@[j] == (RegEntryV {
                        entity: self.entries@[j].0,
                        uuid: self.entries@[j].1.0,
                        name: self.entries@[j].1.1@,
                    }),
            decreases n - i,
        {
            if self.entries[i].0 == entity {
                proof {
                    let k = entity_index(self@, entity);
                    assert(self@[i as int].entity == entity);
                    assert(self@[k].entity == entity);
                    assert(k == i as int);
                }
                return Some((self.entries[i].1.0, self.entries[i].1.1.clone()));
            }
            i = i + 1;
        }
        None
    }

    /// Unregisters `entity`; a no-op when it is not registered.
    pub fn remove(&mut self, entity: u64)
        requires
            old(self).wf(),
        ensures
            final(self).wf(),
            contains_entity(old(self)@, entity) ==> final(self)@ == old(self)@.remove(
                entity_index(old(self)@, entity),
            ),
            !contains_entity(old(self)@, entity) ==> final(self)@ == old(self)@,
            !contains_entity(final(self)@, entity),
    {
        let n = self.entries.len();
        let mut i: usize = 0;
        while i < n
            invariant
                old(self).wf(),
                self == old(self),
                n == self.entries@.len(),
                i <= n,
                forall|j: int| 0 <= j < i ==> self@[j].entity != entity,
                forall|j: int|
                    0 <= j < n ==> (#[trigger] self@[j]).entity == self.entries@[j].0,
            decreases n - i,
        {
            if self.entries[i].0 == entity {
                assert(self@[i as int].entity == entity);
                self.entries.remove(i);
                proof {
                    let k = entity_index(old(self)@, entity);
                    assert(old(self)@[k].entity == entity);
                    assert(k == i as int);
                    let s1 = final(self)@;
                    let s0 = old(self)@;
                    assert(s1 =~= s0.remove(i as int));
                    assert forall|j: int| 0 <= j < s1.len() implies !(#[trigger] s1[j].entity
                        == entity) by {
                        if j < i as int {
                        } else {
                            assert(s1[j] == s0[j + 1]);
                        }
                    };
                    assert forall|i2: int| 0 <= i2 < s1.len() implies wf_string(
                        #[trigger] s1[i2].name,
                    ) by {
                        if i2 < i as int {
                        } else {
                            assert(s1[i2] == s0[i2 + 1]);
                        }
                    };
                }
                return ;
            }
            i = i + 1;
        }
    }

    /// A full copy of the registry, row for row, in table order. Every row is
    /// whole: its identifier and name are exactly the registered ones.
    pub fn snapshot(&self) -> (r: Vec<(u64, (u128, String))>)
        ensures
            r@.len() == self@.len(),
            forall|i: int|
                0 <= i < r@.len() ==> #[trigger] self@[i] == (RegEntryV {
                    entity: r@[i].0,
                    uuid: r@[i].1.0,
                    name: r@[i].1.1@,
                }),
    {
        let n = self.entries.len();
        let mut out: Vec<(u64, (u128, String))> = Vec::new();
        let mut i: usize = 0;
        while i < n
            invariant
                n == self.entries@.len(),
                i <= n,
                out@.len() == i,
                forall|j: int|
                    0 <= j < n ==> #[trigger] self@[j] == (RegEntryV {
                        entity: self.entries@[j].0,
                        uuid: self.entries@[j].1.0,
                        name: self.entries@[j].1.1@,
                    }),
                forall|j: int|
                    0 <= j < i ==> #[trigger] self@[j] == (RegEntryV {
                        entity: out@[j].0,
                        uuid: out@[j].1.0,
                        name: out@[j].1.1@,
                    }),
            decreases n - i,
        {
            let e = &self.entries[i];
            out.push((e.0, (e.1.0, e.1.1.clone())));
            i = i + 1;
        }
        out
    }
}

/// The registry after a batch of single-row inserts of fresh entities.
pub open spec fn insert_all(s: Seq<RegEntryV>, news: Seq<RegEntryV>) -> Seq<RegEntryV>
    decreases news.len(),
{
    if news.len() == 0 {
        s
    } else {
        insert_all(s.push(news[0]), news.drop_first())
    }
}

/// Inserts of distinct, previously unregistered entities always commute into
/// a snapshot of full rows: after the batch, the registry holds exactly the
/// old rows followed by the new ones, its size grew by the number of inserts,
/// and every new row carries its complete identifier and name. No interleaved
/// reader order can observe a partial row, because each insert adds its row
/// whole.
pub proof fn lemma_distinct_inserts_snapshot(s: Seq<RegEntryV>, news: Seq<RegEntryV>)
    requires
        forall|i: int, j: int| 0 <= i < j < news.len() ==> news[i].entity != news[j].entity,
        forall|i: int| 0 <= i < news.len() ==> !contains_entity(s, #[trigger] news[i].entity),
    ensures
        insert_all(s, news) == s + news,
        insert_all(s, news).len() == s.len() + news.len(),
        forall|i: int|
            0 <= i < news.len() ==> #[trigger] insert_all(s, news)[s.len() + i] == news[i],
    decreases news.len(),
{
    if news.len() == 0 {
        assert(insert_all(s, news) =~= s + news);
    } else {
        let s1 = s.push(news[0]);
        assert(forall|i: int|
            0 <= i < news.drop_first().len() ==> !contains_entity(
                s,
                #[trigger] news.drop_first()[i].entity,
            ));
        assert forall|i: int| 0 <= i < news.drop_first().len() implies !contains_entity(
            s1,
            #[trigger] news.drop_first()[i].entity,
        ) by {
            let e = news.drop_first()[i].entity;
            assert(news[i + 1].entity == e);
            assert(news[0].entity != e);
            if contains_entity(s1, e) {
                let j = choose|j: int| 0 <= j < s1.len() && s1[j].entity == e;
                if j < s.len() {
                    assert(contains_entity(s, e));
                }
            }
        };
        lemma_distinct_inserts_snapshot(s1, news.drop_first());
        assert(s1 + news.drop_first() =~= s + news);
    }
}

} // verus!
