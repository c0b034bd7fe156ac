//! The resource registry: the bijection between local asset identifiers and
//! bridge resource identifiers.
//!
//! The registry is a list of mapping entries with both columns unique, so at
//! most one resource identifier is bound to a given asset and vice versa.
//! Registration never overwrites: a pair with either side already bound is
//! rejected, and removal of an unknown resource is a no-op.

use vstd::prelude::*;

use crate::types::{AssetId, OriginKind, ResourceId};

verus! {

/// One registered pair, together with the custody discipline computed once,
/// at registration time, from the resource identifier's chain tag.
#[derive(Clone, Copy, Debug)]
pub struct MappingEntry {
    pub asset_id: AssetId,
    pub resource_id: ResourceId,
    pub origin: OriginKind,
}

/// Whether some entry binds the asset identifier.
pub open spec fn has_asset(s: Seq<MappingEntry>, asset_id: AssetId) -> bool {
    exists|i: int| 0 <= i < s.len() && s[i].asset_id == asset_id
}

/// Whether some entry binds the resource identifier.
pub open spec fn has_resource(s: Seq<MappingEntry>, rid: Seq<u8>) -> bool {
    exists|i: int| 0 <= i < s.len() && s[i].resource_id@ == rid
}

/// The resource identifier bound to an asset, if any.
pub open spec fn spec_resource_of(s: Seq<MappingEntry>, asset_id: AssetId) -> Option<Seq<u8>> {
    if has_asset(s, asset_id) {
        let i = choose|i: int| 0 <= i < s.len() && s[i].asset_id == asset_id;
        Some(s[i].resource_id@)
    } else {
        None
    }
}

/// The asset identifier bound to a resource, if any.
pub open spec fn spec_asset_of(s: Seq<MappingEntry>, rid: Seq<u8>) -> Option<AssetId> {
    if has_resource(s, rid) {
        let i = choose|i: int| 0 <= i < s.len() && s[i].resource_id@ == rid;
        Some(s[i].asset_id)
    } else {
        None
    }
}

/// The stored origin kind of the entry bound to a resource, if any.
pub open spec fn spec_origin_of(s: Seq<MappingEntry>, rid: Seq<u8>) -> Option<OriginKind> {
    if has_resource(s, rid) {
        let i = choose|i: int| 0 <= i < s.len() && s[i].resource_id@ == rid;
        Some(s[i].origin)
    } else {
        None
    }
}

/// Well-formedness: both columns are duplicate-free, so the mapping is a
/// bijection between the bound asset identifiers and the bound resource
/// identifiers.
pub open spec fn entries_wf(s: Seq<MappingEntry>) -> bool {
    forall|i: int, j: int|
        0 <= i < j < s.len() ==> s[i].asset_id != s[j].asset_id && s[i].resource_id@
            != s[j].resource_id@
}

/// In a well-formed list, any entry index determines both lookups.
pub proof fn lemma_entry_determines_lookups(s: Seq<MappingEntry>, i: int)
    requires
        entries_wf(s),
        0 <= i < s.len(),
    ensures
        spec_resource_of(s, s[i].asset_id) == Some(s[i].resource_id@),
        spec_asset_of(s, s[i].resource_id@) == Some(s[i].asset_id),
        spec_origin_of(s, s[i].resource_id@) == Some(s[i].origin),
{
    assert(has_asset(s, s[i].asset_id));
    assert(has_resource(s, s[i].resource_id@));
    let j = choose|j: int| 0 <= j < s.len() && s[j].asset_id == s[i].asset_id;
    assert(j == i);
    let k = choose|k: int| 0 <= k < s.len() && s[k].resource_id@ == s[i].resource_id@;
    assert(k == i);
}

/// Law: the registered mapping is a bijection.  In every well-formed registry
/// state, looking an asset up by the resource it is bound to gives that asset
/// back, and looking a resource up by the asset it is bound to gives that
/// resource back.  Every registry operation ensures well-formedness of the
/// state it leaves behind, so this holds at every point of every sequence of
/// register and unregister calls.
pub proof fn lemma_bijection(s: Seq<MappingEntry>)
    requires
        entries_wf(s),
    ensures
        forall|asset_id: AssetId, rid: Seq<u8>|
            #![trigger spec_resource_of(s, asset_id), spec_asset_of(s, rid)]
            spec_resource_of(s, asset_id) == Some(rid) <==> spec_asset_of(s, rid) == Some(
                asset_id,
            ),
{
    assert forall|asset_id: AssetId, rid: Seq<u8>|
        #![trigger spec_resource_of(s, asset_id), spec_asset_of(s, rid)]
        spec_resource_of(s, asset_id) == Some(rid) <==> spec_asset_of(s, rid) == Some(
            asset_id,
        ) by {
        if spec_resource_of(s, asset_id) == Some(rid) {
            let i = choose|i: int| 0 <= i < s.len() && s[i].asset_id == asset_id;
            lemma_entry_determines_lookups(s, i);
        }
        if spec_asset_of(s, rid) == Some(asset_id) {
            let i = choose|i: int| 0 <= i < s.len() && s[i].resource_id@ == rid;
            lemma_entry_determines_lookups(s, i);
        }
    }
}

/// The asset `<->` resource bijection.
pub struct Registry {
    pub entries: Vec<MappingEntry>,
}

impl View for Registry {
    type V = Seq<MappingEntry>;

    open spec fn view(&self) -> Seq<MappingEntry> {
        self.entries@
    }
}

impl Registry {
    pub open spec fn wf(&self) -> bool {
        entries_wf(self@)
    }

    pub fn new() -> (r: Registry)
        ensures
            r@ == Seq::<MappingEntry>::empty(),
            r.wf(),
    {
        Registry { entries: Vec::new() }
    }

    /// Index of the entry binding `asset_id`, if any.
    fn find_by_asset(&self, asset_id: AssetId) -> (r: Option<usize>)
        ensures
            match r {
                Some(i) => i < self@.len() && self@[i as int].asset_id == asset_id,
                None => !has_asset(self@, asset_id),
            },
    {
        let mut i: usize = 0;
        while i < self.entries.len()
            invariant
                i <= self@.len(),
                forall|j: int| 0 <= j < i ==> self@[j].asset_id != asset_id,
            decreases self@.len() - i,
        {
            if self.entries[i].asset_id == asset_id {
                return Some(i);
            }
            i += 1;
        }
        None
    }

    /// Index of the entry binding `resource_id`, if any.
    fn find_by_resource(&self, resource_id: &ResourceId) -> (r: Option<usize>)
        ensures
            match r {
                Some(i) => i < self@.len() && self@[i as int].resource_id@ == resource_id@,
                None => !has_resource(self@, resource_id@),
            },
    {
        let mut i: usize = 0;
        while i < self.entries.len()
            invariant
                i <= self@.len(),
                forall|j: int| 0 <= j < i ==> self@[j].resource_id@ != resource_id@,
            decreases self@.len() - i,
        {
            if self.entries[i].resource_id.same_id(resource_id) {
                return Some(i);
            }
            i += 1;
        }
        None
    }

    /// Pure read-only lookup: the resource identifier bound to an asset.
    pub fn lookup_resource(&self, asset_id: AssetId) -> (r: Option<ResourceId>)
        requires
            self.wf(),
        ensures
            match r {
                Some(rid) => spec_resource_of(self@, asset_id) == Some(rid@),
                None => spec_resource_of(self@, asset_id) is None,
            },
    {
        match self.find_by_asset(asset_id) {
            Some(i) => {
                proof {
                    lemma_entry_determines_lookups(self@, i as int);
                }
                Some(self.entries[i].resource_id)
            },
            None => None,
        }
    }

    /// Pure read-only lookup: the asset identifier bound to a resource.
    pub fn lookup_asset(&self, resource_id: &ResourceId) -> (r: Option<AssetId>)
        requires
            self.wf(),
        ensures
            match r {
                Some(asset_id) => spec_asset_of(self@, resource_id@) == Some(asset_id),
                None => spec_asset_of(self@, resource_id@) is None,
            },
    {
        match self.find_by_resource(resource_id) {
            Some(i) => {
                proof {
                    lemma_entry_determines_lookups(self@, i as int);
                }
                Some(self.entries[i].asset_id)
            },
            None => None,
        }
    }

    /// The whole entry binding `asset_id`, if any.
    pub fn entry_of_asset(&self, asset_id: AssetId) -> (r: Option<MappingEntry>)
        requires
            self.wf(),
        ensures
            match r {
                Some(e) => {
                    &&& e.asset_id == asset_id
                    &&& spec_resource_of(self@, asset_id) == Some(e.resource_id@)
                    &&& spec_asset_of(self@, e.resource_id@) == Some(asset_id)
                    &&& spec_origin_of(self@, e.resource_id@) == Some(e.origin)
                    &&& exists|i: int| 0 <= i < self@.len() && self@[i] == e
                },
                None => !has_asset(self@, asset_id),
            },
    {
        match self.find_by_asset(asset_id) {
            Some(i) => {
                proof {
                    lemma_entry_determines_lookups(self@, i as int);
                    assert(self@[i as int] == self@[i as int]);
                }
                Some(self.entries[i])
            },
            None => None,
        }
    }

    /// The whole entry binding `resource_id`, if any.
    pub fn entry_of_resource(&self, resource_id: &ResourceId) -> (r: Option<MappingEntry>)
        requires
            self.wf(),
        ensures
            match r {
                Some(e) => {
                    &&& e.resource_id@ == resource_id@
                    &&& spec_asset_of(self@, resource_id@) == Some(e.asset_id)
                    &&& spec_resource_of(self@, e.asset_id) == Some(resource_id@)
                    &&& spec_origin_of(self@, resource_id@) == Some(e.origin)
                    &&& exists|i: int| 0 <= i < self@.len() && self@[i] == e
                },
                None => !has_resource(self@, resource_id@),
            },
    {
        match self.find_by_resource(resource_id) {
            Some(i) => {
                proof {
                    lemma_entry_determines_lookups(self@, i as int);
                }
                Some(self.entries[i])
            },
            None => None,
        }
    }

    /// Insert both directions of a pair atomically; reject the pair if either
    /// side is already bound.  `true` means inserted.
    pub fn try_insert(
        &mut self,
        resource_id: ResourceId,
        asset_id: AssetId,
        origin: OriginKind,
    ) -> (r: bool)
        requires
            old(self).wf(),
        ensures
            final(self).wf(),
            r == !(has_asset(old(self)@, asset_id) || has_resource(old(self)@, resource_id@)),
            !r ==> *final(self) == *old(self),
            r ==> final(self)@ == old(self)@.push(
                MappingEntry { asset_id, resource_id, origin },
            ),
            r ==> spec_resource_of(final(self)@, asset_id) == Some(resource_id@),
            r ==> spec_asset_of(final(self)@, resource_id@) == Some(asset_id),
            r ==> spec_origin_of(final(self)@, resource_id@) == Some(origin),
            forall|a2: AssetId|
                a2 != asset_id ==> spec_resource_of(final(self)@, a2) == spec_resource_of(
                    old(self)@,
                    a2,
                ),
            forall|r2: Seq<u8>|
                r2 != resource_id@ ==> spec_asset_of(final(self)@, r2) == spec_asset_of(
                    old(self)@,
                    r2,
                ) && spec_origin_of(final(self)@, r2) == spec_origin_of(old(self)@, r2),
    {
        let already = match self.find_by_asset(asset_id) {
            Some(_) => true,
            None => match self.find_by_resource(&resource_id) {
                Some(_) => true,
                None => false,
            },
        };
        if already {
            return false;
        }
        let ghost pre = self@;
        self.entries.push(MappingEntry { asset_id, resource_id, origin });
        proof {
            lemma_push_preserves(pre, MappingEntry { asset_id, resource_id, origin });
            let i = self@.len() - 1;
            lemma_entry_determines_lookups(self@, i);
        }
        true
    }

    /// Remove both directions of the pair bound to `resource_id`, if any,
    /// returning the asset identifier it was bound to.  Removal of an unknown
    /// resource identifier is a no-op.
    pub fn remove(&mut self, resource_id: &ResourceId) -> (r: Option<AssetId>)
        requires
            old(self).wf(),
        ensures
            final(self).wf(),
            r == spec_asset_of(old(self)@, resource_id@),
            r is None ==> *final(self) == *old(self),
            r is Some ==> {
                &&& spec_asset_of(final(self)@, resource_id@) is None
                &&& spec_origin_of(final(self)@, resource_id@) is None
                &&& spec_resource_of(final(self)@, r.unwrap()) is None
                &&& final(self)@.len() + 1 == old(self)@.len()
                &&& exists|i: int|
                    0 <= i < old(self)@.len() && final(self)@ == old(self)@.remove(i)
            },
            forall|a2: AssetId|
                spec_resource_of(old(self)@, a2) != Some(resource_id@) ==> spec_resource_of(
                    final(self)@,
                    a2,
                ) == spec_resource_of(old(self)@, a2),
            forall|r2: Seq<u8>|
                r2 != resource_id@ ==> spec_asset_of(final(self)@, r2) == spec_asset_of(
                    old(self)@,
                    r2,
                ) && spec_origin_of(final(self)@, r2) == spec_origin_of(old(self)@, r2),
    {
        match self.find_by_resource(resource_id) {
            Some(i) => {
                proof {
                    lemma_entry_determines_lookups(self@, i as int);
                }
                let ghost pre = self@;
                let entry = self.entries.remove(i);
                proof {
                    lemma_remove_preserves(pre, i as int, resource_id@);
                }
                Some(entry.asset_id)
            },
            None => None,
        }
    }
}

/// Pushing an entry whose sides are both unbound preserves well-formedness
/// and leaves every other binding unchanged.
proof fn lemma_push_preserves(s: Seq<MappingEntry>, e: MappingEntry)
    requires
        entries_wf(s),
        !has_asset(s, e.asset_id),
        !has_resource(s, e.resource_id@),
    ensures
        entries_wf(s.push(e)),
        forall|a2: AssetId|
            a2 != e.asset_id ==> spec_resource_of(s.push(e), a2) == spec_resource_of(s, a2),
        forall|r2: Seq<u8>|
            r2 != e.resource_id@ ==> spec_asset_of(s.push(e), r2) == spec_asset_of(s, r2)
                && spec_origin_of(s.push(e), r2) == spec_origin_of(s, r2),
{
    let t = s.push(e);
    assert(entries_wf(t)) by {
        assert forall|i: int, j: int| 0 <= i < j < t.len() implies t[i].asset_id != t[j].asset_id
            && t[i].resource_id@ != t[j].resource_id@ by {
            if j < s.len() {
            } else {
                assert(t[i] == s[i]);
                assert(t[j] == e);
                assert(!(s[i].asset_id == e.asset_id)) by {
                    if s[i].asset_id == e.asset_id {
                        assert(has_asset(s, e.asset_id));
                    }
                }
                assert(!(s[i].resource_id@ == e.resource_id@)) by {
                    if s[i].resource_id@ == e.resource_id@ {
                        assert(has_resource(s, e.resource_id@));
                    }
                }
            }
        }
    }
    assert forall|a2: AssetId| a2 != e.asset_id implies spec_resource_of(t, a2)
        == spec_resource_of(s, a2) by {
        if has_asset(s, a2) {
            let i = choose|i: int| 0 <= i < s.len() && s[i].asset_id == a2;
            assert(t[i] == s[i]);
            assert(has_asset(t, a2));
            lemma_entry_determines_lookups(s, i);
            lemma_entry_determines_lookups(t, i);
        } else {
            assert(!has_asset(t, a2)) by {
                if has_asset(t, a2) {
                    let i = choose|i: int| 0 <= i < t.len() && t[i].asset_id == a2;
                    assert(i < s.len());
                    assert(s[i].asset_id == a2);
                }
            }
        }
    }
    assert forall|r2: Seq<u8>| r2 != e.resource_id@ implies spec_asset_of(t, r2) == spec_asset_of(
        s,
        r2,
    ) && spec_origin_of(t, r2) == spec_origin_of(s, r2) by {
        if has_resource(s, r2) {
            let i = choose|i: int| 0 <= i < s.len() && s[i].resource_id@ == r2;
            assert(t[i] == s[i]);
            assert(has_resource(t, r2));
            lemma_entry_determines_lookups(s, i);
            lemma_entry_determines_lookups(t, i);
        } else {
            assert(!has_resource(t, r2)) by {
                if has_resource(t, r2) {
                    let i = choose|i: int| 0 <= i < t.len() && t[i].resource_id@ == r2;
                    assert(i < s.len());
                    assert(s[i].resource_id@ == r2);
                }
            }
        }
    }
}

/// Removing the entry at `i` (the one binding `rid`) preserves
/// well-formedness, unbinds both of its sides, and leaves every other binding
/// unchanged.
proof fn lemma_remove_preserves(s: Seq<MappingEntry>, i: int, rid: Seq<u8>)
    requires
        entries_wf(s),
        0 <= i < s.len(),
        s[i].resource_id@ == rid,
    ensures
        entries_wf(s.remove(i)),
        spec_asset_of(s.remove(i), rid) is None,
        spec_origin_of(s.remove(i), rid) is None,
        spec_resource_of(s.remove(i), s[i].asset_id) is None,
        forall|a2: AssetId|
            spec_resource_of(s, a2) != Some(rid) ==> spec_resource_of(s.remove(i), a2)
                == spec_resource_of(s, a2),
        forall|r2: Seq<u8>|
            r2 != rid ==> spec_asset_of(s.remove(i), r2) == spec_asset_of(s, r2) && spec_origin_of(
                s.remove(i),
                r2,
            ) == spec_origin_of(s, r2),
{
    let t = s.remove(i);
    assert(entries_wf(t)) by {
        assert forall|p: int, q: int| 0 <= p < q < t.len() implies t[p].asset_id != t[q].asset_id
            && t[p].resource_id@ != t[q].resource_id@ by {
            let p0 = if p < i {
                p
            } else {
                p + 1
            };
            let q0 = if q < i {
                q
            } else {
                q + 1
            };
            assert(t[p] == s[p0]);
            assert(t[q] == s[q0]);
        }
    }
    assert(!has_resource(t, rid)) by {
        if has_resource(t, rid) {
            let j = choose|j: int| 0 <= j < t.len() && t[j].resource_id@ == rid;
            let j0 = if j < i {
                j
            } else {
                j + 1
            };
            assert(t[j] == s[j0]);
            assert(j0 != i);
            assert(s[j0].resource_id@ == s[i].resource_id@);
        }
    }
    assert(!has_asset(t, s[i].asset_id)) by {
        if has_asset(t, s[i].asset_id) {
            let j = choose|j: int| 0 <= j < t.len() && t[j].asset_id == s[i].asset_id;
            let j0 = if j < i {
                j
            } else {
                j + 1
            };
            assert(t[j] == s[j0]);
            assert(j0 != i);
        }
    }
    assert forall|a2: AssetId| spec_resource_of(s, a2) != Some(rid) implies spec_resource_of(
        t,
        a2,
    ) == spec_resource_of(s, a2) by {
        if has_asset(s, a2) {
            lemma_entry_determines_lookups(s, i);
            let j = choose|j: int| 0 <= j < s.len() && s[j].asset_id == a2;
            lemma_entry_determines_lookups(s, j);
            assert(j != i);
            let j1 = if j < i {
                j
            } else {
                j - 1
            };
            assert(t[j1] == s[j]);
            assert(has_asset(t, a2));
            lemma_entry_determines_lookups(t, j1);
        } else {
            assert(!has_asset(t, a2)) by {
                if has_asset(t, a2) {
                    let j = choose|j: int| 0 <= j < t.len() && t[j].asset_id == a2;
                    let j0 = if j < i {
                        j
                    } else {
                        j + 1
                    };
                    assert(t[j] == s[j0]);
                    assert(has_asset(s, a2));
                }
            }
        }
    }
    assert forall|r2: Seq<u8>| r2 != rid implies spec_asset_of(t, r2) == spec_asset_of(s, r2)
        && spec_origin_of(t, r2) == spec_origin_of(s, r2) by {
        if has_resource(s, r2) {
            let j = choose|j: int| 0 <= j < s.len() && s[j].resource_id@ == r2;
            lemma_entry_determines_lookups(s, j);
            assert(j != i);
            let j1 = if j < i {
                j
            } else {
                j - 1
            };
            assert(t[j1] == s[j]);
            assert(has_resource(t, r2));
            lemma_entry_determines_lookups(t, j1);
        } else {
            assert(!has_resource(t, r2)) by {
                if has_resource(t, r2) {
                    let j = choose|j: int| 0 <= j < t.len() && t[j].resource_id@ == r2;
                    let j0 = if j < i {
                        j
                    } else {
                        j + 1
                    };
                    assert(t[j] == s[j0]);
                    assert(has_resource(s, r2));
                }
            }
        }
    }
}

} // verus!
