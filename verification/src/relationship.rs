//! The relationship table: named indirections from a logical id to a
//! part's path, kept in declaration order with one entry per id.

use vstd::prelude::*;

verus! {

/// One relationship: an id, a type URI, and the target path it names.
#[derive(Debug, Clone, Default)]
pub struct Relationship {
    pub id: String,
    pub kind: String,
    pub target: String,
}

impl Relationship {
    /// The target path this relationship points at.
    pub fn target(&self) -> (r: &str)
        ensures
            r@ == self.target@,
    {
        self.target.as_str()
    }
}

/// The relationship table, in declaration order.
#[derive(Debug, Clone, Default)]
pub struct Relationships {
    pub relationships: Vec<Relationship>,
}

impl Relationships {
    /// No two entries share an id.
    pub open spec fn ids_unique(&self) -> bool {
        forall|i: int, j: int|
            0 <= i < j < self.relationships@.len() ==> #[trigger] self.relationships@[i].id@
                != #[trigger] self.relationships@[j].id@
    }

    /// Position of the first entry with the given id, if any.
    pub open spec fn spec_find(&self, id: Seq<char>) -> Option<int> {
        find_rel(self.relationships@, id, 0)
    }

    /// The entry with the given id, if any.
    pub open spec fn spec_get(&self, id: Seq<char>) -> Option<Relationship> {
        match self.spec_find(id) {
            Some(i) => Some(self.relationships@[i]),
            None => None,
        }
    }

    /// Inserts a relationship: an entry with the same id is replaced in
    /// place, keeping its position; otherwise the entry is appended. Order
    /// and uniqueness of ids are preserved.
    pub fn add_relationship(&mut self, relationship: Relationship)
        ensures
            match old(self).spec_find(relationship.id@) {
                Some(i) => final(self).relationships@ == old(self).relationships@.update(
                    i,
                    relationship,
                ),
                None => final(self).relationships@ == old(self).relationships@.push(
                    relationship,
                ),
            },
            old(self).ids_unique() ==> final(self).ids_unique(),
    {
        let n = self.relationships.len();
        let mut i: usize = 0;
        while i < n
            invariant
                i <= n,
                n == self.relationships@.len(),
                self.relationships@ == old(self).relationships@,
                find_rel(self.relationships@, relationship.id@, 0) == find_rel(
                    self.relationships@,
                    relationship.id@,
                    i as int,
                ),
                forall|k: int|
                    0 <= k < i ==> #[trigger] self.relationships@[k].id@ != relationship.id@,
            decreases n - i,
        {
            if crate::chars::str_eq(self.relationships[i].id.as_str(), relationship.id.as_str()) {
                proof {
                    assert(find_rel(self.relationships@, relationship.id@, i as int) == Some(
                        i as int,
                    ));
                }
                let ghost os = self.relationships@;
                self.relationships.set(i, relationship);
                proof {
                    let ns = self.relationships@;
                    assert(ns == os.update(i as int, relationship));
                    if old(self).ids_unique() {
                        assert(os[i as int].id@ == relationship.id@);
                        assert forall|a: int, b: int|
                            0 <= a < b < ns.len() implies #[trigger] ns[a].id@
                            != #[trigger] ns[b].id@ by {
                            if a != i {
                                assert(ns[a] == os[a]);
                            }
                            if b != i {
                                assert(ns[b] == os[b]);
                            }
                        }
                    }
                }
                return ;
            }
            i = i + 1;
        }
        proof {
            assert(find_rel(self.relationships@, relationship.id@, n as int) is None);
        }
        let ghost os = self.relationships@;
        self.relationships.push(relationship);
        proof {
            let ns = self.relationships@;
            assert(ns == os.push(relationship));
            if old(self).ids_unique() {
                assert forall|a: int, b: int|
                    0 <= a < b < ns.len() implies #[trigger] ns[a].id@
                    != #[trigger] ns[b].id@ by {
                    assert(ns[a] == os[a]);
                    if b < ns.len() - 1 {
                        assert(ns[b] == os[b]);
                    } else {
                        assert(ns[b] == relationship);
                        assert(os[a].id@ != relationship.id@);
                    }
                }
            }
        }
    }

    /// Whether the table holds no entry.
    pub fn is_empty(&self) -> (r: bool)
        ensures
            r == (self.relationships@.len() == 0),
    {
        self.relationships.len() == 0
    }

    /// The first entry with the given id: exactly [`Relationships::spec_get`].
    pub fn get_relationship_by_id(&self, id: &str) -> (r: Option<&Relationship>)
        ensures
            r is Some <==> self.spec_get(id@) is Some,
            r matches Some(rel) ==> self.spec_get(id@) == Some(*rel),
    {
        let n = self.relationships.len();
        let mut i: usize = 0;
        while i < n
            invariant
                i <= n,
                n == self.relationships@.len(),
                find_rel(self.relationships@, id@, 0) == find_rel(
                    self.relationships@,
                    id@,
                    i as int,
                ),
            decreases n - i,
        {
            if crate::chars::str_eq(self.relationships[i].id.as_str(), id) {
                return Some(&self.relationships[i]);
            }
            i = i + 1;
        }
        None
    }
}

/// Position of the first entry at or past `i` whose id is `id`.
pub open spec fn find_rel(s: Seq<Relationship>, id: Seq<char>, i: int) -> Option<int>
    decreases s.len() - i,
{
    if i < 0 || i >= s.len() {
        None
    } else if s[i].id@ == id {
        Some(i)
    } else {
        find_rel(s, id, i + 1)
    }
}

} // verus!
