//! The numbering of the materials of a scene in the uniform block of
//! materials.
//!
//! The material listed first gets the number one, the next one two, and so
//! on. Zero stands for "no material".

use crate::command::ObjectKey;
use std::collections::BTreeMap;
use vstd::prelude::*;

verus! {

broadcast use vstd::std_specs::btree::group_btree_axioms;

/// What a `MaterialIndex` holds.
pub struct MaterialIndexView {
    /// Materials that the block has room for.
    pub size: usize,
    /// The number of each material.
    pub material_to_id: Map<ObjectKey, u32>,
    /// The material of each number.
    pub id_to_material: Map<u32, ObjectKey>,
}

/// `keys[i]` does not occur again after `i`.
pub open spec fn last_occurrence(keys: Seq<ObjectKey>, i: int) -> bool {
    forall|j: int| i < j < keys.len() ==> keys[j] != keys[i]
}

/// The index numbers the materials `keys` in their order, from one. A
/// material that is listed more than once goes by its last number.
pub open spec fn numbers(index: MaterialIndexView, keys: Seq<ObjectKey>) -> bool {
    &&& forall|id: u32| index.id_to_material.contains_key(id) <==> 1 <= id <= keys.len()
    &&& forall|i: int|
        0 <= i < keys.len() ==> index.id_to_material[(i + 1) as u32] == #[trigger] keys[i]
    &&& forall|key: ObjectKey| index.material_to_id.contains_key(key) <==> keys.contains(key)
    &&& forall|i: int|
        0 <= i < keys.len() && last_occurrence(keys, i) ==> index.material_to_id[#[trigger] keys[i]]
            == i + 1
}

/// The numbering of the materials in a block with room for `size` of them.
pub struct MaterialIndex {
    size: usize,
    material_to_id: BTreeMap<ObjectKey, u32>,
    id_to_material: BTreeMap<u32, ObjectKey>,
}

impl View for MaterialIndex {
    type V = MaterialIndexView;

    closed spec fn view(&self) -> MaterialIndexView {
        MaterialIndexView {
            size: self.size,
            material_to_id: self.material_to_id@,
            id_to_material: self.id_to_material@,
        }
    }
}

impl MaterialIndex {
    /// An index without materials for a block with room for `size`.
    pub fn new(size: usize) -> (index: MaterialIndex)
        ensures
            index@.size == size,
            numbers(index@, Seq::empty()),
    {
        MaterialIndex { size, material_to_id: BTreeMap::new(), id_to_material: BTreeMap::new() }
    }

    pub fn size(&self) -> (size: usize)
        ensures
            size == self@.size,
    {
        self.size
    }

    /// Numbers the materials `keys` afresh, if the block has room for them
    /// and their numbers fit in 32 bits. If not, the index stays as it is.
    pub fn build(&mut self, keys: &Vec<ObjectKey>) -> (fits: bool)
        ensures
            fits == (keys@.len() <= old(self)@.size && keys@.len() <= u32::MAX),
            final(self)@.size == old(self)@.size,
            fits ==> numbers(final(self)@, keys@),
            !fits ==> final(self)@ == old(self)@,
    {
        if keys.len() > self.size || keys.len() > u32::MAX as usize {
            return false;
        }
        self.material_to_id.clear();
        self.id_to_material.clear();
        let mut i: usize = 0;
        while i < keys.len()
            invariant
                i <= keys.len(),
                keys.len() <= u32::MAX,
                self.size == old(self).size,
                numbers(self@, keys@.take(i as int)),
            decreases keys.len() - i,
        {
            let ghost before = self@;
            let ghost earlier = keys@.take(i as int);
            let ghost now = keys@.take(i + 1);
            let key = keys[i];
            let id = (i + 1) as u32;
            self.material_to_id.insert(key, id);
            self.id_to_material.insert(id, key);
            proof {
                let after = self@;
                assert(now == earlier.push(key));
                assert(after.material_to_id == before.material_to_id.insert(key, id));
                assert(after.id_to_material == before.id_to_material.insert(id, key));
                assert forall|n: u32| after.id_to_material.contains_key(n) <==> 1 <= n
                    <= now.len() by {}
                assert forall|k: ObjectKey| after.material_to_id.contains_key(k) <==> now.contains(
                    k,
                ) by {
                    if earlier.contains(k) {
                        let j = choose|j: int| 0 <= j < earlier.len() && earlier[j] == k;
                        assert(now[j] == k);
                    }
                    if now.contains(k) && k != key {
                        let j = choose|j: int| 0 <= j < now.len() && now[j] == k;
                        assert(earlier[j] == k);
                    }
                    if k == key {
                        assert(now[i as int] == k);
                    }
                }
                assert forall|j: int| 0 <= j < now.len() implies after.id_to_material[(j
                    + 1) as u32] == #[trigger] now[j] by {
                    if j < i {
                        assert(earlier[j] == now[j]);
                    }
                }
                assert forall|j: int|
                    0 <= j < now.len() && last_occurrence(now, j) implies after.material_to_id[
                #[trigger] now[j]] == j + 1 by {
                    if j < i {
                        assert(now[i as int] != now[j]);
                        assert(earlier[j] == now[j]);
                        assert forall|l: int| j < l < earlier.len() implies earlier[l]
                            != earlier[j] by {
                            assert(now[l] == earlier[l]);
                        }
                    }
                }
            }
            i += 1;
        }
        proof {
            assert(keys@.take(keys.len() as int) == keys@);
        }
        true
    }

    /// The number of the material `key`, if it has one.
    pub fn id_of(&self, key: ObjectKey) -> (id: Option<u32>)
        ensures
            id == if self@.material_to_id.contains_key(key) {
                Some(self@.material_to_id[key])
            } else {
                None
            },
    {
        match self.material_to_id.get(&key) {
            Some(id) => Some(*id),
            None => None,
        }
    }

    /// The material with the number `id`, if there is one.
    pub fn material_of(&self, id: u32) -> (key: Option<ObjectKey>)
        ensures
            key == if self@.id_to_material.contains_key(id) {
                Some(self@.id_to_material[id])
            } else {
                None
            },
    {
        match self.id_to_material.get(&id) {
            Some(key) => Some(*key),
            None => None,
        }
    }
}

} // verus!
