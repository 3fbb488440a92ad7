use vstd::hash_map::StringHashMap;
use vstd::prelude::*;

use crate::scene::{ObjectInfo, ObjectType};

verus! {

/// The alias that is reserved for the scene's camera, which holds id 0.
pub open spec fn camera_alias() -> Seq<char> {
    seq!['c', 'a', 'm']
}

/// Deals out one fresh id per alias and remembers which alias holds
/// which id, so that a whole triangle mesh can be addressed by one name.
pub struct IdVendor {
    id_map: StringHashMap<ObjectInfo>,
    id_to_vend: usize,
}

impl IdVendor {
    /// The aliases known so far, each with its id and kind.
    pub closed spec fn aliases(&self) -> Map<Seq<char>, ObjectInfo> {
        self.id_map@
    }

    /// The id that the next successful `vend_id` hands out.
    pub closed spec fn next_id(&self) -> nat {
        self.id_to_vend as nat
    }

    /// Every id handed out so far lies below `next_id`, and the camera
    /// keeps id 0.
    pub closed spec fn wf(&self) -> bool {
        &&& self.id_to_vend >= 1
        &&& self.id_map@.contains_key(camera_alias())
        &&& self.id_map@[camera_alias()] == ObjectInfo { id: 0, o_type: ObjectType::Camera }
        &&& forall|a: Seq<char>| #[trigger]
            self.id_map@.contains_key(a) ==> self.id_map@[a].id < self.id_to_vend
    }

    /// A vendor that knows the camera alone: "cam" holds id 0, and the
    /// next id is 1.
    pub fn new() -> (r: IdVendor)
        ensures
            r.wf(),
            r.aliases() == map![camera_alias() => ObjectInfo { id: 0, o_type: ObjectType::Camera }],
            r.next_id() == 1,
    {
        let mut id_map = StringHashMap::new();
        let oi = ObjectInfo::new(0, ObjectType::Camera);
        let cam = String::from_str("cam");
        proof {
            reveal_strlit("cam");
            assert("cam"@ =~= camera_alias());
        }
        id_map.insert(cam, oi);
        let r = IdVendor { id_map, id_to_vend: 1 };
        assert(r.id_map@ =~= map![camera_alias() => oi]);
        r
    }

    /// Registers `alias` with kind `t` under a fresh id and returns that
    /// id. Returns `None`, and changes nothing, where the alias is taken or
    /// where every id that a `usize` can hold has been dealt.
    pub fn vend_id(&mut self, alias: &str, t: ObjectType) -> (r: Option<usize>)
        requires
            old(self).wf(),
        ensures
            final(self).wf(),
            old(self).aliases().contains_key(alias@) || old(self).next_id() == usize::MAX ==> r is None
                && *final(self) == *old(self),
            !old(self).aliases().contains_key(alias@) && old(self).next_id() < usize::MAX ==> {
                &&& r == Some(old(self).next_id() as usize)
                &&& final(self).aliases() == old(self).aliases().insert(
                    alias@,
                    ObjectInfo { id: old(self).next_id() as usize, o_type: t },
                )
                &&& final(self).next_id() == old(self).next_id() + 1
            },
    {
        if self.id_map.contains_key(alias) || self.id_to_vend == usize::MAX {
            return None;
        }
        let obj_id = self.id_to_vend;
        let oi = ObjectInfo::new(obj_id, t);
        self.id_map.insert(alias.to_string(), oi);
        self.id_to_vend = self.id_to_vend + 1;
        Some(obj_id)
    }

    /// The id and kind registered under `alias`, if any.
    pub fn alias_lookup(&self, alias: &str) -> (r: Option<ObjectInfo>)
        ensures
            r == (if self.aliases().contains_key(alias@) {
                Some(self.aliases()[alias@])
            } else {
                None
            }),
    {
        match self.id_map.get(alias) {
            Some(oi) => Some(*oi),
            None => None,
        }
    }
}

} // verus!
