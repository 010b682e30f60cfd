use vstd::prelude::*;

use crate::store::ShapeInstances;

verus! {

/// A material entry of the index asks for this texture.
pub open spec fn wanted<T: Copy>(store: ShapeInstances<T>, texture: u64) -> bool {
    exists|g: int|
        0 <= g < store.groups().len() && #[trigger] store.groups()[g].0.texture == Some(texture)
}

/// A texture that an entry asks for has its bind group once its image is ready.
pub open spec fn settled(bound: Seq<u64>, ready: Seq<u64>, texture: Option<u64>) -> bool {
    match texture {
        Some(t) => ready.contains(t) ==> bound.contains(t),
        None => true,
    }
}

/// The textures that have a bind group, each created once and kept across frames.
#[derive(Debug)]
pub struct ShapeTextureBindGroups {
    bound: Vec<u64>,
}

impl ShapeTextureBindGroups {
    /// The textures bound so far, in the order their bind groups were created.
    pub closed spec fn bound(&self) -> Seq<u64> {
        self.bound@
    }

    pub closed spec fn wf(&self) -> bool {
        self.bound@.no_duplicates()
    }

    pub fn new() -> (r: Self)
        ensures
            r.wf(),
            r.bound().len() == 0,
    {
        ShapeTextureBindGroups { bound: Vec::new() }
    }

    /// Whether a texture has its bind group.
    pub fn is_bound(&self, texture: u64) -> (r: bool)
        ensures
            r == self.bound().contains(texture),
    {
        let mut i: usize = 0;
        while i < self.bound.len()
            invariant
                0 <= i <= self.bound@.len(),
                forall|j: int| 0 <= j < i ==> self.bound@[j] != texture,
            decreases self.bound@.len() - i,
        {
            if self.bound[i] == texture {
                return true;
            }
            i += 1;
        }
        false
    }

    /// Lists the textures that need a bind group now: those the store's materials ask for whose
    /// image is ready and that have none yet, in index order, each once. Textures whose image is
    /// not ready are left for a later frame.
    pub fn prepare<T: Copy>(&mut self, store: &ShapeInstances<T>, ready: &Vec<u64>) -> (created:
        Vec<u64>)
        requires
            old(self).wf(),
        ensures
            final(self).wf(),
            final(self).bound() == old(self).bound() + created@,
            forall|t: u64|
                #[trigger] created@.contains(t) ==> wanted(*store, t) && ready@.contains(t)
                    && !old(self).bound().contains(t),
            forall|t: u64|
                wanted(*store, t) && ready@.contains(t) ==> #[trigger] final(self).bound().contains(
                    t,
                ),
    {
        let ghost start = self.bound@;
        let mut created: Vec<u64> = Vec::new();
        let ng = store.group_count();
        let mut g: usize = 0;
        while g < ng
            invariant
                ng == store.groups().len(),
                0 <= g <= ng,
                self.bound@.no_duplicates(),
                self.bound@ == start + created@,
                forall|t: u64|
                    #[trigger] created@.contains(t) ==> wanted(*store, t) && ready@.contains(t)
                        && !start.contains(t),
                forall|h: int|
                    0 <= h < g ==> settled(self.bound@, ready@, #[trigger] store.groups()[h].0.texture),
            decreases ng - g,
        {
            let material = store.group(g).material;
            match material.texture {
                Some(t) => {
                    let mut is_ready = false;
                    let mut k: usize = 0;
                    while k < ready.len()
                        invariant
                            0 <= k <= ready@.len(),
                            is_ready == (exists|j: int| 0 <= j < k && ready@[j] == t),
                        decreases ready@.len() - k,
                    {
                        if ready[k] == t {
                            is_ready = true;
                        }
                        k += 1;
                    }
                    proof {
                        if is_ready {
                            let j = choose|j: int| 0 <= j < k && ready@[j] == t;
                            assert(ready@.contains(t));
                        }
                        if ready@.contains(t) {
                            let j = choose|j: int| 0 <= j < ready@.len() && ready@[j] == t;
                            assert(is_ready);
                        }
                        assert(wanted(*store, t)) by {
                            assert(store.groups()[g as int].0.texture == Some(t));
                        }
                    }
                    if is_ready && !self.is_bound(t) {
                        let ghost before_bound = self.bound@;
                        let ghost before_created = created@;
                        self.bound.push(t);
                        created.push(t);
                        proof {
                            assert(self.bound@ =~= start + created@);
                            assert forall|a: int, b: int|
                                0 <= a < b < self.bound@.len() implies self.bound@[a]
                                != self.bound@[b] by {
                                if b == before_bound.len() {
                                    assert(before_bound[a] == self.bound@[a]);
                                    assert(!before_bound.contains(t));
                                    if self.bound@[a] == t {
                                        assert(before_bound.contains(t));
                                    }
                                }
                            }
                            assert forall|x: u64| #[trigger] created@.contains(x) implies wanted(
                                *store,
                                x,
                            ) && ready@.contains(x) && !start.contains(x) by {
                                let j = choose|j: int| 0 <= j < created@.len() && created@[j] == x;
                                if j < before_created.len() {
                                    assert(before_created[j] == x);
                                    assert(before_created.contains(x));
                                } else {
                                    assert(x == t);
                                    if start.contains(t) {
                                        let i = choose|i: int| 0 <= i < start.len() && start[i] == t;
                                        assert(before_bound[i] == t);
                                        assert(before_bound.contains(t));
                                    }
                                }
                            }
                            assert forall|h: int| 0 <= h < g + 1 implies settled(
                                self.bound@,
                                ready@,
                                #[trigger] store.groups()[h].0.texture,
                            ) by {
                                match store.groups()[h].0.texture {
                                    Some(x) => {
                                        if ready@.contains(x) {
                                            if h < g {
                                                assert(settled(
                                                    before_bound,
                                                    ready@,
                                                    store.groups()[h].0.texture,
                                                ));
                                                let i = choose|i: int|
                                                    0 <= i < before_bound.len() && before_bound[i]
                                                        == x;
                                                assert(self.bound@[i] == x);
                                            } else {
                                                assert(self.bound@[self.bound@.len() - 1] == x);
                                            }
                                        }
                                    },
                                    None => {},
                                }
                            }
                        }
                    } else {
                        proof {
                            assert forall|h: int| 0 <= h < g + 1 implies settled(
                                self.bound@,
                                ready@,
                                #[trigger] store.groups()[h].0.texture,
                            ) by {
                                if h == g {
                                    assert(store.groups()[h].0.texture == Some(t));
                                }
                            }
                        }
                    }
                },
                None => {
                    assert(settled(self.bound@, ready@, store.groups()[g as int].0.texture));
                },
            }
            g += 1;
        }
        proof {
            assert forall|t: u64| wanted(*store, t) && ready@.contains(t) implies #[trigger] self.bound().contains(
                t,
            ) by {
                let h = choose|h: int|
                    0 <= h < store.groups().len() && #[trigger] store.groups()[h].0.texture == Some(
                        t,
                    );
                assert(settled(self.bound@, ready@, store.groups()[h].0.texture));
            }
        }
        created
    }
}

} // verus!
