use vstd::prelude::*;
use std::collections::BTreeSet;
use std::collections::HashMap;
use vstd::laws_cmp::obeys_cmp;
use vstd::std_specs::btree::increasing_seq;
use vstd::std_specs::cmp::OrdSpec;
use vstd::std_specs::iter::IteratorSpec;
use crate::order::{ascending, in_order, lemma_in_order_unique};
use crate::window::{Window, WindowId};

verus! {

broadcast use {
    vstd::std_specs::btree::group_btree_axioms,
    vstd::std_specs::hash::group_hash_axioms,
    vstd::laws_cmp::group_laws_cmp,
};

/// Whether `id` has a record in the registry and that record is tiled.
pub open spec fn is_tiled(registry: Map<WindowId, Window>, id: WindowId) -> bool {
    registry.contains_key(id) && registry[id].is_normal()
}

/// The members of `ids` that the layouts tile.
pub open spec fn tiled_ids(ids: Set<WindowId>, registry: Map<WindowId, Window>) -> Set<WindowId> {
    ids.filter(|id: WindowId| is_tiled(registry, id))
}

/// The records of the tiled members of `ids`, by ascending identifier.
/// A member without a record is left out.
pub open spec fn normal_windows(ids: Set<WindowId>, registry: Map<WindowId, Window>) -> Seq<
    Window,
> {
    in_order(tiled_ids(ids, registry)).map_values(|id: WindowId| registry[id])
}

/// Whether every record of the registry is filed under its own identifier.
pub open spec fn filed_by_id(registry: Map<WindowId, Window>) -> bool {
    forall|id: WindowId| #[trigger] registry.contains_key(id) ==> registry[id].id == id
}

/// The tiled windows of a workspace are the records of its tiled members,
/// each once, by ascending identifier.
pub proof fn lemma_normal_windows(ids: Set<WindowId>, registry: Map<WindowId, Window>)
    requires
        ids.finite(),
        filed_by_id(registry),
    ensures
        normal_windows(ids, registry).len() == tiled_ids(ids, registry).len(),
        forall|i: int|
            0 <= i < normal_windows(ids, registry).len() ==> {
                let window = #[trigger] normal_windows(ids, registry)[i];
                &&& ids.contains(window.id)
                &&& registry.contains_key(window.id)
                &&& registry[window.id] == window
                &&& window.is_normal()
            },
        forall|i: int, j: int|
            0 <= i < j < normal_windows(ids, registry).len() ==> normal_windows(ids, registry)[i].id
                < normal_windows(ids, registry)[j].id,
        forall|id: WindowId|
            ids.contains(id) && is_tiled(registry, id) ==> normal_windows(ids, registry).contains(
                #[trigger] registry[id],
            ),
{
    let wanted = tiled_ids(ids, registry);
    let keys = in_order(wanted);
    let windows = normal_windows(ids, registry);
    assert(wanted.finite()) by {
        vstd::set_lib::lemma_len_subset(wanted, ids);
    }
    crate::order::lemma_in_order(wanted);
    assert forall|i: int| 0 <= i < windows.len() implies {
        let window = #[trigger] windows[i];
        &&& ids.contains(window.id)
        &&& registry.contains_key(window.id)
        &&& registry[window.id] == window
        &&& window.is_normal()
        &&& window.id == keys[i]
    } by {
        assert(keys.contains(keys[i]));
        assert(wanted.contains(keys[i]));
    }
    assert forall|i: int, j: int| 0 <= i < j < windows.len() implies windows[i].id
        < windows[j].id by {
        assert(windows[i].id == keys[i]);
        assert(windows[j].id == keys[j]);
    }
    assert forall|id: WindowId| ids.contains(id) && is_tiled(registry, id) implies windows.contains(
        #[trigger] registry[id],
    ) by {
        assert(wanted.contains(id));
        assert(keys.contains(id));
        let i = choose|i: int| 0 <= i < keys.len() && keys[i] == id;
        assert(windows[i] == registry[id]);
    }
}

/// One virtual desktop: the set of windows that belong to it.
#[derive(Debug)]
pub struct Workspace {
    pub windows: BTreeSet<WindowId>,
}

impl View for Workspace {
    type V = Set<WindowId>;

    open spec fn view(&self) -> Set<WindowId> {
        self.windows@
    }
}

proof fn lemma_increasing_pair<K: Ord>(s: Seq<K>, i: int, j: int)
    requires
        obeys_cmp::<K>(),
        increasing_seq(s),
        0 <= i < j < s.len(),
    ensures
        s[i].cmp_spec(&s[j]) is Less,
{
    vstd::std_specs::btree::axiom_increasing_seq_meaning::<K>(s);
}

impl Workspace {
    /// A workspace has finitely many members.
    pub proof fn lemma_finite(&self)
        ensures
            self@.finite(),
    {
        let r = self.windows.iter().remaining();
        assert(r.unref().to_set() == self@);
        vstd::seq_lib::seq_to_set_is_finite(r.unref());
    }

    /// A workspace without windows.
    pub fn new() -> (workspace: Workspace)
        ensures
            workspace@ == Set::<WindowId>::empty(),
    {
        Workspace { windows: BTreeSet::new() }
    }

    /// Makes `window` a member. Adding a member again changes nothing.
    pub fn add_window(&mut self, window: WindowId)
        ensures
            final(self)@ == old(self)@.insert(window),
    {
        self.windows.insert(window);
    }

    /// Takes `window` out. Removing a window that is no member changes nothing.
    pub fn remove_window(&mut self, window: &WindowId)
        ensures
            final(self)@ == old(self)@.remove(*window),
    {
        self.windows.remove(window);
    }

    /// Makes sure that the workspace has exactly one entry for the window that
    /// `window` describes, whether or not it had one before.
    pub fn update(&mut self, window: &Window)
        ensures
            final(self)@ == old(self)@.insert(window.id),
    {
        self.windows.insert(window.id);
    }

    /// Whether `window` is a member.
    pub fn contains(&self, window: WindowId) -> (found: bool)
        ensures
            found == self@.contains(window),
    {
        self.windows.contains(&window)
    }

    /// How many windows belong to the workspace.
    pub fn count_windows(&self) -> (count: usize)
        ensures
            count == self@.len(),
            self@.finite(),
    {
        proof {
            self.lemma_finite();
        }
        self.windows.len()
    }

    /// The members, by ascending identifier.
    pub fn window_ids(&self) -> (ids: Vec<WindowId>)
        ensures
            self@.finite(),
            ids@ == in_order(self@),
    {
        let mut ids: Vec<WindowId> = Vec::new();
        for id in it: self.windows.iter()
            invariant
                it.seq() == self.windows.iter().remaining(),
                ids@.len() == it.index(),
                forall|k: int| 0 <= k < ids@.len() ==> ids@[k] == *it.seq()[k],
        {
            ids.push(*id);
        }
        proof {
            broadcast use vstd::laws_cmp::lemma_ref_obeys_cmp_spec;

            let r = self.windows.iter().remaining();
            assert(ids@ =~= r.unref());
            assert(obeys_cmp::<u64>());
            assert(obeys_cmp::<&u64>());
            assert forall|i: int, j: int| 0 <= i < j < ids@.len() implies ids@[i] < ids@[j] by {
                lemma_increasing_pair::<&u64>(r, i, j);
            }
            assert(ids@.to_set() =~= self@);
            assert forall|x: WindowId| ids@.contains(x) <==> self@.contains(x) by {
                assert(ids@.to_set().contains(x) <==> ids@.contains(x));
            }
            lemma_in_order_unique(ids@, self@);
        }
        ids
    }

    /// The records of the tiled members, by ascending identifier. A member
    /// that has no record in `windows` is passed over.
    pub fn iter_normal_windows(&self, windows: &HashMap<WindowId, Window>) -> (normal: Vec<Window>)
        ensures
            normal@ == normal_windows(self@, windows@),
    {
        let ids = self.window_ids();
        proof {
            crate::order::lemma_in_order(self@);
        }
        let mut normal: Vec<Window> = Vec::new();
        let ghost mut keys: Seq<WindowId> = Seq::empty();
        let mut i: usize = 0;
        while i < ids.len()
            invariant
                0 <= i <= ids.len(),
                self@.finite(),
                ids@ == in_order(self@),
                ascending(ids@),
                normal@.len() == keys.len(),
                forall|k: int| 0 <= k < keys.len() ==> is_tiled(windows@, #[trigger] keys[k]),
                forall|k: int| 0 <= k < keys.len() ==> normal@[k] == windows@[#[trigger] keys[k]],
                forall|k: int|
                    0 <= k < keys.len() ==> exists|j: int| 0 <= j < i && ids@[j] == #[trigger] keys[k],
                forall|j: int|
                    0 <= j < i && is_tiled(windows@, #[trigger] ids@[j]) ==> keys.contains(ids@[j]),
                ascending(keys),
            decreases ids.len() - i,
        {
            let id = ids[i];
            let ghost before = keys;
            match windows.get(&id) {
                Some(window) => {
                    if window.window_type == crate::window::WindowType::Normal {
                        normal.push(*window);
                        proof {
                            keys = before.push(id);
                            assert forall|a: int, b: int| 0 <= a < b < keys.len() implies keys[a]
                                < keys[b] by {
                                if b == before.len() {
                                    let j = choose|j: int| 0 <= j < i && ids@[j] == before[a];
                                    assert(ids@[j] < ids@[i as int]);
                                } else {
                                    assert(before[a] < before[b]);
                                }
                            }
                            assert forall|j: int|
                                0 <= j < i + 1 && is_tiled(
                                    windows@,
                                    #[trigger] ids@[j],
                                ) implies keys.contains(ids@[j]) by {
                                if j < i {
                                    assert(before.contains(ids@[j]));
                                    let k = choose|k: int| 0 <= k < before.len() && before[k] == ids@[j];
                                    assert(keys[k] == ids@[j]);
                                } else {
                                    assert(keys[before.len() as int] == id);
                                }
                            }
                            assert forall|k: int| 0 <= k < keys.len() implies exists|j: int|
                                0 <= j < i + 1 && ids@[j] == #[trigger] keys[k] by {
                                if k < before.len() {
                                    let j = choose|j: int| 0 <= j < i && ids@[j] == before[k];
                                    assert(ids@[j] == keys[k]);
                                } else {
                                    assert(ids@[i as int] == keys[k]);
                                }
                            }
                        }
                    }
                },
                None => {},
            }
            i += 1;
        }
        proof {
            crate::order::lemma_in_order(self@);
            let wanted = tiled_ids(self@, windows@);
            assert forall|x: WindowId| keys.contains(x) <==> wanted.contains(x) by {
                if keys.contains(x) {
                    let k = choose|k: int| 0 <= k < keys.len() && keys[k] == x;
                    let j = choose|j: int| 0 <= j < i && ids@[j] == keys[k];
                    assert(ids@.contains(x));
                }
                if wanted.contains(x) {
                    assert(ids@.contains(x));
                    let j = choose|j: int| 0 <= j < ids@.len() && ids@[j] == x;
                    assert(is_tiled(windows@, ids@[j]));
                }
            }
            lemma_in_order_unique(keys, wanted);
            assert(normal@ =~= normal_windows(self@, windows@));
        }
        normal
    }
}

} // verus!
