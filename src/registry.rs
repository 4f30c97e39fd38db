//! The registry of synthesised declarations: at most one entry per kind and name.
use crate::types::{same_tag, Module, ModuleModel};
use vstd::prelude::*;

verus! {

/// Two entries that would be filed under the same kind and name.
pub open spec fn key_clash(a: ModuleModel, b: ModuleModel) -> bool {
    same_tag(a.kind, b.kind) && a.module_type == b.module_type
}

/// No two entries share a kind and a name.
pub open spec fn registry_wf(s: Seq<ModuleModel>) -> bool {
    forall|i: int, j: int| 0 <= i < j < s.len() ==> !key_clash(#[trigger] s[i], #[trigger] s[j])
}

/// The registry after filing `m`: unchanged where `m` is there already, `None` where
/// another entry has its kind and name.
pub open spec fn insert_result(s: Seq<ModuleModel>, m: ModuleModel) -> Option<Seq<ModuleModel>> {
    if s.contains(m) {
        Some(s)
    } else if exists|i: int| 0 <= i < s.len() && key_clash(#[trigger] s[i], m) {
        None
    } else {
        Some(s.push(m))
    }
}

/// The registry after filing each of `ms` in turn; `None` at the first clash.
pub open spec fn insert_all(s: Seq<ModuleModel>, ms: Seq<ModuleModel>) -> Option<Seq<ModuleModel>>
    decreases ms.len(),
{
    if ms.len() == 0 {
        Some(s)
    } else {
        match insert_result(s, ms[0]) {
            None => None,
            Some(s2) => insert_all(s2, ms.drop_first()),
        }
    }
}

/// A declaration that differs from one already filed under the same kind and name.
#[derive(Debug)]
pub struct Collision {
    pub module_type: String,
}

/// The declarations synthesised in one run.
pub struct Registry {
    modules: Vec<Module>,
}

impl View for Registry {
    type V = Seq<ModuleModel>;

    closed spec fn view(&self) -> Seq<ModuleModel> {
        self.modules@.map_values(|m: Module| m@)
    }
}

impl Registry {
    pub open spec fn wf(&self) -> bool {
        registry_wf(self@)
    }

    pub fn new() -> (r: Registry)
        ensures
            r@ == Seq::<ModuleModel>::empty(),
            r.wf(),
    {
        let r = Registry { modules: Vec::new() };
        assert(r@ =~= Seq::<ModuleModel>::empty());
        r
    }

    /// The entries, in the order they were filed.
    pub fn modules(&self) -> (r: &Vec<Module>)
        ensures
            r@.map_values(|m: Module| m@) == self@,
    {
        &self.modules
    }

    /// Files `m`, unless it is there already; fails where another entry has its kind
    /// and name.
    pub fn insert(&mut self, m: Module) -> (r: Result<(), Collision>)
        requires
            old(self).wf(),
        ensures
            final(self).wf(),
            match r {
                Ok(()) => insert_result(old(self)@, m@) == Some(final(self)@),
                Err(c) => insert_result(old(self)@, m@) is None && final(self)@ == old(self)@
                    && c.module_type@ == m@.module_type,
            },
    {
        let mut i: usize = 0;
        while i < self.modules.len()
            invariant
                i <= self.modules@.len(),
                self@ == old(self)@,
                registry_wf(self@),
                forall|j: int| 0 <= j < i ==> !key_clash(#[trigger] self@[j], m@),
            decreases self.modules.len() - i,
        {
            let e = &self.modules[i];
            if e.kind.same_tag(&m.kind) && e.module_type == m.module_type {
                assert(self@[i as int] == e@);
                if e.same(&m) {
                    assert(self@.contains(m@));
                    return Ok(());
                }
                proof {
                    if self@.contains(m@) {
                        let k = choose|k: int| 0 <= k < self@.len() && self@[k] == m@;
                        if k != i {
                            assert(key_clash(self@[i as int], self@[k]));
                            if k < i {
                                assert(!key_clash(self@[k], self@[i as int]));
                            } else {
                                assert(!key_clash(self@[i as int], self@[k]));
                            }
                            assert(same_tag(self@[k].kind, self@[i as int].kind));
                        }
                    }
                }
                return Err(Collision { module_type: m.module_type.clone() });
            }
            i += 1;
        }
        proof {
            assert(!self@.contains(m@)) by {
                if self@.contains(m@) {
                    let k = choose|k: int| 0 <= k < self@.len() && self@[k] == m@;
                    assert(!key_clash(self@[k], m@));
                    assert(same_tag(m@.kind, m@.kind));
                }
            }
        }
        let ghost before = self@;
        self.modules.push(m);
        assert(self@ =~= before.push(m@));
        Ok(())
    }
}

/// Filing an entry a second time changes nothing.
pub proof fn lemma_insert_again(s: Seq<ModuleModel>, m: ModuleModel)
    requires
        insert_result(s, m) is Some,
    ensures
        insert_result(insert_result(s, m)->0, m) == insert_result(s, m),
{
    let s2 = insert_result(s, m)->0;
    if !s.contains(m) {
        assert(s2[s.len() as int] == m);
        assert(s2.contains(m));
    }
}

} // verus!
