//! The module registry: a catalog of modules keyed by module code.

use vstd::prelude::*;
use vstd::map::*;
use crate::models::module::Module;
use crate::models::module::module_credit_value;
use crate::text::str_eq;

verus! {

/// A catalog of modules keyed by module code. Adding a module under a
/// code that is already present replaces the earlier entry.
#[derive(Debug)]
pub struct ModuleRegistry {
    modules: Vec<Module>,
}

/// The unit value that the registry gives a code: the module's credit
/// value when the code is present, zero otherwise.
pub open spec fn reg_credit(reg: ModuleRegistry, code: Seq<char>) -> nat {
    if reg.contents().dom().contains(code) {
        module_credit_value(reg.contents()[code])
    } else {
        0
    }
}

/// The position of the first entry at or after `i` that bears the code,
/// or -1 when there is none.
pub open spec fn first_code_index(s: Seq<Module>, code: Seq<char>, i: int) -> int
    decreases s.len() - i,
{
    if i < 0 || i >= s.len() {
        -1
    } else if s[i].module_code@ == code {
        i
    } else {
        first_code_index(s, code, i + 1)
    }
}

/// Position and membership facts of `first_code_index`.
proof fn lemma_first_code_index(s: Seq<Module>, code: Seq<char>, i: int)
    requires
        0 <= i <= s.len(),
    ensures
        first_code_index(s, code, i) == -1 ==> forall|j: int|
            i <= j < s.len() ==> s[j].module_code@ != code,
        first_code_index(s, code, i) != -1 ==> i <= first_code_index(s, code, i) < s.len()
            && s[first_code_index(s, code, i)].module_code@ == code && forall|j: int|
            i <= j < first_code_index(s, code, i) ==> s[j].module_code@ != code,
    decreases s.len() - i,
{
    if i < s.len() && s[i].module_code@ != code {
        lemma_first_code_index(s, code, i + 1);
    }
}

impl Default for ModuleRegistry {
    fn default() -> (r: Self)
        ensures
            r.contents() == Map::<Seq<char>, Module>::empty(),
    {
        ModuleRegistry::new()
    }
}

impl ModuleRegistry {
    /// The code-to-module map that the registry holds; under each code,
    /// the earliest entry bearing it.
    pub closed spec fn contents(self) -> Map<Seq<char>, Module> {
        Map::new(
            |c: Seq<char>| first_code_index(self.modules@, c, 0) != -1,
            |c: Seq<char>| self.modules@[first_code_index(self.modules@, c, 0)],
        )
    }

    /// An empty registry.
    pub fn new() -> (r: ModuleRegistry)
        ensures
            r.contents() == Map::<Seq<char>, Module>::empty(),
    {
        let r = ModuleRegistry { modules: Vec::new() };
        proof {
            assert(r.contents() =~= Map::<Seq<char>, Module>::empty());
        }
        r
    }

    /// Stores a module under its code, replacing any module already
    /// stored under the same code.
    pub fn add_module(&mut self, module: Module)
        ensures
            final(self).contents() == old(self).contents().insert(module.module_code@, module),
    {
        let mut i: usize = 0;
        while i < self.modules.len()
            invariant
                i <= self.modules@.len(),
                *self == *old(self),
                forall|j: int| 0 <= j < i ==> self.modules@[j].module_code@ != module.module_code@,
            decreases self.modules@.len() - i,
        {
            if str_eq(self.modules[i].module_code.as_str(), module.module_code.as_str()) {
                let ghost k = i as int;
                self.modules[i] = module;
                proof {
                    lemma_replace_contents(*old(self), *self, module, k);
                }
                return ;
            }
            i += 1;
        }
        self.modules.push(module);
        proof {
            lemma_replace_contents(*old(self), *self, module, old(self).modules@.len() as int);
        }
    }

    /// The module stored under the code, if any.
    pub fn get_module(&self, module_code: &str) -> (r: Option<&Module>)
        ensures
            match r {
                Some(m) => self.contents().dom().contains(module_code@) && *m
                    == self.contents()[module_code@],
                None => !self.contents().dom().contains(module_code@),
            },
    {
        let mut i: usize = 0;
        while i < self.modules.len()
            invariant
                i <= self.modules@.len(),
                forall|j: int| 0 <= j < i ==> self.modules@[j].module_code@ != module_code@,
            decreases self.modules@.len() - i,
        {
            if str_eq(self.modules[i].module_code.as_str(), module_code) {
                proof {
                    lemma_first_code_index(self.modules@, module_code@, 0);
                    let k = first_code_index(self.modules@, module_code@, 0);
                    assert(k == i);
                }
                return Some(&self.modules[i]);
            }
            i += 1;
        }
        proof {
            lemma_first_code_index(self.modules@, module_code@, 0);
        }
        None
    }

    /// Whether a module is stored under the code.
    pub fn contains_module(&self, module_code: &str) -> (r: bool)
        ensures
            r == self.contents().dom().contains(module_code@),
    {
        self.get_module(module_code).is_some()
    }
}

/// Replacing the earliest entry that bears a module's code — or appending
/// the module when no entry bears it — binds the code to the module and
/// leaves every other binding unchanged.
proof fn lemma_replace_contents(
    orig_reg: ModuleRegistry,
    upd_reg: ModuleRegistry,
    module: Module,
    k: int,
)
    requires
        0 <= k <= orig_reg.modules@.len(),
        k < orig_reg.modules@.len() ==> upd_reg.modules@ == orig_reg.modules@.update(k, module),
        k < orig_reg.modules@.len() ==> orig_reg.modules@[k].module_code@
            == module.module_code@,
        k == orig_reg.modules@.len() ==> upd_reg.modules@ == orig_reg.modules@.push(module),
        forall|j: int| 0 <= j < k ==> orig_reg.modules@[j].module_code@ != module.module_code@,
    ensures
        upd_reg.contents() == orig_reg.contents().insert(module.module_code@, module),
{
    let orig = orig_reg.modules@;
    let upd = upd_reg.modules@;
    let code = module.module_code@;
    let before = orig_reg.contents();
    let after = upd_reg.contents();
    let ins = orig_reg.contents().insert(module.module_code@, module);
    assert forall|j: int| 0 <= j < upd.len() && j != k implies upd[j] == orig[j] by {}
    assert forall|c: Seq<char>| #[trigger] after.dom().contains(c) implies ins.dom().contains(c)
        && after[c] == ins[c] by {
        lemma_first_code_index(orig, c, 0);
        lemma_first_code_index(upd, c, 0);
        let fo = first_code_index(orig, c, 0);
        let fu = first_code_index(upd, c, 0);
        if c == code {
            assert(upd[k].module_code@ == c);
            assert(fu == k) by {
                if fu < k {
                    assert(upd[fu] == orig[fu]);
                    assert(orig[fu].module_code@ != code);
                }
                if fu > k {
                    assert(upd[k].module_code@ == c);
                }
            }
            assert(after[c] == module);
        } else {
            assert(fu != k) by {
                assert(upd[k].module_code@ == code);
            }
            assert(orig[fu].module_code@ == c);
            assert(fo != -1);
            assert(fu == fo) by {
                if fo < fu {
                    assert(upd[fo].module_code@ != c);
                    if fo != k {
                        assert(upd[fo] == orig[fo]);
                    } else {
                        assert(orig[k].module_code@ == code);
                    }
                }
                if fu < fo {
                    assert(orig[fu].module_code@ != c);
                }
            }
            assert(after[c] == upd[fu]);
            assert(upd[fu] == orig[fo]);
            assert(before.dom().contains(c));
            assert(before[c] == orig[fo]);
        }
    }
    assert forall|c: Seq<char>| #[trigger] ins.dom().contains(c) implies after.dom().contains(
        c,
    ) by {
        lemma_first_code_index(orig, c, 0);
        lemma_first_code_index(upd, c, 0);
        let fo = first_code_index(orig, c, 0);
        let fu = first_code_index(upd, c, 0);
        if c == code {
            assert(upd[k].module_code@ == c);
            if fu == -1 {
                assert(upd[k].module_code@ != c);
            }
        } else {
            assert(before.dom().contains(c));
            assert(orig[fo].module_code@ == c);
            assert(fo != k) by {
                if k < orig.len() {
                    assert(orig[k].module_code@ == code);
                }
            }
            assert(upd[fo].module_code@ == c);
            if fu == -1 {
                assert(upd[fo].module_code@ != c);
            }
        }
    }
    assert(after =~= ins);
}

} // verus!
