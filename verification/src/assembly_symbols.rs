//! The assembly-level symbol table, derived from the symbol table by the
//! code generator and consumed by pseudo replacement, fixup, and emission.

use crate::assembly::AsmType;
use crate::table::{key_index, lemma_key_index, lemma_pair_views, pair_views, spec_get, spec_insert};
use vstd::prelude::*;

verus! {

/// One assembly symbol: a function, or an object with a width.
#[derive(Clone, Copy, Debug, PartialEq, Eq, Structural)]
pub enum Entry {
    Fun { defined: bool, bytes_required: i64 },
    Obj { t: AsmType, is_static: bool },
}

impl View for Entry {
    type V = Entry;

    open spec fn view(&self) -> Entry {
        *self
    }
}

/// The assembly symbol table: identifier to entry, in order of first
/// insertion.
pub struct AsmSymbolTable {
    entries: Vec<(String, Entry)>,
}

impl View for AsmSymbolTable {
    type V = Seq<(Seq<char>, Entry)>;

    closed spec fn view(&self) -> Seq<(Seq<char>, Entry)> {
        pair_views(self.entries@)
    }
}

impl AsmSymbolTable {
    /// An empty assembly symbol table.
    pub fn new() -> (t: AsmSymbolTable)
        ensures
            t@ == Seq::<(Seq<char>, Entry)>::empty(),
    {
        let t = AsmSymbolTable { entries: Vec::new() };
        proof {
            assert(t@ =~= Seq::<(Seq<char>, Entry)>::empty());
        }
        t
    }

    /// The index of the binding of `name`, if there is one.
    fn find(&self, name: &String) -> (r: Option<usize>)
        ensures
            match r {
                Some(i) => 0 <= i < self@.len() && key_index(self@, name@) == i,
                None => key_index(self@, name@) == -1,
            },
    {
        proof {
            lemma_pair_views(self.entries@);
        }
        let mut i: usize = 0;
        while i < self.entries.len()
            invariant
                i <= self.entries.len(),
                key_index(self@, name@) >= 0 ==> key_index(self@, name@) >= i,
            decreases self.entries.len() - i,
        {
            if self.entries[i].0 == *name {
                proof {
                    lemma_key_index(self@, name@);
                    assert(self@[i as int].0 == name@);
                    if key_index(self@, name@) == -1 {
                        assert(false);
                    }
                    assert(key_index(self@, name@) <= i) by {
                        lemma_key_index(self@, name@);
                        if key_index(self@, name@) > i {
                            assert(self@[i as int].0 != name@);
                        }
                    }
                }
                return Some(i);
            }
            proof {
                lemma_key_index(self@, name@);
                if key_index(self@, name@) == i {
                    assert(self@[i as int].0 == name@);
                }
            }
            i += 1;
        }
        proof {
            lemma_key_index(self@, name@);
        }
        None
    }

    /// Binds `name` to `entry`, overwriting any previous binding.
    fn insert(&mut self, name: String, entry: Entry) -> (nothing: ())
        ensures
            final(self)@ == spec_insert(old(self)@, name@, entry),
    {
        proof {
            lemma_pair_views(self.entries@);
        }
        let found = self.find(&name);
        match found {
            Some(i) => {
                self.entries.set(i, (name, entry));
                proof {
                    lemma_pair_views(self.entries@);
                    lemma_pair_views(old(self).entries@);
                    assert(final(self)@ =~= old(self)@.update(
                        key_index(old(self)@, name@),
                        (name@, entry),
                    ));
                }
            },
            None => {
                self.entries.push((name, entry));
                proof {
                    lemma_pair_views(self.entries@);
                    lemma_pair_views(old(self).entries@);
                    assert(final(self)@ =~= old(self)@.push((name@, entry)));
                }
            },
        }
    }

    /// Records a function and whether this unit defines it.
    pub fn add_fun(&mut self, fun_name: String, defined: bool)
        ensures
            final(self)@ == spec_insert(
                old(self)@,
                fun_name@,
                Entry::Fun { defined, bytes_required: 0 },
            ),
    {
        self.insert(fun_name, Entry::Fun { defined, bytes_required: 0 });
    }

    /// Records an object with its width and storage duration.
    pub fn add_var(&mut self, var_name: String, t: AsmType, is_static: bool)
        ensures
            final(self)@ == spec_insert(old(self)@, var_name@, Entry::Obj { t, is_static }),
    {
        self.insert(var_name, Entry::Obj { t, is_static });
    }

    /// Looks a name up, returning its entry if it is bound.
    pub fn get_opt(&self, name: &String) -> (r: Option<Entry>)
        ensures
            r == spec_get(self@, name@),
    {
        proof {
            lemma_pair_views(self.entries@);
        }
        match self.find(name) {
            Some(i) => Some(self.entries[i].1),
            None => None,
        }
    }

    /// Records the stack bytes a function's frame needs.
    pub fn set_bytes_required(&mut self, name: &String, bytes_required: i64)
        requires
            spec_get(old(self)@, name@) matches Some(e) && e is Fun,
        ensures
            final(self)@ == spec_insert(
                old(self)@,
                name@,
                Entry::Fun {
                    defined: spec_get(old(self)@, name@)->Some_0->defined,
                    bytes_required,
                },
            ),
    {
        proof {
            lemma_pair_views(self.entries@);
            lemma_key_index(self@, name@);
        }
        let entry = self.get_opt(name);
        match entry {
            Some(Entry::Fun { defined, bytes_required: _ }) => {
                let name1 = name.clone();
                self.insert(name1, Entry::Fun { defined, bytes_required });
            },
            _ => {
                proof {
                    assert(false);
                }
            },
        }
    }

    /// Reads the stack bytes recorded for a function.
    pub fn get_bytes_required(&self, fun_name: &String) -> (r: i64)
        requires
            spec_get(self@, fun_name@) matches Some(e) && e is Fun,
        ensures
            r == spec_get(self@, fun_name@)->Some_0->bytes_required,
    {
        match self.get_opt(fun_name) {
            Some(Entry::Fun { defined: _, bytes_required }) => bytes_required,
            _ => {
                proof {
                    assert(false);
                }
                0
            },
        }
    }

    /// The size in bytes of a recorded object.
    pub fn get_size(&self, var_name: &String) -> (r: i64)
        requires
            spec_get(self@, var_name@) matches Some(e) && e is Obj,
        ensures
            r == spec_obj_size(spec_get(self@, var_name@)->Some_0->t),
    {
        match self.get_opt(var_name) {
            Some(Entry::Obj { t: AsmType::Longword, is_static: _ }) => 4,
            Some(Entry::Obj { t: AsmType::Quadword, is_static: _ }) => 8,
            _ => {
                proof {
                    assert(false);
                }
                0
            },
        }
    }

    /// The natural alignment in bytes of a recorded object.
    pub fn get_alignment(&self, var_name: &String) -> (r: i64)
        requires
            spec_get(self@, var_name@) matches Some(e) && e is Obj,
        ensures
            r == spec_obj_size(spec_get(self@, var_name@)->Some_0->t),
    {
        match self.get_opt(var_name) {
            Some(Entry::Obj { t: AsmType::Longword, is_static: _ }) => 4,
            Some(Entry::Obj { t: AsmType::Quadword, is_static: _ }) => 8,
            _ => {
                proof {
                    assert(false);
                }
                0
            },
        }
    }

    /// Whether a recorded function is defined in this unit.
    pub fn is_defined(&self, fun_name: &String) -> (r: bool)
        requires
            spec_get(self@, fun_name@) matches Some(e) && e is Fun,
        ensures
            r == spec_get(self@, fun_name@)->Some_0->defined,
    {
        match self.get_opt(fun_name) {
            Some(Entry::Fun { defined, bytes_required: _ }) => defined,
            _ => {
                proof {
                    assert(false);
                }
                false
            },
        }
    }

    /// Whether a recorded object has static storage duration.
    pub fn is_static(&self, var_name: &String) -> (r: bool)
        requires
            spec_get(self@, var_name@) matches Some(e) && e is Obj,
        ensures
            r == spec_get(self@, var_name@)->Some_0->is_static,
    {
        match self.get_opt(var_name) {
            Some(Entry::Obj { t: _, is_static }) => is_static,
            _ => {
                proof {
                    assert(false);
                }
                false
            },
        }
    }
}

/// The size in bytes of an object of the given width; also its alignment.
pub open spec fn spec_obj_size(t: AsmType) -> int {
    match t {
        AsmType::Longword => 4,
        AsmType::Quadword => 8,
    }
}

} // verus!
