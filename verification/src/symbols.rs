//! The symbol table the type checker populates and later passes read.

use crate::initializers::StaticInit;
use crate::table::{key_index, lemma_key_index, lemma_pair_views, pair_views, spec_get, spec_insert};
use crate::types::{Type, TypeV};
use vstd::prelude::*;

verus! {

/// The recorded initial value of a variable with static storage duration.
#[derive(Clone, Copy, Debug, PartialEq, Eq, Structural)]
pub enum InitialValue {
    Tentative,
    Initial(StaticInit),
    NoInitializer,
}

/// What kind of thing an identifier names, and what linkage it has.
#[derive(Clone, Copy, Debug, PartialEq, Eq, Structural)]
pub enum IdentifierAttrs {
    FunAttr { defined: bool, global: bool, stack_frame_size: i64 },
    StaticAttr { init: InitialValue, global: bool },
    LocalAttr,
}

/// One symbol table entry: a type together with its attributes.
#[derive(Debug)]
pub struct Entry {
    pub t: Type,
    pub attrs: IdentifierAttrs,
}

/// The model of a symbol table entry.
pub struct EntryV {
    pub t: TypeV,
    pub attrs: IdentifierAttrs,
}

impl View for Entry {
    type V = EntryV;

    open spec fn view(&self) -> EntryV {
        EntryV { t: self.t@, attrs: self.attrs }
    }
}

impl Clone for Entry {
    fn clone(&self) -> (r: Self)
        ensures
            r@ == self@,
    {
        Entry { t: self.t.clone(), attrs: self.attrs }
    }
}

/// The symbol table: identifier to entry, in order of first insertion.
pub struct SymbolTable {
    entries: Vec<(String, Entry)>,
}

impl View for SymbolTable {
    type V = Seq<(Seq<char>, EntryV)>;

    closed spec fn view(&self) -> Seq<(Seq<char>, EntryV)> {
        pair_views(self.entries@)
    }
}

impl SymbolTable {
    /// An empty symbol table.
    pub fn new() -> (t: SymbolTable)
        ensures
            t@ == Seq::<(Seq<char>, EntryV)>::empty(),
    {
        let t = SymbolTable { entries: Vec::new() };
        proof {
            assert(t@ =~= Seq::<(Seq<char>, EntryV)>::empty());
        }
        t
    }

    /// The index of the binding of `name`, if there is one.
    fn find(&self, name: &String) -> (r: Option<usize>)
        ensures
            match r {
                Some(i) => 0 <= i < self@.len() && key_index(self@, name@) == i,
                None => key_index(self@, name@) == -1,
            },
    {
        proof {
            lemma_pair_views(self.entries@);
        }
        let mut i: usize = 0;
        while i < self.entries.len()
            invariant
                i <= self.entries.len(),
                key_index(self@, name@) >= 0 ==> key_index(self@, name@) >= i,
            decreases self.entries.len() - i,
        {
            if self.entries[i].0 == *name {
                proof {
                    lemma_key_index(self@, name@);
                    assert(self@[i as int].0 == name@);
                    if key_index(self@, name@) == -1 {
                        assert(false);
                    }
                    assert(key_index(self@, name@) <= i) by {
                        lemma_key_index(self@, name@);
                        if key_index(self@, name@) > i {
                            assert(self@[i as int].0 != name@);
                        }
                    }
                }
                return Some(i);
            }
            proof {
                lemma_key_index(self@, name@);
                if key_index(self@, name@) == i {
                    assert(self@[i as int].0 == name@);
                }
            }
            i += 1;
        }
        proof {
            lemma_key_index(self@, name@);
        }
        None
    }

    /// Binds `name` to `entry`, overwriting any previous binding.
    fn insert(&mut self, name: String, entry: Entry) -> (nothing: ())
        ensures
            final(self)@ == spec_insert(old(self)@, name@, entry@),
    {
        proof {
            lemma_pair_views(self.entries@);
        }
        let found = self.find(&name);
        match found {
            Some(i) => {
                self.entries.set(i, (name, entry));
                proof {
                    lemma_pair_views(self.entries@);
                    lemma_pair_views(old(self).entries@);
                    assert(final(self)@ =~= old(self)@.update(
                        key_index(old(self)@, name@),
                        (name@, entry@),
                    ));
                }
            },
            None => {
                self.entries.push((name, entry));
                proof {
                    lemma_pair_views(self.entries@);
                    lemma_pair_views(old(self).entries@);
                    assert(final(self)@ =~= old(self)@.push((name@, entry@)));
                }
            },
        }
    }

    /// Records an automatic (stack) local of the given type.
    pub fn add_automatic_var(&mut self, name: String, t: Type)
        ensures
            final(self)@ == spec_insert(
                old(self)@,
                name@,
                EntryV { t: t@, attrs: IdentifierAttrs::LocalAttr },
            ),
    {
        self.insert(name, Entry { t, attrs: IdentifierAttrs::LocalAttr });
    }

    /// Records a variable with static storage duration.
    pub fn add_static_var(&mut self, name: String, t: Type, global: bool, init: InitialValue)
        ensures
            final(self)@ == spec_insert(
                old(self)@,
                name@,
                EntryV { t: t@, attrs: IdentifierAttrs::StaticAttr { init, global } },
            ),
    {
        self.insert(name, Entry { t, attrs: IdentifierAttrs::StaticAttr { init, global } });
    }

    /// Records a function, with a zero stack frame until codegen sets it.
    pub fn add_fun(&mut self, name: String, t: Type, global: bool, defined: bool)
        ensures
            final(self)@ == spec_insert(
                old(self)@,
                name@,
                EntryV {
                    t: t@,
                    attrs: IdentifierAttrs::FunAttr { defined, global, stack_frame_size: 0 },
                },
            ),
    {
        self.insert(
            name,
            Entry { t, attrs: IdentifierAttrs::FunAttr { defined, global, stack_frame_size: 0 } },
        );
    }

    /// Looks a name up, returning its entry if it is bound.
    pub fn get_opt(&self, name: &String) -> (r: Option<Entry>)
        ensures
            match r {
                Some(e) => spec_get(self@, name@) == Some(e@),
                None => spec_get(self@, name@) is None,
            },
    {
        proof {
            lemma_pair_views(self.entries@);
        }
        match self.find(name) {
            Some(i) => Some(self.entries[i].1.clone()),
            None => None,
        }
    }

    /// Looks a bound name up.
    pub fn get(&self, name: &String) -> (r: Entry)
        requires
            spec_get(self@, name@) is Some,
        ensures
            Some(r@) == spec_get(self@, name@),
    {
        proof {
            lemma_pair_views(self.entries@);
            lemma_key_index(self@, name@);
        }
        match self.find(name) {
            Some(i) => self.entries[i].1.clone(),
            None => {
                proof {
                    assert(false);
                }
                Entry { t: Type::Int, attrs: IdentifierAttrs::LocalAttr }
            },
        }
    }

    /// Whether a name is bound at all.
    pub fn is_defined(&self, name: &String) -> (r: bool)
        ensures
            r == (spec_get(self@, name@) is Some),
    {
        proof {
            lemma_key_index(self@, name@);
        }
        match self.find(name) {
            Some(_) => true,
            None => false,
        }
    }

    /// Whether a bound name has external visibility.
    pub fn is_global(&self, name: &String) -> (r: bool)
        requires
            spec_get(self@, name@) is Some,
        ensures
            r == match spec_get(self@, name@)->Some_0.attrs {
                IdentifierAttrs::LocalAttr => false,
                IdentifierAttrs::StaticAttr { init: _, global } => global,
                IdentifierAttrs::FunAttr { defined: _, global, stack_frame_size: _ } => global,
            },
    {
        let e = self.get(name);
        match e.attrs {
            IdentifierAttrs::LocalAttr => false,
            IdentifierAttrs::StaticAttr { init: _, global } => global,
            IdentifierAttrs::FunAttr { defined: _, global, stack_frame_size: _ } => global,
        }
    }

    /// Whether a name is a variable with static storage duration; an
    /// unbound name is not.  Functions have no storage duration.
    pub fn is_static(&self, name: &String) -> (r: bool)
        requires
            spec_get(self@, name@) matches Some(e) ==> !(e.attrs is FunAttr),
        ensures
            r == match spec_get(self@, name@) {
                Some(e) => e.attrs is StaticAttr,
                None => false,
            },
    {
        match self.get_opt(name) {
            Some(entry) => match entry.attrs {
                IdentifierAttrs::LocalAttr => false,
                IdentifierAttrs::StaticAttr { .. } => true,
                IdentifierAttrs::FunAttr { .. } => {
                    proof {
                        assert(false);
                    }
                    false
                },
            },
            None => false,
        }
    }

    /// The bindings, in order of first insertion.
    pub fn bindings(&self) -> (r: &Vec<(String, Entry)>)
        ensures
            pair_views(r@) == self@,
    {
        &self.entries
    }

    /// An iteration-ready list of the bindings, in order of first
    /// insertion.
    pub fn iter(&self) -> (r: &Vec<(String, Entry)>)
        ensures
            pair_views(r@) == self@,
    {
        &self.entries
    }

    /// Records the stack bytes a function's frame needs.
    pub fn set_bytes_required(&mut self, name: &String, bytes_required: i64)
        requires
            spec_get(old(self)@, name@) matches Some(e) && e.attrs is FunAttr,
        ensures
            final(self)@ == spec_insert(
                old(self)@,
                name@,
                EntryV {
                    t: spec_get(old(self)@, name@)->Some_0.t,
                    attrs: IdentifierAttrs::FunAttr {
                        defined: spec_get(old(self)@, name@)->Some_0.attrs->defined,
                        global: spec_get(old(self)@, name@)->Some_0.attrs->FunAttr_global,
                        stack_frame_size: bytes_required,
                    },
                },
            ),
    {
        proof {
            lemma_pair_views(self.entries@);
            lemma_key_index(self@, name@);
        }
        let entry = self.get(name);
        match entry.attrs {
            IdentifierAttrs::FunAttr { defined, global, stack_frame_size: _ } => {
                let new_entry = Entry {
                    t: entry.t,
                    attrs: IdentifierAttrs::FunAttr {
                        defined,
                        global,
                        stack_frame_size: bytes_required,
                    },
                };
                let name1 = name.clone();
                self.insert(name1, new_entry);
            },
            _ => {
                proof {
                    assert(false);
                }
            },
        }
    }

    /// Reads the stack bytes recorded for a function.
    pub fn get_bytes_required(&self, name: &String) -> (r: i64)
        requires
            spec_get(self@, name@) matches Some(e) && e.attrs is FunAttr,
        ensures
            r == spec_get(self@, name@)->Some_0.attrs->stack_frame_size,
    {
        let entry = self.get(name);
        match entry.attrs {
            IdentifierAttrs::FunAttr { defined: _, global: _, stack_frame_size } => {
                stack_frame_size
            },
            _ => {
                proof {
                    assert(false);
                }
                0
            },
        }
    }
}

} // verus!
