//! Scopes: who binds what, and where a name is looked for.
//!
//! All scopes of a session live in one [`Env`], each under an index. A scope knows
//! the index of the scope around it; a procedure knows the index of the scope it
//! was made in. A name is looked for in the current scope, then in the scopes
//! around it, outwards.

use vstd::prelude::*;
use crate::value::{texts, view_of, views, LispType, Value};

verus! {

broadcast use crate::value::lemma_list_view;

/// The model of one scope.
pub struct ScopeModel {
    /// The names bound here, oldest first.
    pub names: Seq<Seq<char>>,
    /// What each name is bound to.
    pub values: Seq<Value>,
    /// The scope around this one; the outermost scope has none.
    pub parent: Option<nat>,
    /// Whether a procedure was made here.
    pub captured: bool,
}

/// The model of an [`Env`]: its scopes, and which of them is the current one.
pub struct EnvModel {
    pub scopes: Seq<ScopeModel>,
    pub current: nat,
}

/// The place of a name among the names of a scope: that of its first occurrence.
pub open spec fn position(names: Seq<Seq<char>>, name: Seq<char>) -> Option<nat>
    decreases names.len(),
{
    if names.len() == 0 {
        None
    } else if names[0] == name {
        Some(0)
    } else {
        match position(names.drop_first(), name) {
            Some(i) => Some(i + 1),
            None => None,
        }
    }
}

/// No name occurs twice.
pub open spec fn distinct(names: Seq<Seq<char>>) -> bool {
    forall|i: int, j: int| 0 <= i < j < names.len() ==> names[i] != names[j]
}

impl ScopeModel {
    /// An empty scope.
    pub open spec fn empty(parent: Option<nat>) -> ScopeModel {
        ScopeModel { names: Seq::empty(), values: Seq::empty(), parent, captured: false }
    }

    /// Every name has a value, and no name is bound twice.
    pub open spec fn wf(self) -> bool {
        self.names.len() == self.values.len() && distinct(self.names)
    }

    /// What the scope itself binds a name to.
    pub open spec fn get(self, name: Seq<char>) -> Option<Value> {
        match position(self.names, name) {
            Some(i) => Some(self.values[i as int]),
            None => None,
        }
    }
}

impl EnvModel {
    /// One empty scope, which is the current one.
    pub open spec fn root() -> EnvModel {
        EnvModel { scopes: seq![ScopeModel::empty(None)], current: 0 }
    }

    /// The current scope exists, and every scope is well formed.
    pub open spec fn wf(self) -> bool {
        &&& self.current < self.scopes.len()
        &&& forall|k: int| 0 <= k < self.scopes.len() ==> (#[trigger] self.scopes[k]).wf()
    }

    /// The nearest scope that binds `name`, from scope `from` outwards. A scope
    /// whose parent does not precede it is taken to have none.
    pub open spec fn resolve(self, from: nat, name: Seq<char>) -> Option<nat>
        decreases from,
    {
        if from >= self.scopes.len() {
            None
        } else if position(self.scopes[from as int].names, name) is Some {
            Some(from)
        } else {
            match self.scopes[from as int].parent {
                Some(p) => if p < from {
                    self.resolve(p, name)
                } else {
                    None
                },
                None => None,
            }
        }
    }

    /// What `name` is bound to, as seen from the current scope.
    pub open spec fn lookup(self, name: Seq<char>) -> Option<Value> {
        match self.resolve(self.current, name) {
            Some(k) => self.scopes[k as int].get(name),
            None => None,
        }
    }

    /// Whether the current scope itself binds `name`.
    pub open spec fn bound_here(self, name: Seq<char>) -> bool {
        self.current < self.scopes.len() && position(
            self.scopes[self.current as int].names,
            name,
        ) is Some
    }

    /// `name` bound to `value` in the current scope, unless that scope binds it
    /// already: then nothing changes.
    pub open spec fn define(self, name: Seq<char>, value: Value) -> EnvModel {
        if self.current >= self.scopes.len() || self.bound_here(name) {
            self
        } else {
            let scope = self.scopes[self.current as int];
            EnvModel {
                scopes: self.scopes.update(
                    self.current as int,
                    ScopeModel {
                        names: scope.names.push(name),
                        values: scope.values.push(value),
                        ..scope
                    },
                ),
                ..self
            }
        }
    }

    /// `name` rebound to `value` in the nearest scope that binds it; nothing
    /// changes if none does.
    pub open spec fn assign(self, name: Seq<char>, value: Value) -> EnvModel {
        match self.resolve(self.current, name) {
            Some(k) => {
                let scope = self.scopes[k as int];
                let i = position(scope.names, name)->0;
                EnvModel {
                    scopes: self.scopes.update(
                        k as int,
                        ScopeModel { values: scope.values.update(i as int, value), ..scope },
                    ),
                    ..self
                }
            },
            None => self,
        }
    }

    /// A new, empty scope inside scope `parent`, made the current one.
    pub open spec fn enter(self, parent: nat) -> EnvModel {
        EnvModel {
            scopes: self.scopes.push(ScopeModel::empty(Some(parent))),
            current: self.scopes.len(),
        }
    }

    /// Back in scope `caller`. The last scope is dropped if it is scope `frame`
    /// and no procedure was made in it.
    pub open spec fn leave(self, frame: nat, caller: nat) -> EnvModel {
        EnvModel {
            scopes: if self.scopes.len() == frame + 1 && !self.scopes[frame as int].captured {
                self.scopes.drop_last()
            } else {
                self.scopes
            },
            current: caller,
        }
    }

    /// The current scope marked as one in which a procedure was made.
    pub open spec fn capture(self) -> EnvModel {
        if self.current >= self.scopes.len() {
            self
        } else {
            let scope = self.scopes[self.current as int];
            EnvModel {
                scopes: self.scopes.update(
                    self.current as int,
                    ScopeModel { captured: true, ..scope },
                ),
                ..self
            }
        }
    }
}

impl EnvModel {
    /// The scope that `resolve` finds exists, lies at or before the scope where
    /// the search began, and binds the name.
    pub proof fn lemma_resolve_sound(self, from: nat, name: Seq<char>)
        ensures
            match self.resolve(from, name) {
                Some(k) => k <= from && k < self.scopes.len() && position(
                    self.scopes[k as int].names,
                    name,
                ) is Some,
                None => true,
            },
        decreases from,
    {
        if from < self.scopes.len() && position(self.scopes[from as int].names, name) is None {
            match self.scopes[from as int].parent {
                Some(p) => {
                    if p < from {
                        self.lemma_resolve_sound(p, name);
                    }
                },
                None => {},
            }
        }
    }
}

/// A name found at `i` and not before is at position `i`.
pub proof fn lemma_position_found(names: Seq<Seq<char>>, name: Seq<char>, i: int)
    requires
        0 <= i < names.len(),
        names[i] == name,
        forall|j: int| 0 <= j < i ==> names[j] != name,
    ensures
        position(names, name) == Some(i as nat),
    decreases i,
{
    if i > 0 {
        lemma_position_found(names.drop_first(), name, i - 1);
    }
}

/// A name that does not occur has no position.
pub proof fn lemma_position_absent(names: Seq<Seq<char>>, name: Seq<char>)
    requires
        forall|j: int| 0 <= j < names.len() ==> names[j] != name,
    ensures
        position(names, name) is None,
    decreases names.len(),
{
    if names.len() > 0 {
        lemma_position_absent(names.drop_first(), name);
    }
}

/// At its position a name occurs, and nowhere before.
pub proof fn lemma_position_sound(names: Seq<Seq<char>>, name: Seq<char>)
    ensures
        match position(names, name) {
            Some(i) => i < names.len() && names[i as int] == name && forall|j: int|
                0 <= j < i ==> names[j] != name,
            None => forall|j: int| 0 <= j < names.len() ==> names[j] != name,
        },
    decreases names.len(),
{
    if names.len() > 0 && names[0] != name {
        let rest = names.drop_first();
        lemma_position_sound(rest, name);
        match position(rest, name) {
            Some(i) => {
                assert forall|j: int| 0 <= j < i + 1 implies names[j] != name by {
                    if j > 0 {
                        assert(rest[j - 1] == names[j]);
                    }
                }
            },
            None => {
                assert forall|j: int| 0 <= j < names.len() implies names[j] != name by {
                    if j > 0 {
                        assert(rest[j - 1] == names[j]);
                    }
                }
            },
        }
    }
}

/// One scope: its bindings, the scope around it, and whether a procedure was
/// made in it.
pub struct Scope {
    names: Vec<String>,
    values: Vec<LispType>,
    parent: Option<usize>,
    captured: bool,
}

impl View for Scope {
    type V = ScopeModel;

    closed spec fn view(&self) -> ScopeModel {
        ScopeModel {
            names: texts(self.names@),
            values: views(self.values@),
            parent: match self.parent {
                Some(p) => Some(p as nat),
                None => None,
            },
            captured: self.captured,
        }
    }
}

/// The scopes of a session, and the index of the current one.
pub struct Env {
    scopes: Vec<Scope>,
    current: usize,
}

impl View for Env {
    type V = EnvModel;

    closed spec fn view(&self) -> EnvModel {
        EnvModel {
            scopes: Seq::new(self.scopes@.len(), |k: int| self.scopes@[k]@),
            current: self.current as nat,
        }
    }
}

impl Env {
    /// The current scope exists, every name has a value, and no scope binds a
    /// name twice.
    pub open spec fn wf(&self) -> bool {
        self@.wf()
    }

    /// An environment of one empty scope.
    pub fn new() -> (r: Env)
        ensures
            r@ == EnvModel::root(),
            r.wf(),
    {
        let mut scopes: Vec<Scope> = Vec::new();
        scopes.push(Scope { names: Vec::new(), values: Vec::new(), parent: None, captured: false });
        let r = Env { scopes, current: 0 };
        proof {
            assert(r@.scopes[0].names =~= Seq::<Seq<char>>::empty());
            assert(r@.scopes[0].values =~= Seq::<Value>::empty());
            assert(r@.scopes =~= EnvModel::root().scopes);
        }
        r
    }

    /// The index of the current scope.
    pub fn current(&self) -> (r: usize)
        ensures
            r == self@.current,
    {
        self.current
    }

    /// The number of scopes.
    pub fn len(&self) -> (r: usize)
        ensures
            r == self@.scopes.len(),
    {
        self.scopes.len()
    }

    /// Where scope `k` binds `s`, if it does.
    fn find(&self, k: usize, s: &String) -> (r: Option<usize>)
        requires
            k < self@.scopes.len(),
        ensures
            match r {
                Some(i) => position(self@.scopes[k as int].names, s@) == Some(i as nat),
                None => position(self@.scopes[k as int].names, s@) is None,
            },
    {
        let names = &self.scopes[k].names;
        let mut i: usize = 0;
        while i < names.len()
            invariant
                i <= names.len(),
                k < self@.scopes.len(),
                texts(names@) == self@.scopes[k as int].names,
                forall|j: int| 0 <= j < i ==> names[j]@ != s@,
            decreases names.len() - i,
        {
            if names[i] == *s {
                proof {
                    lemma_position_found(texts(names@), s@, i as int);
                }
                return Some(i);
            }
            i = i + 1;
        }
        proof {
            lemma_position_absent(texts(names@), s@);
        }
        None
    }

    /// The nearest scope that binds `s`, from the current scope outwards.
    fn resolve(&self, s: &String) -> (r: Option<usize>)
        requires
            self.wf(),
        ensures
            match r {
                Some(k) => self@.resolve(self@.current, s@) == Some(k as nat) && k
                    < self@.scopes.len(),
                None => self@.resolve(self@.current, s@) is None,
            },
    {
        let mut k: usize = self.current;
        loop
            invariant
                k < self.scopes.len(),
                self@.resolve(self@.current, s@) == self@.resolve(k as nat, s@),
            decreases k,
        {
            if self.find(k, s).is_some() {
                return Some(k);
            }
            match self.scopes[k].parent {
                Some(p) => {
                    if p < k {
                        k = p;
                    } else {
                        return None;
                    }
                },
                None => {
                    return None;
                },
            }
        }
    }

    /// What `s` is bound to, as seen from the current scope.
    pub fn lookup_symbol(&self, s: &String) -> (r: Option<LispType>)
        requires
            self.wf(),
        ensures
            view_of(r) == self@.lookup(s@),
    {
        match self.resolve(s) {
            Some(k) => {
                proof {
                    self@.lemma_resolve_sound(self@.current, s@);
                    lemma_position_sound(self@.scopes[k as int].names, s@);
                }
                match self.find(k, s) {
                    Some(i) => {
                        Some(self.scopes[k].values[i].copy())
                    },
                    None => None,
                }
            },
            None => None,
        }
    }

    /// Binds `sym` to `value` in the current scope, unless that scope binds `sym`
    /// already. Tells whether it did.
    pub fn add_symbol(&mut self, sym: &String, value: &LispType) -> (done: bool)
        requires
            old(self).wf(),
        ensures
            final(self).wf(),
            final(self)@ == old(self)@.define(sym@, value@),
            final(self)@.current == old(self)@.current,
            final(self)@.scopes.len() == old(self)@.scopes.len(),
            done == !old(self)@.bound_here(sym@),
    {
        let k = self.current;
        if self.find(k, sym).is_some() {
            return false;
        }
        proof {
            lemma_position_sound(self@.scopes[k as int].names, sym@);
        }
        let ghost before = self@;
        self.scopes[k].names.push(sym.clone());
        self.scopes[k].values.push(value.copy());
        proof {
            let after = before.define(sym@, value@);
            assert(self@.scopes[k as int].names =~= before.scopes[k as int].names.push(sym@));
            assert(self@.scopes[k as int].values =~= before.scopes[k as int].values.push(value@));
            assert(self@.scopes =~= after.scopes);
        }
        true
    }

    /// Rebinds `sym` to `value` in the nearest scope that binds it. Tells whether
    /// there was one.
    pub fn set_symbol(&mut self, sym: &String, value: &LispType) -> (done: bool)
        requires
            old(self).wf(),
        ensures
            final(self).wf(),
            final(self)@ == old(self)@.assign(sym@, value@),
            final(self)@.current == old(self)@.current,
            final(self)@.scopes.len() == old(self)@.scopes.len(),
            done == old(self)@.resolve(old(self)@.current, sym@) is Some,
    {
        match self.resolve(sym) {
            Some(k) => {
                proof {
                    self@.lemma_resolve_sound(self@.current, sym@);
                    lemma_position_sound(self@.scopes[k as int].names, sym@);
                }
                match self.find(k, sym) {
                    Some(i) => {
                        let ghost before = self@;
                        self.scopes[k].values[i] = value.copy();
                        proof {
                            let after = before.assign(sym@, value@);
                            assert(self@.scopes[k as int].values =~= before.scopes[k as int].values.update(
                                i as int,
                                value@,
                            ));
                            assert(self@.scopes =~= after.scopes);
                        }
                        true
                    },
                    None => false,
                }
            },
            None => false,
        }
    }

    /// Opens an empty scope inside scope `parent` and makes it the current one.
    /// Returns its index.
    pub fn enter(&mut self, parent: usize) -> (frame: usize)
        requires
            old(self).wf(),
            old(self)@.scopes.len() < usize::MAX,
        ensures
            final(self).wf(),
            final(self)@ == old(self)@.enter(parent as nat),
            frame == old(self)@.scopes.len(),
    {
        let frame = self.scopes.len();
        let ghost before = self@;
        self.scopes.push(
            Scope { names: Vec::new(), values: Vec::new(), parent: Some(parent), captured: false },
        );
        self.current = frame;
        proof {
            let after = before.enter(parent as nat);
            assert(self@.scopes[frame as int].names =~= Seq::<Seq<char>>::empty());
            assert(self@.scopes[frame as int].values =~= Seq::<Value>::empty());
            assert(self@.scopes =~= after.scopes);
        }
        frame
    }

    /// Makes scope `caller` the current one again, and drops the last scope if it
    /// is scope `frame` and no procedure was made in it.
    pub fn leave(&mut self, frame: usize, caller: usize)
        requires
            old(self).wf(),
            caller < frame < old(self)@.scopes.len(),
        ensures
            final(self).wf(),
            final(self)@ == old(self)@.leave(frame as nat, caller as nat),
    {
        let ghost before = self@;
        if self.scopes.len() - 1 == frame && !self.scopes[frame].captured {
            self.scopes.pop();
        }
        self.current = caller;
        proof {
            let after = before.leave(frame as nat, caller as nat);
            assert(self@.scopes =~= after.scopes);
        }
    }

    /// Marks the current scope as one in which a procedure was made, and returns
    /// its index.
    pub fn capture(&mut self) -> (scope: usize)
        requires
            old(self).wf(),
        ensures
            final(self).wf(),
            final(self)@ == old(self)@.capture(),
            scope == old(self)@.current,
    {
        let k = self.current;
        let ghost before = self@;
        self.scopes[k].captured = true;
        proof {
            assert(self@.scopes =~= before.capture().scopes);
        }
        k
    }
}

} // verus!
