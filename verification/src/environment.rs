//! The environment: a chain of scopes mapping names to values.
//!
//! Scopes are held in one arena and name each other by index, so that a
//! closure can keep its defining scope alive after the block that made
//! it has finished.  Each scope holds an optional parent index and its
//! own bindings; a binding is either initialized with a value or
//! declared and still uninitialized.

use vstd::prelude::*;

use crate::result::{value_view, EnvironmentRef, IResult, ValueV};

verus! {

/// One scope: a parent link and the bindings made in it.  A binding
/// maps a name to `Some(value)` once initialized, or to `None` while
/// declared but uninitialized.
pub struct Environment {
    pub parent: Option<EnvironmentRef>,
    pub bindings: Vec<(String, Option<IResult>)>,
}

/// The view of one scope: its bindings as a map.  When a name was bound
/// more than once, the latest binding is the one seen.
pub struct ScopeV {
    pub parent: Option<EnvironmentRef>,
    pub bindings: Map<Seq<char>, Option<ValueV>>,
}

/// The view of an optional value.
pub open spec fn opt_value_view(o: Option<IResult>) -> Option<ValueV> {
    match o {
        Some(v) => Some(value_view(v)),
        None => None,
    }
}

/// The map seen through a list of bindings: later entries shadow
/// earlier ones.
pub open spec fn bindings_view(s: Seq<(String, Option<IResult>)>) -> Map<Seq<char>, Option<ValueV>>
    decreases s,
{
    if s.len() == 0 {
        Map::empty()
    } else {
        bindings_view(s.drop_last()).insert(s.last().0@, opt_value_view(s.last().1))
    }
}

impl View for Environment {
    type V = ScopeV;

    open spec fn view(&self) -> ScopeV {
        ScopeV { parent: self.parent, bindings: bindings_view(self.bindings@) }
    }
}

/// A binding list's map holds exactly the keys that occur in the list.
pub proof fn lemma_bindings_view_absent(s: Seq<(String, Option<IResult>)>, k: Seq<char>)
    requires
        forall|j: int| 0 <= j < s.len() ==> s[j].0@ != k,
    ensures
        !bindings_view(s).contains_key(k),
    decreases s,
{
    if s.len() > 0 {
        lemma_bindings_view_absent(s.drop_last(), k);
    }
}

/// The map of a binding list reads the latest occurrence of a key.
pub proof fn lemma_bindings_view_at(s: Seq<(String, Option<IResult>)>, i: int)
    requires
        0 <= i < s.len(),
        forall|j: int| i < j < s.len() ==> s[j].0@ != s[i].0@,
    ensures
        bindings_view(s).contains_key(s[i].0@),
        bindings_view(s)[s[i].0@] == opt_value_view(s[i].1),
    decreases s,
{
    if i == s.len() - 1 {
    } else {
        lemma_bindings_view_at(s.drop_last(), i);
    }
}

impl Environment {
    /// A scope with no parent and no bindings.
    pub fn new() -> (r: Environment)
        ensures
            r@.parent is None,
            r@.bindings == Map::<Seq<char>, Option<ValueV>>::empty(),
    {
        Environment { parent: None, bindings: Vec::new() }
    }

    /// A scope with the given parent and no bindings.
    pub fn new_with_parent(parent: EnvironmentRef) -> (r: Environment)
        ensures
            r@.parent == Some(parent),
            r@.bindings == Map::<Seq<char>, Option<ValueV>>::empty(),
    {
        Environment { parent: Some(parent), bindings: Vec::new() }
    }

    /// The position of the binding of `name` in this scope, if any: the
    /// latest one.
    fn find(&self, name: &String) -> (r: Option<usize>)
        ensures
            match r {
                Some(i) => i < self.bindings@.len() && self.bindings@[i as int].0@ == name@
                    && (forall|j: int| i < j < self.bindings@.len() ==> self.bindings@[j].0@ != name@)
                    && self@.bindings.contains_key(name@)
                    && self@.bindings[name@] == opt_value_view(self.bindings@[i as int].1),
                None => !self@.bindings.contains_key(name@),
            },
    {
        let mut i: usize = self.bindings.len();
        while i > 0
            invariant
                i <= self.bindings@.len(),
                forall|j: int| i <= j < self.bindings@.len() ==> self.bindings@[j].0@ != name@,
            decreases i,
        {
            i = i - 1;
            if self.bindings[i].0 == *name {
                proof {
                    lemma_bindings_view_at(self.bindings@, i as int);
                }
                return Some(i);
            }
        }
        proof {
            lemma_bindings_view_absent(self.bindings@, name@);
        }
        None
    }

    /// Whether this scope itself binds `name`.
    pub fn is_bound_local(&self, name: &String) -> (r: bool)
        ensures
            r == self@.bindings.contains_key(name@),
    {
        self.find(name).is_some()
    }

    /// The value bound to `name` in this scope itself: `None` when the
    /// scope does not bind it, `Some(None)` when it is declared but
    /// uninitialized.
    pub fn get_local(&self, name: &String) -> (r: Option<Option<IResult>>)
        ensures
            match r {
                None => !self@.bindings.contains_key(name@),
                Some(o) => self@.bindings.contains_key(name@)
                    && self@.bindings[name@] == opt_value_view(o),
            },
    {
        match self.find(name) {
            None => None,
            Some(i) => match &self.bindings[i].1 {
                None => Some(None),
                Some(v) => Some(Some(v.duplicate())),
            },
        }
    }

    /// Installs `name` in this scope, shadowing any previous binding of
    /// it.
    pub fn declare_local(&mut self, name: &String, value: Option<IResult>)
        ensures
            final(self)@.parent == old(self)@.parent,
            final(self)@.bindings == old(self)@.bindings.insert(name@, opt_value_view(value)),
    {
        let ghost s0 = self.bindings@;
        self.bindings.push((name.clone(), value));
        proof {
            assert(self.bindings@.drop_last() =~= s0);
        }
    }

    /// Replaces the binding of `name` in this scope; leaves the scope
    /// unchanged and reports failure when it does not bind `name`.
    pub fn assign_local(&mut self, name: &String, value: IResult) -> (r: bool)
        ensures
            final(self)@.parent == old(self)@.parent,
            r == old(self)@.bindings.contains_key(name@),
            r ==> final(self)@.bindings == old(self)@.bindings.insert(name@, Some(value@)),
            !r ==> *final(self) == *old(self),
    {
        let ghost s0 = self.bindings@;
        match self.find(name) {
            None => false,
            Some(i) => {
                self.bindings[i] = (name.clone(), Some(value));
                proof {
                    lemma_update_binding(s0, i as int, self.bindings@[i as int]);
                    assert(self.bindings@ =~= s0.update(i as int, self.bindings@[i as int]));
                }
                true
            },
        }
    }
}

/// Resolution of `name` along the chain that starts at scope `at`: the
/// first scope, walking parent links outward, that binds `name`.
pub open spec fn binder_of(ss: Seq<ScopeV>, at: int, name: Seq<char>) -> Option<int>
    decreases at,
{
    if !(0 <= at < ss.len()) {
        None
    } else if ss[at].bindings.contains_key(name) {
        Some(at)
    } else {
        match ss[at].parent {
            Some(p) => if p < at {
                binder_of(ss, p as int, name)
            } else {
                None
            },
            None => None,
        }
    }
}

/// The binding of `name` seen from scope `at`: `None` when no scope in
/// the chain binds it, `Some(None)` when the nearest binding is still
/// uninitialized, `Some(Some(v))` otherwise.
pub open spec fn lookup_scopes(ss: Seq<ScopeV>, at: int, name: Seq<char>) -> Option<Option<ValueV>> {
    match binder_of(ss, at, name) {
        Some(b) => Some(ss[b].bindings[name]),
        None => None,
    }
}

/// The scopes after installing `name` in scope `at`: only that scope
/// changes, and only at that name.
pub open spec fn declare_scopes(
    ss: Seq<ScopeV>,
    at: int,
    name: Seq<char>,
    o: Option<ValueV>,
) -> Seq<ScopeV> {
    if 0 <= at < ss.len() {
        ss.update(at, ScopeV { parent: ss[at].parent, bindings: ss[at].bindings.insert(name, o) })
    } else {
        ss
    }
}

/// The scopes after assigning to `name` from scope `at`: the nearest
/// scope that binds `name` is rewritten at that name, every other scope
/// is unchanged, and nothing changes when no scope binds it.
pub open spec fn assign_scopes(
    ss: Seq<ScopeV>,
    at: int,
    name: Seq<char>,
    v: ValueV,
) -> Seq<ScopeV> {
    match binder_of(ss, at, name) {
        Some(b) => ss.update(
            b,
            ScopeV { parent: ss[b].parent, bindings: ss[b].bindings.insert(name, Some(v)) },
        ),
        None => ss,
    }
}

/// The scope a resolution names is a real scope that binds the name,
/// and the lookup reads that scope's binding.
pub proof fn lemma_binder_lookup(ss: Seq<ScopeV>, at: int, name: Seq<char>)
    ensures
        match binder_of(ss, at, name) {
            Some(b) => 0 <= b <= at && b < ss.len() && ss[b].bindings.contains_key(name)
                && lookup_scopes(ss, at, name) == Some(ss[b].bindings[name]),
            None => lookup_scopes(ss, at, name) is None,
        },
    decreases at,
{
    if 0 <= at < ss.len() && !ss[at].bindings.contains_key(name) {
        if let Some(p) = ss[at].parent {
            if p < at {
                lemma_binder_lookup(ss, p as int, name);
            }
        }
    }
}

/// The arena of scopes: every scope the interpreter has made, in the
/// order of creation, each naming its parent by a smaller index.
pub struct Environments {
    pub scopes: Vec<Environment>,
}

impl View for Environments {
    type V = Seq<ScopeV>;

    open spec fn view(&self) -> Seq<ScopeV> {
        self.scopes@.map_values(|e: Environment| e@)
    }
}

impl Environments {
    /// An arena with no scopes.
    pub fn new() -> (r: Environments)
        ensures
            r@ == Seq::<ScopeV>::empty(),
    {
        let r = Environments { scopes: Vec::new() };
        proof {
            assert(r@ =~= Seq::<ScopeV>::empty());
        }
        r
    }

    /// How many scopes exist.
    pub fn n_scopes(&self) -> (r: usize)
        ensures
            r == self@.len(),
    {
        self.scopes.len()
    }

    /// Makes a fresh scope with no parent and returns its index.
    pub fn new_scope(&mut self) -> (r: EnvironmentRef)
        ensures
            final(self)@ == old(self)@.push(
                ScopeV { parent: None, bindings: Map::<Seq<char>, Option<ValueV>>::empty() },
            ),
            r == old(self)@.len(),
    {
        let r = self.scopes.len();
        self.scopes.push(Environment::new());
        proof {
            assert(final(self)@ =~= old(self)@.push(
                ScopeV { parent: None, bindings: Map::<Seq<char>, Option<ValueV>>::empty() },
            ));
        }
        r
    }

    /// Makes a fresh scope linked to the given parent and returns its
    /// index.
    pub fn new_with_parent(&mut self, parent: EnvironmentRef) -> (r: EnvironmentRef)
        ensures
            final(self)@ == old(self)@.push(
                ScopeV { parent: Some(parent), bindings: Map::<Seq<char>, Option<ValueV>>::empty() },
            ),
            r == old(self)@.len(),
    {
        let r = self.scopes.len();
        self.scopes.push(Environment::new_with_parent(parent));
        proof {
            assert(final(self)@ =~= old(self)@.push(
                ScopeV { parent: Some(parent), bindings: Map::<Seq<char>, Option<ValueV>>::empty() },
            ));
        }
        r
    }

    /// The value of the nearest binding of `name` seen from scope `at`.
    pub fn get(&self, at: EnvironmentRef, name: &String) -> (r: Option<Option<IResult>>)
        ensures
            match r {
                None => lookup_scopes(self@, at as int, name@) is None,
                Some(o) => lookup_scopes(self@, at as int, name@) == Some(opt_value_view(o)),
            },
        decreases at,
    {
        if at >= self.scopes.len() {
            return None;
        }
        match self.scopes[at].get_local(name) {
            Some(o) => Some(o),
            None => match self.scopes[at].parent {
                Some(p) => if p < at {
                    self.get(p, name)
                } else {
                    None
                },
                None => None,
            },
        }
    }

    /// Whether any scope in the chain seen from `at` binds `name`.
    pub fn is_binded(&self, at: EnvironmentRef, name: &String) -> (r: bool)
        ensures
            r == (lookup_scopes(self@, at as int, name@) is Some),
        decreases at,
    {
        if at >= self.scopes.len() {
            return false;
        }
        if self.scopes[at].is_bound_local(name) {
            true
        } else {
            match self.scopes[at].parent {
                Some(p) => if p < at {
                    self.is_binded(p, name)
                } else {
                    false
                },
                None => false,
            }
        }
    }

    /// Installs `name` in scope `at` with the uninitialized marker,
    /// shadowing any outer binding.
    pub fn declare(&mut self, at: EnvironmentRef, name: &String)
        ensures
            final(self)@ == declare_scopes(old(self)@, at as int, name@, None),
    {
        if at < self.scopes.len() {
            self.scopes[at].declare_local(name, None);
            proof {
                assert(final(self)@ =~= declare_scopes(old(self)@, at as int, name@, None));
            }
        }
    }

    /// Installs `name` in scope `at` with the given value, shadowing
    /// any outer binding.
    pub fn declare_and_init(&mut self, at: EnvironmentRef, name: &String, value: IResult)
        ensures
            final(self)@ == declare_scopes(old(self)@, at as int, name@, Some(value@)),
    {
        let ghost v = value@;
        if at < self.scopes.len() {
            self.scopes[at].declare_local(name, Some(value));
            proof {
                assert(final(self)@ =~= declare_scopes(old(self)@, at as int, name@, Some(v)));
            }
        }
    }

    /// Walks outward from scope `at` and rewrites the nearest binding
    /// of `name`; succeeds exactly when some scope in the chain binds
    /// it, and never creates a binding.
    pub fn assign(&mut self, at: EnvironmentRef, name: &String, value: IResult) -> (r: bool)
        ensures
            final(self)@ == assign_scopes(old(self)@, at as int, name@, value@),
            r == (binder_of(old(self)@, at as int, name@) is Some),
        decreases at,
    {
        let ghost v = value@;
        if at >= self.scopes.len() {
            return false;
        }
        if self.scopes[at].is_bound_local(name) {
            let _ = self.scopes[at].assign_local(name, value);
            proof {
                assert(final(self)@ =~= assign_scopes(old(self)@, at as int, name@, v));
            }
            true
        } else {
            match self.scopes[at].parent {
                Some(p) => if p < at {
                    self.assign(p, name, value)
                } else {
                    false
                },
                None => false,
            }
        }
    }
}

/// Updating the latest occurrence of a key rewrites exactly that key in
/// the map.
proof fn lemma_update_binding(s: Seq<(String, Option<IResult>)>, i: int, x: (String, Option<IResult>))
    requires
        0 <= i < s.len(),
        x.0@ == s[i].0@,
        forall|j: int| i < j < s.len() ==> s[j].0@ != s[i].0@,
    ensures
        bindings_view(s.update(i, x)) == bindings_view(s).insert(x.0@, opt_value_view(x.1)),
    decreases s,
{
    let s2 = s.update(i, x);
    if i == s.len() - 1 {
        assert(s2.drop_last() =~= s.drop_last());
        assert(bindings_view(s2) =~= bindings_view(s).insert(x.0@, opt_value_view(x.1)));
    } else {
        lemma_update_binding(s.drop_last(), i, x);
        assert(s2.drop_last() =~= s.drop_last().update(i, x));
        assert(s2.last() == s.last());
        assert(bindings_view(s2) =~= bindings_view(s).insert(x.0@, opt_value_view(x.1)));
    }
}

} // verus!
