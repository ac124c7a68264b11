//! Scopes: what names are bound to, and how scopes lie inside each other.

use crate::expr::{LiteralValue, ValueView};
use vstd::prelude::*;

verus! {

/// One scope as contracts see it: what each name is bound to, and the scope
/// around it.
pub struct ScopeView {
    pub bindings: Map<Seq<char>, ValueView>,
    pub enclosing: Option<usize>,
}

/// The scopes of a program as contracts see them, each under its index.
pub struct EnvironmentView {
    pub scopes: Seq<ScopeView>,
}

/// Every scope but the outermost ones lies inside a scope that was made
/// before it, so the chain of enclosing scopes ends.
pub open spec fn chained(env: EnvironmentView) -> bool {
    forall|i: int|
        0 <= i < env.scopes.len() ==> match (#[trigger] env.scopes[i]).enclosing {
            Some(p) => p < i,
            None => true,
        }
}

/// The scopes form one tree: the first scope lies in none, and every other
/// scope lies inside a scope that was made before it.
pub open spec fn rooted(env: EnvironmentView) -> bool {
    &&& env.scopes.len() > 0
    &&& env.scopes[0].enclosing is None
    &&& forall|i: int|
        1 <= i < env.scopes.len() ==> match (#[trigger] env.scopes[i]).enclosing {
            Some(p) => p < i,
            None => false,
        }
}

/// The nearest scope, from `scope` outwards, that binds `name`.
pub open spec fn holder(env: EnvironmentView, scope: int, name: Seq<char>) -> Option<int>
    decreases scope,
{
    if !(0 <= scope < env.scopes.len()) {
        None
    } else if env.scopes[scope].bindings.contains_key(name) {
        Some(scope)
    } else {
        match env.scopes[scope].enclosing {
            Some(p) => if p < scope {
                holder(env, p as int, name)
            } else {
                None
            },
            None => None,
        }
    }
}

/// What `name` is bound to, seen from `scope`.
pub open spec fn lookup(env: EnvironmentView, scope: int, name: Seq<char>) -> Option<ValueView> {
    match holder(env, scope, name) {
        Some(h) => Some(env.scopes[h].bindings[name]),
        None => None,
    }
}

/// The environment after `name` is bound to `value` in `scope` itself.
pub open spec fn defined(env: EnvironmentView, scope: int, name: Seq<char>, value: ValueView)
    -> EnvironmentView {
    EnvironmentView {
        scopes: env.scopes.update(
            scope,
            ScopeView {
                bindings: env.scopes[scope].bindings.insert(name, value),
                enclosing: env.scopes[scope].enclosing,
            },
        ),
    }
}

/// The environment after an assignment to `name` from `scope`: the nearest
/// binding of `name` changes; without one nothing does.
pub open spec fn assigned(env: EnvironmentView, scope: int, name: Seq<char>, value: ValueView)
    -> EnvironmentView {
    match holder(env, scope, name) {
        Some(h) => defined(env, h, name, value),
        None => env,
    }
}

/// The outermost scope around `scope`.
pub open spec fn root_of(env: EnvironmentView, scope: int) -> int
    decreases scope,
{
    if !(0 <= scope < env.scopes.len()) {
        scope
    } else {
        match env.scopes[scope].enclosing {
            Some(p) => if p < scope {
                root_of(env, p as int)
            } else {
                scope
            },
            None => scope,
        }
    }
}

/// The environment with one more scope, empty, inside `enclosing`.
pub open spec fn extended(env: EnvironmentView, enclosing: Option<usize>) -> EnvironmentView {
    EnvironmentView {
        scopes: env.scopes.push(ScopeView { bindings: Map::empty(), enclosing }),
    }
}

/// In a tree of scopes the outermost scope around every scope is the first.
pub proof fn lemma_root_is_first(env: EnvironmentView, scope: int)
    requires
        rooted(env),
        0 <= scope < env.scopes.len(),
    ensures
        root_of(env, scope) == 0,
    decreases scope,
{
    if scope > 0 {
        match env.scopes[scope].enclosing {
            Some(p) => {
                lemma_root_is_first(env, p as int);
            },
            None => {},
        }
    }
}

/// A binding made in a scope is not seen from the scopes that were made
/// before it: what a block declares does not reach the scope around it.
pub proof fn lemma_define_is_local(
    env: EnvironmentView,
    inner: int,
    outer: int,
    name: Seq<char>,
    value: ValueView,
    other: Seq<char>,
)
    requires
        chained(env),
        0 <= outer < inner < env.scopes.len(),
    ensures
        lookup(defined(env, inner, name, value), outer, other) == lookup(env, outer, other),
        holder(defined(env, inner, name, value), outer, other) == holder(env, outer, other),
    decreases outer,
{
    let after = defined(env, inner, name, value);
    assert(after.scopes[outer] == env.scopes[outer]);
    if !env.scopes[outer].bindings.contains_key(other) {
        match env.scopes[outer].enclosing {
            Some(p) => {
                if p < outer {
                    lemma_define_is_local(env, inner, p as int, name, value, other);
                }
            },
            None => {},
        }
    }
}

/// A name is found in the scope that holds it.
pub proof fn lemma_holder_binds(env: EnvironmentView, scope: int, name: Seq<char>)
    ensures
        match holder(env, scope, name) {
            Some(h) => 0 <= h <= scope && h < env.scopes.len() && env.scopes[h].bindings.contains_key(
                name,
            ),
            None => true,
        },
    decreases scope,
{
    if 0 <= scope < env.scopes.len() && !env.scopes[scope].bindings.contains_key(name) {
        match env.scopes[scope].enclosing {
            Some(p) => {
                if p < scope {
                    lemma_holder_binds(env, p as int, name);
                }
            },
            None => {},
        }
    }
}

/// Rebinding `name` in the scope that holds it, seen from `start`, leaves the
/// holder in place and makes the new value the one that is found.
proof fn lemma_rebind_seen(
    env: EnvironmentView,
    start: int,
    name: Seq<char>,
    value: ValueView,
    h: int,
)
    requires
        holder(env, start, name) == Some(h),
    ensures
        holder(defined(env, h, name, value), start, name) == Some(h),
        lookup(defined(env, h, name, value), start, name) == Some(value),
    decreases start,
{
    let after = defined(env, h, name, value);
    lemma_holder_binds(env, start, name);
    if env.scopes[start].bindings.contains_key(name) {
        assert(h == start);
        assert(after.scopes[start].bindings.contains_key(name));
    } else {
        assert(h != start);
        assert(after.scopes[start] == env.scopes[start]);
        match env.scopes[start].enclosing {
            Some(p) => {
                lemma_rebind_seen(env, p as int, name, value, h);
            },
            None => {},
        }
    }
}

/// Scopes share what encloses them: where two scopes find `name` in the
/// same enclosing scope, an assignment made from one is seen from the other.
pub proof fn lemma_assignment_is_shared(
    env: EnvironmentView,
    one: int,
    other: int,
    name: Seq<char>,
    value: ValueView,
)
    requires
        holder(env, one, name) is Some,
        holder(env, one, name) == holder(env, other, name),
    ensures
        lookup(assigned(env, one, name, value), other, name) == Some(value),
{
    lemma_rebind_seen(env, other, name, value, holder(env, one, name)->0);
}

/// Two scopes that lie directly inside the same scope and bind a name
/// neither themselves share its binding there: what is assigned to it from
/// one is what the other finds.
pub proof fn lemma_siblings_share(
    env: EnvironmentView,
    one: int,
    other: int,
    around: usize,
    name: Seq<char>,
    value: ValueView,
)
    requires
        chained(env),
        0 <= one < env.scopes.len(),
        0 <= other < env.scopes.len(),
        env.scopes[one].enclosing == Some(around),
        env.scopes[other].enclosing == Some(around),
        !env.scopes[one].bindings.contains_key(name),
        !env.scopes[other].bindings.contains_key(name),
        holder(env, around as int, name) is Some,
    ensures
        lookup(assigned(env, one, name, value), other, name) == Some(value),
{
    assert(holder(env, one, name) == holder(env, around as int, name));
    assert(holder(env, other, name) == holder(env, around as int, name));
    lemma_assignment_is_shared(env, one, other, name, value);
}

/// One scope: the names it binds and their values, and the scope around it.
pub struct Scope {
    names: Vec<String>,
    values: Vec<LiteralValue>,
    enclosing: Option<usize>,
}

/// The bindings that a list of names and the list of their values stand for.
pub open spec fn bindings_of(names: Seq<String>, values: Seq<LiteralValue>) -> Map<
    Seq<char>,
    ValueView,
>
    decreases names.len(),
{
    if names.len() == 0 || values.len() != names.len() {
        Map::empty()
    } else {
        bindings_of(names.drop_last(), values.drop_last()).insert(names.last()@, values.last()@)
    }
}

/// No name occurs twice.
pub open spec fn distinct(names: Seq<String>) -> bool {
    forall|i: int, j: int| 0 <= i < j < names.len() ==> names[i]@ != names[j]@
}

proof fn lemma_bindings_domain(names: Seq<String>, values: Seq<LiteralValue>, key: Seq<char>)
    requires
        names.len() == values.len(),
    ensures
        bindings_of(names, values).contains_key(key) <==> exists|j: int|
            0 <= j < names.len() && (#[trigger] names[j])@ == key,
    decreases names.len(),
{
    if names.len() > 0 {
        lemma_bindings_domain(names.drop_last(), values.drop_last(), key);
        if bindings_of(names, values).contains_key(key) {
            if names.last()@ == key {
                assert(names[names.len() - 1]@ == key);
            } else {
                let j = choose|j: int|
                    0 <= j < names.drop_last().len() && (#[trigger] names.drop_last()[j])@ == key;
                assert(names[j]@ == key);
            }
        }
        if exists|j: int| 0 <= j < names.len() && (#[trigger] names[j])@ == key {
            let j = choose|j: int| 0 <= j < names.len() && (#[trigger] names[j])@ == key;
            if j < names.len() - 1 {
                assert(names.drop_last()[j]@ == key);
            }
        }
    }
}

proof fn lemma_bindings_value(names: Seq<String>, values: Seq<LiteralValue>, j: int)
    requires
        names.len() == values.len(),
        distinct(names),
        0 <= j < names.len(),
    ensures
        bindings_of(names, values).contains_key(names[j]@),
        bindings_of(names, values)[names[j]@] == values[j]@,
    decreases names.len(),
{
    if j < names.len() - 1 {
        assert(distinct(names.drop_last())) by {
            assert forall|a: int, b: int| 0 <= a < b < names.drop_last().len() implies names.drop_last()[a]@
                != names.drop_last()[b]@ by {
                assert(names[a]@ != names[b]@);
            }
        }
        lemma_bindings_value(names.drop_last(), values.drop_last(), j);
        assert(names[j]@ != names[names.len() - 1]@);
    }
}

proof fn lemma_bindings_update(
    names: Seq<String>,
    values: Seq<LiteralValue>,
    j: int,
    value: LiteralValue,
)
    requires
        names.len() == values.len(),
        distinct(names),
        0 <= j < names.len(),
    ensures
        bindings_of(names, values.update(j, value)) == bindings_of(names, values).insert(
            names[j]@,
            value@,
        ),
    decreases names.len(),
{
    let last = names.len() - 1;
    if j < last {
        assert(distinct(names.drop_last())) by {
            assert forall|a: int, b: int| 0 <= a < b < names.drop_last().len() implies names.drop_last()[a]@
                != names.drop_last()[b]@ by {
                assert(names[a]@ != names[b]@);
            }
        }
        lemma_bindings_update(names.drop_last(), values.drop_last(), j, value);
        assert(values.update(j, value).drop_last() =~= values.drop_last().update(j, value));
        assert(names[j]@ != names[last]@);
        assert(bindings_of(names, values.update(j, value)) =~= bindings_of(names, values).insert(
            names[j]@,
            value@,
        ));
    } else {
        assert(values.update(j, value).drop_last() =~= values.drop_last());
        assert(bindings_of(names, values.update(j, value)) =~= bindings_of(names, values).insert(
            names[j]@,
            value@,
        ));
    }
}

proof fn lemma_bindings_push(
    names: Seq<String>,
    values: Seq<LiteralValue>,
    name: String,
    value: LiteralValue,
)
    requires
        names.len() == values.len(),
    ensures
        bindings_of(names.push(name), values.push(value)) == bindings_of(names, values).insert(
            name@,
            value@,
        ),
{
    assert(names.push(name).drop_last() =~= names);
    assert(values.push(value).drop_last() =~= values);
}

impl View for Scope {
    type V = ScopeView;

    closed spec fn view(&self) -> ScopeView {
        ScopeView { bindings: bindings_of(self.names@, self.values@), enclosing: self.enclosing }
    }
}

impl Scope {
    /// Each name has its value, and no name occurs twice.
    pub closed spec fn wf(&self) -> bool {
        self.names.len() == self.values.len() && distinct(self.names@)
    }

    fn new(enclosing: Option<usize>) -> (r: Scope)
        ensures
            r.wf(),
            r@ == (ScopeView { bindings: Map::empty(), enclosing }),
    {
        Scope { names: Vec::new(), values: Vec::new(), enclosing }
    }

    fn position(&self, name: &String) -> (r: Option<usize>)
        requires
            self.wf(),
        ensures
            match r {
                Some(i) => i < self.names.len() && self.names@[i as int]@ == name@
                    && self@.bindings.contains_key(name@) && self@.bindings[name@]
                    == self.values@[i as int]@,
                None => !self@.bindings.contains_key(name@),
            },
    {
        let mut i: usize = 0;
        while i < self.names.len()
            invariant
                i <= self.names.len(),
                self.wf(),
                forall|j: int| 0 <= j < i ==> self.names@[j]@ != name@,
            decreases self.names.len() - i,
        {
            if self.names[i] == *name {
                proof {
                    lemma_bindings_value(self.names@, self.values@, i as int);
                }
                return Some(i);
            }
            i = i + 1;
        }
        proof {
            lemma_bindings_domain(self.names@, self.values@, name@);
        }
        None
    }

    fn define(&mut self, name: String, value: LiteralValue)
        requires
            old(self).wf(),
        ensures
            final(self).wf(),
            final(self)@ == (ScopeView {
                bindings: old(self)@.bindings.insert(name@, value@),
                enclosing: old(self)@.enclosing,
            }),
    {
        match self.position(&name) {
            Some(i) => {
                proof {
                    lemma_bindings_update(self.names@, self.values@, i as int, value);
                }
                self.values.set(i, value);
            },
            None => {
                proof {
                    lemma_bindings_push(self.names@, self.values@, name, value);
                    lemma_bindings_domain(self.names@, self.values@, name@);
                }
                self.names.push(name);
                self.values.push(value);
            },
        }
    }
}

/// The views of a sequence of scopes.
pub open spec fn scope_views(scopes: Seq<Scope>) -> Seq<ScopeView> {
    Seq::new(scopes.len(), |i: int| scopes[i]@)
}

/// The scopes of a running program. A scope is named by its index; scopes
/// are shared by naming them, and never go away.
pub struct Environment {
    scopes: Vec<Scope>,
}

impl View for Environment {
    type V = EnvironmentView;

    closed spec fn view(&self) -> EnvironmentView {
        EnvironmentView { scopes: scope_views(self.scopes@) }
    }
}

impl Environment {
    /// Every scope is in order, and lies inside an earlier one or in none.
    pub closed spec fn wf(&self) -> bool {
        &&& forall|i: int| 0 <= i < self.scopes.len() ==> (#[trigger] self.scopes@[i]).wf()
        &&& rooted(self@)
    }

    /// In an environment that is in order the scopes form one tree.
    pub proof fn lemma_wf_chained(&self)
        requires
            self.wf(),
        ensures
            rooted(self@),
            chained(self@),
    {
        assert forall|i: int| 0 <= i < self@.scopes.len() implies match (
        #[trigger] self@.scopes[i]).enclosing {
            Some(p) => p < i,
            None => true,
        } by {
            if i >= 1 {
                assert(rooted(self@));
            }
        }
    }

    /// An environment of one scope, which binds nothing and lies in none.
    pub fn new() -> (r: Environment)
        ensures
            r.wf(),
            r@.scopes == seq![ScopeView { bindings: Map::empty(), enclosing: None }],
    {
        let mut scopes: Vec<Scope> = Vec::new();
        scopes.push(Scope::new(None));
        let r = Environment { scopes };
        assert(r@.scopes =~= seq![ScopeView { bindings: Map::empty(), enclosing: None }]);
        r
    }

    /// The number of scopes.
    pub fn len(&self) -> (r: usize)
        ensures
            r == self@.scopes.len(),
    {
        self.scopes.len()
    }

    /// Makes an empty scope inside `enclosing` and gives its index.
    pub fn new_scope(&mut self, enclosing: usize) -> (r: usize)
        requires
            old(self).wf(),
            enclosing < old(self)@.scopes.len(),
        ensures
            final(self).wf(),
            r == old(self)@.scopes.len(),
            final(self)@ == extended(old(self)@, Some(enclosing)),
    {
        let r = self.scopes.len();
        self.scopes.push(Scope::new(Some(enclosing)));
        assert(self@.scopes =~= extended(old(self)@, Some(enclosing)).scopes);
        r
    }

    /// Binds `name` to `val` in the outermost scope around `scope`.
    pub fn define_top_level(&mut self, scope: usize, name: String, value: LiteralValue)
        requires
            old(self).wf(),
            scope < old(self)@.scopes.len(),
        ensures
            final(self).wf(),
            final(self)@ == defined(
                old(self)@,
                root_of(old(self)@, scope as int),
                name@,
                value@,
            ),
    {
        let mut s: usize = scope;
        loop
            invariant
                self.wf(),
                s < self.scopes.len(),
                root_of(self@, s as int) == root_of(self@, scope as int),
                *self == *old(self),
            ensures
                self.wf(),
                s < self.scopes.len(),
                s == root_of(self@, scope as int),
                *self == *old(self),
            decreases s,
        {
            assert(self.scopes@[s as int]@ == self@.scopes[s as int]);
            match self.scopes[s].enclosing {
                Some(p) => {
                    assert(p < s);
                    s = p;
                },
                None => {
                    break ;
                },
            }
        }
        self.define(s, name, value);
    }

    /// Binds `name` to `val` in `scope` itself, whether or not the scope
    /// bound it before.
    pub fn define(&mut self, scope: usize, name: String, val: LiteralValue)
        requires
            old(self).wf(),
            scope < old(self)@.scopes.len(),
        ensures
            final(self).wf(),
            final(self)@ == defined(old(self)@, scope as int, name@, val@),
    {
        let ghost before = self.scopes@;
        let mut holder_scope = Scope::new(None);
        self.scopes.set_and_swap(scope, &mut holder_scope);
        holder_scope.define(name, val);
        self.scopes.set_and_swap(scope, &mut holder_scope);
        proof {
            assert(self.scopes@ =~= before.update(scope as int, self.scopes@[scope as int]));
            assert(self@.scopes =~= defined(old(self)@, scope as int, name@, val@).scopes);
            assert forall|i: int| 0 <= i < self@.scopes.len() implies match (
            #[trigger] self@.scopes[i]).enclosing {
                Some(p) => p < i,
                None => true,
            } by {
                assert(old(self)@.scopes[i].enclosing == self@.scopes[i].enclosing);
            }
        }
    }

    /// The value that `name` is bound to in the nearest scope, from `scope`
    /// outwards, that binds it.
    pub fn get(&self, scope: usize, name: &str) -> (r: Option<LiteralValue>)
        requires
            self.wf(),
            scope < self@.scopes.len(),
        ensures
            match r {
                Some(v) => lookup(self@, scope as int, name@) == Some(v@),
                None => lookup(self@, scope as int, name@) is None,
            },
    {
        let key = String::from_str(name);
        let mut s: usize = scope;
        loop
            invariant
                self.wf(),
                s < self.scopes.len(),
                key@ == name@,
                holder(self@, s as int, name@) == holder(self@, scope as int, name@),
            decreases s,
        {
            assert(self.scopes@[s as int]@ == self@.scopes[s as int]);
            match self.scopes[s].position(&key) {
                Some(i) => {
                    return Some(self.scopes[s].values[i].duplicate());
                },
                None => {
                    match self.scopes[s].enclosing {
                        Some(p) => {
                            assert(p < s);
                            s = p;
                        },
                        None => {
                            return None;
                        },
                    }
                },
            }
        }
    }

    /// Rebinds `name` in the nearest scope, from `scope` outwards, that
    /// binds it, and says whether there was one. It never makes a binding.
    pub fn assign(&mut self, scope: usize, name: &str, value: LiteralValue) -> (r: bool)
        requires
            old(self).wf(),
            scope < old(self)@.scopes.len(),
        ensures
            final(self).wf(),
            r == holder(old(self)@, scope as int, name@) is Some,
            final(self)@ == assigned(old(self)@, scope as int, name@, value@),
    {
        let key = String::from_str(name);
        let mut s: usize = scope;
        loop
            invariant
                self.wf(),
                s < self.scopes.len(),
                key@ == name@,
                holder(self@, s as int, name@) == holder(self@, scope as int, name@),
                *self == *old(self),
            decreases s,
        {
            assert(self.scopes@[s as int]@ == self@.scopes[s as int]);
            match self.scopes[s].position(&key) {
                Some(i) => {
                    self.define(s, key, value);
                    return true;
                },
                None => {
                    match self.scopes[s].enclosing {
                        Some(p) => {
                            assert(p < s);
                            s = p;
                        },
                        None => {
                            return false;
                        },
                    }
                },
            }
        }
    }
}

} // verus!
