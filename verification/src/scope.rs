use vstd::prelude::*;

verus! {

/// A declaration the scope tables can hold: any value that reports a stable
/// textual name, under which it is keyed.
pub trait Name: Sized {
    /// The name, as the mathematical value contracts speak of.
    spec fn spec_name(&self) -> Seq<char>;

    /// The name the declaration is keyed by.
    fn name(&self) -> (r: String)
        ensures
            r@ == self.spec_name(),
    ;
}

/// The three independent kinds of names one lexical level keeps.
#[derive(Clone, Copy, PartialEq, Eq, Debug)]
pub enum NamespaceKind {
    Types,
    Variables,
    Functions,
}

/// What an insertion can fail with.
#[derive(Clone, PartialEq, Eq, Debug)]
pub enum ScopeError {
    /// The target namespace of the target scope already binds this name.
    DuplicateDeclaration { namespace: NamespaceKind, name: String },
    /// No scope has been entered, so an insertion has nowhere to go.
    NoActiveScope,
}

/// The hash table a name table is built on: hashbrown's map from name to
/// slot, held opaquely and reached only through the trusted operations below.
#[verifier::external_body]
pub struct NameTable {
    table: hashbrown::HashMap<String, usize>,
}

/// The bindings a name table holds, as a map from name to stored slot.
pub uninterp spec fn table_map(t: NameTable) -> Map<Seq<char>, usize>;

/// Relies on hashbrown::HashMap::new: the new map holds nothing.
#[verifier::external_body]
fn table_new() -> (made: NameTable)
    ensures
        match made {
            m => table_map(m) == Map::<Seq<char>, usize>::empty(),
        },
{
    NameTable { table: hashbrown::HashMap::new() }
}

/// Relies on hashbrown::HashMap::get: returns the value stored under the
/// key when the map holds the key, and nothing otherwise.
#[verifier::external_body]
fn table_get(t: &NameTable, name: &str) -> (r: Option<usize>)
    ensures
        match r {
            Some(i) => table_map(*t).contains_key(name@) && table_map(*t)[name@] == i,
            None => !table_map(*t).contains_key(name@),
        },
{
    t.table.get(name).copied()
}

/// Relies on hashbrown::HashMap::insert: the map afterwards binds the key to
/// the value and is otherwise unchanged.
#[verifier::external_body]
fn table_insert(t: &mut NameTable, name: String, i: usize)
    ensures
        table_map(*final(t)) == table_map(*old(t)).insert(name@, i),
{
    t.table.insert(name, i);
}

/// One name table: at most one declaration per name. Declarations sit in
/// `decls`; the hash table maps each bound name to its slot in `decls`.
struct Namespace<D: Name> {
    decls: Vec<D>,
    index: NameTable,
}

impl<D: Name> Namespace<D> {
    /// The bindings this table holds.
    spec fn bindings(self) -> Map<Seq<char>, D> {
        Map::new(
            |n: Seq<char>| table_map(self.index).contains_key(n),
            |n: Seq<char>| self.decls@[table_map(self.index)[n] as int],
        )
    }

    /// Every slot the hash table points at lies inside `decls`.
    spec fn wf(self) -> bool {
        forall|n: Seq<char>| #[trigger] table_map(self.index).contains_key(n)
            ==> table_map(self.index)[n] < self.decls@.len()
    }

    fn new() -> (r: Self)
        ensures
            r.wf(),
            r.bindings() == Map::<Seq<char>, D>::empty(),
    {
        let r = Namespace { decls: Vec::new(), index: table_new() };
        proof {
            assert(r.bindings() =~= Map::<Seq<char>, D>::empty());
        }
        r
    }

    /// Inserts `decl` under its own name; rejects a name this table already
    /// binds, handing the name back and leaving the table unchanged.
    fn add(&mut self, decl: D) -> (r: Result<(), String>)
        requires
            old(self).wf(),
        ensures
            final(self).wf(),
            r is Ok <==> !old(self).bindings().contains_key(decl.spec_name()),
            r is Ok ==> final(self).bindings()
                == old(self).bindings().insert(decl.spec_name(), decl),
            r matches Err(name) ==> final(self).bindings() == old(self).bindings()
                && name@ == decl.spec_name(),
    {
        let name = decl.name();
        match table_get(&self.index, name.as_str()) {
            Some(_) => Err(name),
            None => {
                let ghost pre = *self;
                let ghost stored = decl;
                let ghost key = name@;
                let i = self.decls.len();
                self.decls.push(decl);
                table_insert(&mut self.index, name, i);
                proof {
                    assert(self.bindings() =~= pre.bindings().insert(key, stored));
                }
                Ok(())
            },
        }
    }

    /// The declaration bound to `name`, if this table binds it.
    fn get(&self, name: &str) -> (r: Option<&D>)
        requires
            self.wf(),
        ensures
            match r {
                Some(d) => self.bindings().contains_key(name@)
                    && *d == self.bindings()[name@],
                None => !self.bindings().contains_key(name@),
            },
    {
        match table_get(&self.index, name) {
            Some(i) => Some(&self.decls[i]),
            None => None,
        }
    }
}

/// A ready-made declaration for callers that track no more than a name and a
/// numeric handle of their own choosing.
#[derive(Clone, Debug)]
pub struct Decl {
    name: String,
    id: u64,
}

impl Decl {
    /// The handle, as contracts speak of it.
    pub closed spec fn spec_id(self) -> u64 {
        self.id
    }

    pub fn new(name: String, id: u64) -> (r: Decl)
        ensures
            r.spec_name() == name@,
            r.spec_id() == id,
    {
        Decl { name, id }
    }

    /// The caller's handle.
    pub fn id(&self) -> (r: u64)
        ensures
            r == self.spec_id(),
    {
        self.id
    }
}

impl Name for Decl {
    closed spec fn spec_name(&self) -> Seq<char> {
        self.name@
    }

    fn name(&self) -> (r: String) {
        self.name.clone()
    }
}

/// What inserting `decl` into one namespace means: it succeeds exactly when
/// the name was free there; success adds the one binding; a failure names the
/// clash and leaves the namespace as it was.
pub open spec fn ns_add_outcome<D: Name>(
    pre: Map<Seq<char>, D>,
    post: Map<Seq<char>, D>,
    decl: D,
    kind: NamespaceKind,
    r: Result<(), ScopeError>,
) -> bool {
    &&& (r is Ok <==> !pre.contains_key(decl.spec_name()))
    &&& (r is Ok ==> post == pre.insert(decl.spec_name(), decl))
    &&& (r is Err ==> post == pre)
    &&& (r matches Err(e) ==> (e matches ScopeError::DuplicateDeclaration { namespace, name }
        && namespace == kind && name@ == decl.spec_name()))
}

/// One lexical level: three independent namespaces, so a type, a variable and
/// a function may share a name without conflict.
pub struct Scope<D: Name> {
    tys: Namespace<D>,
    vars: Namespace<D>,
    funs: Namespace<D>,
}

impl<D: Name> Scope<D> {
    /// The type bindings this level holds.
    pub closed spec fn spec_tys(self) -> Map<Seq<char>, D> {
        self.tys.bindings()
    }

    /// The variable bindings this level holds.
    pub closed spec fn spec_vars(self) -> Map<Seq<char>, D> {
        self.vars.bindings()
    }

    /// The function bindings this level holds.
    pub closed spec fn spec_funs(self) -> Map<Seq<char>, D> {
        self.funs.bindings()
    }

    pub closed spec fn wf(self) -> bool {
        self.tys.wf() && self.vars.wf() && self.funs.wf()
    }

    /// A level with nothing declared yet.
    pub fn new() -> (r: Self)
        ensures
            r.wf(),
            r.spec_tys() == Map::<Seq<char>, D>::empty(),
            r.spec_vars() == Map::<Seq<char>, D>::empty(),
            r.spec_funs() == Map::<Seq<char>, D>::empty(),
    {
        Scope { tys: Namespace::new(), vars: Namespace::new(), funs: Namespace::new() }
    }

    /// Declares `var` among this level's variables; the other two namespaces
    /// are untouched, so a function or type of the same name may coexist.
    pub fn add_var(&mut self, var: D) -> (r: Result<(), ScopeError>)
        requires
            old(self).wf(),
        ensures
            final(self).wf(),
            final(self).spec_tys() == old(self).spec_tys(),
            final(self).spec_funs() == old(self).spec_funs(),
            ns_add_outcome(
                old(self).spec_vars(),
                final(self).spec_vars(),
                var,
                NamespaceKind::Variables,
                r,
            ),
    {
        match self.vars.add(var) {
            Ok(()) => Ok(()),
            Err(name) => Err(
                ScopeError::DuplicateDeclaration { namespace: NamespaceKind::Variables, name },
            ),
        }
    }

    /// Declares `fun` among this level's functions.
    pub fn add_fun(&mut self, fun: D) -> (r: Result<(), ScopeError>)
        requires
            old(self).wf(),
        ensures
            final(self).wf(),
            final(self).spec_tys() == old(self).spec_tys(),
            final(self).spec_vars() == old(self).spec_vars(),
            ns_add_outcome(
                old(self).spec_funs(),
                final(self).spec_funs(),
                fun,
                NamespaceKind::Functions,
                r,
            ),
    {
        match self.funs.add(fun) {
            Ok(()) => Ok(()),
            Err(name) => Err(
                ScopeError::DuplicateDeclaration { namespace: NamespaceKind::Functions, name },
            ),
        }
    }

    /// Declares `ty` among this level's types.
    pub fn add_ty(&mut self, ty: D) -> (r: Result<(), ScopeError>)
        requires
            old(self).wf(),
        ensures
            final(self).wf(),
            final(self).spec_vars() == old(self).spec_vars(),
            final(self).spec_funs() == old(self).spec_funs(),
            ns_add_outcome(
                old(self).spec_tys(),
                final(self).spec_tys(),
                ty,
                NamespaceKind::Types,
                r,
            ),
    {
        match self.tys.add(ty) {
            Ok(()) => Ok(()),
            Err(name) => Err(
                ScopeError::DuplicateDeclaration { namespace: NamespaceKind::Types, name },
            ),
        }
    }

    /// The variable registered under `name` at this level, if any; absence is
    /// a normal outcome, not an error.
    pub fn var(&self, name: &str) -> (r: Option<&D>)
        requires
            self.wf(),
        ensures
            match r {
                Some(d) => self.spec_vars().contains_key(name@) && *d == self.spec_vars()[name@],
                None => !self.spec_vars().contains_key(name@),
            },
    {
        self.vars.get(name)
    }

    /// The function registered under `name` at this level, if any.
    pub fn fun(&self, name: &str) -> (r: Option<&D>)
        requires
            self.wf(),
        ensures
            match r {
                Some(d) => self.spec_funs().contains_key(name@) && *d == self.spec_funs()[name@],
                None => !self.spec_funs().contains_key(name@),
            },
    {
        self.funs.get(name)
    }

    /// The type registered under `name` at this level, if any.
    pub fn ty(&self, name: &str) -> (r: Option<&D>)
        requires
            self.wf(),
        ensures
            match r {
                Some(d) => self.spec_tys().contains_key(name@) && *d == self.spec_tys()[name@],
                None => !self.spec_tys().contains_key(name@),
            },
    {
        self.tys.get(name)
    }
}

impl<D: Name> Default for Scope<D> {
    /// As `new`: a level with nothing declared.
    fn default() -> (r: Self)
        ensures
            r.wf(),
            r.spec_tys() == Map::<Seq<char>, D>::empty(),
            r.spec_vars() == Map::<Seq<char>, D>::empty(),
            r.spec_funs() == Map::<Seq<char>, D>::empty(),
    {
        Scope::new()
    }
}

/// Innermost-first resolution over a stack of per-scope maps. The sequence
/// holds the outermost map first and the innermost last, so the scan runs
/// from the sequence's end towards its start and stops at the first map that
/// binds the name.
pub open spec fn resolve<D>(maps: Seq<Map<Seq<char>, D>>, name: Seq<char>) -> Option<D>
    decreases maps.len(),
{
    if maps.len() == 0 {
        None
    } else if maps.last().contains_key(name) {
        Some(maps.last()[name])
    } else {
        resolve(maps.drop_last(), name)
    }
}

/// Shadowing: when the innermost scope binds the name, resolution returns
/// that binding, whatever any outer scope holds of the same name.
pub proof fn lemma_resolve_innermost<D>(maps: Seq<Map<Seq<char>, D>>, name: Seq<char>)
    requires
        maps.len() > 0,
        maps.last().contains_key(name),
    ensures
        resolve(maps, name) == Some(maps.last()[name]),
{
}

/// Depth scan order: when `name` is bound at level `i` and in no scope inner
/// to it, resolution scans all the way to `i` and returns exactly that
/// binding, however deep the stack is.
pub proof fn lemma_resolve_found<D>(maps: Seq<Map<Seq<char>, D>>, name: Seq<char>, i: int)
    requires
        0 <= i < maps.len(),
        maps[i].contains_key(name),
        forall|j: int| i < j < maps.len() ==> !(#[trigger] maps[j]).contains_key(name),
    ensures
        resolve(maps, name) == Some(maps[i][name]),
    decreases maps.len(),
{
    if i < maps.len() - 1 {
        assert(!maps.last().contains_key(name));
        assert(maps.drop_last()[i] == maps[i]);
        assert(forall|j: int| i < j < maps.drop_last().len()
            ==> !(#[trigger] maps.drop_last()[j]).contains_key(name));
        lemma_resolve_found(maps.drop_last(), name, i);
    }
}

/// A name bound in no scope of the stack resolves to nothing; in particular
/// every lookup on an empty stack, and every lookup of a name whose only
/// scope has been exited, comes back empty.
pub proof fn lemma_resolve_absent<D>(maps: Seq<Map<Seq<char>, D>>, name: Seq<char>)
    requires
        forall|j: int| 0 <= j < maps.len() ==> !(#[trigger] maps[j]).contains_key(name),
    ensures
        resolve(maps, name) is None,
    decreases maps.len(),
{
    if maps.len() > 0 {
        assert(!maps.last().contains_key(name));
        lemma_resolve_absent(maps.drop_last(), name);
    }
}

/// Duplicate rejection: once a success has bound a name in a namespace, a
/// second insertion of the same name there fails, names the clash after the
/// namespace and the name, and leaves the first binding in place and
/// retrievable unchanged.
pub proof fn lemma_duplicate_rejection<D: Name>(
    pre: Map<Seq<char>, D>,
    mid: Map<Seq<char>, D>,
    post: Map<Seq<char>, D>,
    first: D,
    second: D,
    kind: NamespaceKind,
    r1: Result<(), ScopeError>,
    r2: Result<(), ScopeError>,
)
    requires
        second.spec_name() == first.spec_name(),
        r1 is Ok,
        ns_add_outcome(pre, mid, first, kind, r1),
        ns_add_outcome(mid, post, second, kind, r2),
    ensures
        r2 is Err,
        r2 matches Err(e) ==> (e matches ScopeError::DuplicateDeclaration { namespace, name }
            && namespace == kind && name@ == first.spec_name()),
        post == mid,
        post[first.spec_name()] == first,
{
}

/// Cross-namespace coexistence: inserting a name as a variable and then the
/// same name as a function in the same scope both succeed whenever the scope
/// held neither, and afterwards each namespace returns its own declaration
/// for that name.
pub proof fn lemma_cross_namespace_coexistence<D: Name>(
    vars_pre: Map<Seq<char>, D>,
    vars_post: Map<Seq<char>, D>,
    funs_pre: Map<Seq<char>, D>,
    funs_post: Map<Seq<char>, D>,
    a: D,
    b: D,
    rv: Result<(), ScopeError>,
    rf: Result<(), ScopeError>,
)
    requires
        !vars_pre.contains_key(a.spec_name()),
        !funs_pre.contains_key(b.spec_name()),
        ns_add_outcome(vars_pre, vars_post, a, NamespaceKind::Variables, rv),
        ns_add_outcome(funs_pre, funs_post, b, NamespaceKind::Functions, rf),
    ensures
        rv is Ok,
        rf is Ok,
        vars_post.contains_key(a.spec_name()) && vars_post[a.spec_name()] == a,
        funs_post.contains_key(b.spec_name()) && funs_post[b.spec_name()] == b,
{
}

/// A stack of scopes. The last element of the sequence is the innermost,
/// most recently entered level; lookups scan from it outwards.
pub struct Scopemap<D: Name> {
    scopes: Vec<Scope<D>>,
}

impl<D: Name> Scopemap<D> {
    /// The open scopes, outermost first and innermost last.
    pub closed spec fn spec_scopes(self) -> Seq<Scope<D>> {
        self.scopes@
    }

    pub closed spec fn wf(self) -> bool {
        forall|i: int| 0 <= i < self.scopes@.len() ==> (#[trigger] self.scopes@[i]).wf()
    }

    /// The per-scope variable maps, outermost first.
    pub open spec fn var_maps(self) -> Seq<Map<Seq<char>, D>> {
        self.spec_scopes().map_values(|s: Scope<D>| s.spec_vars())
    }

    /// The per-scope function maps, outermost first.
    pub open spec fn fun_maps(self) -> Seq<Map<Seq<char>, D>> {
        self.spec_scopes().map_values(|s: Scope<D>| s.spec_funs())
    }

    /// The per-scope type maps, outermost first.
    pub open spec fn ty_maps(self) -> Seq<Map<Seq<char>, D>> {
        self.spec_scopes().map_values(|s: Scope<D>| s.spec_tys())
    }

    /// A stack with no open scope.
    pub fn new() -> (r: Self)
        ensures
            r.wf(),
            r.spec_scopes() == Seq::<Scope<D>>::empty(),
    {
        Scopemap { scopes: Vec::new() }
    }

    /// Opens a new, empty innermost scope. Never fails.
    pub fn scope_entry(&mut self)
        requires
            old(self).wf(),
        ensures
            final(self).wf(),
            final(self).spec_scopes().len() == old(self).spec_scopes().len() + 1,
            final(self).spec_scopes().drop_last() == old(self).spec_scopes(),
            final(self).spec_scopes().last().spec_vars() == Map::<Seq<char>, D>::empty(),
            final(self).spec_scopes().last().spec_funs() == Map::<Seq<char>, D>::empty(),
            final(self).spec_scopes().last().spec_tys() == Map::<Seq<char>, D>::empty(),
    {
        self.scopes.push(Scope::new());
        proof {
            assert(self.scopes@.drop_last() =~= old(self).scopes@);
        }
    }

    /// Discards the innermost scope and everything declared in it. On an
    /// empty stack this is a harmless no-op, not an error.
    pub fn scope_exit(&mut self)
        requires
            old(self).wf(),
        ensures
            final(self).wf(),
            old(self).spec_scopes().len() == 0 ==> final(self).spec_scopes()
                == old(self).spec_scopes(),
            old(self).spec_scopes().len() > 0 ==> final(self).spec_scopes()
                == old(self).spec_scopes().drop_last(),
    {
        if self.scopes.len() > 0 {
            self.scopes.pop();
        }
    }

    /// Declares `var` among the innermost scope's variables; with no open
    /// scope the insertion has no target and fails with `NoActiveScope`.
    pub fn add_var(&mut self, var: D) -> (r: Result<(), ScopeError>)
        requires
            old(self).wf(),
        ensures
            final(self).wf(),
            old(self).spec_scopes().len() == 0 ==> final(self).spec_scopes()
                == old(self).spec_scopes() && r matches Err(ScopeError::NoActiveScope),
            old(self).spec_scopes().len() > 0 ==> {
                &&& final(self).spec_scopes().len() == old(self).spec_scopes().len()
                &&& final(self).spec_scopes().drop_last() == old(self).spec_scopes().drop_last()
                &&& final(self).spec_scopes().last().spec_funs()
                    == old(self).spec_scopes().last().spec_funs()
                &&& final(self).spec_scopes().last().spec_tys()
                    == old(self).spec_scopes().last().spec_tys()
                &&& ns_add_outcome(
                    old(self).spec_scopes().last().spec_vars(),
                    final(self).spec_scopes().last().spec_vars(),
                    var,
                    NamespaceKind::Variables,
                    r,
                )
            },
    {
        if self.scopes.is_empty() {
            return Err(ScopeError::NoActiveScope);
        }
        let mut top = self.scopes.pop().unwrap();
        let r = top.add_var(var);
        self.scopes.push(top);
        proof {
            assert(self.scopes@.drop_last() =~= old(self).scopes@.drop_last());
        }
        r
    }

    /// Declares `fun` among the innermost scope's functions.
    pub fn add_fun(&mut self, fun: D) -> (r: Result<(), ScopeError>)
        requires
            old(self).wf(),
        ensures
            final(self).wf(),
            old(self).spec_scopes().len() == 0 ==> final(self).spec_scopes()
                == old(self).spec_scopes() && r matches Err(ScopeError::NoActiveScope),
            old(self).spec_scopes().len() > 0 ==> {
                &&& final(self).spec_scopes().len() == old(self).spec_scopes().len()
                &&& final(self).spec_scopes().drop_last() == old(self).spec_scopes().drop_last()
                &&& final(self).spec_scopes().last().spec_vars()
                    == old(self).spec_scopes().last().spec_vars()
                &&& final(self).spec_scopes().last().spec_tys()
                    == old(self).spec_scopes().last().spec_tys()
                &&& ns_add_outcome(
                    old(self).spec_scopes().last().spec_funs(),
                    final(self).spec_scopes().last().spec_funs(),
                    fun,
                    NamespaceKind::Functions,
                    r,
                )
            },
    {
        if self.scopes.is_empty() {
            return Err(ScopeError::NoActiveScope);
        }
        let mut top = self.scopes.pop().unwrap();
        let r = top.add_fun(fun);
        self.scopes.push(top);
        proof {
            assert(self.scopes@.drop_last() =~= old(self).scopes@.drop_last());
        }
        r
    }

    /// Declares `ty` among the innermost scope's types.
    pub fn add_ty(&mut self, ty: D) -> (r: Result<(), ScopeError>)
        requires
            old(self).wf(),
        ensures
            final(self).wf(),
            old(self).spec_scopes().len() == 0 ==> final(self).spec_scopes()
                == old(self).spec_scopes() && r matches Err(ScopeError::NoActiveScope),
            old(self).spec_scopes().len() > 0 ==> {
                &&& final(self).spec_scopes().len() == old(self).spec_scopes().len()
                &&& final(self).spec_scopes().drop_last() == old(self).spec_scopes().drop_last()
                &&& final(self).spec_scopes().last().spec_vars()
                    == old(self).spec_scopes().last().spec_vars()
                &&& final(self).spec_scopes().last().spec_funs()
                    == old(self).spec_scopes().last().spec_funs()
                &&& ns_add_outcome(
                    old(self).spec_scopes().last().spec_tys(),
                    final(self).spec_scopes().last().spec_tys(),
                    ty,
                    NamespaceKind::Types,
                    r,
                )
            },
    {
        if self.scopes.is_empty() {
            return Err(ScopeError::NoActiveScope);
        }
        let mut top = self.scopes.pop().unwrap();
        let r = top.add_ty(ty);
        self.scopes.push(top);
        proof {
            assert(self.scopes@.drop_last() =~= old(self).scopes@.drop_last());
        }
        r
    }

    /// The innermost declaration of `name` among variables: scopes are
    /// scanned strictly from innermost to outermost and the first that binds
    /// the name decides, so an inner declaration shadows an outer one.
    pub fn var(&self, name: &str) -> (r: Option<&D>)
        requires
            self.wf(),
        ensures
            match r {
                Some(d) => resolve(self.var_maps(), name@) == Some(*d),
                None => resolve(self.var_maps(), name@) is None,
            },
    {
        let mut i: usize = self.scopes.len();
        while i > 0
            invariant
                self.wf(),
                i <= self.scopes.len(),
                forall|j: int| i <= j < self.scopes@.len()
                    ==> !(#[trigger] self.scopes@[j]).spec_vars().contains_key(name@),
            decreases i,
        {
            i = i - 1;
            let found = self.scopes[i].var(name);
            if found.is_some() {
                proof {
                    lemma_resolve_found(self.var_maps(), name@, i as int);
                }
                return found;
            }
        }
        proof {
            lemma_resolve_absent(self.var_maps(), name@);
        }
        None
    }

    /// The innermost declaration of `name` among functions.
    pub fn fun(&self, name: &str) -> (r: Option<&D>)
        requires
            self.wf(),
        ensures
            match r {
                Some(d) => resolve(self.fun_maps(), name@) == Some(*d),
                None => resolve(self.fun_maps(), name@) is None,
            },
    {
        let mut i: usize = self.scopes.len();
        while i > 0
            invariant
                self.wf(),
                i <= self.scopes.len(),
                forall|j: int| i <= j < self.scopes@.len()
                    ==> !(#[trigger] self.scopes@[j]).spec_funs().contains_key(name@),
            decreases i,
        {
            i = i - 1;
            let found = self.scopes[i].fun(name);
            if found.is_some() {
                proof {
                    lemma_resolve_found(self.fun_maps(), name@, i as int);
                }
                return found;
            }
        }
        proof {
            lemma_resolve_absent(self.fun_maps(), name@);
        }
        None
    }

    /// The innermost declaration of `name` among types.
    pub fn ty(&self, name: &str) -> (r: Option<&D>)
        requires
            self.wf(),
        ensures
            match r {
                Some(d) => resolve(self.ty_maps(), name@) == Some(*d),
                None => resolve(self.ty_maps(), name@) is None,
            },
    {
        let mut i: usize = self.scopes.len();
        while i > 0
            invariant
                self.wf(),
                i <= self.scopes.len(),
                forall|j: int| i <= j < self.scopes@.len()
                    ==> !(#[trigger] self.scopes@[j]).spec_tys().contains_key(name@),
            decreases i,
        {
            i = i - 1;
            let found = self.scopes[i].ty(name);
            if found.is_some() {
                proof {
                    lemma_resolve_found(self.ty_maps(), name@, i as int);
                }
                return found;
            }
        }
        proof {
            lemma_resolve_absent(self.ty_maps(), name@);
        }
        None
    }
}

impl<D: Name> Default for Scopemap<D> {
    /// As `new`: a stack with no open scope.
    fn default() -> (r: Self)
        ensures
            r.wf(),
            r.spec_scopes() == Seq::<Scope<D>>::empty(),
    {
        Scopemap::new()
    }
}

/// Namespace isolation: when two stacks of equal depth differ at most in
/// their innermost scope, each namespace on which that scope also agrees
/// resolves every name identically. An insertion touches only the innermost
/// scope and only its own namespace, so it cannot make a lookup in another
/// namespace succeed, fail, or change what it returns.
pub proof fn lemma_namespace_isolation<D: Name>(pre: Scopemap<D>, post: Scopemap<D>)
    requires
        pre.spec_scopes().len() > 0,
        post.spec_scopes().len() == pre.spec_scopes().len(),
        post.spec_scopes().drop_last() == pre.spec_scopes().drop_last(),
    ensures
        post.spec_scopes().last().spec_vars() == pre.spec_scopes().last().spec_vars()
            ==> post.var_maps() == pre.var_maps(),
        post.spec_scopes().last().spec_funs() == pre.spec_scopes().last().spec_funs()
            ==> post.fun_maps() == pre.fun_maps(),
        post.spec_scopes().last().spec_tys() == pre.spec_scopes().last().spec_tys()
            ==> post.ty_maps() == pre.ty_maps(),
{
    let n = pre.spec_scopes().len() as int;
    assert forall|i: int| 0 <= i < n - 1 implies post.spec_scopes()[i]
        == pre.spec_scopes()[i] by {
        assert(post.spec_scopes().drop_last()[i] == post.spec_scopes()[i]);
        assert(pre.spec_scopes().drop_last()[i] == pre.spec_scopes()[i]);
    }
    if post.spec_scopes().last().spec_vars() == pre.spec_scopes().last().spec_vars() {
        assert(post.var_maps() =~= pre.var_maps());
    }
    if post.spec_scopes().last().spec_funs() == pre.spec_scopes().last().spec_funs() {
        assert(post.fun_maps() =~= pre.fun_maps());
    }
    if post.spec_scopes().last().spec_tys() == pre.spec_scopes().last().spec_tys() {
        assert(post.ty_maps() =~= pre.ty_maps());
    }
}

} // verus!
