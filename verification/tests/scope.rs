use swisskit_dsa::scope::{Decl, Name, NamespaceKind, Scope, ScopeError, Scopemap};

fn decl(name: &str, id: u64) -> Decl {
    Decl::new(name.to_string(), id)
}

fn id_of(found: Option<&Decl>) -> Option<u64> {
    found.map(|d| d.id())
}

#[test]
fn decl_reports_its_name_and_handle() {
    let d = decl("answer", 42);
    assert_eq!(d.name(), "answer".to_string());
    assert_eq!(d.id(), 42);
}

#[test]
fn namespace_isolation_within_one_scope() {
    let mut sm: Scopemap<Decl> = Scopemap::new();
    sm.scope_entry();
    assert!(sm.add_var(decl("v", 1)).is_ok());
    assert_eq!(id_of(sm.fun("v")), None);
    assert_eq!(id_of(sm.ty("v")), None);
    assert!(sm.add_fun(decl("f", 2)).is_ok());
    assert_eq!(id_of(sm.var("f")), None);
    assert_eq!(id_of(sm.ty("f")), None);
    assert!(sm.add_ty(decl("t", 3)).is_ok());
    assert_eq!(id_of(sm.var("t")), None);
    assert_eq!(id_of(sm.fun("t")), None);
}

#[test]
fn duplicate_declaration_is_rejected_and_first_kept() {
    let mut sm: Scopemap<Decl> = Scopemap::new();
    sm.scope_entry();
    assert!(sm.add_var(decl("x", 1)).is_ok());
    let second = sm.add_var(decl("x", 2));
    assert_eq!(
        second,
        Err(ScopeError::DuplicateDeclaration {
            namespace: NamespaceKind::Variables,
            name: "x".to_string(),
        })
    );
    assert_eq!(id_of(sm.var("x")), Some(1));
}

#[test]
fn duplicate_function_and_type_name_their_namespace() {
    let mut sm: Scopemap<Decl> = Scopemap::new();
    sm.scope_entry();
    assert!(sm.add_fun(decl("f", 1)).is_ok());
    assert_eq!(
        sm.add_fun(decl("f", 2)),
        Err(ScopeError::DuplicateDeclaration {
            namespace: NamespaceKind::Functions,
            name: "f".to_string(),
        })
    );
    assert!(sm.add_ty(decl("t", 3)).is_ok());
    assert_eq!(
        sm.add_ty(decl("t", 4)),
        Err(ScopeError::DuplicateDeclaration {
            namespace: NamespaceKind::Types,
            name: "t".to_string(),
        })
    );
}

#[test]
fn inner_declaration_shadows_outer_until_exit() {
    let mut sm: Scopemap<Decl> = Scopemap::new();
    sm.scope_entry();
    assert!(sm.add_var(decl("x", 1)).is_ok());
    sm.scope_entry();
    assert!(sm.add_var(decl("x", 2)).is_ok());
    assert_eq!(id_of(sm.var("x")), Some(2));
    sm.scope_exit();
    assert_eq!(id_of(sm.var("x")), Some(1));
}

#[test]
fn exit_discards_everything_the_scope_declared() {
    let mut sm: Scopemap<Decl> = Scopemap::new();
    sm.scope_entry();
    assert!(sm.add_var(decl("x", 1)).is_ok());
    sm.scope_exit();
    assert_eq!(id_of(sm.var("x")), None);
}

#[test]
fn fresh_stack_finds_nothing_refuses_adds_and_exits_quietly() {
    let mut sm: Scopemap<Decl> = Scopemap::new();
    assert_eq!(id_of(sm.var("x")), None);
    assert_eq!(id_of(sm.fun("x")), None);
    assert_eq!(id_of(sm.ty("x")), None);
    assert_eq!(sm.add_var(decl("x", 1)), Err(ScopeError::NoActiveScope));
    assert_eq!(sm.add_fun(decl("x", 1)), Err(ScopeError::NoActiveScope));
    assert_eq!(sm.add_ty(decl("x", 1)), Err(ScopeError::NoActiveScope));
    sm.scope_exit();
    assert_eq!(id_of(sm.var("x")), None);
}

#[test]
fn one_name_coexists_across_namespaces() {
    let mut sm: Scopemap<Decl> = Scopemap::new();
    sm.scope_entry();
    assert!(sm.add_var(decl("foo", 1)).is_ok());
    assert!(sm.add_fun(decl("foo", 2)).is_ok());
    assert!(sm.add_ty(decl("foo", 3)).is_ok());
    assert_eq!(id_of(sm.var("foo")), Some(1));
    assert_eq!(id_of(sm.fun("foo")), Some(2));
    assert_eq!(id_of(sm.ty("foo")), Some(3));
}

#[test]
fn lookup_scans_to_the_outermost_scope() {
    let mut sm: Scopemap<Decl> = Scopemap::new();
    sm.scope_entry();
    assert!(sm.add_var(decl("x", 7)).is_ok());
    sm.scope_entry();
    sm.scope_entry();
    assert_eq!(id_of(sm.var("x")), Some(7));
    assert_eq!(id_of(sm.fun("x")), None);
}

#[test]
fn two_names_stay_separately_retrievable() {
    let mut sm: Scopemap<Decl> = Scopemap::new();
    sm.scope_entry();
    assert!(sm.add_var(decl("a", 10)).is_ok());
    assert!(sm.add_var(decl("b", 20)).is_ok());
    assert_eq!(id_of(sm.var("a")), Some(10));
    assert_eq!(id_of(sm.var("b")), Some(20));
    assert_eq!(id_of(sm.var("c")), None);
}

#[test]
fn single_scope_keeps_its_three_namespaces_apart() {
    let mut scope: Scope<Decl> = Scope::new();
    assert!(scope.add_var(decl("n", 1)).is_ok());
    assert!(scope.add_fun(decl("n", 2)).is_ok());
    assert!(scope.add_ty(decl("n", 3)).is_ok());
    assert_eq!(id_of(scope.var("n")), Some(1));
    assert_eq!(id_of(scope.fun("n")), Some(2));
    assert_eq!(id_of(scope.ty("n")), Some(3));
    assert_eq!(
        scope.add_var(decl("n", 4)),
        Err(ScopeError::DuplicateDeclaration {
            namespace: NamespaceKind::Variables,
            name: "n".to_string(),
        })
    );
    assert_eq!(id_of(scope.var("n")), Some(1));
}

#[test]
fn empty_scope_finds_nothing() {
    let scope: Scope<Decl> = Scope::new();
    assert_eq!(id_of(scope.var("x")), None);
    assert_eq!(id_of(scope.fun("x")), None);
    assert_eq!(id_of(scope.ty("x")), None);
}

#[test]
fn default_scope_and_stack_start_empty() {
    let scope: Scope<Decl> = Scope::default();
    assert_eq!(id_of(scope.var("x")), None);
    let mut sm: Scopemap<Decl> = Scopemap::default();
    assert_eq!(sm.add_var(decl("x", 1)), Err(ScopeError::NoActiveScope));
}
