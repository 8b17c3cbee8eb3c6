use cactuserve_sessions::scopes::{Scope, ScopeList};
use cactuserve_sessions::sessions::Session;
use cactuserve_sessions::tokens::{EncodedToken, Token};

#[test]
fn empty_scope_list_contains_nothing() {
    let l = ScopeList::empty();
    assert!(!l.contains(Scope::Admin));
    assert_eq!(l.bits(), 0);
}

#[test]
fn admin_scope_list() {
    let l = ScopeList::admin();
    assert!(l.contains(Scope::Admin));
    assert_eq!(l.bits(), 1);
}

#[test]
fn from_scope_and_union() {
    let l = ScopeList::from_scope(Scope::Admin);
    assert_eq!(l.bits(), 1);
    let u = ScopeList::empty().union(l);
    assert!(u.contains(Scope::Admin));
    assert_eq!(u.bits(), 1);
}

#[test]
fn insert_scope() {
    let mut l = ScopeList::empty();
    l.insert(Scope::Admin);
    assert!(l.contains(Scope::Admin));
    let mut again = l;
    again.insert(Scope::Admin);
    assert_eq!(again.bits(), l.bits());
}

#[test]
fn from_scopes_folds_the_union() {
    let l = ScopeList::from_scopes(&vec![]);
    assert_eq!(l.bits(), 0);
    let l = ScopeList::from_scopes(&vec![Scope::Admin, Scope::Admin]);
    assert_eq!(l.bits(), 1);
}

#[test]
fn to_scopes_lists_members() {
    assert_eq!(ScopeList::empty().to_scopes(), vec![]);
    assert_eq!(ScopeList::admin().to_scopes(), vec![Scope::Admin]);
}

#[test]
fn scope_variants() {
    assert_eq!(Scope::variants(), vec![Scope::Admin]);
    assert_eq!(Scope::Admin.bit(), 0);
}

#[test]
fn default_scope_list_is_empty() {
    let l: ScopeList = Default::default();
    assert_eq!(l.bits(), 0);
}

#[test]
fn new_empty_session() {
    let s = Session::new_empty();
    assert_eq!(s.scopes.bits(), 0);
    assert!(s.username.is_none());
    assert!(!s.scopes.contains(Scope::Admin));
}

#[test]
fn session_with_admin() {
    let mut s = Session::new_empty();
    s.scopes.insert(Scope::Admin);
    s.username = Some("grace".to_string());
    assert!(s.scopes.contains(Scope::Admin));
    assert_eq!(s.username.as_deref(), Some("grace"));
}

#[test]
fn token_holds_payload_and_opaque() {
    let t = Token::new("payload".to_string(), 7u32);
    assert_eq!(t.payload(), "payload");
    assert_eq!(*t.opaque(), 7);
}

#[test]
fn encoded_token_checksum() {
    // CRC-32 (IEEE) check value for the bytes "123456789"
    let e = EncodedToken::new(b"123456789");
    assert_eq!(e.checksum(), 0xCBF4_3926);
    assert_eq!(e.payload(), b"123456789");
}

#[test]
fn encoded_token_checksum_differs() {
    let a = EncodedToken::new(b"abc");
    let b = EncodedToken::new(b"abd");
    assert_ne!(a.checksum(), b.checksum());
}
