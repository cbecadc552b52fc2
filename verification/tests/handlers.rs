use bugwiki::commands::{create, delete, show, update, CmdError, Reply};
use bugwiki::store::{Bug, Store};
use bugwiki::tokens::tokenize;

#[test]
fn bug_constructors_store_their_arguments() {
    let a = Bug::new("Formica rufa", "red wood ant");
    assert_eq!(a.species, "Formica rufa");
    assert_eq!(a.description, "red wood ant");
    let b = Bug::new2("Formica rufa".to_string(), "red wood ant".to_string());
    assert_eq!(a, b);
}

#[test]
fn create_handler_inserts_through_both_views() {
    let mut st = Store::new();
    let (whites, quoted) = tokenize("create --id \"X9\" --species \"Foo\" --description \"Bar\"");
    let r = create(&quoted, &whites, &mut st);
    assert_eq!(r, Reply::Created);
    let id = "X9".to_string();
    assert_eq!(st.get(&id).unwrap().species, "Foo");
    assert_eq!(st.get(&id).unwrap().description, "Bar");
}

#[test]
fn show_handler_reads_the_quoted_view() {
    let mut st = Store::new();
    st.insert("X9".to_string(), Bug::new("Foo", "Bar"));
    let (_, quoted) = tokenize("show \"X9\"");
    let r = show(&quoted, &st);
    assert_eq!(r, Reply::Shown(Bug::new("Foo", "Bar")));
}

#[test]
fn update_handler_replaces_atomically() {
    let mut st = Store::new();
    st.insert("X9".to_string(), Bug::new("Foo", "Bar"));
    let (_, quoted) = tokenize("update \"X9\" --description \"D2\" --species \"S2\"");
    let r = update(&quoted, &mut st);
    assert_eq!(r, Reply::Updated);
    let id = "X9".to_string();
    assert_eq!(st.get(&id).unwrap().species, "S2");
    assert_eq!(st.get(&id).unwrap().description, "D2");
}

#[test]
fn delete_handler_needs_the_id_flag() {
    let mut st = Store::new();
    st.insert("X9".to_string(), Bug::new("Foo", "Bar"));
    let (whites, quoted) = tokenize("delete \"X9\"");
    let r = delete(&quoted, &whites, &mut st);
    assert_eq!(r, Reply::Failed(CmdError::WrongAttrs));
    let (whites, quoted) = tokenize("delete --id \"X9\"");
    let r = delete(&quoted, &whites, &mut st);
    assert_eq!(r, Reply::Deleted);
    assert!(!st.contains_id(&"X9".to_string()));
}
