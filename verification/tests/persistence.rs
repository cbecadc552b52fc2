use bugwiki::store::{Bug, Record, Store};

fn sample_store() -> Store {
    let mut st = Store::new();
    st.insert(
        "A1".to_string(),
        Bug::new("Latrodectus mactans", "southern black widow"),
    );
    st.insert("B2".to_string(), Bug::new("Apis mellifera", "honey bee"));
    st.insert("C3".to_string(), Bug::new("Formica rufa", "red wood ant"));
    st
}

#[test]
fn records_emit_one_row_per_entry() {
    let st = sample_store();
    let mut rows = st.records();
    assert_eq!(rows.len(), 3);
    rows.sort_by(|a, b| a.id.cmp(&b.id));
    assert_eq!(rows[0].id, "A1");
    assert_eq!(rows[0].species, "Latrodectus mactans");
    assert_eq!(rows[0].description, "southern black widow");
    assert_eq!(rows[1].id, "B2");
    assert_eq!(rows[2].id, "C3");
}

#[test]
fn round_trip_restores_the_same_mapping() {
    let st = sample_store();
    let rows = st.records();
    let mut st2 = Store::new();
    st2.load_records(&rows);
    for id in ["A1", "B2", "C3"] {
        let id = id.to_string();
        let a = st.get(&id).expect("present before the round trip");
        let b = st2.get(&id).expect("present after the round trip");
        assert_eq!(a, b);
    }
    assert_eq!(st2.records().len(), 3);
}

#[test]
fn round_trip_of_empty_store_is_empty() {
    let st = Store::new();
    let rows = st.records();
    assert_eq!(rows.len(), 0);
    let mut st2 = Store::new();
    st2.load_records(&rows);
    assert_eq!(st2.records().len(), 0);
}

#[test]
fn loading_a_later_row_with_the_same_id_wins() {
    let rows = vec![
        Record {
            id: "A1".to_string(),
            species: "first".to_string(),
            description: "one".to_string(),
        },
        Record {
            id: "A1".to_string(),
            species: "second".to_string(),
            description: "two".to_string(),
        },
    ];
    let mut st = Store::new();
    st.load_records(&rows);
    let id = "A1".to_string();
    let b = st.get(&id).expect("loaded");
    assert_eq!(b.species, "second");
    assert_eq!(b.description, "two");
    assert_eq!(st.records().len(), 1);
}

#[test]
fn insert_overwrites_and_remove_leaves_no_trace() {
    let mut st = Store::new();
    let id = "A1".to_string();
    st.insert(id.clone(), Bug::new("a", "b"));
    st.insert(id.clone(), Bug::new("c", "d"));
    assert!(st.contains_id(&id));
    assert_eq!(st.get(&id).unwrap().species, "c");
    assert_eq!(st.records().len(), 1);
    st.remove(&id);
    assert!(!st.contains_id(&id));
    assert!(st.get(&id).is_none());
    assert_eq!(st.records().len(), 0);
}

#[test]
fn remove_of_absent_id_changes_nothing() {
    let mut st = sample_store();
    st.remove(&"ZZ".to_string());
    assert_eq!(st.records().len(), 3);
}
