use bugwiki::commands::{dispatch, CmdError, Reply};
use bugwiki::store::{Bug, Store};

fn shown(species: &str, description: &str) -> Reply {
    Reply::Shown(Bug {
        species: species.to_string(),
        description: description.to_string(),
    })
}

#[test]
fn create_then_show_returns_supplied_record() {
    let mut st = Store::new();
    let r = dispatch(
        "create --id \"A1\" --species \"Foo\" --description \"Bar\"",
        &mut st,
    );
    assert_eq!(r, Reply::Created);
    let r = dispatch("show \"A1\"", &mut st);
    assert_eq!(r, shown("Foo", "Bar"));
}

#[test]
fn create_existing_id_reports_code_5_and_keeps_record() {
    let mut st = Store::new();
    dispatch(
        "create --id \"A1\" --species \"Foo\" --description \"Bar\"",
        &mut st,
    );
    let r = dispatch(
        "create --id \"A1\" --species \"Other\" --description \"Thing\"",
        &mut st,
    );
    match r {
        Reply::Failed(CmdError::DuplicateId(existing)) => {
            assert_eq!(existing.species, "Foo");
            assert_eq!(existing.description, "Bar");
            assert_eq!(CmdError::DuplicateId(existing).code(), 5);
        }
        other => panic!("expected a duplicate-identifier failure, got {:?}", other),
    }
    assert_eq!(dispatch("show \"A1\"", &mut st), shown("Foo", "Bar"));
}

#[test]
fn create_with_wrong_flags_reports_code_2() {
    let mut st = Store::new();
    let r = dispatch(
        "create --idx \"A1\" --species \"Foo\" --description \"Bar\"",
        &mut st,
    );
    assert_eq!(r, Reply::Failed(CmdError::WrongAttrs));
    let r = dispatch(
        "create --id \"A1\" --description \"Bar\" --species \"Foo\"",
        &mut st,
    );
    assert_eq!(r, Reply::Failed(CmdError::WrongAttrs));
}

#[test]
fn create_with_six_quoted_tokens_reports_code_1() {
    let mut st = Store::new();
    let r = dispatch(
        "create --id \"A1\" --species \"Foo\" --description \"Bar",
        &mut st,
    );
    assert_eq!(r, Reply::Failed(CmdError::WrongCount));
}

#[test]
fn create_with_eight_quoted_tokens_reports_code_1() {
    let mut st = Store::new();
    let r = dispatch(
        "create --id \"A1\" --species \"Foo\" --description \"Bar\" \"",
        &mut st,
    );
    assert_eq!(r, Reply::Failed(CmdError::WrongCount));
}

#[test]
fn create_count_error_wins_over_flag_error() {
    let mut st = Store::new();
    let r = dispatch(
        "create --wrong \"A1\" --species \"Foo\" --description \"Bar",
        &mut st,
    );
    assert_eq!(r, Reply::Failed(CmdError::WrongCount));
}

#[test]
fn show_with_wrong_count_reports_code_1() {
    let mut st = Store::new();
    let r = dispatch("show \"A1\" \"B2\"", &mut st);
    assert_eq!(r, Reply::Failed(CmdError::WrongCount));
}

#[test]
fn show_of_missing_id_reports_code_4() {
    let mut st = Store::new();
    let r = dispatch("show \"A1\"", &mut st);
    assert_eq!(r, Reply::Failed(CmdError::MissingId));
    assert_eq!(CmdError::MissingId.code(), 4);
}

#[test]
fn update_species_keeps_description() {
    let mut st = Store::new();
    dispatch(
        "create --id \"A1\" --species \"Foo\" --description \"Bar\"",
        &mut st,
    );
    let r = dispatch("update \"A1\" --species \"Baz\"", &mut st);
    assert_eq!(r, Reply::Updated);
    assert_eq!(dispatch("show \"A1\"", &mut st), shown("Baz", "Bar"));
}

#[test]
fn update_description_keeps_species() {
    let mut st = Store::new();
    dispatch(
        "create --id \"A1\" --species \"Foo\" --description \"Bar\"",
        &mut st,
    );
    let r = dispatch("update \"A1\" --description \"Longer text\"", &mut st);
    assert_eq!(r, Reply::Updated);
    assert_eq!(dispatch("show \"A1\"", &mut st), shown("Foo", "Longer text"));
}

#[test]
fn update_both_in_order_takes_values_by_position() {
    let mut st = Store::new();
    dispatch(
        "create --id \"A1\" --species \"Foo\" --description \"Bar\"",
        &mut st,
    );
    let r = dispatch("update \"A1\" --species \"S2\" --description \"D2\"", &mut st);
    assert_eq!(r, Reply::Updated);
    assert_eq!(dispatch("show \"A1\"", &mut st), shown("S2", "D2"));
}

#[test]
fn update_both_swapped_takes_values_by_position() {
    let mut st = Store::new();
    dispatch(
        "create --id \"A1\" --species \"Foo\" --description \"Bar\"",
        &mut st,
    );
    let r = dispatch("update \"A1\" --description \"D3\" --species \"S3\"", &mut st);
    assert_eq!(r, Reply::Updated);
    assert_eq!(dispatch("show \"A1\"", &mut st), shown("S3", "D3"));
}

#[test]
fn update_with_unknown_flag_reports_code_2() {
    let mut st = Store::new();
    dispatch(
        "create --id \"A1\" --species \"Foo\" --description \"Bar\"",
        &mut st,
    );
    let r = dispatch("update \"A1\" --color \"red\"", &mut st);
    assert_eq!(r, Reply::Failed(CmdError::WrongAttrs));
    assert_eq!(CmdError::WrongAttrs.code(), 2);
    assert_eq!(dispatch("show \"A1\"", &mut st), shown("Foo", "Bar"));
}

#[test]
fn update_with_bad_flag_pair_reports_code_2() {
    let mut st = Store::new();
    dispatch(
        "create --id \"A1\" --species \"Foo\" --description \"Bar\"",
        &mut st,
    );
    let r = dispatch("update \"A1\" --species \"S\" --species \"T\"", &mut st);
    assert_eq!(r, Reply::Failed(CmdError::WrongAttrs));
}

#[test]
fn update_with_wrong_count_reports_code_1() {
    let mut st = Store::new();
    let r = dispatch("update \"A1\"", &mut st);
    assert_eq!(r, Reply::Failed(CmdError::WrongCount));
    assert_eq!(CmdError::WrongCount.code(), 1);
}

#[test]
fn update_of_missing_id_reports_code_4() {
    let mut st = Store::new();
    let r = dispatch("update \"A1\" --species \"Baz\"", &mut st);
    assert_eq!(r, Reply::Failed(CmdError::MissingId));
}

#[test]
fn delete_then_show_reports_code_4() {
    let mut st = Store::new();
    dispatch(
        "create --id \"A1\" --species \"Foo\" --description \"Bar\"",
        &mut st,
    );
    let r = dispatch("delete --id \"A1\"", &mut st);
    assert_eq!(r, Reply::Deleted);
    let r = dispatch("show \"A1\"", &mut st);
    assert_eq!(r, Reply::Failed(CmdError::MissingId));
}

#[test]
fn delete_with_wrong_flag_reports_code_2() {
    let mut st = Store::new();
    dispatch(
        "create --id \"A1\" --species \"Foo\" --description \"Bar\"",
        &mut st,
    );
    let r = dispatch("delete --idx \"A1\"", &mut st);
    assert_eq!(r, Reply::Failed(CmdError::WrongAttrs));
    assert_eq!(dispatch("show \"A1\"", &mut st), shown("Foo", "Bar"));
}

#[test]
fn delete_of_missing_id_reports_code_4() {
    let mut st = Store::new();
    let r = dispatch("delete --id \"A1\"", &mut st);
    assert_eq!(r, Reply::Failed(CmdError::MissingId));
}
