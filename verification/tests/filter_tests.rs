use ef_testing::filter::Filter;

fn filter() -> Filter {
    Filter::new(
        vec![(
            String::from("stCallCreateCallCodeTest"),
            vec![String::from("Call1024PreCalls")],
        )],
        vec![(
            String::from("stBadOpcode"),
            vec![String::from("^opc[0-9A-F]{2}DiffPlaces$")],
        )],
    )
}

#[test]
fn a_listed_file_name_is_skipped() {
    let f = filter();
    let r = f.is_skipped(
        &String::from("stCallCreateCallCodeTest"),
        &String::from("Call1024PreCalls"),
    );
    assert_eq!(r, Some(true));
}

#[test]
fn a_pattern_match_is_skipped() {
    let f = filter();
    let r = f.is_skipped(&String::from("stBadOpcode"), &String::from("opc4DDiffPlaces"));
    assert_eq!(r, Some(true));
}

#[test]
fn an_unlisted_file_is_kept() {
    let f = filter();
    let r = f.is_skipped(&String::from("stBadOpcode"), &String::from("addmodDiffPlaces"));
    assert_eq!(r, Some(false));
    let r2 = f.is_skipped(&String::from("stExample"), &String::from("anything"));
    assert_eq!(r2, Some(false));
}

#[test]
fn an_invalid_pattern_yields_no_decision() {
    let f = Filter::new(
        vec![],
        vec![(String::from("stBroken"), vec![String::from("([")])],
    );
    let r = f.is_skipped(&String::from("stBroken"), &String::from("anything"));
    assert_eq!(r, None);
}

#[test]
fn a_name_skip_wins_before_patterns_are_consulted() {
    // The directory also carries an invalid pattern, but the direct name
    // listing decides first.
    let f = Filter::new(
        vec![(String::from("stBroken"), vec![String::from("listed")])],
        vec![(String::from("stBroken"), vec![String::from("([")])],
    );
    let r = f.is_skipped(&String::from("stBroken"), &String::from("listed"));
    assert_eq!(r, Some(true));
}
