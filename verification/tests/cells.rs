use track_patterns::cell::{parse_cell, to_alias, CellContent, Height, UnknownToken};

fn every_cell() -> Vec<CellContent> {
    vec![
        CellContent::Empty,
        CellContent::CoinLow,
        CellContent::CoinHigh,
        CellContent::Ramp,
        CellContent::Barrier,
        CellContent::ArcStartLow,
        CellContent::ArcEndLow,
        CellContent::ArcStartHigh,
        CellContent::ArcEndHigh,
        CellContent::PowerupSpawnLow,
        CellContent::PowerupSpawnHigh,
    ]
}

#[test]
fn alias_round_trips_for_every_cell() {
    for cell in every_cell() {
        assert_eq!(parse_cell(to_alias(cell)), Ok(cell));
    }
}

#[test]
fn long_name_round_trips_for_every_cell() {
    for cell in every_cell() {
        assert_eq!(parse_cell(cell.name()), Ok(cell));
    }
}

#[test]
fn aliases_are_the_authoring_tokens() {
    assert_eq!(to_alias(CellContent::Empty), "e");
    assert_eq!(to_alias(CellContent::CoinLow), "c");
    assert_eq!(to_alias(CellContent::CoinHigh), "C");
    assert_eq!(to_alias(CellContent::Ramp), "r");
    assert_eq!(to_alias(CellContent::Barrier), "b");
    assert_eq!(to_alias(CellContent::ArcStartLow), "a");
    assert_eq!(to_alias(CellContent::ArcEndLow), "x");
    assert_eq!(to_alias(CellContent::ArcStartHigh), "A");
    assert_eq!(to_alias(CellContent::ArcEndHigh), "X");
    assert_eq!(to_alias(CellContent::PowerupSpawnLow), "p");
    assert_eq!(to_alias(CellContent::PowerupSpawnHigh), "P");
}

#[test]
fn blank_e_and_n_all_mean_empty() {
    assert_eq!(parse_cell(""), Ok(CellContent::Empty));
    assert_eq!(parse_cell("e"), Ok(CellContent::Empty));
    assert_eq!(parse_cell("n"), Ok(CellContent::Empty));
    assert_eq!(parse_cell("Empty"), Ok(CellContent::Empty));
}

#[test]
fn tokens_are_case_sensitive() {
    assert_eq!(parse_cell("c"), Ok(CellContent::CoinLow));
    assert_eq!(parse_cell("C"), Ok(CellContent::CoinHigh));
    assert_eq!(parse_cell("a"), Ok(CellContent::ArcStartLow));
    assert_eq!(parse_cell("A"), Ok(CellContent::ArcStartHigh));
    assert_eq!(parse_cell("x"), Ok(CellContent::ArcEndLow));
    assert_eq!(parse_cell("X"), Ok(CellContent::ArcEndHigh));
    assert_eq!(parse_cell("p"), Ok(CellContent::PowerupSpawnLow));
    assert_eq!(parse_cell("P"), Ok(CellContent::PowerupSpawnHigh));
    assert_eq!(parse_cell("E"), Err(UnknownToken { token: "E".to_string() }));
    assert_eq!(parse_cell("R"), Err(UnknownToken { token: "R".to_string() }));
    assert_eq!(parse_cell("coinlow"), Err(UnknownToken { token: "coinlow".to_string() }));
}

#[test]
fn unknown_token_is_an_error_and_never_empty() {
    assert_eq!(parse_cell("z"), Err(UnknownToken { token: "z".to_string() }));
    assert_eq!(parse_cell(" "), Err(UnknownToken { token: " ".to_string() }));
    assert_eq!(parse_cell("cc"), Err(UnknownToken { token: "cc".to_string() }));
    assert_eq!(parse_cell("é"), Err(UnknownToken { token: "é".to_string() }));
    assert_eq!(parse_cell("None"), Err(UnknownToken { token: "None".to_string() }));
}

#[test]
fn arc_cells_know_their_height() {
    assert_eq!(CellContent::ArcStartLow.opened_arc(), Some(Height::Low));
    assert_eq!(CellContent::ArcStartHigh.opened_arc(), Some(Height::High));
    assert_eq!(CellContent::ArcEndLow.opened_arc(), None);
    assert_eq!(CellContent::CoinLow.opened_arc(), None);
    assert_eq!(CellContent::ArcEndLow.closed_arc(), Some(Height::Low));
    assert_eq!(CellContent::ArcEndHigh.closed_arc(), Some(Height::High));
    assert_eq!(CellContent::ArcStartHigh.closed_arc(), None);
    assert_eq!(CellContent::Barrier.closed_arc(), None);
}
