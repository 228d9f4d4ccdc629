use iconify_rs::grid::{
    cell_origin, items_per_row, plan_redraw, truncate_to_fit, visible_capacity, Cell,
};
use iconify_rs::{do_move, parse_original_search_string, parse_search_string, query, Cli, Direction, ParseError};

fn strings(v: &[&str]) -> Vec<String> {
    v.iter().map(|s| s.to_string()).collect()
}

fn cli(prefix: Option<&str>, q: Option<&str>) -> Cli {
    Cli {
        prefix: prefix.map(String::from),
        generate_icons_cache: false,
        fetch_collections: false,
        preview: false,
        browse: false,
        no_browse: false,
        verbose: false,
        output_svg: false,
        reset_config: false,
        query: q.map(String::from),
    }
}

#[test]
fn geometry_follows_cell_size_and_margins() {
    assert_eq!(items_per_row(100), 12);
    assert_eq!(items_per_row(3), 0);
    assert_eq!(visible_capacity(100, 30), 6 * 12);
    assert_eq!(visible_capacity(100, 5), 0);
}

#[test]
fn truncation_keeps_min_of_count_and_capacity_in_order() {
    // 20 columns: 2 per row; 14 rows: 2 grid rows; capacity 4.
    let mut many = strings(&["a", "b", "c", "d", "e", "f"]);
    truncate_to_fit(&mut many, 20, 14);
    assert_eq!(many, strings(&["a", "b", "c", "d"]));
    let mut few = strings(&["x", "y"]);
    truncate_to_fit(&mut few, 20, 14);
    assert_eq!(few, strings(&["x", "y"]));
    let mut none = strings(&["x"]);
    truncate_to_fit(&mut none, 20, 3);
    assert!(none.is_empty());
}

#[test]
fn cells_are_laid_out_row_by_row() {
    assert_eq!(cell_origin(0, 100), Cell { x: 2, y: 1 });
    assert_eq!(cell_origin(13, 100), Cell { x: 10, y: 5 });
}

#[test]
fn redraw_touches_only_previous_and_selected_cells() {
    let plan = plan_redraw(Some(0), 1, 5, 100);
    assert_eq!(plan.clear, Some(Cell { x: 2, y: 1 }));
    assert_eq!(plan.highlight, Some(Cell { x: 10, y: 1 }));
    let first = plan_redraw(None, 0, 5, 100);
    assert_eq!(first.clear, None);
    let empty = plan_redraw(None, 0, 0, 100);
    assert_eq!(empty.highlight, None);
}

#[test]
fn moves_are_clamped() {
    // 20 columns: 2 per row, 5 items.
    let mut sel: u16 = 0;
    let mut prev: Option<u16> = None;
    do_move(Direction::Left, &mut sel, &mut prev, 5, &20);
    assert_eq!((sel, prev), (0, None));
    do_move(Direction::Up, &mut sel, &mut prev, 5, &20);
    assert_eq!((sel, prev), (0, None));
    do_move(Direction::Right, &mut sel, &mut prev, 5, &20);
    assert_eq!((sel, prev), (1, Some(0)));
    do_move(Direction::Down, &mut sel, &mut prev, 5, &20);
    assert_eq!((sel, prev), (3, Some(1)));
    do_move(Direction::Down, &mut sel, &mut prev, 5, &20);
    assert_eq!((sel, prev), (3, Some(1)));
    do_move(Direction::Up, &mut sel, &mut prev, 5, &20);
    assert_eq!((sel, prev), (1, Some(3)));
}

#[test]
fn moves_never_leave_the_results() {
    let dirs = [Direction::Down, Direction::Right, Direction::Right, Direction::Down, Direction::Down, Direction::Right, Direction::Up, Direction::Left];
    let mut sel: u16 = 0;
    let mut prev: Option<u16> = None;
    for d in dirs.iter().cycle().take(40) {
        do_move(*d, &mut sel, &mut prev, 7, &36);
        assert!(sel < 7);
    }
}

#[test]
fn down_on_last_row_does_nothing() {
    // 20 columns: 2 per row; 5 items; index 4 is alone on the last row.
    let mut sel: u16 = 4;
    let mut prev: Option<u16> = None;
    do_move(Direction::Down, &mut sel, &mut prev, 5, &20);
    assert_eq!(sel, 4);
    assert_eq!(prev, None);
    // index 3 has no cell below it in a short last row.
    let mut sel: u16 = 3;
    do_move(Direction::Down, &mut sel, &mut prev, 5, &20);
    assert_eq!(sel, 3);
    assert_eq!(prev, None);
}

#[test]
fn query_keeps_matches_in_corpus_order() {
    let corpus = strings(&["mdi:home", "mdi:cat", "fa:home"]);
    let found = query(&corpus, &Some("home".to_string()), &None).unwrap();
    assert_eq!(found, strings(&["mdi:home", "fa:home"]));
}

#[test]
fn query_with_prefix_and_empty_query_keeps_collection() {
    let corpus = strings(&["mdi:home", "mdi:cat", "fa:home", "mdix:cat"]);
    let (p, q) = parse_search_string("mdi:");
    assert_eq!(p, Some("mdi".to_string()));
    assert_eq!(q, Some(String::new()));
    let found = query(&corpus, &q, &p).unwrap();
    assert_eq!(found, strings(&["mdi:home", "mdi:cat"]));
}

#[test]
fn query_without_search_keeps_all() {
    let corpus = strings(&["mdi:home", "fa:cat"]);
    assert_eq!(query(&corpus, &None, &None).unwrap(), corpus);
}

#[test]
fn query_uses_the_query_language() {
    let corpus = strings(&["mdi:home", "mdi:cat", "fa:home", "fa:dog"]);
    let found = query(&corpus, &Some("home|dog".to_string()), &Some("fa".to_string())).unwrap();
    assert_eq!(found, strings(&["fa:home", "fa:dog"]));
    assert_eq!(query(&corpus, &Some("(home".to_string()), &None), Err(ParseError::UnclosedGroup));
}

#[test]
fn search_text_without_colon_is_all_query() {
    assert_eq!(parse_search_string("cat"), (None, Some("cat".to_string())));
}

#[test]
fn search_text_splits_at_first_colon() {
    assert_eq!(parse_search_string("mdi:cat"), (Some("mdi".to_string()), Some("cat".to_string())));
    assert_eq!(parse_search_string("a:b:c"), (Some("a".to_string()), Some("b:c".to_string())));
}

#[test]
fn initial_search_text_joins_prefix_and_query() {
    assert_eq!(parse_original_search_string(&cli(Some("mdi"), Some("home"))), "mdi:home");
    assert_eq!(parse_original_search_string(&cli(Some("mdi"), None)), "mdi:");
    assert_eq!(parse_original_search_string(&cli(None, Some("home"))), "home");
    assert_eq!(parse_original_search_string(&cli(Some(""), Some("home"))), "home");
    assert_eq!(parse_original_search_string(&cli(None, None)), "");
}
