use indexmap::IndexMap;
use trilogy_save::label_list::{filter_db, update_label_list};
use trilogy_save::plot_category::{
    add_missing_category_plots, bool_plot_slot, int_plot_slot, add_missing_variable_plots, player_variable_position, PlotCategoryDb,
    PlotVariableDb,
};
use trilogy_save::plot_filter::{decimal_chars, is_usize_number};
use trilogy_save::raw_plot::{
    add_missing_plots, add_plot, scroll_window, Command, FloatPlotType, IntPlotType, Msg, PlotType, RawPlot,
    RawPlotDb,
};

fn db() -> RawPlotDb {
    RawPlotDb {
        booleans: vec![(12, "Met Conrad".to_string()), (3, "Saved the Council".to_string())],
        integers: vec![(7, "Paragon".to_string())],
        floats: vec![],
    }
}

fn keys(list: &[(usize, Option<String>)]) -> Vec<usize> {
    list.iter().map(|(k, _)| *k).collect()
}

#[test]
fn label_list_merges_plots_and_database() {
    let plots = PlotType::Boolean(vec![false; 5]);
    let list = update_label_list(&plots, &db(), "");
    assert_eq!(keys(&list), vec![0, 1, 2, 3, 4, 12]);
    assert_eq!(list[3].1.as_deref(), Some("Saved the Council"));
    assert_eq!(list[0].1, None);
    assert_eq!(list[5].1.as_deref(), Some("Met Conrad"));
}

#[test]
fn label_list_filters_by_label_and_number() {
    let plots = PlotType::Boolean(vec![false; 15]);
    let by_label = update_label_list(&plots, &db(), "COUNCIL");
    assert_eq!(keys(&by_label), vec![3]);
    let by_number = update_label_list(&plots, &db(), "1");
    assert_eq!(keys(&by_number), vec![1, 10, 11, 12, 13, 14]);
    let plus_number = update_label_list(&plots, &db(), "+1");
    assert_eq!(keys(&plus_number), Vec::<usize>::new());
    let nothing = update_label_list(&plots, &db(), "zzz");
    assert!(nothing.is_empty());
}

#[test]
fn label_list_of_an_integer_map() {
    let mut map = IndexMap::new();
    map.insert(9, 1);
    map.insert(2, 5);
    let plots = PlotType::Int(IntPlotType::IndexMap(map));
    let list = update_label_list(&plots, &db(), "");
    assert_eq!(keys(&list), vec![2, 7, 9]);
    assert_eq!(list[1].1.as_deref(), Some("Paragon"));
}

#[test]
fn database_filter_keeps_order() {
    let entries = vec![(30, "Alpha".to_string()), (4, "beta".to_string()), (13, "Gamma".to_string())];
    let kept = filter_db(&entries, "A");
    assert_eq!(kept.iter().map(|(k, _)| *k).collect::<Vec<_>>(), vec![30, 4, 13]);
    let kept = filter_db(&entries, "3");
    assert_eq!(kept.iter().map(|(k, _)| *k).collect::<Vec<_>>(), vec![30, 13]);
}

#[test]
fn numbers_and_digits() {
    assert_eq!(decimal_chars(0), vec!['0']);
    assert_eq!(decimal_chars(1205), vec!['1', '2', '0', '5']);
    assert!(is_usize_number(&"42".chars().collect()));
    assert!(is_usize_number(&"+7".chars().collect()));
    assert!(!is_usize_number(&"+".chars().collect()));
    assert!(!is_usize_number(&"".chars().collect()));
    assert!(!is_usize_number(&"-1".chars().collect()));
    assert!(!is_usize_number(&"99999999999999999999999".chars().collect()));
    assert!(!is_usize_number(&"4a".chars().collect()));
}

#[test]
fn adding_plots() {
    let mut plots = PlotType::Boolean(vec![true; 3]);
    assert!(add_plot(&mut plots, 5));
    match &plots {
        PlotType::Boolean(v) => assert_eq!(v, &vec![true, true, true, false, false, false]),
        _ => panic!("kind changed"),
    }
    assert!(!add_plot(&mut plots, 5));
    assert!(!add_plot(&mut plots, 1));
    let mut map = PlotType::Float(FloatPlotType::IndexMap(IndexMap::new()));
    assert!(add_plot(&mut map, -3));
    assert!(!add_plot(&mut map, -3));
    match &map {
        PlotType::Float(FloatPlotType::IndexMap(m)) => assert_eq!(m.get(&-3), Some(&0)),
        _ => panic!("kind changed"),
    }
}

#[test]
fn missing_plots_are_added() {
    let mut plots = PlotType::Boolean(vec![]);
    add_missing_plots(&mut plots, &db());
    match &plots {
        PlotType::Boolean(v) => assert_eq!(v.len(), 13),
        _ => panic!("kind changed"),
    }
    let mut ints = PlotType::Int(IntPlotType::IndexMap(IndexMap::new()));
    add_missing_plots(&mut ints, &db());
    add_missing_plots(&mut ints, &db());
    match &ints {
        PlotType::Int(IntPlotType::IndexMap(m)) => {
            assert_eq!(m.len(), 1);
            assert_eq!(m.get(&7), Some(&0));
        }
        _ => panic!("kind changed"),
    }
}

#[test]
fn scroll_window_counts_rows() {
    assert_eq!(scroll_window(0, 230, 100), (0, 12));
    assert_eq!(scroll_window(460, 230, 100), (20, 12));
    assert_eq!(scroll_window(-50, 230, 5), (0, 5));
}

#[test]
fn raw_plot_page_filtering_waits() {
    let mut plots = PlotType::Boolean(vec![false; 4]);
    let (mut page, commands) = RawPlot::create(&mut plots, &db(), "");
    assert!(matches!(commands.as_slice(), [Command::Measure]));
    assert_eq!(page.label_list.as_ref().unwrap().len(), 13);
    let mut filter = String::new();
    let (redraw, commands) = page.update(&mut plots, &db(), &mut filter, 0, Msg::Filter(Some("conrad".to_string())));
    assert!(!redraw);
    assert!(matches!(commands.as_slice(), [Command::WaitThenFiltered, Command::Measure]));
    assert_eq!(filter, "conrad");
    assert_eq!(keys(page.label_list.as_ref().unwrap()), vec![12]);
    let (_, commands) = page.update(&mut plots, &db(), &mut filter, 0, Msg::Filter(Some("c".to_string())));
    assert!(commands.is_empty());
    assert_eq!(filter, "conrad");
    let (_, commands) = page.update(&mut plots, &db(), &mut filter, 0, Msg::Filtered);
    assert!(matches!(commands.as_slice(), [Command::Refilter(Some(t))] if t == "c"));
    assert!(!page.is_filtering);
}

#[test]
fn raw_plot_page_adds_and_scrolls() {
    let mut plots = PlotType::Int(IntPlotType::Vec(vec![1, 2]));
    let (mut page, _) = RawPlot::create(&mut plots, &db(), "");
    assert_eq!(keys(page.label_list.as_ref().unwrap()), vec![0, 1, 2, 3, 4, 5, 6, 7]);
    let mut filter = String::new();
    let (_, commands) = page.update(&mut plots, &db(), &mut filter, 10, Msg::Add);
    assert!(matches!(commands.as_slice(), [Command::Measure]));
    assert_eq!(page.label_list.as_ref().unwrap().len(), 11);
    let (redraw, _) = page.update(&mut plots, &db(), &mut filter, 0, Msg::Scrolled(Some((46, 100))));
    assert!(redraw);
    assert_eq!((page.skip, page.take), (2, 6));
    let (_, commands) = page.changed(&mut plots, &db(), "", Some(40));
    assert!(matches!(commands.as_slice(), [Command::ScrollToTop]));
}

#[test]
fn category_plots_with_import_offset() {
    let category = PlotCategoryDb { booleans: vec![(5, "a".to_string())], integers: vec![(2, "b".to_string())] };
    let mut booleans = vec![];
    let mut ints = IntPlotType::IndexMap(IndexMap::new());
    add_missing_category_plots(&mut booleans, &mut ints, &category, true);
    assert_eq!(booleans.len(), 10_006);
    match &ints {
        IntPlotType::IndexMap(m) => assert_eq!(m.get(&10_002), Some(&0)),
        _ => panic!("kind changed"),
    }
    let mut booleans = vec![true; 2];
    let mut ints = IntPlotType::Vec(vec![]);
    add_missing_category_plots(&mut booleans, &mut ints, &category, false);
    assert_eq!(booleans, vec![true, true, false, false, false, false]);
    match &ints {
        IntPlotType::Vec(v) => assert_eq!(v, &vec![0, 0, 0]),
        _ => panic!("kind changed"),
    }
}

#[test]
fn player_variables_ignore_case() {
    let db = PlotVariableDb {
        booleans: vec![(3, "flag".to_string())],
        variables: vec![("Var_Alpha".to_string(), "Alpha".to_string()), ("var_beta".to_string(), "Beta".to_string())],
    };
    let mut booleans = vec![];
    let mut variables = IndexMap::new();
    variables.insert("VAR_ALPHA".to_string(), 4);
    add_missing_variable_plots(&mut booleans, &mut variables, &db);
    assert_eq!(booleans.len(), 4);
    assert_eq!(variables.len(), 2);
    assert_eq!(variables.get("var_beta"), Some(&0));
    assert_eq!(player_variable_position(&mut variables, "var_alpha"), 0);
    assert_eq!(player_variable_position(&mut variables, "Other"), 2);
    assert_eq!(variables.get("Other"), Some(&0));
}

#[test]
fn plot_slots_make_room() {
    let mut booleans = vec![true];
    assert_eq!(bool_plot_slot(&mut booleans, 3, false), 3);
    assert_eq!(booleans, vec![true, false, false, false]);
    assert_eq!(bool_plot_slot(&mut booleans, 0, false), 0);
    assert_eq!(booleans.len(), 4);
    let mut ints = IntPlotType::IndexMap(IndexMap::new());
    assert_eq!(int_plot_slot(&mut ints, 4, true), 10_004);
    match &ints {
        IntPlotType::IndexMap(m) => assert_eq!(m.get(&10_004), Some(&0)),
        _ => panic!("kind changed"),
    }
}
