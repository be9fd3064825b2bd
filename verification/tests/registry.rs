use tachyobench::registry::{benches, is_wanted, select, BenchName, Selection};

fn written(names: &[BenchName]) -> Vec<String> {
    names.iter().map(|name| name.full()).collect()
}

fn chosen(filters: &[&str]) -> Vec<String> {
    let filters: Vec<String> = filters.iter().map(|filter| filter.to_string()).collect();
    let selection = select(&filters, &benches());
    (0..selection.len()).map(|at| selection.get(at).full()).collect()
}

#[test]
fn the_benchmarks_are_listed_in_their_order() {
    assert_eq!(
        written(&benches()),
        vec![
            "funnel-async_channel",
            "funnel-flume",
            "funnel-futures_mpsc",
            "funnel-tachyonix",
            "funnel-thingbuf",
            "funnel-postage_mpsc",
            "funnel-tokio_mpsc",
            "pinball-async_channel",
            "pinball-flume",
            "pinball-futures_mpsc",
            "pinball-tachyonix",
            "pinball-thingbuf",
            "pinball-postage_mpsc",
            "pinball-tokio_mpsc",
        ]
    );
}

#[test]
fn without_a_filter_everything_is_taken_in_the_order_of_a_dictionary() {
    assert_eq!(
        chosen(&[]),
        vec![
            "funnel-async_channel",
            "funnel-flume",
            "funnel-futures_mpsc",
            "funnel-postage_mpsc",
            "funnel-tachyonix",
            "funnel-thingbuf",
            "funnel-tokio_mpsc",
            "pinball-async_channel",
            "pinball-flume",
            "pinball-futures_mpsc",
            "pinball-postage_mpsc",
            "pinball-tachyonix",
            "pinball-thingbuf",
            "pinball-tokio_mpsc",
        ]
    );
}

#[test]
fn a_filter_takes_the_names_it_stands_in() {
    assert_eq!(chosen(&["tokio"]), vec!["funnel-tokio_mpsc", "pinball-tokio_mpsc"]);
    assert_eq!(chosen(&["pinball-f"]), vec!["pinball-flume", "pinball-futures_mpsc"]);
    assert_eq!(
        chosen(&["l-tachyonix", "funnel-thing", "nothing"]),
        vec!["funnel-tachyonix", "funnel-thingbuf", "pinball-tachyonix"]
    );
    assert_eq!(chosen(&["nothing"]), Vec::<String>::new());
    assert_eq!(chosen(&["Funnel"]), Vec::<String>::new());
    assert_eq!(chosen(&[""]).len(), 14);
    assert_eq!(chosen(&["-"]).len(), 14);
    assert_eq!(chosen(&["funnel", "funnel"]).len(), 7);
}

#[test]
fn filters_are_tested_one_by_one() {
    let filters = vec!["tokio".to_string(), "flume".to_string()];
    assert!(is_wanted(&filters, "funnel-flume"));
    assert!(is_wanted(&filters, "pinball-tokio_mpsc"));
    assert!(!is_wanted(&filters, "pinball-thingbuf"));
    assert!(is_wanted(&Vec::new(), "anything"));
}

#[test]
fn groups_begin_and_end_where_the_group_changes() {
    let selection = select(&vec!["flume".to_string(), "funnel-t".to_string()], &benches());
    let names: Vec<String> = (0..selection.len()).map(|at| selection.get(at).full()).collect();
    assert_eq!(
        names,
        vec!["funnel-flume", "funnel-tachyonix", "funnel-thingbuf", "funnel-tokio_mpsc", "pinball-flume"]
    );
    let starts: Vec<bool> = (0..selection.len()).map(|at| selection.starts_group(at)).collect();
    let ends: Vec<bool> = (0..selection.len()).map(|at| selection.ends_group(at)).collect();
    assert_eq!(starts, vec![true, false, false, false, true]);
    assert_eq!(ends, vec![false, false, false, true, true]);
    assert!(!selection.is_empty());
}

#[test]
fn a_benchmark_is_taken_once() {
    let name = |group: &str, item: &str| BenchName { group: group.to_string(), item: item.to_string() };
    let mut selection = Selection::new();
    assert!(selection.is_empty());
    selection.insert(name("pinball", "flume"));
    selection.insert(name("funnel", "tokio_mpsc"));
    selection.insert(name("pinball", "flume"));
    selection.insert(name("funnel", "flume"));
    selection.insert(name("funnel", "tokio_mpsc"));
    selection.insert(name("fun", "zzz"));
    let names: Vec<String> = (0..selection.len()).map(|at| selection.get(at).full()).collect();
    assert_eq!(names, vec!["fun-zzz", "funnel-flume", "funnel-tokio_mpsc", "pinball-flume"]);
}
