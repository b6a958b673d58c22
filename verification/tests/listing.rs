use afc_finder::commands::{AfcItem, FileInfo};
use afc_finder::listing::{sorted_by_keys, sorted_items};
use afc_finder::state::{SortColumn, SortDirection};

fn item(name: &str, size: usize, modified: i64) -> AfcItem {
    AfcItem {
        name: name.to_string(),
        info: FileInfo { size, modified, st_ifmt: "S_IFREG".to_string() },
    }
}

fn names(items: &[AfcItem]) -> Vec<&str> {
    items.iter().map(|i| i.name.as_str()).collect()
}

fn sample() -> Vec<AfcItem> {
    vec![
        item("beta", 3, -5),
        item("Alpha", 9, 7),
        item("alpha", 3, 7),
        item("ÉCLAIR", 1, 0),
        item("éclair", 9, -5),
        item("Zulu", 0, 2),
        item("beta2", 3, 2),
    ]
}

#[test]
fn sorting_by_name_ignores_case_and_keeps_ties() {
    let sorted = sorted_items(&sample(), SortColumn::Name, SortDirection::Ascending);
    assert_eq!(
        names(&sorted),
        vec!["Alpha", "alpha", "beta", "beta2", "Zulu", "ÉCLAIR", "éclair"]
    );
    let sorted = sorted_items(&sample(), SortColumn::Name, SortDirection::Descending);
    assert_eq!(
        names(&sorted),
        vec!["ÉCLAIR", "éclair", "Zulu", "beta2", "beta", "Alpha", "alpha"]
    );
}

#[test]
fn sorting_by_size() {
    let sorted = sorted_items(&sample(), SortColumn::Size, SortDirection::Ascending);
    assert_eq!(
        names(&sorted),
        vec!["Zulu", "ÉCLAIR", "beta", "alpha", "beta2", "Alpha", "éclair"]
    );
    let sorted = sorted_items(&sample(), SortColumn::Size, SortDirection::Descending);
    assert_eq!(
        names(&sorted),
        vec!["Alpha", "éclair", "beta", "alpha", "beta2", "ÉCLAIR", "Zulu"]
    );
}

#[test]
fn sorting_by_time() {
    let sorted = sorted_items(&sample(), SortColumn::Modified, SortDirection::Ascending);
    assert_eq!(
        names(&sorted),
        vec!["beta", "éclair", "ÉCLAIR", "Zulu", "beta2", "Alpha", "alpha"]
    );
}

#[test]
fn sorting_again_changes_nothing() {
    for column in [SortColumn::Name, SortColumn::Size, SortColumn::Modified] {
        for direction in [SortDirection::Ascending, SortDirection::Descending] {
            let once = sorted_items(&sample(), column, direction);
            let twice = sorted_items(&once, column, direction);
            assert_eq!(names(&once), names(&twice));
            assert_eq!(once.len(), sample().len());
            for kept in sample() {
                assert!(once.iter().any(|i| i.name == kept.name && i.info.size == kept.info.size));
            }
        }
    }
}

#[test]
fn sorting_agrees_with_the_stable_sort_of_the_standard_library() {
    let mut items = Vec::new();
    let mut x: u64 = 12345;
    for i in 0..500u64 {
        x = x.wrapping_mul(6364136223846793005).wrapping_add(1442695040888963407);
        let letters = ["a", "A", "b", "B", "É", "é", "ß", ""];
        let name = format!(
            "{}{}",
            letters[(x >> 33) as usize % 8],
            letters[(x >> 43) as usize % 8]
        );
        items.push(item(&name, (x >> 50) as usize % 7, i as i64 % 5 - 2));
        items.last_mut().unwrap().info.st_ifmt = i.to_string();
    }
    for column in [SortColumn::Name, SortColumn::Size, SortColumn::Modified] {
        for direction in [SortDirection::Ascending, SortDirection::Descending] {
            let mut expected = items.clone();
            expected.sort_by(|a, b| {
                let order = match column {
                    SortColumn::Name => a.name.to_lowercase().cmp(&b.name.to_lowercase()),
                    SortColumn::Size => a.info.size.cmp(&b.info.size),
                    SortColumn::Modified => a.info.modified.cmp(&b.info.modified),
                };
                match direction {
                    SortDirection::Ascending => order,
                    SortDirection::Descending => order.reverse(),
                }
            });
            let sorted = sorted_items(&items, column, direction);
            let ids = |v: &[AfcItem]| -> Vec<String> {
                v.iter().map(|i| i.info.st_ifmt.clone()).collect()
            };
            assert_eq!(ids(&sorted), ids(&expected));
        }
    }
}

#[test]
fn given_texts_stand_for_the_names() {
    let items = vec![item("one", 1, 1), item("two", 2, 2), item("three", 3, 3)];
    let keys = vec!["c".to_string(), "a".to_string(), "b".to_string()];
    let sorted = sorted_by_keys(&items, &keys, SortColumn::Name, SortDirection::Ascending);
    assert_eq!(names(&sorted), vec!["two", "three", "one"]);
    let sorted = sorted_by_keys(&items, &keys, SortColumn::Size, SortDirection::Descending);
    assert_eq!(names(&sorted), vec!["three", "two", "one"]);
}

#[test]
fn an_empty_listing_stays_empty() {
    let sorted = sorted_items(&Vec::new(), SortColumn::Name, SortDirection::Ascending);
    assert!(sorted.is_empty());
}

#[test]
fn the_other_direction_is_the_reverse_of_distinct_items() {
    let items = vec![item("b", 2, 5), item("C", 1, 4), item("a", 3, 6)];
    for column in [SortColumn::Name, SortColumn::Size, SortColumn::Modified] {
        let up = sorted_items(&items, column, SortDirection::Ascending);
        let down = sorted_items(&items, column, SortDirection::Descending);
        let mut turned = names(&up);
        turned.reverse();
        assert_eq!(names(&down), turned);
    }
}
