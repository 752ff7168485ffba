use image_viewer::image_handler::path_order::{precedes_or_equals, sort_paths};

fn le(a: &str, b: &str) -> bool {
    precedes_or_equals(&a.to_string(), &b.to_string())
}

fn sorted(names: &[&str]) -> Vec<String> {
    sort_paths(names.iter().map(|name| name.to_string()).collect())
}

#[test]
fn a_path_precedes_or_equals_itself() {
    assert!(le("", ""));
    assert!(le("a.png", "a.png"));
}

#[test]
fn the_first_differing_byte_decides() {
    assert!(le("a.png", "b.png"));
    assert!(!le("b.png", "a.png"));
    assert!(le("img10.png", "img2.png"));
    assert!(!le("img2.png", "img10.png"));
}

#[test]
fn a_prefix_precedes_its_extensions() {
    assert!(le("", "a"));
    assert!(!le("a", ""));
    assert!(le("a", "a.png"));
    assert!(!le("a.png", "a"));
}

#[test]
fn upper_case_precedes_lower_case_and_ascii_precedes_the_rest() {
    assert!(le("Z.png", "a.png"));
    assert!(!le("a.png", "Z.png"));
    assert!(le("z.png", "é.png"));
    assert!(!le("é.png", "z.png"));
}

#[test]
fn precedes_or_equals_agrees_with_the_order_of_strings() {
    let names = ["", "a", "A", "ab", "b", "a/b", "a.b", "é", "日本", "z", "a\u{0}"];
    for a in names {
        for b in names {
            assert_eq!(le(a, b), a <= b, "{:?} against {:?}", a, b);
        }
    }
}

#[test]
fn sort_paths_sorts() {
    assert_eq!(sorted(&["c.png", "a.png", "b.png"]), vec!["a.png", "b.png", "c.png"]);
    assert_eq!(sorted(&["b", "a", "B", "A"]), vec!["A", "B", "a", "b"]);
}

#[test]
fn sort_paths_keeps_what_is_sorted() {
    assert_eq!(sorted(&[]), Vec::<String>::new());
    assert_eq!(sorted(&["x"]), vec!["x"]);
    assert_eq!(sorted(&["a", "b", "c", "d"]), vec!["a", "b", "c", "d"]);
}

#[test]
fn sort_paths_reverses_what_is_sorted_backwards() {
    assert_eq!(sorted(&["e", "d", "c", "b", "a"]), vec!["a", "b", "c", "d", "e"]);
}

#[test]
fn sort_paths_keeps_paths_that_are_given_twice() {
    assert_eq!(sorted(&["b", "a", "b", "a", "b"]), vec!["a", "a", "b", "b", "b"]);
}

#[test]
fn sort_paths_agrees_with_the_sort_of_strings() {
    let mut names: Vec<String> = Vec::new();
    let mut seed: u32 = 12345;
    for _ in 0..200 {
        seed = seed.wrapping_mul(1103515245).wrapping_add(12345);
        names.push(format!("/pictures/img{}.png", (seed >> 16) % 500));
    }
    let mut expected = names.clone();
    expected.sort();
    assert_eq!(sort_paths(names), expected);
}
