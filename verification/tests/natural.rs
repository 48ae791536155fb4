use pacfiles::natural::sort_naturally;

fn sorted(items: &[&str]) -> Vec<String> {
    sort_naturally(items.iter().map(|s| s.to_string()).collect())
}

#[test]
fn numbers_sort_by_value() {
    assert_eq!(sorted(&["rfc2086.txt", "rfc822.txt", "rfc1.txt"]), vec!["rfc1.txt", "rfc822.txt", "rfc2086.txt"]);
    assert_eq!(sorted(&["a10", "a2", "a1", "a20", "a"]), vec!["a", "a1", "a2", "a10", "a20"]);
}

#[test]
fn sorting_agrees_with_the_standard_sort() {
    let items = [
        "pic5", "pic 4 else", "x2-y7", "1-20", "pic100a", "tom", "1-2", "pic2000", "jane", "x8-y8",
        "pic3", "10-20", "pic05", "fred", "pic100", "1-02", "x2-g8", "pic4", "pic2", "pic121",
    ];
    let mut expected: Vec<String> = items.iter().map(|s| s.to_string()).collect();
    expected.sort_by(|a, b| natord::compare(a, b));
    assert_eq!(sorted(&items), expected);
}

#[test]
fn equal_items_keep_their_order() {
    assert_eq!(sorted(&["b", "a b", "ab", "a", "a  b"]), vec!["a", "a b", "ab", "a  b", "b"]);
}

#[test]
fn sorting_keeps_every_item() {
    assert_eq!(sorted(&[]), Vec::<String>::new());
    assert_eq!(sorted(&["x"]), vec!["x"]);
    assert_eq!(sorted(&["x", "x", "a", "x"]), vec!["a", "x", "x", "x"]);
}

#[test]
fn sorted_list_stays_as_it_is() {
    let once = sorted(&["f.pacnew.10", "f.pacnew", "f.pacnew.2", "f.pacnew.1"]);
    assert_eq!(once, vec!["f.pacnew", "f.pacnew.1", "f.pacnew.2", "f.pacnew.10"]);
    assert_eq!(sort_naturally(once.clone()), once);
}
