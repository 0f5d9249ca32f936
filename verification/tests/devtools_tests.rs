use glycerin::devtools::FindInPage;

#[test]
fn test_find_in_page() {
    let mut finder = FindInPage::new();
    let content = "Hello world, hello universe, hello everyone";

    let count = finder.find(content, "hello", false);
    assert_eq!(count, 3);

    let first = finder.next_match();
    assert!(first.is_some());
    assert_eq!(first.unwrap().text, "Hello");

    let second = finder.next_match();
    assert_eq!(second.unwrap().text, "hello");
}

#[test]
fn try_find_refuses_what_find_cannot_search() {
    let mut finder = FindInPage::new();
    assert_eq!(finder.try_find("Hello hello", "HELLO", false), Some(2));
    assert_eq!(finder.next_match().unwrap().text, "Hello");
    assert_eq!(finder.try_find("abc", "", true), None);
    assert_eq!(finder.next_match().unwrap().text, "hello");
    assert_eq!(finder.try_find("h\u{e9}llo", "\u{e9}", true), None);
    assert_eq!(finder.try_find("h\u{e9}llo", "llo", true), Some(1));
    assert_eq!(finder.next_match().unwrap().start_offset, 3);
}

#[test]
fn find_in_searched_takes_the_compared_texts() {
    let mut finder = FindInPage::new();
    assert_eq!(finder.find_in_searched("ABab", "ab", "abab", "ab"), 2);
    assert_eq!(finder.next_match().unwrap().text, "AB");
    assert_eq!(finder.next_match().unwrap().text, "ab");
    assert_eq!(finder.previous_match().unwrap().text, "AB");
}
