use memtrack::estimate::estimate_type_size;
use memtrack::text::contains;

#[test]
fn boxed_types() {
    assert_eq!(estimate_type_size("Box<Vec<i32>>"), 64);
    assert_eq!(estimate_type_size("Box<String>"), 48);
    assert_eq!(estimate_type_size("Box<HashMap<String, i32>>"), 48);
    assert_eq!(estimate_type_size("Box<HashMap<u8, u8>>"), 128);
    assert_eq!(estimate_type_size("Box<i32>"), 32);
    assert_eq!(estimate_type_size("Box<dyn Fn()>"), 32);
}

#[test]
fn boxed_comes_before_every_other_pattern() {
    assert_eq!(estimate_type_size("Rc<Box<i32>>"), 32);
    assert_eq!(estimate_type_size("Arc<RefCell<Box<u8>>>"), 32);
    assert_eq!(estimate_type_size("Vec<Box<String>>"), 64);
    assert_eq!(estimate_type_size("Box<Rc<RefCell<u8>>>"), 32);
}

#[test]
fn reference_counted_types() {
    assert_eq!(estimate_type_size("Rc<RefCell<i32>>"), 72);
    assert_eq!(estimate_type_size("Arc<RefCell<Vec<i32>>>"), 72);
    assert_eq!(estimate_type_size("Rc<i32>"), 56);
    assert_eq!(estimate_type_size("Arc<Mutex<i32>>"), 56);
    assert_eq!(estimate_type_size("Rc<Vec<String>>"), 56);
    assert_eq!(estimate_type_size("std::sync::Arc<String>"), 56);
}

#[test]
fn bare_containers() {
    assert_eq!(estimate_type_size("Vec<i32>"), 48);
    assert_eq!(estimate_type_size("Vec<String>"), 48);
    assert_eq!(estimate_type_size("alloc::vec::Vec<u8>"), 48);
    assert_eq!(estimate_type_size("String"), 32);
    assert_eq!(estimate_type_size("alloc::string::String"), 32);
    assert_eq!(estimate_type_size("HashMap<String, i32>"), 32);
    assert_eq!(estimate_type_size("HashMap<i32, i32>"), 96);
    assert_eq!(estimate_type_size("HashMap<u8, Vec<u8>>"), 48);
}

#[test]
fn everything_else() {
    assert_eq!(estimate_type_size(""), 24);
    assert_eq!(estimate_type_size("i32"), 24);
    assert_eq!(estimate_type_size("Vec"), 24);
    assert_eq!(estimate_type_size("Box"), 24);
    assert_eq!(estimate_type_size("Rc"), 24);
    assert_eq!(estimate_type_size("box<vec<i32>>"), 24);
    assert_eq!(estimate_type_size("&str"), 24);
    assert_eq!(estimate_type_size("Größe<π>"), 24);
}

#[test]
fn the_estimate_depends_on_the_name_alone() {
    for name in ["Box<Vec<i32>>", "Rc<RefCell<u8>>", "Vec<u8>", "String", "HashMap<u8, u8>", "u8"] {
        assert_eq!(estimate_type_size(name), estimate_type_size(name));
    }
}

#[test]
fn substring_search() {
    assert!(contains("Box<Vec<i32>>", "Vec"));
    assert!(contains("Box<Vec<i32>>", "Box<"));
    assert!(contains("Box<Vec<i32>>", ">>"));
    assert!(contains("Box<Vec<i32>>", "Box<Vec<i32>>"));
    assert!(!contains("Box<Vec<i32>>", "Box<Vec<i32>>>"));
    assert!(!contains("Box<Vec<i32>>", "vec"));
    assert!(!contains("abc", "ac"));
    assert!(contains("aab", "ab"));
    assert!(contains("abc", ""));
    assert!(contains("", ""));
    assert!(!contains("", "a"));
    assert!(contains("naïve<π>", "ve<π"));
    assert!(!contains("naive", "ï"));
}

#[test]
fn substring_search_agrees_with_std() {
    let texts = ["", "a", "ab", "aba", "abab", "Vec<Vec<u8>>", "αβγαβ", "Rc<RefCell<T>>"];
    let patterns = ["", "a", "b", "ab", "ba", "aba", "Vec", "Vec<u8", "αβ", "βγα", "Rc<", "<T>>"];
    for text in texts {
        for pattern in patterns {
            assert_eq!(contains(text, pattern), text.contains(pattern), "{text:?} {pattern:?}");
        }
    }
}
