use afc_finder::text::{characters, comes_before, contains, decimal_text, joined, same_text};

#[test]
fn decimal_numerals() {
    for n in [0u128, 1, 9, 10, 99, 100, 1234567890, u128::MAX] {
        assert_eq!(decimal_text(n), n.to_string());
    }
}

#[test]
fn joining_and_taking_apart() {
    assert_eq!(joined("Deleted: ", "/é"), "Deleted: /é");
    assert_eq!(joined("", ""), "");
    assert_eq!(characters("aé📁"), vec!['a', 'é', '📁']);
}

#[test]
fn equality_and_order_are_those_of_strings() {
    let texts = ["", "a", "A", "ab", "b", "é", "e", "z", "📁", "a\u{0}", "ß", "ss"];
    for a in texts {
        for b in texts {
            assert_eq!(same_text(a, b), a == b);
            assert_eq!(comes_before(a, b), a < b);
        }
    }
}

#[test]
fn search_is_that_of_strings() {
    let texts = ["", "a", "aa", "ab", "aab", "abab", "é", "aéb", "bé", "📁a", "aaab"];
    for text in texts {
        for needle in texts {
            assert_eq!(contains(text, needle), text.contains(needle), "{text} {needle}");
        }
    }
}
