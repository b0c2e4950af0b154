use edge_ascii::charset::{char_at, CHARS, CHAR_COUNT, EDGE_CHARS};

#[test]
fn characters_follow_each_other() {
    assert_eq!(CHAR_COUNT, CHARS.len() + EDGE_CHARS.len());
    assert_eq!(char_at(0), ' ');
    assert_eq!(char_at(9), '■');
    assert_eq!(char_at(10), '|');
    assert_eq!(char_at(20), 'X');
}

#[test]
fn no_character_occurs_twice() {
    for i in 0..CHAR_COUNT {
        assert_ne!(char_at(i), '\n');
        for j in 0..i {
            assert_ne!(char_at(i), char_at(j));
        }
    }
}
