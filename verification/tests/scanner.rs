use scanny::Scanny;

#[test]
fn test_bump() {
    let mut sc = Scanny::new("abcd");
    assert_eq!(sc.bump(), Some('a'));
    assert_eq!(sc.bump(), Some('b'));
    assert_eq!(sc.bump(), Some('c'));
    assert_eq!(sc.bump(), Some('d'));
    assert_eq!(sc.bump(), None);

    let mut sc = Scanny::new("abcd");
    sc.matcher();
    assert_eq!(sc.bump(), Some('a'));
    assert_eq!(sc.bump(), Some('b'));
    assert_eq!(sc.bump(), Some('c'));
    assert_eq!(sc.bump(), Some('d'));
    assert_eq!(sc.bump(), None);
    sc.finalize(|_| {});
    assert_eq!(sc.bump(), None);

    let mut sc = Scanny::new("abcd");
    sc.matcher();
    assert_eq!(sc.bump(), Some('a'));
    assert_eq!(sc.bump(), Some('b'));
    assert_eq!(sc.bump(), Some('c'));
    assert_eq!(sc.bump(), Some('d'));
    assert_eq!(sc.bump(), None);
    sc.finalize(|m| {
        m.consume_on_match(false);
    });
    assert_eq!(sc.bump(), Some('a'));
    assert_eq!(sc.bump(), Some('b'));
    assert_eq!(sc.bump(), Some('c'));
    assert_eq!(sc.bump(), Some('d'));
    assert_eq!(sc.bump(), None);

    let mut sc = Scanny::new("abcd");
    sc.bump(); // consume 'a'
    sc.bump(); // consume 'b'
    sc.matcher();
    assert_eq!(sc.bump(), Some('c'));
    assert_eq!(sc.bump(), Some('d'));
    assert_eq!(sc.bump(), None);
    sc.finalize(|m| {
        m.consume_on_match(false);
    });
    assert_eq!(sc.bump(), Some('c'));
    assert_eq!(sc.bump(), Some('d'));
    assert_eq!(sc.bump(), None);
}

#[test]
fn test_peek() {
    let mut sc = Scanny::new("abcd");
    assert_eq!(sc.peek(), Some('a'));
    assert_eq!(sc.peek(), Some('a'));
    assert_eq!(sc.bump(), Some('a'));
    assert_eq!(sc.peek(), Some('b'));
    assert_eq!(sc.peek(), Some('b'));
    assert_eq!(sc.bump(), Some('b'));
    assert_eq!(sc.peek(), Some('c'));
    assert_eq!(sc.peek(), Some('c'));
    assert_eq!(sc.bump(), Some('c'));
    assert_eq!(sc.peek(), Some('d'));
    assert_eq!(sc.peek(), Some('d'));
    assert_eq!(sc.bump(), Some('d'));
    assert_eq!(sc.peek(), None);
    assert_eq!(sc.bump(), None);

    let mut sc = Scanny::new("abcd");
    sc.bump();
    sc.matcher();
    assert_eq!(sc.peek(), Some('b'));
    assert_eq!(sc.bump(), Some('b'));
    sc.finalize(|_| {});
    assert_eq!(sc.peek(), Some('c'));
    assert_eq!(sc.bump(), Some('c'));
    sc.matcher();
    assert_eq!(sc.peek(), Some('d'));
    assert_eq!(sc.bump(), Some('d'));
    sc.finalize(|_| {});
    assert_eq!(sc.peek(), None);
    assert_eq!(sc.bump(), None);
    sc.matcher();
    assert_eq!(sc.peek(), None);
    assert_eq!(sc.bump(), None);
    sc.finalize(|_| {});
    assert_eq!(sc.peek(), None);
    assert_eq!(sc.bump(), None);

    let mut sc = Scanny::new("abcd");
    assert_eq!(sc.peek(), Some('a'));
    assert_eq!(sc.peek_second(), Some('b'));
    assert_eq!(sc.peek_third(), Some('c'));
    assert_eq!(sc.peek_nth(3), Some('d'));
    assert_eq!(sc.peek_nth(4), None);
    assert_eq!(sc.bump(), Some('a'));

    let mut sc = Scanny::new("abcd");
    sc.bump(); // a
    sc.matcher();
    sc.bump(); // b
    sc.bump(); // c
    sc.finalize(|m| m.consume_on_match(false));
    assert_eq!(sc.bump(), Some('b'));
    assert_eq!(sc.bump(), Some('c'));
    assert_eq!(sc.bump(), Some('d'));
}

#[test]
fn test_skeep_while() {
    let mut sc = Scanny::new("    1234abc   ");
    sc.skeep_while(char::is_whitespace);
    assert_eq!(sc.bump(), Some('1'));
    sc.skeep_while(|v| v.is_ascii_digit());
    assert_eq!(sc.bump(), Some('a'));

    let mut sc = Scanny::new("    1234abc   ");
    sc.matcher();
    sc.skeep_while(char::is_whitespace);
    assert_eq!(sc.bump(), Some('1'));
    sc.skeep_while(|v| v.is_ascii_digit());
    assert_eq!(sc.bump(), Some('a'));
    sc.finalize(|m| {
        m.consume_on_match(false);
        m.consume_on_not_match(false);
    });
    sc.skeep_while(char::is_whitespace);
    assert_eq!(sc.bump(), Some('1'));
}

#[test]
fn test_match_char() {
    let mut sc = Scanny::new("1234abc");
    sc.match_char(|v| *v == '1');
    assert_eq!(sc.bump(), Some('2'));

    let mut sc = Scanny::new("1234abc");
    sc.match_char(|v| *v == '2');
    assert_eq!(sc.bump(), Some('1'));

    let mut sc = Scanny::new("1234abc");
    sc.matcher()
        .match_char(|v| *v == '1')
        .match_char(|v| *v == '2');
    sc.bump();
    sc.bump();
    sc.match_char(|v| *v == 'a').match_char(|v| *v == 'b');
    let matched = sc.finalize(|m| {
        assert!(m.is_matched());
        assert!(!m.is_not_matched());
        m.value()
    });
    assert_eq!(matched.unwrap().value, "1234ab");
    assert_eq!(sc.bump(), Some('c'));
    assert_eq!(sc.bump(), None);

    let mut sc = Scanny::new("1234abc");
    sc.matcher()
        .match_char(|v| *v == '1')
        .match_char(|v| *v == '2');
    sc.bump();
    sc.bump();
    sc.match_char(|v| *v == 'b').match_char(|v| *v == 'b');
    let matched = sc.finalize(|m| {
        assert!(!m.is_matched());
        assert!(m.is_not_matched());
        m.value()
    });
    assert_eq!(matched.unwrap().value, "1234");
    assert_eq!(sc.bump(), Some('a'));
}

#[test]
fn test_peek_and_consume() {
    let mut sc = Scanny::new(r"    'ab\' cd''hello world'   ");
    sc.skeep_while(char::is_whitespace);
    let matched = sc
        .matcher()
        .then('\'')
        .peek_and_consume(|v| match v.peek() {
            Some('\\') => {
                v.bump();
                true
            }
            Some('\'') => false,
            _ => true,
        })
        .then('\'')
        .finalize(|v| v.value())
        .unwrap()
        .value;
    assert_eq!(matched, r"'ab\' cd'");
    assert_eq!(sc.bump(), Some('\''));
    assert_eq!(sc.bump(), Some('h'));
}
