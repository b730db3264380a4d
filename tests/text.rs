use stars::text::{lines, split, split_once};

#[test]
fn lines_like_std() {
    for s in ["", "a", "a\n", "a\r\nb", "a\n\nb\n", "a\r", "\n", "x\r\n\r\ny"] {
        let expected: Vec<String> = s.lines().map(|l| l.to_string()).collect();
        assert_eq!(lines(s), expected, "{:?}", s);
    }
}

#[test]
fn split_like_std() {
    for s in ["", " ", "a b", "a  b ", "ab"] {
        let expected: Vec<String> = s.split(' ').map(|l| l.to_string()).collect();
        assert_eq!(split(s, ' '), expected, "{:?}", s);
    }
}

#[test]
fn split_once_first_tab() {
    assert_eq!(split_once("a\tb\tc", '\t'), Some(("a".to_string(), "b\tc".to_string())));
    assert_eq!(split_once("\t", '\t'), Some((String::new(), String::new())));
    assert_eq!(split_once("abc", '\t'), None);
}
