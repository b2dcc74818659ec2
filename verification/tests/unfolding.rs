use icalendar::folding::normalize;
use icalendar::parser::unfold;

#[test]
fn test_unfold1() {
    let input = "1 hello world\r\n2 hello \r\n   world\r\n3 hello \r\n world\r\n4 hello world";
    let expected = "1 hello world\r\n2 hello   world\r\n3 hello world\r\n4 hello world";
    assert_eq!(unfold(input), expected);
}

#[test]
fn test_unfold1_tabs() {
    let input = "1 hello world\r\n2 hello \r\n\t\tworld\r\n3 hello \r\n\tworld\r\n4 hello world";
    let expected = "1 hello world\r\n2 hello \tworld\r\n3 hello world\r\n4 hello world";
    assert_eq!(unfold(input), expected);
}

#[test]
fn utils_test_unfold2() {
    let input1 = "1 hello world\n2 hello \n   world\n3 hello world\n4 hello world";
    let input2 = "1 hello world\r\n2 hello \r\n   world\r\n3 hello \r\n world\r\n4 hello world";
    let expected = vec![
        "1 hello world",
        "2 hello   world",
        "3 hello world",
        "4 hello world",
    ];
    assert_eq!(unfold(input1).lines().collect::<Vec<_>>(), expected);
    assert_eq!(unfold(input2).lines().collect::<Vec<_>>(), expected);
}

#[test]
fn test_unfold() {
    let input = "1 hello world\r\n2 hello\r\n  world\r\n3 hello world\r\n4 hello world";
    let expected = "1 hello world\n2 hello world\n3 hello world\n4 hello world";
    assert_eq!(normalize(input), expected);
}

#[test]
fn unfold_is_idempotent_after_one_pass() {
    // one unfold pass leaves a fold-free text; a second changes nothing
    let inputs = [
        "A:short\r\nB:fol\r\n ded line\r\n",
        "A:x\n \n C:y",
        "plain text without any folds at all",
    ];
    for input in inputs {
        let once = unfold(input);
        assert_eq!(unfold(&once), once);
    }
}
