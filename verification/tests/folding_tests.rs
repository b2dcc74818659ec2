use icalendar::folding::fold_line;
use icalendar::parser::unfold;

#[test]
fn fold_line_short() {
    let line = "This is a short line";
    assert_eq!(line, fold_line(line));
}

#[test]
fn fold_line_folds_on_char_boundary() {
    let line = "Content lines shouldn't be folded in the middle of a UTF-8 character. 老虎.";
    let expected = "Content lines shouldn't be folded in the middle of a UTF-8 character. 老\r\n 虎.";
    assert_eq!(expected, fold_line(line));
}

#[test]
fn preserve_spaces() {
    let lines = [
        "01234567890123456789012345678901234567890123456789012345HERE_COMES_A_SPACE( )",
        "01234567890123456789012345678901234567890123456789012345HERE_COMES_A_SPACE( )<-----78901234567890123456789012345678901234567890123HERE_COMES_A_SPACE( )<---",
    ];
    for line in lines {
        let folded = fold_line(line);
        let unfolded = unfold(&folded);
        assert_eq!(line, unfolded);
    }
}

#[test]
fn folded_lines_fit_in_75_octets() {
    let line = "X:aaaaaaaaaaaaaaaaaaaaaaaaaaaaaaaaaaaaaaaaaaaaaaaaaaaaaaaaaaaaaaaaaaaaaaaaaaaaaaaaaaaaaaaaaaaaaaaaaaaaaaaaaaaaaaaaaaaaaaaaaaaaaaaaaa";
    let folded = fold_line(line);
    for physical in folded.split("\r\n ") {
        assert!(physical.len() <= 75, "a physical line is over 75 octets");
    }
    assert_eq!(unfold(&folded), line);
}
