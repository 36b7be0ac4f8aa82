use coconut::parser::{collect_errors, has_errors, preprocessor_args, preprocessor_result, render_error, SyntaxNode};

const HEADER: &[u8] = b"\x1b[31mSyntax error:\x1b[0m\n";

fn report(lines: &[(&str, &str)]) -> Vec<u8> {
    let mut v = HEADER.to_vec();
    for (text, marks) in lines {
        v.extend_from_slice(text.as_bytes());
        v.extend_from_slice(b"\n\x1b[34m");
        v.extend_from_slice(marks.as_bytes());
        v.extend_from_slice(b"\n\x1b[0m");
    }
    v
}

fn leaf(start: usize, end: usize, err: bool) -> SyntaxNode {
    SyntaxNode { is_error: err, is_missing: false, start, end, children: vec![] }
}

#[test]
fn error_on_one_line() {
    let src = b"ab\ncd\n";
    assert_eq!(render_error(src, 3, 4), report(&[("cd", "^ ")]));
}

#[test]
fn error_spanning_lines() {
    let src = b"x = 1\ny = 22;\nz\n";
    // From the `2`s of the second line to the `z`.
    assert_eq!(render_error(src, 10, 15), report(&[("y = 22;", "    ^~~"), ("z", "~")]));
}

#[test]
fn error_with_tab_and_carriage_return() {
    let src = b"\tab\r\n";
    assert_eq!(render_error(src, 1, 3), report(&[("    ab\r", "    ^~\r")]));
    assert_eq!(render_error(src, 0, 2), report(&[("    ab\r", "^^^^~ \r")]));
}

#[test]
fn error_on_a_last_line_without_newline_shows_only_the_heading() {
    let src = b"ab\ncd";
    assert_eq!(render_error(src, 3, 5), HEADER.to_vec());
}

#[test]
fn error_at_the_end_of_the_input() {
    let src = b"ab\n";
    assert_eq!(render_error(src, 3, 3), HEADER.to_vec());
    assert_eq!(render_error(src, 2, 3), report(&[("ab", "  ")]));
}

#[test]
fn empty_error_range_marks_its_start() {
    let src = b"abc\n";
    assert_eq!(render_error(src, 1, 1), report(&[("abc", " ^ ")]));
}

#[test]
fn errors_collected_in_order_without_descending_into_errors() {
    let tree = SyntaxNode {
        is_error: false,
        is_missing: false,
        start: 0,
        end: 20,
        children: vec![
            leaf(0, 2, false),
            SyntaxNode { is_error: true, is_missing: false, start: 2, end: 6, children: vec![leaf(3, 4, true)] },
            SyntaxNode {
                is_error: false,
                is_missing: false,
                start: 6,
                end: 20,
                children: vec![leaf(7, 7, false), SyntaxNode { is_error: false, is_missing: true, start: 9, end: 9, children: vec![] }],
            },
            leaf(12, 14, true),
        ],
    };
    assert_eq!(collect_errors(&tree), vec![(2, 6), (9, 9), (12, 14)]);
}

#[test]
fn no_errors() {
    let tree = SyntaxNode { is_error: false, is_missing: false, start: 0, end: 3, children: vec![leaf(0, 3, false)] };
    assert!(collect_errors(&tree).is_empty());
}

#[test]
fn root_error() {
    let tree = SyntaxNode { is_error: true, is_missing: false, start: 0, end: 3, children: vec![leaf(1, 2, true)] };
    assert_eq!(collect_errors(&tree), vec![(0, 3)]);
}

#[test]
fn cpp_arguments() {
    let args = preprocessor_args(b"main.cvc", b"/usr/include/civic");
    assert_eq!(
        args,
        vec![b"-E".to_vec(), b"-P".to_vec(), b"-I/usr/include/civic".to_vec(), b"main.cvc".to_vec()]
    );
}

#[test]
fn cpp_result() {
    assert_eq!(preprocessor_result(true, b"int x;".to_vec()), Some(b"int x;".to_vec()));
    assert_eq!(preprocessor_result(false, b"int x;".to_vec()), None);
}

#[test]
fn has_errors_deep_in_the_tree() {
    let tree = SyntaxNode {
        is_error: false,
        is_missing: false,
        start: 0,
        end: 9,
        children: vec![
            leaf(0, 2, false),
            SyntaxNode { is_error: false, is_missing: false, start: 2, end: 9, children: vec![leaf(3, 3, false), SyntaxNode { is_error: false, is_missing: true, start: 5, end: 5, children: vec![] }] },
        ],
    };
    assert!(has_errors(&tree));
}

#[test]
fn has_no_errors() {
    let tree = SyntaxNode { is_error: false, is_missing: false, start: 0, end: 3, children: vec![leaf(0, 1, false), leaf(1, 3, false)] };
    assert!(!has_errors(&tree));
    assert!(has_errors(&leaf(0, 0, true)));
}
