use indt::Indent;
use std::io::Write;

#[test]
pub fn first_line_without_indent() {
    let mut buffer = Vec::new();
    let mut indt = Indent::from_writer(&mut buffer);

    indt.write(b"first line");

    assert_eq!("first line", String::from_utf8_lossy(&buffer));
}

#[test]
pub fn first_line_with_one_indent() {
    let mut buffer = Vec::new();
    let mut indt = Indent::from_writer(&mut buffer);

    indt.more();
    indt.write(b"first line");

    assert_eq!("    first line", String::from_utf8_lossy(&buffer));
}

#[test]
pub fn first_line_with_multiple_indent() {
    let mut buffer = Vec::new();
    let mut indt = Indent::from_writer(&mut buffer);

    indt.more().more().more();
    indt.write(b"first line");

    assert_eq!("            first line", String::from_utf8_lossy(&buffer));
}

#[test]
pub fn multiple_lines() {
    let mut buffer = Vec::new();
    let mut indt = Indent::from_writer(&mut buffer);

    indt.write(format!("{} first line\n", 1).as_bytes());

    indt.more();

    indt.write(format!("second {} line\n", 2).as_bytes());

    indt.more().more();

    indt.write(format!("third line {}\n", 3).as_bytes());

    indt.less();

    indt.write(b"fourth line\n");

    indt.write(b"fifth line");
    indt.write(b"also fifth line\n");

    indt.write(b"sixth line");

    assert_eq!(
        "1 first line\n    second 2 line\n            third line 3\n        fourth line\n        fifth linealso fifth line\n        sixth line",
        String::from_utf8_lossy(&buffer)
    )
}

#[test]
pub fn less() {
    let mut buffer = Vec::new();
    let mut indt = Indent::from_writer(&mut buffer);

    indt.less();

    indt.write(b"first line\n");

    assert_eq!("first line\n", String::from_utf8_lossy(&buffer));
}

#[test]
pub fn more() {
    let mut buffer = Vec::new();
    let mut indt = Indent::from_writer(&mut buffer);

    for _ in 0..300 {
        indt.more();
    }

    indt.write(b"first line\n");

    assert_eq!(
        "                                                                                                                                                                                                                                                               first line\n",
        String::from_utf8_lossy(&buffer)
    );
}

#[test]
pub fn custom_indent() {
    let mut buffer = Vec::new();
    let mut indt = Indent::new(&mut buffer, 2, '.');

    indt.more();

    indt.write(b"first line");

    indt.more();

    indt.write(b"\nsecond line");

    assert_eq!(
        "..first line\n....second line",
        String::from_utf8_lossy(&buffer)
    );
}

#[test]
pub fn empty_lines() {
    let mut buffer = Vec::new();
    let mut indt = Indent::from_writer(&mut buffer);

    indt.more();

    indt.write(b"first line\n\nsecond line");

    assert_eq!(
        "    first line\n\n    second line",
        String::from_utf8_lossy(&buffer)
    );
}

#[test]
pub fn indent_test() {
    let mut buffer = Vec::new();
    let mut indt = Indent::from_writer(&mut buffer);

    indt.more();

    indt.write(b"line\n");

    std::io::stdout().write_all(&buffer).unwrap();
    assert_eq!("    line\n", String::from_utf8_lossy(&buffer));
}
