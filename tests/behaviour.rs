use indt::Indent;

fn render(step: u8, symbol: char, raises: usize, text: &[u8]) -> Vec<u8> {
    let mut buffer = Vec::new();
    let mut indt = Indent::new(&mut buffer, step, symbol);
    for _ in 0..raises {
        indt.more();
    }
    indt.write(text);
    buffer
}

#[test]
fn one_raise_gives_one_step_of_symbols() {
    assert_eq!(render(3, '-', 1, b"x"), b"---x".to_vec());
    assert_eq!(render(1, '\t', 1, b"x"), b"\tx".to_vec());
    assert_eq!(render(0, '#', 1, b"x"), b"x".to_vec());
    assert_eq!(render(255, '*', 1, b"x").len(), 256);
}

#[test]
fn multibyte_symbol_is_written_as_utf8() {
    assert_eq!(String::from_utf8(render(2, 'é', 1, b"x")).unwrap(), "ééx");
    assert_eq!(String::from_utf8(render(1, '→', 1, b"x")).unwrap(), "→x");
    assert_eq!(String::from_utf8(render(3, '😀', 1, b"x")).unwrap(), "😀😀😀x");
}

#[test]
fn raising_past_the_limit_saturates() {
    let out = render(100, '.', 3, b"x");
    assert_eq!(out.len(), 256);
    assert_eq!(out, [vec![b'.'; 255], b"x".to_vec()].concat());
    assert_eq!(render(200, '.', 2, b"x").len(), 256);
}

#[test]
fn lowering_at_zero_stays_at_zero() {
    let mut buffer = Vec::new();
    let mut indt = Indent::new(&mut buffer, 5, '.');
    indt.less().less();
    indt.more();
    indt.write(b"x");
    assert_eq!(buffer, b".....x".to_vec());
}

#[test]
fn lowering_below_zero_clamps() {
    let mut buffer = Vec::new();
    let mut indt = Indent::new(&mut buffer, 3, '.');
    indt.more().more().less().less().less();
    indt.more();
    indt.write(b"x");
    assert_eq!(buffer, b"...x".to_vec());
}

#[test]
fn blank_line_gets_no_indentation() {
    assert_eq!(render(2, ' ', 1, b"a\n\nb"), b"  a\n\n  b".to_vec());
    assert_eq!(render(1, '>', 2, b"a\n\n\nb\n"), b">>a\n\n\n>>b\n".to_vec());
}

#[test]
fn line_continues_across_writes() {
    let mut buffer = Vec::new();
    let mut indt = Indent::new(&mut buffer, 2, '_');
    indt.more();
    indt.write(b"a");
    indt.write(b"b");
    assert_eq!(buffer, b"__ab".to_vec());
}

#[test]
fn resumes_after_newline_across_writes() {
    let mut buffer = Vec::new();
    let mut indt = Indent::new(&mut buffer, 2, '_');
    indt.more();
    indt.write(b"a\n");
    indt.write(b"b");
    assert_eq!(buffer, b"__a\n__b".to_vec());
}

#[test]
fn default_configuration_scenario() {
    let mut buffer = Vec::new();
    let mut indt = Indent::from_writer(&mut buffer);
    indt.write(b"1 first line\n");
    indt.more();
    indt.write(b"second line\n");
    indt.more();
    indt.more();
    indt.write(b"third line\n");
    indt.less();
    indt.write(b"fourth line\n");
    assert_eq!(
        String::from_utf8_lossy(&buffer),
        "1 first line\n    second line\n            third line\n        fourth line\n"
    );
}

#[test]
fn zero_step_never_indents() {
    let text: &[u8] = b"a\n\nb c\n d";
    let mut buffer = Vec::new();
    let mut indt = Indent::new(&mut buffer, 0, '.');
    for _ in 0..1000 {
        indt.more();
    }
    indt.write(text);
    indt.more();
    indt.write(text);
    assert_eq!(buffer, [text, text].concat());
}

#[test]
fn write_returns_length_of_input() {
    let mut buffer = Vec::new();
    let mut indt = Indent::from_writer(&mut buffer);
    indt.more();
    assert_eq!(indt.write(b"ab\ncd\n\n"), 7);
    assert_eq!(indt.write(b""), 0);
}

#[test]
fn empty_write_sends_nothing() {
    let mut buffer = Vec::new();
    let mut indt = Indent::from_writer(&mut buffer);
    indt.more();
    indt.write(b"");
    assert!(buffer.is_empty());
}

#[test]
fn empty_write_keeps_line_start() {
    let mut buffer = Vec::new();
    let mut indt = Indent::from_writer(&mut buffer);
    indt.more();
    indt.write(b"");
    indt.write(b"x");
    assert_eq!(buffer, b"    x".to_vec());
}

#[test]
fn leading_newline_at_line_start_stays_blank() {
    assert_eq!(render(2, '.', 1, b"\nb"), b"\n..b".to_vec());
}

#[test]
fn sink_keeps_earlier_content() {
    let mut buffer = b"head:".to_vec();
    let mut indt = Indent::new(&mut buffer, 1, ' ');
    indt.more();
    indt.write(b"x\ny");
    assert_eq!(buffer, b"head: x\n y".to_vec());
}

#[test]
fn take_written_empties_the_sink_and_keeps_state() {
    let mut buffer = Vec::new();
    let mut indt = Indent::new(&mut buffer, 2, '.');
    indt.more();
    indt.write(b"a");
    let first = indt.take_written();
    indt.write(b"b\nc");
    let second = indt.take_written();
    assert_eq!(first, b"..a".to_vec());
    assert_eq!(second, b"b\n..c".to_vec());
    assert!(buffer.is_empty());
}

#[test]
fn lone_newline_at_line_start_stays_blank() {
    assert_eq!(render(2, '.', 1, b"\n"), b"\n".to_vec());
}

#[test]
fn split_writes_match_one_write() {
    let mut split = Vec::new();
    let mut indt = Indent::new(&mut split, 2, '.');
    indt.more();
    indt.write(b"a\n");
    indt.write(b"\nb");
    indt.write(b"c\n");
    indt.write(b"d");
    assert_eq!(split, render(2, '.', 1, b"a\n\nbc\nd"));
    assert_eq!(split, b"..a\n\n..bc\n..d".to_vec());
}
