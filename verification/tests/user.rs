use yatsenos::apps::make_abs_path;
use yatsenos::user::io::{Echo, LineReader};

#[test]
fn absolute_paths() {
    assert_eq!(make_abs_path("/", "bin"), "/bin");
    assert_eq!(make_abs_path("/", ""), "/");
    assert_eq!(make_abs_path("/home", "docs"), "/home/docs");
    assert_eq!(make_abs_path("/home", "/etc"), "/etc");
    assert_eq!(make_abs_path("/home/user", ".."), "/home");
    assert_eq!(make_abs_path("/home/user", "../.."), "/");
    assert_eq!(make_abs_path("/home/user", "../../.."), "/");
    assert_eq!(make_abs_path("/home/user", "./a/./b/"), "/home/user/a/b");
    assert_eq!(make_abs_path("/home//user/", "x//y"), "/home/user/x/y");
    assert_eq!(make_abs_path("/a", "../b/../c"), "/c");
    assert_eq!(make_abs_path("/a", "..."), "/a/...");
    assert_eq!(make_abs_path("/a", ".hidden"), "/a/.hidden");
    assert_eq!(make_abs_path("", "x"), "/x");
    assert_eq!(make_abs_path("/", "/"), "/");
    assert_eq!(make_abs_path("/ä", "ö"), "/ä/ö");
}

fn feed_all(reader: &mut LineReader, bytes: &[u8]) -> (Vec<Echo>, Option<String>) {
    let mut echoes = Vec::new();
    for byte in bytes {
        let fed = reader.feed(*byte);
        echoes.push(fed.echo);
        if fed.line.is_some() {
            return (echoes, fed.line);
        }
    }
    (echoes, None)
}

#[test]
fn line_reader_reads_a_line() {
    let mut reader = LineReader::new();
    let (echoes, line) = feed_all(&mut reader, b"ls\n");
    assert_eq!(echoes, vec![Echo::Char('l'), Echo::Char('s'), Echo::NewLine]);
    assert_eq!(line, Some(String::from("ls")));
    assert!(reader.line.is_empty());
    let (_, line) = feed_all(&mut reader, b"pwd\r");
    assert_eq!(line, Some(String::from("pwd")));
    let (_, line) = feed_all(&mut reader, b"\n");
    assert_eq!(line, Some(String::new()));
}

#[test]
fn line_reader_backspace_wipes_the_columns_of_the_character() {
    let mut reader = LineReader::new();
    let (echoes, line) = feed_all(&mut reader, "a中\u{8}\u{7f}\u{8}b\n".as_bytes());
    assert_eq!(
        echoes,
        vec![
            Echo::Char('a'),
            Echo::Nothing,
            Echo::Nothing,
            Echo::Char('中'),
            Echo::Erase(2),
            Echo::Erase(1),
            Echo::Nothing,
            Echo::Char('b'),
            Echo::NewLine
        ]
    );
    assert_eq!(line, Some(String::from("b")));
}

#[test]
fn line_reader_control_c_and_d_throw_the_line_away() {
    let mut reader = LineReader::new();
    let (echoes, line) = feed_all(&mut reader, b"abc\x03");
    assert_eq!(echoes.last(), Some(&Echo::Interrupt));
    assert_eq!(line, Some(String::new()));
    assert!(reader.line.is_empty());
    let (echoes, line) = feed_all(&mut reader, b"x\x04");
    assert_eq!(echoes.last(), Some(&Echo::EndOfInput));
    assert_eq!(line, Some(String::new()));
}

#[test]
fn line_reader_drops_four_bytes_that_are_no_character() {
    let mut reader = LineReader::new();
    let (echoes, line) = feed_all(&mut reader, b"\xff\xfe\xfd");
    assert_eq!(echoes, vec![Echo::Nothing; 3]);
    assert_eq!(line, None);
    assert_eq!(reader.pending.len(), 3);
    reader.feed(0xfc);
    assert!(reader.pending.is_empty());
    let (echoes, line) = feed_all(&mut reader, "😀\n".as_bytes());
    assert_eq!(echoes[3], Echo::Char('😀'));
    assert_eq!(line, Some(String::from("😀")));
}
