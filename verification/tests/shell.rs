use lib::shell::{cd, classify, components, join, ls_lists, parse_decimal, text_before_nul, Action, Command, LineBuffer, LineEvent, ParseError, MAX_ARGS};

fn words(c: &Command) -> Vec<String> {
    c.args.iter().map(|a| String::from_utf8(a.clone()).unwrap()).collect()
}

#[test]
fn parse_splits_at_spaces() {
    let c = Command::parse(b"  echo  hello   world ", MAX_ARGS).unwrap();
    assert_eq!(words(&c), vec!["echo", "hello", "world"]);
    assert_eq!(c.path(), &b"echo".to_vec());
    assert_eq!(c.first(), &b"hello".to_vec());
    let one = Command::parse(b"ls", MAX_ARGS).unwrap();
    assert_eq!(words(&one), vec!["ls"]);
}

#[test]
fn parse_errors() {
    assert_eq!(Command::parse(b"", MAX_ARGS).err(), Some(ParseError::Empty));
    assert_eq!(Command::parse(b"     ", MAX_ARGS).err(), Some(ParseError::Empty));
    assert_eq!(Command::parse(b"a b c", 2).err(), Some(ParseError::TooManyArgs));
    assert!(Command::parse(b"a b", 2).is_ok());
    let many = vec![b'x', b' '].repeat(65);
    assert_eq!(Command::parse(&many, MAX_ARGS).err(), Some(ParseError::TooManyArgs));
}

#[test]
fn line_editing() {
    let mut l = LineBuffer::new();
    assert_eq!(l.on_byte(b'a'), LineEvent::Echo(b'a'));
    assert_eq!(l.on_byte(b'b'), LineEvent::Echo(b'b'));
    assert_eq!(l.on_byte(8), LineEvent::Erase);
    assert_eq!(l.as_bytes(), b"a");
    assert_eq!(l.on_byte(200), LineEvent::Bell);
    assert_eq!(l.on_byte(127), LineEvent::Erase);
    assert_eq!(l.on_byte(127), LineEvent::Bell);
    assert_eq!(l.on_byte(b'l'), LineEvent::Echo(b'l'));
    assert_eq!(l.on_byte(b'\r'), LineEvent::Submit);
    assert_eq!(l.on_byte(b'\n'), LineEvent::Submit);
    assert_eq!(l.take_line(), b"l".to_vec());
    assert_eq!(l.as_bytes(), b"");
    for _ in 0..512 {
        assert_eq!(l.on_byte(b'z'), LineEvent::Echo(b'z'));
    }
    assert_eq!(l.on_byte(b'z'), LineEvent::Bell);
    assert_eq!(l.as_bytes().len(), 512);
}

fn act(line: &[u8]) -> Action {
    classify(&Command::parse(line, MAX_ARGS).unwrap())
}

#[test]
fn command_actions() {
    match act(b"echo a b") {
        Action::Echo(v) => assert_eq!(v, vec![b"a".to_vec(), b"b".to_vec()]),
        _ => panic!(),
    }
    assert!(matches!(act(b"sleep"), Action::SleepUsage));
    assert!(matches!(act(b"sleep 1 2"), Action::SleepUsage));
    assert!(matches!(act(b"sleep 250"), Action::Sleep(Some(250))));
    assert!(matches!(act(b"sleep +7"), Action::Sleep(Some(7))));
    assert!(matches!(act(b"sleep ten"), Action::Sleep(None)));
    assert!(matches!(act(b"exit"), Action::Exit));
    assert!(matches!(act(b"pwd"), Action::Pwd));
    assert!(matches!(act(b"cd a b"), Action::CdTooManyArgs));
    assert!(matches!(act(b"cd"), Action::Cd(None)));
    match act(b"cd dir") {
        Action::Cd(Some(v)) => assert_eq!(v, b"dir".to_vec()),
        _ => panic!(),
    }
    assert!(matches!(act(b"ls -a"), Action::Ls { hidden: true, path: None }));
    assert!(matches!(act(b"ls"), Action::Ls { hidden: false, path: None }));
    assert!(matches!(act(b"ls a b"), Action::Ls { hidden: false, path: None }));
    match act(b"ls sub") {
        Action::Ls { hidden: false, path: Some(v) } => assert_eq!(v, b"sub".to_vec()),
        _ => panic!(),
    }
    assert!(matches!(act(b"cat"), Action::CatUsage));
    match act(b"cat a b") {
        Action::Cat(v) => assert_eq!(v, vec![b"a".to_vec(), b"b".to_vec()]),
        _ => panic!(),
    }
    match act(b"frobnicate x") {
        Action::Unknown(v) => assert_eq!(v, b"frobnicate".to_vec()),
        _ => panic!(),
    }
}

#[test]
fn cat_chunk_stops_at_nul() {
    assert_eq!(text_before_nul(b"hello\0rest"), (5, true));
    assert_eq!(text_before_nul(b"hello"), (5, false));
    assert_eq!(text_before_nul(b"\0"), (0, true));
    assert_eq!(text_before_nul(b""), (0, false));
}

#[test]
fn decimal_numbers() {
    assert_eq!(parse_decimal(b"0"), Some(0));
    assert_eq!(parse_decimal(b"1234"), Some(1234));
    assert_eq!(parse_decimal(b"+42"), Some(42));
    assert_eq!(parse_decimal(b"18446744073709551615"), Some(u64::MAX));
    assert_eq!(parse_decimal(b"18446744073709551616"), None);
    assert_eq!(parse_decimal(b"99999999999999999999x"), None);
    assert_eq!(parse_decimal(b""), None);
    assert_eq!(parse_decimal(b"+"), None);
    assert_eq!(parse_decimal(b"-1"), None);
    assert_eq!(parse_decimal(b"12a"), None);
    assert_eq!(parse_decimal(b"007"), Some(7));
}

#[test]
fn split_inverts_join() {
    let ws: Vec<&[u8]> = vec![b"cat", b"/a/b.txt", b"x"];
    let line = ws.join(&b' ');
    let c = Command::parse(&line, MAX_ARGS).unwrap();
    assert_eq!(c.args, ws.iter().map(|w| w.to_vec()).collect::<Vec<_>>());
}

fn comps(parts: &[&str]) -> Vec<Vec<u8>> {
    parts.iter().map(|p| p.as_bytes().to_vec()).collect()
}

#[test]
fn path_components_skip_empty_runs_and_dots() {
    assert_eq!(components(b"a//./b/"), comps(&["a", "b"]));
    assert_eq!(components(b"/"), comps(&[]));
    assert_eq!(components(b"../x"), comps(&["..", "x"]));
    assert_eq!(components(b".hidden"), comps(&[".hidden"]));
}

#[test]
fn cd_moves_between_directories() {
    let cwd = comps(&["usr", "lib"]);
    assert_eq!(cd(&cwd, None), comps(&[]));
    assert_eq!(cd(&cwd, Some(b"..")), comps(&["usr"]));
    assert_eq!(cd(&comps(&[]), Some(b"..")), comps(&[]));
    assert_eq!(cd(&cwd, Some(b".")), cwd);
    assert_eq!(cd(&cwd, Some(b"/")), comps(&[]));
    assert_eq!(cd(&cwd, Some(b"/etc/x")), comps(&["etc", "x"]));
    assert_eq!(cd(&cwd, Some(b"a/b")), comps(&["usr", "lib", "a", "b"]));
    assert_eq!(join(&cwd, b"f.txt"), comps(&["usr", "lib", "f.txt"]));
}

#[test]
fn ls_lists_hidden_entries_only_with_flag() {
    assert!(ls_lists(true, true));
    assert!(!ls_lists(true, false));
    assert!(ls_lists(false, false));
    assert!(!ls_lists(false, true));
}
