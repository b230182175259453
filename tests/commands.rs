use gin_rummy::command::{parse_command, Command};

#[test]
fn single_letter_commands() {
    assert_eq!(parse_command(b"K"), Some(Command::Knock));
    assert_eq!(parse_command(b"G"), Some(Command::Gin));
    assert_eq!(parse_command(b"N"), Some(Command::Neither));
    assert_eq!(parse_command(b"C"), Some(Command::CreateMeld));
    assert_eq!(parse_command(b"D"), Some(Command::Done));
}

#[test]
fn draw_commands() {
    assert_eq!(parse_command(b"d1"), Some(Command::DrawFromDeck));
    assert_eq!(parse_command(b"d2"), Some(Command::DrawFromDiscard));
    assert_eq!(parse_command(b"d3"), None);
}

#[test]
fn discard_commands() {
    assert_eq!(parse_command(b"d-0"), Some(Command::Discard(0)));
    assert_eq!(parse_command(b"d-7"), Some(Command::Discard(7)));
    assert_eq!(parse_command(b"d-10"), Some(Command::Discard(10)));
    assert_eq!(parse_command(b"d-99"), Some(Command::Discard(99)));
    assert_eq!(parse_command(b"d-100"), None);
    assert_eq!(parse_command(b"d-"), None);
    assert_eq!(parse_command(b"d-x"), None);
}

#[test]
fn meld_commands() {
    assert_eq!(parse_command(b"d-3-0"), Some(Command::AddToMeld(3, 0)));
    assert_eq!(parse_command(b"d-12-4"), Some(Command::AddToMeld(12, 4)));
    assert_eq!(parse_command(b"d-12-45"), None);
    assert_eq!(parse_command(b"d-123-4"), None);
    assert_eq!(parse_command(b"d--4"), None);
    assert_eq!(parse_command(b"d-1-"), None);
}

#[test]
fn other_text_is_no_command() {
    assert_eq!(parse_command(b""), None);
    assert_eq!(parse_command(b"k"), None);
    assert_eq!(parse_command(b"KK"), None);
    assert_eq!(parse_command(b"hello"), None);
}
