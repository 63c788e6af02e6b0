use langbuddy::langbuddy::{parse_input, Action, Command, LanguageBuddy, UserInput};
use langbuddy::preserver::{saved_line, Preserver};

#[test]
fn new_preserver_is_empty() {
    let p = Preserver::new("words.txt");
    assert_eq!(p.output_file(), "words.txt");
    assert!(p.buffer().is_empty());
}

#[test]
fn read_from_file_keeps_contents() {
    let p = Preserver::read_from_file("words.txt", "hola\nadiós");
    assert_eq!(p.buffer(), &"hola\nadiós".as_bytes().to_vec());
}

#[test]
fn add_string_appends_on_a_new_line() {
    let mut p = Preserver::read_from_file("words.txt", "hola");
    p.add_string("año");
    assert_eq!(p.buffer(), &"hola\naño".as_bytes().to_vec());
}

#[test]
fn parse_input_reads_save_command() {
    assert!(matches!(parse_input("save"), UserInput::Command(Command::Save)));
    assert!(matches!(parse_input("saved"), UserInput::Word(w) if w == "saved"));
}

#[test]
fn save_appends_current_word() {
    let mut lb = LanguageBuddy::new(Preserver::new("words.txt"));
    assert_eq!(lb.current_word(), "pasar");
    assert!(matches!(lb.repl("  save \n"), Action::Save));
    assert_eq!(lb.preserver().buffer(), &b"\npasar".to_vec());
}

#[test]
fn words_are_trimmed_and_looked_up() {
    let mut lb = LanguageBuddy::new(Preserver::new("words.txt"));
    assert!(matches!(lb.repl("  casa\n"), Action::Lookup(w) if w == "casa"));
    assert!(lb.preserver().buffer().is_empty());
    assert_eq!(lb.current_word(), "pasar");
}

#[test]
fn empty_word_is_refused() {
    let mut lb = LanguageBuddy::new(Preserver::new("words.txt"));
    assert!(matches!(lb.repl("   \n"), Action::EmptyWord));
    assert!(lb.preserver().buffer().is_empty());
}

#[test]
fn saved_line_is_the_word_then_a_newline() {
    assert_eq!(saved_line("año"), "año\n".as_bytes().to_vec());
    assert_eq!(saved_line(""), vec![b'\n']);
}
