use rest_reminder::interactive::{classify_input, classify_trimmed, command_line, same_text, InteractiveInput};

fn kind(input: &InteractiveInput) -> &'static str {
    match input {
        InteractiveInput::Empty => "empty",
        InteractiveInput::Exit => "exit",
        InteractiveInput::Help => "help",
        InteractiveInput::Command(_) => "command",
    }
}

#[test]
fn an_empty_line_means_nothing() {
    assert_eq!(kind(&classify_input("")), "empty");
    assert_eq!(kind(&classify_input("   \t ")), "empty");
    assert_eq!(kind(&classify_trimmed("")), "empty");
}

#[test]
fn four_words_leave_the_program() {
    for line in ["exit", "quit", "q", "ex", "  exit", "quit \n", "\tq\t"] {
        assert_eq!(kind(&classify_input(line)), "exit", "{:?}", line);
    }
}

#[test]
fn two_words_show_the_help() {
    for line in ["help", "h", " help ", "h\r\n"] {
        assert_eq!(kind(&classify_input(line)), "help", "{:?}", line);
    }
}

#[test]
fn every_other_line_is_a_command() {
    for line in ["rest -t 3600", "Exit", "QUIT", "helpp", "e x", "count -s 2024-01-01 -e 2024-01-31"] {
        match classify_input(line) {
            InteractiveInput::Command(text) => assert_eq!(text, line),
            other => panic!("{:?} was taken as {}", line, kind(&other)),
        }
    }
    match classify_input("  plot -s 2024-01-01  ") {
        InteractiveInput::Command(text) => assert_eq!(text, "plot -s 2024-01-01"),
        other => panic!("taken as {}", kind(&other)),
    }
}

#[test]
fn a_trimmed_line_is_not_trimmed_again() {
    assert_eq!(kind(&classify_trimmed(" exit")), "command");
    assert_eq!(kind(&classify_trimmed("exit")), "exit");
}

#[test]
fn a_command_is_put_behind_the_name_of_the_program() {
    assert_eq!(command_line("rest -t 60"), "rest-reminder rest -t 60");
    assert_eq!(command_line(""), "rest-reminder ");
}

#[test]
fn texts_are_compared_character_by_character() {
    assert!(same_text("", ""));
    assert!(same_text("exit", "exit"));
    assert!(!same_text("exit", "exit "));
    assert!(!same_text("exit", "Exit"));
}
