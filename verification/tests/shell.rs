use fsfind::shell::{parse_command, Command};
use fsfind::text::split_words;

fn words(list: &[&str]) -> Vec<String> {
    list.iter().map(|word| word.to_string()).collect()
}

#[test]
fn an_empty_line_is_no_command() {
    assert_eq!(parse_command(&vec![]), Command::Empty);
    assert_eq!(parse_command(&split_words("   \n")), Command::Empty);
}

#[test]
fn find_takes_the_following_words_as_flags() {
    assert_eq!(parse_command(&words(&["find", "-m", ".txt$", "-a"])), Command::Find(words(&["-m", ".txt$", "-a"])));
    assert_eq!(parse_command(&words(&["find"])), Command::Find(vec![]));
}

#[test]
fn find_explains_its_flags_on_request() {
    assert_eq!(parse_command(&words(&["find", "-help"])), Command::FindHelp);
    assert_eq!(parse_command(&words(&["find", "-help", "-a"])), Command::FindHelp);
    assert_eq!(parse_command(&words(&["find", "-a", "-help"])), Command::Find(words(&["-a", "-help"])));
}

#[test]
fn cd_takes_the_next_word_as_its_target() {
    assert_eq!(parse_command(&words(&["cd", "sub"])), Command::Cd(Some("sub".to_string())));
    assert_eq!(parse_command(&words(&["cd", "sub", "more"])), Command::Cd(Some("sub".to_string())));
    assert_eq!(parse_command(&words(&["cd"])), Command::Cd(None));
}

#[test]
fn the_other_verbs_stand_alone() {
    assert_eq!(parse_command(&words(&["ls"])), Command::Ls);
    assert_eq!(parse_command(&words(&["ls", "-l"])), Command::Ls);
    assert_eq!(parse_command(&words(&["show"])), Command::Show);
    assert_eq!(parse_command(&words(&["hide"])), Command::Hide);
    assert_eq!(parse_command(&words(&["help"])), Command::Help);
    assert_eq!(parse_command(&words(&["exit"])), Command::Exit);
}

#[test]
fn other_verbs_are_unknown() {
    assert_eq!(parse_command(&words(&["dir"])), Command::Unknown);
    assert_eq!(parse_command(&words(&["Find"])), Command::Unknown);
    assert_eq!(parse_command(&words(&["finder"])), Command::Unknown);
    assert_eq!(parse_command(&words(&["-help"])), Command::Unknown);
    assert_eq!(parse_command(&words(&[""])), Command::Unknown);
}

#[test]
fn a_typed_line_becomes_a_command() {
    assert_eq!(
        parse_command(&split_words("find -d src -m \\.rs$ -l 2\n")),
        Command::Find(words(&["-d", "src", "-m", "\\.rs$", "-l", "2"]))
    );
    assert_eq!(parse_command(&split_words("  cd   ..\n")), Command::Cd(Some("..".to_string())));
}

#[test]
fn show_and_hide_set_the_visibility() {
    assert!(Command::Show.shows_hidden_after(false));
    assert!(Command::Show.shows_hidden_after(true));
    assert!(!Command::Hide.shows_hidden_after(true));
    assert!(!Command::Hide.shows_hidden_after(false));
}

#[test]
fn other_commands_leave_the_visibility() {
    for command in [Command::Empty, Command::Ls, Command::Help, Command::Exit, Command::Unknown, Command::FindHelp, Command::Cd(None), Command::Find(vec![])] {
        assert!(command.shows_hidden_after(true));
        assert!(!command.shows_hidden_after(false));
    }
}
