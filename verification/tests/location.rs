use rest_reminder::location::{get_log_path, log_file_path, Args, LogLocation};

#[test]
fn c_names_the_first_drive_and_all_else_the_second() {
    assert_eq!(LogLocation::from_str("c"), LogLocation::C);
    assert_eq!(LogLocation::from_str("C"), LogLocation::C);
    assert_eq!(LogLocation::from_str("d"), LogLocation::D);
    assert_eq!(LogLocation::from_str("D"), LogLocation::D);
    assert_eq!(LogLocation::from_str(""), LogLocation::D);
    assert_eq!(LogLocation::from_str("desktop"), LogLocation::D);
    assert_eq!(LogLocation::from_str("cc"), LogLocation::D);
    assert_eq!(LogLocation::from_str(" c"), LogLocation::D);
    assert_eq!(LogLocation::from_str("D:\\"), LogLocation::D);
}

#[test]
fn lower_case_text_is_taken_as_it_is() {
    assert_eq!(LogLocation::from_lowercase("c"), LogLocation::C);
    assert_eq!(LogLocation::from_lowercase("C"), LogLocation::D);
    assert_eq!(LogLocation::from_lowercase(""), LogLocation::D);
}

#[test]
fn the_log_lies_at_the_root_of_the_drive() {
    assert_eq!(get_log_path(LogLocation::C), "C:\\focus_log.txt");
    assert_eq!(get_log_path(LogLocation::D), "D:\\focus_log.txt");
    let args = Args { log_to: "c".to_string() };
    assert_eq!(get_log_path(LogLocation::from_str(&args.log_to)), "C:\\focus_log.txt");
}

#[test]
fn a_file_path_is_kept() {
    assert_eq!(log_file_path("./focus_log.txt", false, '/'), "./focus_log.txt");
    assert_eq!(log_file_path("log", false, '/'), "log");
    assert_eq!(log_file_path("", false, '/'), "");
    assert_eq!(log_file_path("D:\\work\\", false, '/'), "D:\\work\\");
}

#[test]
fn a_directory_gets_the_default_name() {
    assert_eq!(log_file_path("./", false, '/'), "./focus_log.txt");
    assert_eq!(log_file_path("./", true, '/'), "./focus_log.txt");
    assert_eq!(log_file_path("/var/log", true, '/'), "/var/log/focus_log.txt");
    assert_eq!(log_file_path("D:\\", false, '\\'), "D:\\focus_log.txt");
    assert_eq!(log_file_path("D:\\work", true, '\\'), "D:\\work\\focus_log.txt");
    assert_eq!(log_file_path("/", true, '/'), "/focus_log.txt");
}
