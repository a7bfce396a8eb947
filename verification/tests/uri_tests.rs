use ndnd::uri::{auth_code, launcher_path, open_command};

#[test]
fn code_follows_the_mark() {
    assert_eq!(auth_code("ndnd://?code=def502"), Some(String::from("def502")));
    assert_eq!(auth_code("ndnd://?code=a?code=b"), Some(String::from("a")));
    assert_eq!(auth_code("ndnd://"), None);
    assert_eq!(auth_code("ndnd://?code="), Some(String::new()));
}

#[test]
fn launcher_path_is_cut_at_the_drive() {
    assert_eq!(
        launcher_path("\\\\?\\C:\\Users\\me\\ndnd.exe"),
        Some(String::from("C:\\Users\\me\\ndnd.exe"))
    );
    assert_eq!(launcher_path("D:\\ndnd.exe"), None);
    assert_eq!(launcher_path("C:\\a\\C:b"), Some(String::from("C:\\a\\")));
}

#[test]
fn command_quotes_path_and_placeholder() {
    assert_eq!(open_command("C:\\ndnd.exe"), "\"C:\\ndnd.exe\" \"%1\"");
}
