use cmdloader::platform::os_tag;
use cmdloader::shell::{resolve_shell, Shell};

fn descriptor(shell: &Shell) -> (String, String, String) {
    (shell.name.clone(), shell.cmd.clone(), shell.arg.clone())
}

#[test]
fn non_linux_tag_is_the_raw_os_name() {
    assert_eq!(os_tag("macos", None), "macos");
    assert_eq!(os_tag("windows", None), "windows");
    // Release contents are only consulted on Linux.
    assert_eq!(os_tag("macos", Some("ID=debian\n")), "macos");
}

#[test]
fn linux_tag_uses_the_id_line() {
    let contents = "NAME=\"Debian GNU/Linux\"\nID=debian\nHOME_URL=x\n";
    assert_eq!(os_tag("linux", Some(contents)), "linux/debian");
}

#[test]
fn linux_tag_without_id_line_is_bare() {
    assert_eq!(os_tag("linux", Some("NAME=Something\nVERSION=1\n")), "linux");
    assert_eq!(os_tag("linux", Some("")), "linux");
    assert_eq!(os_tag("linux", None), "linux");
}

#[test]
fn linux_tag_takes_the_first_id_line() {
    assert_eq!(os_tag("linux", Some("ID=first\nID=second\n")), "linux/first");
}

#[test]
fn linux_tag_requires_the_line_start() {
    // VERSION_ID does not begin a line with ID=, so it is not the tag.
    assert_eq!(os_tag("linux", Some("VERSION_ID=12\n")), "linux");
}

#[test]
fn linux_tag_handles_crlf_lines() {
    assert_eq!(os_tag("linux", Some("ID=foo\r\nNAME=x\r\n")), "linux/foo");
}

#[test]
fn linux_tag_reads_a_final_unterminated_line() {
    assert_eq!(os_tag("linux", Some("NAME=x\nID=arch")), "linux/arch");
}

#[test]
fn shell_from_zsh_path() {
    let shell = resolve_shell("linux", Some("/usr/bin/zsh"), None);
    assert_eq!(
        descriptor(&shell),
        ("zsh".to_string(), "zsh".to_string(), "-c".to_string())
    );
}

#[test]
fn shell_from_unknown_interpreter_degrades_to_sh() {
    let shell = resolve_shell("linux", Some("/usr/bin/tcsh"), None);
    assert_eq!(
        descriptor(&shell),
        ("sh".to_string(), "sh".to_string(), "-c".to_string())
    );
}

#[test]
fn shell_unset_defaults_to_sh() {
    let shell = resolve_shell("macos", None, None);
    assert_eq!(
        descriptor(&shell),
        ("sh".to_string(), "sh".to_string(), "-c".to_string())
    );
}

#[test]
fn shell_known_names() {
    for name in ["bash", "zsh", "fish", "pwsh"] {
        let var = format!("/usr/bin/{}", name);
        let shell = resolve_shell("linux", Some(&var), None);
        assert_eq!(shell.name, name);
        assert_eq!(shell.cmd, name);
        assert_eq!(shell.arg, "-c");
    }
}

#[test]
fn shell_bare_name_without_slash() {
    let shell = resolve_shell("linux", Some("bash"), None);
    assert_eq!(shell.name, "bash");
}

#[test]
fn windows_without_psmodulepath_is_cmd() {
    let shell = resolve_shell("windows", None, None);
    assert_eq!(
        descriptor(&shell),
        ("cmd".to_string(), "cmd.exe".to_string(), "/C".to_string())
    );
}

#[test]
fn windows_with_short_psmodulepath_is_cmd() {
    // Fewer than three `;`-separated segments does not look like PowerShell.
    let shell = resolve_shell("windows", None, Some("C:\\one;C:\\two"));
    assert_eq!(shell.name, "cmd");
    assert_eq!(shell.cmd, "cmd.exe");
    assert_eq!(shell.arg, "/C");
}

#[test]
fn windows_powershell_session() {
    let paths = "C:\\Users\\u\\Documents\\WindowsPowerShell\\Modules;C:\\Program Files\\WindowsPowerShell\\Modules;C:\\Windows\\system32\\WindowsPowerShell\\v1.0\\Modules";
    let shell = resolve_shell("windows", None, Some(paths));
    assert_eq!(
        descriptor(&shell),
        (
            "powershell".to_string(),
            "powershell.exe".to_string(),
            "-Command".to_string()
        )
    );
}

#[test]
fn windows_powershell_seven_session() {
    let paths = "C:\\Users\\u\\Documents\\PowerShell\\Modules;C:\\Program Files\\PowerShell\\Modules;C:\\Program Files\\PowerShell\\7\\Modules";
    let shell = resolve_shell("windows", None, Some(paths));
    assert_eq!(
        descriptor(&shell),
        ("pwsh".to_string(), "pwsh.exe".to_string(), "-c".to_string())
    );
}

#[test]
fn windows_shell_var_is_ignored() {
    let shell = resolve_shell("windows", Some("/usr/bin/bash"), None);
    assert_eq!(shell.name, "cmd");
}
