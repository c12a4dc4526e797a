use desktopmate_installer::provision::{
    depot_arguments, join_arguments, log_line, pinned_melonloader, shortcut_script,
    staging_archive_name,
};

#[test]
fn depot_arguments_in_order() {
    let args = depot_arguments("user", "secret", "C:\\Games\\DesktopMate");
    assert_eq!(
        args,
        vec![
            "-app", "3301060", "-depot", "3301061", "-manifest", "2467897585300615012",
            "-username", "user", "-password", "secret", "-dir", "C:\\Games\\DesktopMate",
        ]
    );
    assert_eq!(
        join_arguments(&args),
        "-app 3301060 -depot 3301061 -manifest 2467897585300615012 -username user -password secret -dir C:\\Games\\DesktopMate"
    );
    assert_eq!(join_arguments(&vec![]), "");
}

#[test]
fn staging_names_are_fresh() {
    let a = staging_archive_name("custom_avatar");
    let b = staging_archive_name("custom_avatar");
    assert!(a.starts_with("custom_avatar_") && a.ends_with(".zip"));
    assert_eq!(a.len(), "custom_avatar_".len() + 36 + ".zip".len());
    assert_ne!(a, b);
}

#[test]
fn shortcut_script_with_and_without_arguments() {
    let plain = shortcut_script("D:\\a.lnk", "C:\\g\\DesktopMate.exe", "C:\\g", "  ");
    assert_eq!(
        plain,
        "\n$WshShell = New-Object -ComObject WScript.Shell;\n$Shortcut = $WshShell.CreateShortcut(\"D:\\a.lnk\");\n$Shortcut.TargetPath = \"C:\\g\\DesktopMate.exe\";\n$Shortcut.WorkingDirectory = \"C:\\g\";\n\n$Shortcut.Save();\n"
    );
    let with_args = shortcut_script("D:\\b.lnk", "C:\\g\\DesktopMate.exe", "C:\\g", "melonloader.hideconsole");
    assert!(with_args.contains("\n$Shortcut.Arguments = \"melonloader.hideconsole\";\n$Shortcut.Save();\n"));
}

#[test]
fn log_lines_and_pinned_release() {
    assert_eq!(log_line("2024-01-01 10:00:00", "Shortcuts created."), "2024-01-01 10:00:00 - Shortcuts created.");
    let r = pinned_melonloader();
    assert_eq!(r.tag_name, "v0.6.6");
    assert!(r.download_url.ends_with("/v0.6.6/MelonLoader.x64.zip"));
}
