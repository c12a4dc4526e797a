use desktopmate_installer::console::{
    banner_padding, banner_rule, banner_title, Key, SecretInput,
};

#[test]
fn banner_is_centred() {
    assert_eq!(banner_padding(45, 21), 12);
    assert_eq!(banner_padding(4, 10), 0);
    let t = banner_title("DesktopMate Installer", 45);
    assert_eq!(t, format!("{}DesktopMate Installer{}", " ".repeat(12), " ".repeat(12)));
    assert_eq!(banner_title("abcdef", 3), "abcdef");
    assert_eq!(banner_rule(5), "=====");
}

#[test]
fn masked_secret_entry() {
    let mut s = SecretInput::new();
    assert_eq!(s.press(Key::Char('p')).echo, "*");
    assert_eq!(s.press(Key::Char('w')).echo, "*");
    assert_eq!(s.press(Key::Char('d')).echo, "*");
    let e = s.press(Key::Backspace);
    assert!(!e.done);
    assert_eq!(e.echo, "\r** \r");
    assert_eq!(s.press(Key::Other).echo, "");
    let e = s.press(Key::Enter);
    assert!(e.done);
    assert_eq!(s.chars, vec!['p', 'w']);
}

#[test]
fn backspace_on_empty_secret_does_nothing() {
    let mut s = SecretInput::new();
    let e = s.press(Key::Backspace);
    assert!(!e.done);
    assert_eq!(e.echo, "");
    assert!(s.chars.is_empty());
}
