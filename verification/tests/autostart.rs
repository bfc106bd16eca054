use flow_linux::autostart::desktop_entry;

#[test]
fn desktop_entry_quotes_the_executable() {
    assert_eq!(
        desktop_entry("/home/a b/bin/fl\"ow\\x"),
        "[Desktop Entry]\nType=Application\nName=Flow Linux\nExec=\"/home/a b/bin/fl\\\"ow\\\\x\"\nTerminal=false\nX-GNOME-Autostart-enabled=true\n"
    );
}
