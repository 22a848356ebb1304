use zxtracker::desktop::{friendly_fallback, is_desktop_file, name_from_path, parse_desktop, resolve, DesktopDB};
use zxtracker::names::NameMap;

#[test]
fn fallback_capitalizes_plain_ids() {
    assert_eq!(friendly_fallback("firefox"), "Firefox");
    assert_eq!(friendly_fallback(""), "?");
    assert_eq!(friendly_fallback("ßx"), "SSx");
    assert_eq!(friendly_fallback("1password"), "1password");
}

#[test]
fn fallback_takes_last_specific_dotted_part() {
    assert_eq!(friendly_fallback("org.mozilla.firefox"), "Firefox");
    assert_eq!(friendly_fallback("com.example.App"), "Example");
    assert_eq!(friendly_fallback("com.visualstudio.code.Desktop"), "Code");
    assert_eq!(friendly_fallback("org.app."), "Org");
    assert_eq!(friendly_fallback("app.Desktop"), "app");
    assert_eq!(friendly_fallback("."), "");
}

#[test]
fn fallback_for_ids_with_spaces_or_marks() {
    assert_eq!(friendly_fallback("Visual Studio Code"), "Visual");
    assert_eq!(friendly_fallback("a b"), "A b");
    assert_eq!(friendly_fallback("é x"), "É");
    assert_eq!(friendly_fallback("x|y.zz"), "Zz");
    assert_eq!(friendly_fallback("*"), "*");
}

#[test]
fn name_from_path_cases() {
    assert_eq!(name_from_path("/usr/bin/firefox"), "Firefox");
    assert_eq!(name_from_path("/opt/app/code.bin"), "Code");
    assert_eq!(name_from_path("/x/a.exe.bin"), "A.exe");
    assert_eq!(name_from_path("/x/game.exe"), "Game");
    assert_eq!(name_from_path("/usr/bin/"), "Bin");
    assert_eq!(name_from_path("/"), "");
    assert_eq!(name_from_path("foo/.."), "");
    assert_eq!(name_from_path("."), "");
    assert_eq!(name_from_path("/x/.bin"), "");
    assert_eq!(name_from_path("a/./"), "A");
    assert_eq!(name_from_path(""), "");
}

#[test]
fn parse_desktop_reads_the_entry_group() {
    let text = "[Desktop Entry]\nName=Firefox\nStartupWMClass=firefox\n[Desktop Action new]\nName=New Window\n";
    assert_eq!(parse_desktop(text), (Some("firefox".to_string()), Some("Firefox".to_string())));
    let text = "Name=Outside\n[Desktop Entry]\nName=\n  Name=Inside  \r\nStartupWMClass=a\nStartupWMClass=b\n";
    assert_eq!(parse_desktop(text), (Some("b".to_string()), Some("Inside".to_string())));
    assert_eq!(parse_desktop("[Desktop Entry]\nStartupWMClass=x\n"), (None, None));
    assert_eq!(parse_desktop(""), (None, None));
    let twice = "[Desktop Entry]\nName=A\n[Desktop Entry]\nStartupWMClass=w\n";
    assert_eq!(parse_desktop(twice), (Some("w".to_string()), Some("A".to_string())));
}

#[test]
fn desktop_db_files_names() {
    let mut db = DesktopDB::new();
    assert_eq!(db.lookup("firefox"), None);
    db.add_desktop_file(
        "/usr/share/applications/firefox.desktop",
        "[Desktop Entry]\nName=Firefox\nStartupWMClass=Navigator\n",
    );
    assert_eq!(db.lookup("Navigator"), Some("Firefox".to_string()));
    assert_eq!(db.lookup("firefox"), Some("Firefox".to_string()));
    db.add_desktop_file("/usr/share/applications/other.desktop", "[Desktop Entry]\nName=Other\nStartupWMClass=Navigator\n");
    assert_eq!(db.lookup("Navigator"), Some("Firefox".to_string()));
    assert_eq!(db.lookup("other"), Some("Other".to_string()));
    db.add_desktop_file("/usr/share/applications/notes.txt", "[Desktop Entry]\nName=Notes\n");
    assert_eq!(db.lookup("notes"), None);
    db.add_desktop_file("/usr/share/applications/.desktop", "[Desktop Entry]\nName=Hidden\n");
    assert_eq!(db.lookup(".desktop"), None);
    assert!(is_desktop_file("/a/b.desktop"));
    assert!(!is_desktop_file("/a/b.desktop.bak"));
}

#[test]
fn desktop_table_from_files_first_file_wins() {
    let f = |p: &str, c: &str| (p.to_string(), c.to_string());
    let files = vec![
        f("/usr/share/applications/firefox.desktop", "[Desktop Entry]\nName=Firefox\nStartupWMClass=Navigator\n"),
        f("/home/u/.local/share/applications/firefox.desktop", "[Desktop Entry]\nName=My Firefox\n"),
        f("/usr/share/applications/blank.desktop", "[Desktop Entry]\nName=\n"),
        f("/usr/share/applications/readme.txt", "[Desktop Entry]\nName=Readme\n"),
        f("/usr/share/applications/code.desktop", "[Desktop Entry]\nName=Code\n"),
    ];
    let db = DesktopDB::from_desktop_files(&files);
    assert_eq!(db.lookup("firefox"), Some("Firefox".to_string()));
    assert_eq!(db.lookup("Navigator"), Some("Firefox".to_string()));
    assert_eq!(db.lookup("code"), Some("Code".to_string()));
    assert_eq!(db.lookup("blank"), None);
    assert_eq!(db.lookup("readme"), None);
    assert_eq!(DesktopDB::from_desktop_files(&Vec::new()).lookup("firefox"), None);
}

#[test]
fn resolve_prefers_stored_then_desktop_then_path() {
    let mut db = DesktopDB::new();
    db.add_desktop_file("/u/code.desktop", "[Desktop Entry]\nName=Visual Studio Code\n");
    let mut meta = NameMap::new();
    meta.insert("firefox".to_string(), "Firefox Web".to_string());
    meta.insert("code".to_string(), "".to_string());
    assert_eq!(resolve("firefox", "", &db, &meta), "Firefox Web");
    assert_eq!(resolve("code", "", &db, &meta), "Visual Studio Code");
    assert_eq!(resolve("code-oss", "/usr/bin/code", &db, &meta), "Code");
    assert_eq!(resolve("Code", "/usr/bin/code", &DesktopDB::new(), &meta), "Code");
    assert_eq!(resolve("org.gnome.Nautilus", "", &db, &meta), "Nautilus");
}

#[test]
fn name_map_latest_wins() {
    let mut m = NameMap::new();
    m.insert("a".to_string(), "1".to_string());
    m.insert("a".to_string(), "2".to_string());
    assert_eq!(m.get("a"), Some("2".to_string()));
    m.insert_if_absent("a".to_string(), "3".to_string());
    assert_eq!(m.get("a"), Some("2".to_string()));
    m.insert_if_absent("b".to_string(), "4".to_string());
    assert_eq!(m.get("b"), Some("4".to_string()));
    assert!(!m.contains("c"));
}
