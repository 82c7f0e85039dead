//! Scanning fixtures: desktop files, Steam libraries, deduplication, search.

use weft_core::index::Index;
use weft_core::model::{AppEntry, Icon, LaunchSpec, Source};
use weft_core::search::Searcher;
use weft_core::sources::desktop::{
    clean_exec, drop_missing_icons, steam_rungameid, DesktopFile, DesktopScanner,
};
use weft_core::sources::steam::{
    icon_candidates, is_manifest_name, is_tooling, library_dirs, parse_manifest, SteamGame,
    SteamScanner,
};

/// The desktop-file fixtures: a user directory overriding a system one,
/// Flatpak exports, Wine and Steam shortcuts, hidden and broken entries;
/// each file by its directory, its path and its text (`None`: unreadable).
fn fixture_files() -> Vec<(&'static str, &'static str, Option<&'static str>)> {
    vec![
        (
            "/fx/applications-user",
            "/fx/applications-user/firefox.desktop",
            Some("[Desktop Entry]\nType=Application\nName=Firefox (user override)\nExec=firefox %u\nIcon=firefox\nKeywords=navigateur;web;\n"),
        ),
        (
            "/fx/applications-user",
            "/fx/applications-user/portal2.desktop",
            Some("[Desktop Entry]\nType=Application\nName=Portal 2 (raccourci bureau)\nExec=steam steam://rungameid/620\nIcon=steam_icon_620\n"),
        ),
        (
            "/fx/flatpak-exports",
            "/fx/flatpak-exports/org.gimp.GIMP.desktop",
            Some("[Desktop Entry]\nType=Application\nName=GIMP\nExec=/usr/bin/flatpak run --branch=stable org.gimp.GIMP %U\nX-Flatpak=org.gimp.GIMP\n"),
        ),
        (
            "/fx/flatpak-exports",
            "/fx/flatpak-exports/org.gnome.Calculator.desktop",
            Some("[Desktop Entry]\nType=Application\nName=Calculator\nName[fr]=Calculatrice\nExec=/usr/bin/flatpak run --branch=stable --command=gnome-calculator org.gnome.Calculator\nX-Flatpak=org.gnome.Calculator\n"),
        ),
        (
            "/fx/applications-system",
            "/fx/applications-system/broken.desktop",
            Some("ceci n'est pas un fichier desktop\n"),
        ),
        (
            "/fx/applications-system",
            "/fx/applications-system/dead-icon.desktop",
            Some("[Desktop Entry]\nType=Application\nName=Dead Icon App\nExec=dead-icon-app\nIcon=/nonexistent/weft/dead.png\n"),
        ),
        (
            "/fx/applications-system",
            "/fx/applications-system/firefox.desktop",
            Some("[Desktop Entry]\nType=Application\nName=Firefox\nExec=firefox %u\nIcon=firefox\n"),
        ),
        (
            "/fx/applications-system",
            "/fx/applications-system/gimp.desktop",
            Some("[Desktop Entry]\nType=Application\nName=GIMP\nExec=gimp-2.10 %U\nIcon=gimp\n"),
        ),
        (
            "/fx/applications-system",
            "/fx/applications-system/hidden-tool.desktop",
            Some("[Desktop Entry]\nType=Application\nName=Hidden Tool\nExec=hidden-tool\nNoDisplay=true\n"),
        ),
        (
            "/fx/applications-system",
            "/fx/applications-system/htop.desktop",
            Some("[Desktop Entry]\nType=Application\nName=Htop\nExec=htop\nTerminal=true\n"),
        ),
        (
            "/fx/applications-system",
            "/fx/applications-system/kde-thing.desktop",
            Some("[Desktop Entry]\nType=Application\nName=KDE Settings Thing\nExec=kde-thing\nOnlyShowIn=KDE;\n"),
        ),
        (
            "/fx/applications-system",
            "/fx/applications-system/org.gnome.TextEditor.desktop",
            Some("[Desktop Entry]\nType=Application\nName=Text Editor\nName[fr]=Éditeur de texte\nExec=gnome-text-editor %U\n"),
        ),
        ("/fx/applications-system", "/fx/applications-system/unreadable.desktop", None),
        (
            "/fx/applications-system",
            "/fx/applications-system/wine/Programs/Notepad++.desktop",
            Some("[Desktop Entry]\nType=Application\nName=Notepad++\nExec=env WINEPREFIX=/home/u/.wine wine notepad++.exe\n"),
        ),
    ]
}

fn desktop_scanner() -> DesktopScanner {
    DesktopScanner::with_dirs(
        vec![
            "/fx/applications-user".to_owned(),
            "/fx/flatpak-exports".to_owned(),
            "/fx/applications-system".to_owned(),
        ],
        vec!["GNOME".to_owned()],
    )
}

/// What the application does around the scanner: hand it the files it
/// found, then drop the icons whose file is missing (here: under
/// `/nonexistent`).
fn scan_desktop(scanner: &DesktopScanner) -> Vec<AppEntry> {
    let files: Vec<DesktopFile> = fixture_files()
        .into_iter()
        .map(|(dir, path, text)| DesktopFile {
            dir: dir.to_owned(),
            path: path.to_owned(),
            text: text.map(|t| t.to_owned()),
        })
        .collect();
    let entries = scanner.scan_files(files);
    let present: Vec<bool> = entries
        .iter()
        .map(|e| match &e.icon {
            Some(Icon::Path(p)) => !p.starts_with("/nonexistent"),
            _ => true,
        })
        .collect();
    drop_missing_icons(entries, &present)
}

fn steam_manifest(appid: u32, name: &str, state: u32) -> String {
    format!(
        "\"AppState\"\n{{\n\t\"appid\"\t\t\"{appid}\"\n\t\"name\"\t\t\"{name}\"\n\t\"StateFlags\"\t\t\"{state}\"\n\t\"installdir\"\t\t\"{name}\"\n}}\n"
    )
}

/// A Steam installation at `/steam` with a second library: its
/// libraryfolders.vdf, and the manifests of each library's steamapps/.
fn steam_tree() -> (String, Vec<(String, Vec<(String, String)>)>) {
    let vdf = "\"libraryfolders\"\n{\n\t\"0\"\n\t{\n\t\t\"path\"\t\t\"/steam\"\n\t}\n\t\"1\"\n\t{\n\t\t\"path\"\t\t\"/steam/library2\"\n\t}\n}\n".to_owned();
    let libs = vec![
        (
            "/steam".to_owned(),
            vec![
                ("appmanifest_620.acf".to_owned(), steam_manifest(620, "Portal 2", 4)),
                ("appmanifest_2805730.acf".to_owned(), steam_manifest(2805730, "Proton 9.0 (Beta)", 4)),
                ("libraryfolders.vdf".to_owned(), String::new()),
            ],
        ),
        (
            "/steam/library2".to_owned(),
            vec![
                ("appmanifest_2357570.acf".to_owned(), steam_manifest(2357570, "Overwatch 2", 4)),
                ("appmanifest_570.acf".to_owned(), steam_manifest(570, "Dota 2", 1026)),
            ],
        ),
    ];
    (vdf, libs)
}

/// What the application does around the Steam scanner: the libraries,
/// the manifests of each, the cached icons (none here).
fn scan_steam(scanner: &SteamScanner, vdf: &str, libs: &[(String, Vec<(String, String)>)]) -> Vec<AppEntry> {
    let mut found: Vec<(SteamGame, Option<String>)> = Vec::new();
    if let Some(root) = scanner.root_dir() {
        for library in library_dirs(root, Some(vdf)) {
            let Some((_, files)) = libs.iter().find(|(l, _)| *l == library) else { continue };
            for (name, text) in files {
                if !is_manifest_name(name) {
                    continue;
                }
                if let Some(game) = parse_manifest(text) {
                    found.push((game, None));
                }
            }
        }
    }
    scanner.scan(found)
}

#[test]
fn desktop_scan_finds_visible_apps_only() {
    let entries = scan_desktop(&desktop_scanner());
    let names: Vec<&str> = entries.iter().map(|e| e.name.as_str()).collect();

    assert!(names.contains(&"Firefox (user override)"));
    assert!(names.contains(&"Notepad++"));
    assert!(names.contains(&"Calculatrice"));
    assert!(names.contains(&"Éditeur de texte"));

    assert!(!names.contains(&"Hidden Tool"));
    assert!(!names.contains(&"KDE Settings Thing"));
    assert!(!names.contains(&"Htop"));
}

#[test]
fn desktop_scan_user_overrides_system() {
    let entries = scan_desktop(&desktop_scanner());
    let firefox: Vec<_> = entries.iter().filter(|e| e.id == "desktop:firefox.desktop").collect();
    assert_eq!(firefox.len(), 1);
    assert_eq!(firefox[0].name, "Firefox (user override)");
}

#[test]
fn desktop_scan_classifies_sources() {
    let entries = scan_desktop(&desktop_scanner());
    let by_name = |n: &str| entries.iter().find(|e| e.name == n).unwrap();

    assert_eq!(by_name("Firefox (user override)").source, Source::Native);
    assert_eq!(by_name("Notepad++").source, Source::Wine);
    assert_eq!(by_name("Calculatrice").source, Source::Flatpak);
    let portal = by_name("Portal 2 (raccourci bureau)");
    assert_eq!(portal.source, Source::Steam);
    assert_eq!(portal.id, "steam:620");
    assert_eq!(portal.launch, LaunchSpec::SteamApp(620));
}

#[test]
fn steam_scan_reads_all_libraries_and_filters() {
    let (vdf, libs) = steam_tree();
    let entries = scan_steam(&SteamScanner::with_root("/steam".to_owned()), &vdf, &libs);
    let names: Vec<&str> = entries.iter().map(|e| e.name.as_str()).collect();

    assert!(names.contains(&"Portal 2"));
    assert!(names.contains(&"Overwatch 2"));
    assert!(!names.contains(&"Proton 9.0 (Beta)"));
    assert!(!names.contains(&"Dota 2"));
    assert_eq!(entries.len(), 2);
}

#[test]
fn index_dedups_steam_shortcut_against_manifest() {
    let (vdf, libs) = steam_tree();
    let steam = scan_steam(&SteamScanner::with_root("/steam".to_owned()), &vdf, &libs);
    let desktop = scan_desktop(&desktop_scanner());
    let index = Index::from_sources(vec![steam, desktop]);

    let portals: Vec<_> = index.entries().iter().filter(|e| e.id == "steam:620").collect();
    assert_eq!(portals.len(), 1);
    assert_eq!(portals[0].name, "Portal 2");
}

#[test]
fn robustness_bad_files_degrade_quietly() {
    let entries = scan_desktop(&desktop_scanner());
    let names: Vec<&str> = entries.iter().map(|e| e.name.as_str()).collect();

    assert!(!names.iter().any(|n| n.contains("pas un fichier")));
    let dead = entries.iter().find(|e| e.name == "Dead Icon App").unwrap();
    assert!(dead.icon.is_none());
}

#[test]
fn steam_scan_ignores_garbage_manifest() {
    let (vdf, mut libs) = steam_tree();
    libs[0].1.push(("appmanifest_999.acf".to_owned(), "{{{ du bruit \"non parsable".to_owned()));

    let entries = scan_steam(&SteamScanner::with_root("/steam".to_owned()), &vdf, &libs);
    assert_eq!(entries.len(), 2);
}

#[test]
fn index_dedups_deb_and_flatpak_of_same_app() {
    let index = Index::from_sources(vec![scan_desktop(&desktop_scanner())]);
    let gimps: Vec<_> = index.entries().iter().filter(|e| e.name == "GIMP").collect();

    assert_eq!(gimps.len(), 1, "one GIMP entry expected");
    assert_eq!(gimps[0].source, Source::Native, "the native one wins");
    assert!(index.entries().iter().any(|e| e.name == "Calculatrice"));
}

#[test]
fn search_is_fuzzy_and_ranked() {
    let entries = scan_desktop(&desktop_scanner());
    let mut searcher = Searcher::new();

    let hits = searcher.search(&entries, "ffx");
    assert_eq!(entries[hits[0]].name, "Firefox (user override)");

    let hits = searcher.search(&entries, "navigateur");
    assert!(hits.iter().any(|&i| entries[i].name == "Firefox (user override)"));

    let all = searcher.search(&entries, "");
    assert_eq!(all.len(), entries.len());

    assert!(searcher.search(&entries, "zzzzqqqq").is_empty());
}

#[test]
fn clean_exec_strips_field_codes() {
    assert_eq!(clean_exec("firefox %u").unwrap(), vec!["firefox"]);
    assert_eq!(
        clean_exec("env FOO=bar app --flag %F").unwrap(),
        vec!["env", "FOO=bar", "app", "--flag"]
    );
    assert_eq!(clean_exec("app %%v").unwrap(), vec!["app", "%v"]);
}

#[test]
fn clean_exec_handles_quotes() {
    assert_eq!(
        clean_exec(r#""/opt/My App/run" --x %u"#).unwrap(),
        vec!["/opt/My App/run", "--x"]
    );
}

#[test]
fn steam_rungameid_parses() {
    assert_eq!(steam_rungameid("steam steam://rungameid/620"), Some(620));
    assert_eq!(steam_rungameid("firefox %u"), None);
}

#[test]
fn tooling_is_filtered() {
    assert!(is_tooling("Proton 9.0 (Beta)"));
    assert!(is_tooling("Steam Linux Runtime 3.0 (sniper)"));
    assert!(is_tooling("Steamworks Common Redistributables"));
    assert!(!is_tooling("Portal 2"));
}

#[test]
fn steam_manifest_fields_and_state() {
    let text = "\"AppState\"\n{\n\t\"appid\"\t\"620\"\n\t\"name\"\t\"Portal 2\"\n\t\"StateFlags\"\t\"4\"\n}\n";
    assert_eq!(
        parse_manifest(text),
        Some(SteamGame { app_id: 620, name: "Portal 2".to_owned() })
    );
    // downloading: the fully-installed bit is missing
    let text = "\"AppState\"\n{\n\t\"appid\"\t\"570\"\n\t\"name\"\t\"Dota 2\"\n\t\"StateFlags\"\t\"1026\"\n}\n";
    assert_eq!(parse_manifest(text), None);
    // no StateFlags counts as 0
    let text = "\"AppState\"\n{\n\t\"appid\"\t\"570\"\n\t\"name\"\t\"Dota 2\"\n}\n";
    assert_eq!(parse_manifest(text), None);
    // an appid that is not a u32
    let text = "\"AppState\"\n{\n\t\"appid\"\t\"x1\"\n\t\"name\"\t\"Dota 2\"\n\t\"StateFlags\"\t\"4\"\n}\n";
    assert_eq!(parse_manifest(text), None);
    assert!(is_manifest_name("appmanifest_620.acf"));
    assert!(!is_manifest_name("appmanifest_620.vdf"));
    assert!(!is_manifest_name("libraryfolders.vdf"));
}

#[test]
fn steam_libraries_are_deduplicated() {
    let vdf = "\"libraryfolders\"\n{\n\t\"0\"\n\t{\n\t\t\"path\"\t\"/s\"\n\t}\n\t\"1\"\n\t{\n\t\t\"path\"\t\"/d/lib\"\n\t}\n\t\"2\"\n\t{\n\t\t\"path\"\t\"/d/lib/\"\n\t}\n}\n";
    assert_eq!(library_dirs("/s", Some(vdf)), vec!["/s".to_owned(), "/d/lib".to_owned()]);
    assert_eq!(library_dirs("/s", None), vec!["/s".to_owned()]);
    assert_eq!(library_dirs("/s", Some("{{{ garbage")), vec!["/s".to_owned()]);
}

#[test]
fn steam_entry_is_sorted_and_iconed() {
    let scanner = SteamScanner::with_root("/s".to_owned());
    let entries = scanner.scan(vec![
        (SteamGame { app_id: 730, name: "CS".to_owned() }, None),
        (SteamGame { app_id: 620, name: "Portal 2".to_owned() }, Some("/s/620_icon.jpg".to_owned())),
    ]);
    assert_eq!(entries[0].id, "steam:620");
    assert_eq!(entries[0].icon, Some(Icon::Path("/s/620_icon.jpg".to_owned())));
    assert_eq!(entries[1].id, "steam:730");
    assert_eq!(entries[1].icon, None);
    assert!(SteamScanner::new(None).scan(vec![(SteamGame { app_id: 1, name: "x".to_owned() }, None)]).is_empty());
    assert_eq!(
        icon_candidates("/s", 620),
        vec![
            "/s/appcache/librarycache/620_icon.jpg".to_owned(),
            "/s/appcache/librarycache/620/icon.jpg".to_owned()
        ]
    );
}
