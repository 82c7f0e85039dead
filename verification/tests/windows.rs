//! The Windows engine: manifests and slugs, installer detection, what an
//! installer left, the runtime, the install and launch decisions, and the
//! store tools' answers.

use weft_core::model::{Icon, LaunchSpec, Source};
use weft_core::sources::windows::WindowsAppsScanner;
use weft_core::windows::discover::{
    discover, finish_shortcuts, is_noise, lnk_candidate, pick_biggest, windows_path_to_prefix_relative,
    DiscoveredExe,
};
use weft_core::windows::epic::{installed_info, library as epic_library, logged_in, record_exe, umu_id, EpicGame};
use weft_core::windows::gog::{download_command, find_setup_exe, library as gog_library, regex_escape};
use weft_core::windows::install::{
    EpicAction, EpicEvent, InstallAction, InstallEvent, InstallState,
};
use weft_core::windows::installer::{
    classify_head, inno_markers, kind_from_markers, nsis_markers, pe_header_offset, pe_machine_bitness,
    InstallerKind, MarkerScan,
};
use weft_core::windows::manifest::{manifest_path, slugify, Manifest, RuntimeVersions};
use weft_core::windows::prefix::{sort_by_slug, AppStore, InstalledApp};
use weft_core::windows::runtime::{
    proton_url, umu_archive_url, FetchStep, Runtime, RuntimeStatus, PINNED_PROTON, PINNED_UMU,
};
use weft_core::windows::{copy_plan, is_app_folder, is_common_dir, InstallOptions, WindowsEngine, WindowsRoot};

fn manifest(name: &str, exe: &str) -> Manifest {
    Manifest {
        name: name.into(),
        exe: exe.into(),
        gameid: None,
        store: None,
        store_id: None,
        created: String::new(),
        runtime: RuntimeVersions { proton: "p".into(), umu: "u".into() },
        env: Vec::new(),
    }
}

fn app(slug: &str, name: &str) -> InstalledApp {
    InstalledApp {
        slug: slug.into(),
        dir: format!("/w/apps/{slug}"),
        manifest: manifest(name, "drive_c/app.exe"),
    }
}

/// What the application does around the detection: the head, then the
/// marker scans over chunks of `chunk` bytes.
fn detect(bytes: &[u8], chunk: usize) -> InstallerKind {
    let head = &bytes[..bytes.len().min(8)];
    if let Some(kind) = classify_head(head) {
        return kind;
    }
    let found = |markers: Vec<Vec<u8>>| {
        let mut scan = MarkerScan::new(markers);
        bytes.chunks(chunk).any(|c| scan.step(c))
    };
    let inno = found(inno_markers());
    let nsis = !inno && found(nsis_markers());
    kind_from_markers(inno, nsis)
}

fn pe_with(marker: &[u8]) -> Vec<u8> {
    let mut bytes = b"MZ".to_vec();
    bytes.extend_from_slice(&[0u8; 4096]);
    bytes.extend_from_slice(marker);
    bytes.extend_from_slice(&[0u8; 512]);
    bytes
}

#[test]
fn detects_each_kind() {
    let mut msi = vec![0xD0, 0xCF, 0x11, 0xE0, 0xA1, 0xB1, 0x1A, 0xE1];
    msi.extend_from_slice(&[0u8; 64]);
    assert_eq!(detect(&msi, 1 << 20), InstallerKind::Msi);
    assert_eq!(detect(&pe_with(b"Inno Setup Setup Data"), 1 << 20), InstallerKind::Inno);
    assert_eq!(detect(&pe_with(b"Nullsoft.NSIS.exehead"), 1 << 20), InstallerKind::Nsis);
    assert_eq!(detect(&pe_with(b"rien de special"), 1 << 20), InstallerKind::PortableExe);
    assert_eq!(detect(b"bonjour", 1 << 20), InstallerKind::Unknown);
}

#[test]
fn marker_straddling_chunks_is_found() {
    let mut bytes = b"MZ".to_vec();
    bytes.extend_from_slice(&vec![0u8; (1 << 20) - 7]);
    bytes.extend_from_slice(b"Inno Setup");
    assert_eq!(detect(&bytes, 1 << 20), InstallerKind::Inno);
    // with tiny chunks too: every boundary falls inside the marker
    assert_eq!(detect(&pe_with(b"JR.Inno.Setup"), 3), InstallerKind::Inno);
}

#[test]
fn marker_scan_carries_the_tail() {
    let mut scan = MarkerScan::new(vec![b"abc".to_vec()]);
    assert!(!scan.step(b"xxab"));
    assert!(scan.step(b"cyy"));
    let mut scan = MarkerScan::new(vec![b"abc".to_vec()]);
    assert!(!scan.step(b"ab"));
    assert!(!scan.step(b"xc"));
}

#[test]
fn pe_bitness_is_detected() {
    let make_pe = |machine: u16| {
        let mut b = vec![0u8; 0x46];
        b[0] = b'M';
        b[1] = b'Z';
        b[0x3C..0x40].copy_from_slice(&0x40u32.to_le_bytes());
        b[0x40..0x44].copy_from_slice(b"PE\0\0");
        b[0x44..0x46].copy_from_slice(&machine.to_le_bytes());
        b
    };
    let bitness = |b: &[u8]| {
        let off = pe_header_offset(&b[..b.len().min(0x40)])? as usize;
        pe_machine_bitness(b.get(off..off + 6)?)
    };
    assert_eq!(bitness(&make_pe(0x014C)), Some(true));
    assert_eq!(bitness(&make_pe(0x8664)), Some(false));
    assert_eq!(bitness(&make_pe(0xAA64)), Some(false));
    assert_eq!(bitness(&make_pe(0x0200)), None);
    assert_eq!(bitness(b"bonjour"), None);
    assert_eq!(pe_header_offset(&make_pe(0x014C)[..0x40]), Some(0x40));
}

#[test]
fn explicit_gameid_wins() {
    let mut m = manifest("x", "x.exe");
    m.gameid = Some("umu-244210".into());
    assert_eq!(m.gameid_or_default(), "umu-244210");
}

#[test]
fn gameid_and_store_defaults() {
    let m = manifest("WinMerge", "drive_c/Program Files/WinMerge/WinMergeU.exe");
    assert_eq!(m.gameid_or_default(), "umu-default");
    assert_eq!(m.store_or_none(), "none");
    assert_eq!(manifest_path("/w/apps/winmerge"), "/w/apps/winmerge/manifest.toml");
}

#[test]
fn slugify_makes_safe_dir_names() {
    assert_eq!(slugify("WinMerge"), "winmerge");
    assert_eq!(slugify("Notepad++ (x64)"), "notepad-x64");
    assert_eq!(slugify("  Éléphant 2000!  "), "éléphant-2000");
    assert_eq!(slugify("///"), "app");
}

#[test]
fn slugs_never_hold_double_or_edge_dashes() {
    for name in ["--a--b--", "a   b", "-", "C++ / C#", "日本語 ゲーム"] {
        let s = slugify(name);
        assert!(!s.is_empty());
        assert!(!s.contains("--"));
        assert!(!s.starts_with('-') && !s.ends_with('-'));
    }
}

#[test]
fn windows_paths_map_into_prefix() {
    assert_eq!(
        windows_path_to_prefix_relative(r"C:\Program Files\WinMerge\WinMergeU.exe").unwrap(),
        "drive_c/Program Files/WinMerge/WinMergeU.exe"
    );
    assert!(windows_path_to_prefix_relative(r"D:\jeu\jeu.exe").is_none());
    assert_eq!(windows_path_to_prefix_relative(r"c:\x.exe").unwrap(), "drive_c/x.exe");
}

#[test]
fn shortcuts_give_candidates() {
    let c = lnk_candidate("WinMerge", Some(r"C:\Program Files\WinMerge\WinMergeU.EXE".to_owned())).unwrap();
    assert_eq!(c.name, "WinMerge");
    assert_eq!(c.exe, "drive_c/Program Files/WinMerge/WinMergeU.EXE");
    assert!(lnk_candidate("Uninstall WinMerge", Some(r"C:\Program Files\WinMerge\unins000.exe".to_owned())).is_none());
    assert!(lnk_candidate("Readme", Some(r"C:\Program Files\WinMerge\readme.txt".to_owned())).is_none());
    assert!(lnk_candidate("Web", None).is_none());
    assert!(is_noise("Désinstaller"));
    assert!(!is_noise("WinMerge"));
    let done = finish_shortcuts(vec![
        DiscoveredExe { name: "Zed".into(), exe: "drive_c/z.exe".into() },
        DiscoveredExe { name: "App".into(), exe: "drive_c/a.exe".into() },
        DiscoveredExe { name: "App (2)".into(), exe: "drive_c/a.exe".into() },
    ]);
    assert_eq!(done.len(), 2);
    assert_eq!(done[0].name, "App");
    assert_eq!(done[1].name, "Zed");
}

#[test]
fn fallback_picks_biggest_exe_and_skips_noise() {
    let d = |n: &str, e: &str| DiscoveredExe { name: n.into(), exe: e.into() };
    let best = pick_biggest(vec![
        (d("app", "drive_c/Program Files/App/app.exe"), 5000),
        (d("petit-outil", "drive_c/Program Files/App/petit-outil.exe"), 100),
        (d("uninstall", "drive_c/Program Files/App/uninstall.exe"), 90000),
    ]);
    let found = discover(Vec::new(), best);
    assert_eq!(found.len(), 1);
    assert_eq!(found[0].exe, "drive_c/Program Files/App/app.exe");
    // the first of equal sizes wins
    let best = pick_biggest(vec![(d("a", "a.exe"), 10), (d("b", "b.exe"), 10)]).unwrap();
    assert_eq!(best.exe, "a.exe");
}

#[test]
fn empty_prefix_discovers_nothing() {
    assert!(discover(Vec::new(), pick_biggest(Vec::new())).is_empty());
    let shortcut = DiscoveredExe { name: "A".into(), exe: "a.exe".into() };
    let fallback = DiscoveredExe { name: "B".into(), exe: "b.exe".into() };
    assert_eq!(discover(vec![shortcut.clone()], Some(fallback)), vec![shortcut]);
}

#[test]
fn regex_escape_keeps_slugs_and_escapes_rest() {
    assert_eq!(regex_escape("stardew_valley"), "stardew_valley");
    assert_eq!(regex_escape("a.b+c"), "a\\.b\\+c");
}

#[test]
fn gog_download_and_setup() {
    let c = download_command("a.b", "/tmp/dl");
    assert_eq!(c.program, "lgogdownloader");
    assert_eq!(c.args[2], "^a\\.b$");
    assert_eq!(c.args.last().unwrap(), "/tmp/dl");
    let entries = vec![
        "/d/setup_betrayer_1.9-1.bin".to_owned(),
        "/d/setup_betrayer_1.9.exe".to_owned(),
        "/d/readme.txt".to_owned(),
    ];
    assert_eq!(find_setup_exe(&entries).unwrap(), "/d/setup_betrayer_1.9.exe");
    assert!(find_setup_exe(&vec!["/d/a.bin".to_owned()]).is_none());
}

#[test]
fn setup_exe_is_found_next_to_bin_parts() {
    let entries = vec!["/g/setup_betrayer_1.9.exe".to_owned(), "/g/setup_betrayer_1.9-1.bin".to_owned()];
    assert_eq!(find_setup_exe(&entries).unwrap(), "/g/setup_betrayer_1.9.exe");
    let entries = vec!["/g/z.EXE".to_owned(), "/g/b.exe".to_owned()];
    assert_eq!(find_setup_exe(&entries).unwrap(), "/g/b.exe");
}

#[test]
fn gog_library_reads_both_layouts() {
    let json = br#"{"games":[{"gamename":"stardew_valley","title":"Stardew Valley","product_id":1453375253},{"gamename":"betrayer","id":"1207664643"},{"title":"no name"}]}"#;
    let games = gog_library(json).unwrap();
    assert_eq!(games.len(), 2);
    assert_eq!(games[0].title, "Stardew Valley");
    assert_eq!(games[0].product_id, "1453375253");
    assert_eq!(games[1].gamename, "betrayer");
    assert_eq!(games[1].title, "betrayer");
    assert_eq!(games[1].product_id, "1207664643");
    let games = gog_library(br#"[{"gamename":"a","title":"B"},{"gamename":"c","title":"A"}]"#).unwrap();
    assert_eq!(games[0].gamename, "c");
    assert!(gog_library(b"{not json").unwrap_err().starts_with("réponse lgogdownloader illisible : "));
}

#[test]
fn epic_answers_are_read() {
    assert!(logged_in(br#"{"account":"someone"}"#));
    assert!(!logged_in(br#"{"account":"<not logged in>"}"#));
    assert!(!logged_in(b"garbage"));
    let games = epic_library(br#"[{"app_name":"b","app_title":"Zeta"},{"app_name":"a","app_title":"Alpha"},{"app_name":"c"}]"#)
        .unwrap();
    assert_eq!(games.len(), 2);
    assert_eq!(games[0].app_name, "a");
    assert!(epic_library(b"{}").unwrap_err().starts_with("réponse legendary illisible : "));
    let info = installed_info(
        br#"[{"app_name":"a","install_path":"/w/apps/a/game/A","executable":"\\Bin/Game.exe"}]"#,
        "a",
    );
    assert_eq!(info, Some(("/w/apps/a/game/A".to_owned(), "Bin/Game.exe".to_owned())));
    assert_eq!(installed_info(b"[]", "a"), None);
    assert_eq!(umu_id(br#"[{"umu_id":"umu-123"}]"#), Some("umu-123".to_owned()));
    assert_eq!(umu_id(b"[]"), None);
    assert_eq!(record_exe("/w/apps/a/game/A", "/w/apps/a", "Bin/Game.exe"), "game/A/Bin/Game.exe");
    assert_eq!(record_exe("/elsewhere/A", "/w/apps/a", "g.exe"), "/elsewhere/A/g.exe");
}

#[test]
fn common_dirs_are_never_copied_whole() {
    let home = "/home/u";
    assert!(is_common_dir(Some(home), home));
    assert!(is_common_dir(Some(home), "/home/u/Téléchargements"));
    assert!(is_common_dir(Some(home), "/home/u/Downloads"));
    assert!(is_common_dir(Some(home), "/tmp"));
    assert!(is_common_dir(None, "/tmp"));
    assert!(!is_common_dir(Some(home), "/home/u/Downloads/PolyTrack-v0.6.2"));
}

#[test]
fn app_folder_with_data_files_is_copied_whole() {
    let dir = "/home/u/Jeux/MonJeu-v1.0";
    let entries = vec![
        format!("{dir}/jeu.exe"),
        format!("{dir}/icudtl.dat"),
        format!("{dir}/resources"),
    ];
    let exe = format!("{dir}/jeu.exe");
    assert!(is_app_folder(Some("/home/u"), dir, &exe, Some(&entries)));
    let plan = copy_plan(&exe, "/w/apps/jeu/prefix", Some(dir));
    assert!(plan.whole_dir);
    assert_eq!(plan.source, dir);
    assert_eq!(plan.dest, "/w/apps/jeu/prefix/drive_c/weft-portable/MonJeu-v1.0");
}

#[test]
fn folder_with_several_exes_copies_only_the_chosen_one() {
    let dir = "/home/u/outils";
    let entries = vec![format!("{dir}/a.exe"), format!("{dir}/B.EXE"), format!("{dir}/notes.txt")];
    let exe = format!("{dir}/a.exe");
    assert!(!is_app_folder(Some("/home/u"), dir, &exe, Some(&entries)));
    // the executable alone in its folder: nothing else to copy
    assert!(!is_app_folder(Some("/home/u"), dir, &exe, Some(&vec![exe.clone()])));
    assert!(!is_app_folder(Some("/home/u"), dir, &exe, None));
    let plan = copy_plan(&exe, "/w/p", None);
    assert!(!plan.whole_dir);
    assert_eq!(plan.dest, "/w/p/drive_c/weft-portable/a.exe");
}

#[test]
fn create_list_remove_lifecycle() {
    let store = AppStore::new(WindowsRoot::at("/w".to_owned()));
    let (slug, dir) = store.create("WinMerge", &Vec::new());
    assert_eq!(slug, "winmerge");
    assert_eq!(dir, "/w/apps/winmerge");
    let listed = vec![app("winmerge", "WinMerge")];
    assert_eq!(store.get(listed, "winmerge").unwrap().manifest.name, "WinMerge");
    assert!(store.get(Vec::new(), "winmerge").is_none());
    assert_eq!(store.remove("winmerge", true, true).unwrap(), "/w/apps/winmerge");
    assert_eq!(store.remove("winmerge", false, false).unwrap_err(), "app inconnue : winmerge");
}

#[test]
fn slug_collisions_get_suffixed() {
    let store = AppStore::new(WindowsRoot::at("/w".to_owned()));
    let (a, _) = store.create("App", &Vec::new());
    let (b, dir) = store.create("App", &vec![a.clone()]);
    assert_eq!(a, "app");
    assert_eq!(b, "app-2");
    assert_eq!(dir, "/w/apps/app-2");
    let (c, _) = store.create("App", &vec!["app-2".to_owned(), "app".to_owned(), "app-3".to_owned()]);
    assert_eq!(c, "app-4");
}

#[test]
fn apps_are_listed_by_slug() {
    let sorted = sort_by_slug(vec![app("zeta", "Z"), app("alpha", "A"), app("mid", "M")]);
    let slugs: Vec<&str> = sorted.iter().map(|a| a.slug.as_str()).collect();
    assert_eq!(slugs, vec!["alpha", "mid", "zeta"]);
}

#[test]
fn installed_app_paths() {
    let a = app("winmerge", "WinMerge");
    assert_eq!(a.prefix_dir(), "/w/apps/winmerge/prefix");
    assert_eq!(a.logs_dir(), "/w/apps/winmerge/logs");
    assert_eq!(a.exe_path(true), "/w/apps/winmerge/prefix/drive_c/app.exe");
    assert_eq!(a.exe_path(false), "/w/apps/winmerge/drive_c/app.exe");
    assert_eq!(a.icon_path(true).unwrap(), "/w/apps/winmerge/icon.png");
    assert!(a.icon_path(false).is_none());
}

#[test]
fn scans_manifests_into_entries() {
    let scanner = WindowsAppsScanner::with_root(WindowsRoot::at("/w".to_owned()));
    let entries = scanner.scan(vec![(app("winmerge", "WinMerge"), true), (app("x", "X"), false)]);
    assert_eq!(entries.len(), 2);
    assert_eq!(entries[0].name, "WinMerge");
    assert_eq!(entries[0].id, "weft-windows:winmerge");
    assert_eq!(entries[0].launch, LaunchSpec::WindowsApp("winmerge".to_owned()));
    assert_eq!(entries[0].source, Source::Wine);
    assert_eq!(entries[0].icon, Some(Icon::Path("/w/apps/winmerge/icon.png".to_owned())));
    assert_eq!(entries[1].icon, None);
    assert!(WindowsAppsScanner::new(None).is_none());
}

#[test]
fn status_on_empty_root_reports_missing() {
    let s = RuntimeStatus { umu: false, proton: false, container: false, python: true };
    assert!(!s.ready());
}

#[test]
fn status_detects_pinned_components() {
    let s = RuntimeStatus { umu: true, proton: true, container: false, python: true };
    assert!(s.ready());
    let s = RuntimeStatus { umu: true, proton: true, container: true, python: false };
    assert!(!s.ready());
}

#[test]
fn pinned_paths_contain_versions() {
    let rt = Runtime::new(WindowsRoot::at("/w".to_owned()));
    assert!(rt.umu_run().contains(PINNED_UMU));
    assert!(rt.proton_dir().contains(PINNED_PROTON));
    assert_eq!(rt.umu_run(), "/w/runtimes/umu/1.4.1/umu-run");
    assert_eq!(rt.proton_dir(), "/w/runtimes/proton/UMU-Proton-10.0-4");
    assert_eq!(
        umu_archive_url(),
        "https://github.com/Open-Wine-Components/umu-launcher/releases/download/1.4.1/umu-launcher-1.4.1-zipapp.tar"
    );
    assert!(proton_url(".sha512sum").ends_with("/UMU-Proton-10.0-4/UMU-Proton-10.0-4.sha512sum"));
}

#[test]
fn fetch_plans_only_what_is_missing() {
    let rt = Runtime::new(WindowsRoot::at("/w".to_owned()));
    let all = RuntimeStatus { umu: false, proton: false, container: false, python: true };
    assert_eq!(rt.fetch(&all).unwrap(), vec![FetchStep::Umu, FetchStep::Proton]);
    let some = RuntimeStatus { umu: true, proton: false, container: false, python: true };
    assert_eq!(rt.fetch(&some).unwrap(), vec![FetchStep::Proton]);
    let no_python = RuntimeStatus { umu: false, proton: false, container: false, python: false };
    assert!(rt.fetch(&no_python).is_err());
    assert!(rt.fetch_container(&all).is_err());
    let ready = RuntimeStatus { umu: true, proton: true, container: false, python: true };
    let c = rt.fetch_container(&ready).unwrap();
    assert_eq!(c.args, vec!["createprefix".to_owned()]);
    assert_eq!(c.env[0], ("WINEPREFIX".to_owned(), "/w/tmp/container-warmup".to_owned()));
}

#[test]
fn launch_uses_pinned_or_manifest_proton() {
    let engine = WindowsEngine::new(WindowsRoot::at("/w".to_owned()));
    let mut a = app("winmerge", "WinMerge");
    a.manifest.runtime.proton = "UMU-Proton-9.0".into();
    let c = engine.launch(Some(&a), "winmerge", true, true, true).unwrap();
    assert_eq!(c.program, "/w/runtimes/umu/1.4.1/umu-run");
    assert_eq!(c.args, vec!["/w/apps/winmerge/prefix/drive_c/app.exe".to_owned()]);
    assert_eq!(c.env[1].1, "/w/runtimes/proton/UMU-Proton-9.0");
    assert_eq!(c.env[2], ("GAMEID".to_owned(), "umu-default".to_owned()));
    let c = engine.launch(Some(&a), "winmerge", true, false, true).unwrap();
    assert_eq!(c.env[1].1, "/w/runtimes/proton/UMU-Proton-10.0-4");
    assert_eq!(engine.launch(None, "nope", true, true, true).unwrap_err(), "app inconnue : nope");
}

#[test]
fn epic_games_launch_through_legendary() {
    let engine = WindowsEngine::new(WindowsRoot::at("/w".to_owned()));
    let mut a = app("fortnite", "Fortnite");
    a.manifest.store = Some("egs".into());
    a.manifest.store_id = Some("Fortnite".into());
    let c = engine.launch(Some(&a), "fortnite", true, false, false).unwrap();
    assert_eq!(c.program, "legendary");
    assert_eq!(c.args[0..4], ["launch", "Fortnite", "--no-wine", "--wrapper"]);
    assert_eq!(c.args[4], "/w/runtimes/umu/1.4.1/umu-run");
    assert_eq!(c.env[3], ("STORE".to_owned(), "egs".to_owned()));
    // without legendary: umu-run on the executable
    let c = engine.launch(Some(&a), "fortnite", false, false, false).unwrap();
    assert_eq!(c.args, vec!["/w/apps/fortnite/drive_c/app.exe".to_owned()]);
}

fn discovered() -> InstallEvent {
    InstallEvent::Discovered {
        found: vec![DiscoveredExe { name: "WinMerge".into(), exe: "drive_c/WinMerge/WinMergeU.exe".into() }],
        created: "2026-07-07T18:00:00+02:00".into(),
    }
}

#[test]
fn install_runs_the_whole_sequence() {
    let engine = WindowsEngine::new(WindowsRoot::at("/w".to_owned()));
    let opts = InstallOptions { silent: true, ..InstallOptions::default() };
    let (mut job, first) = engine.install("/dl/WinMerge-Setup.exe".into(), opts);
    assert!(matches!(first, InstallAction::Check));
    let a = job.step(InstallEvent::Checked { runtime_ready: true, file_exists: true });
    assert!(matches!(a, InstallAction::Detect));
    match job.step(InstallEvent::Detected { kind: InstallerKind::Inno }) {
        InstallAction::Reserve { hint } => assert_eq!(hint, "WinMerge-Setup"),
        other => panic!("{other:?}"),
    }
    match job.step(InstallEvent::Reserved { slug: "winmerge-setup".into(), dir: "/w/apps/winmerge-setup".into() }) {
        InstallAction::RunInstaller { command, log, message } => {
            assert_eq!(command.program, "/w/runtimes/umu/1.4.1/umu-run");
            assert_eq!(
                command.args,
                vec!["/dl/WinMerge-Setup.exe", "/VERYSILENT", "/SUPPRESSMSGBOXES", "/NORESTART"]
            );
            assert_eq!(command.env[0].1, "/w/apps/winmerge-setup/prefix");
            assert_eq!(log, "/w/apps/winmerge-setup/logs/install.log");
            assert_eq!(message, "Installation en cours…");
        },
        other => panic!("{other:?}"),
    }
    assert!(matches!(job.step(InstallEvent::Ran { ok: true }), InstallAction::Discover { .. }));
    assert!(matches!(job.step(discovered()), InstallAction::ListApps));
    match job.step(InstallEvent::Listed { apps: vec![app("other", "Other")] }) {
        InstallAction::Save { manifest, path, exe, icon } => {
            assert_eq!(manifest.name, "WinMerge");
            assert_eq!(manifest.runtime.proton, PINNED_PROTON);
            assert_eq!(path, "/w/apps/winmerge-setup/manifest.toml");
            assert_eq!(exe, "/w/apps/winmerge-setup/prefix/drive_c/WinMerge/WinMergeU.exe");
            assert_eq!(icon, "/w/apps/winmerge-setup/icon.png");
        },
        other => panic!("{other:?}"),
    }
    match job.step(InstallEvent::Saved) {
        InstallAction::Finish { app, message } => {
            assert_eq!(app.slug, "winmerge-setup");
            assert_eq!(message, "« WinMerge » installé.");
        },
        other => panic!("{other:?}"),
    }
    assert!(matches!(job.state, InstallState::Over));
}

#[test]
fn reinstall_replaces_the_same_program() {
    let engine = WindowsEngine::new(WindowsRoot::at("/w".to_owned()));
    let (mut job, _) = engine.install("/dl/wm.msi".into(), InstallOptions::default());
    job.step(InstallEvent::Checked { runtime_ready: true, file_exists: true });
    job.step(InstallEvent::Detected { kind: InstallerKind::Msi });
    match job.step(InstallEvent::Reserved { slug: "wm-2".into(), dir: "/w/apps/wm-2".into() }) {
        InstallAction::RunInstaller { command, message, .. } => {
            assert_eq!(command.args, vec!["msiexec", "/i", "/dl/wm.msi"]);
            assert_eq!(message, "Installation (Windows Installer)… suis l'assistant s'il s'affiche.");
        },
        other => panic!("{other:?}"),
    }
    job.step(InstallEvent::Ran { ok: true });
    job.step(discovered());
    let mut old = app("winmerge", "WinMerge");
    old.manifest.exe = "drive_c/WinMerge/WinMergeU.exe".into();
    match job.step(InstallEvent::Listed { apps: vec![old] }) {
        InstallAction::Replace { old, from, to, message } => {
            assert_eq!(old, "winmerge");
            assert_eq!(from, "/w/apps/wm-2");
            assert_eq!(to, "/w/apps/winmerge");
            assert_eq!(message, "« WinMerge » déjà installé : remplacement.");
        },
        other => panic!("{other:?}"),
    }
    assert!(matches!(job.step(InstallEvent::Replaced), InstallAction::Save { .. }));
    match job.step(InstallEvent::Saved) {
        InstallAction::Finish { app, .. } => assert_eq!(app.slug, "winmerge"),
        other => panic!("{other:?}"),
    }
}

#[test]
fn install_failures_clean_up() {
    let engine = WindowsEngine::new(WindowsRoot::at("/w".to_owned()));
    let (mut job, _) = engine.install("/dl/x.exe".into(), InstallOptions::default());
    match job.step(InstallEvent::Checked { runtime_ready: false, file_exists: true }) {
        InstallAction::Fail { remove, message } => {
            assert!(remove.is_none());
            assert_eq!(message, "environnement Windows pas encore prêt (weft-windows runtime fetch)");
        },
        other => panic!("{other:?}"),
    }
    let (mut job, _) = engine.install("/dl/x.exe".into(), InstallOptions::default());
    match job.step(InstallEvent::Checked { runtime_ready: true, file_exists: false }) {
        InstallAction::Fail { message, .. } => assert_eq!(message, "fichier introuvable : /dl/x.exe"),
        other => panic!("{other:?}"),
    }
    let (mut job, _) = engine.install("/dl/x.txt".into(), InstallOptions::default());
    job.step(InstallEvent::Checked { runtime_ready: true, file_exists: true });
    job.step(InstallEvent::Detected { kind: InstallerKind::Unknown });
    match job.step(InstallEvent::Reserved { slug: "x".into(), dir: "/w/apps/x".into() }) {
        InstallAction::Fail { remove, .. } => assert_eq!(remove.as_deref(), Some("x")),
        other => panic!("{other:?}"),
    }
    let (mut job, _) = engine.install("/dl/x.exe".into(), InstallOptions::default());
    job.step(InstallEvent::Checked { runtime_ready: true, file_exists: true });
    job.step(InstallEvent::Detected { kind: InstallerKind::PortableExe });
    match job.step(InstallEvent::Reserved { slug: "x".into(), dir: "/w/apps/x".into() }) {
        InstallAction::CopyPortable { file, prefix, .. } => {
            assert_eq!(file, "/dl/x.exe");
            assert_eq!(prefix, "/w/apps/x/prefix");
        },
        other => panic!("{other:?}"),
    }
    job.step(InstallEvent::Ran { ok: true });
    match job.step(InstallEvent::Discovered { found: Vec::new(), created: String::new() }) {
        InstallAction::Fail { remove, message } => {
            assert_eq!(remove.as_deref(), Some("x"));
            assert_eq!(message, "l'installation n'a laissé aucun programme reconnaissable (annulée ?)");
        },
        other => panic!("{other:?}"),
    }
    // an event out of turn is refused
    match job.step(InstallEvent::Saved) {
        InstallAction::Fail { remove, .. } => assert!(remove.is_none()),
        other => panic!("{other:?}"),
    }
}

#[test]
fn epic_install_sequence() {
    let engine = WindowsEngine::new(WindowsRoot::at("/w".to_owned()));
    let (mut job, first) = engine.install_epic("Fortnite".into());
    assert!(matches!(first, EpicAction::Check));
    match job.step(EpicEvent::Checked { runtime_ready: true, legendary: true, logged_in: false }) {
        EpicAction::Fail { message, .. } => {
            assert_eq!(message, "aucun compte Epic connecté (weft-windows epic login)")
        },
        other => panic!("{other:?}"),
    }
    let (mut job, _) = engine.install_epic("Fortnite".into());
    job.step(EpicEvent::Checked { runtime_ready: true, legendary: true, logged_in: true });
    let games = vec![EpicGame { app_name: "Fortnite".into(), title: "Fortnite".into() }];
    assert!(matches!(job.step(EpicEvent::Library { games: Ok(games) }), EpicAction::ListApps));
    let mut old = app("fortnite", "Fortnite (old)");
    old.manifest.store_id = Some("Fortnite".into());
    match job.step(EpicEvent::Listed { apps: vec![old] }) {
        EpicAction::Reserve { hint, replace, message } => {
            assert_eq!(hint, "Fortnite");
            assert_eq!(replace.as_deref(), Some("fortnite"));
            assert_eq!(message.as_deref(), Some("« Fortnite (old) » déjà installé : remplacement."));
        },
        other => panic!("{other:?}"),
    }
    match job.step(EpicEvent::Reserved { slug: "fortnite".into(), dir: "/w/apps/fortnite".into() }) {
        EpicAction::Download { command, log, message } => {
            assert_eq!(command.program, "legendary");
            assert_eq!(command.args, vec!["install", "Fortnite", "-y", "--base-path", "/w/apps/fortnite/game"]);
            assert_eq!(log, "/w/apps/fortnite/logs/install.log");
            assert_eq!(message, "Téléchargement de « Fortnite »…");
        },
        other => panic!("{other:?}"),
    }
    assert!(matches!(job.step(EpicEvent::Ran { ok: true }), EpicAction::QueryInstalled));
    let info = Some(("/w/apps/fortnite/game/Fortnite".to_owned(), "Bin/F.exe".to_owned()));
    match job.step(EpicEvent::Installed { info }) {
        EpicAction::LookupFixes { url, .. } => assert_eq!(
            url,
            "https://umu.openwinecomponents.org/umu_api.php?codename=Fortnite&store=egs"
        ),
        other => panic!("{other:?}"),
    }
    match job.step(EpicEvent::Fixes { gameid: Some("umu-fortnite".into()), created: "now".into() }) {
        EpicAction::Save { app, path } => {
            assert_eq!(app.manifest.exe, "game/Fortnite/Bin/F.exe");
            assert_eq!(app.manifest.store.as_deref(), Some("egs"));
            assert_eq!(app.manifest.gameid.as_deref(), Some("umu-fortnite"));
            assert_eq!(path, "/w/apps/fortnite/manifest.toml");
        },
        other => panic!("{other:?}"),
    }
    assert!(matches!(job.step(EpicEvent::Saved), EpicAction::Finish { .. }));
}

#[test]
fn epic_game_missing_from_library() {
    let engine = WindowsEngine::new(WindowsRoot::at("/w".to_owned()));
    let (mut job, _) = engine.install_epic("Nope".into());
    job.step(EpicEvent::Checked { runtime_ready: true, legendary: true, logged_in: true });
    match job.step(EpicEvent::Library { games: Ok(Vec::new()) }) {
        EpicAction::Fail { message, .. } => assert_eq!(message, "« Nope » n'est pas dans ta bibliothèque Epic"),
        other => panic!("{other:?}"),
    }
}
