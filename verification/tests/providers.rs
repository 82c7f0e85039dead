//! Providers: calculator, files, and the registry's merge by tier and its
//! routing of activations.

use std::cell::RefCell;
use std::rc::Rc;

use weft_core::model::{AppEntry, Icon, LaunchSpec, Source};
use weft_core::provider::{UninstallSpec, WatchSpec};
use weft_core::providers::apps::{app_items, flatpak_app_id, uninstall_spec};
use weft_core::providers::calc::{calc_answer, translate, CalcProvider};
use weft_core::providers::files::{hidden, to_item, FilesProvider};
use weft_core::search::Searcher;
use weft_core::config::ProvidersConfig;
use weft_core::launch::{launch_spec, LaunchPlan};
use weft_core::{Action, Activation, Provider, Registry, ResultItem, Tier};

fn eval(query: &str) -> Option<ResultItem> {
    CalcProvider.query(query).into_iter().next()
}

#[test]
fn evaluates_arithmetic() {
    let item = eval("23*7").unwrap();
    assert_eq!(item.title, "= 161");
    assert_eq!(item.tier, Tier::Answer);
    assert_eq!(item.action, Action::CopyText("161".into()));
}

#[test]
fn converts_units() {
    let item = eval("2 inches to cm").unwrap();
    assert!(item.title.contains("5.08"), "got: {}", item.title);
    let item = eval("100 km en miles").unwrap();
    assert!(item.title.contains("62.1"), "got: {}", item.title);
}

#[test]
fn stays_quiet_when_not_math() {
    assert!(eval("firefox").is_none());
    assert!(eval("vlc 2").is_none());
    assert!(eval("42").is_none());
    assert!(eval("").is_none());
}

#[test]
fn calc_answer_formats_the_result() {
    let items = calc_answer("23*7", "161".to_owned());
    assert_eq!(items.len(), 1);
    assert_eq!(items[0].id, "calc:23*7");
    assert_eq!(items[0].title, "= 161");
    assert_eq!(items[0].subtitle.as_deref(), Some("Entrée pour copier"));
    assert_eq!(items[0].icon, Some(Icon::Named("accessories-calculator".to_owned())));
    assert_eq!(items[0].score, 1000);
    // the answer repeats the query, or is empty: silence
    assert!(calc_answer("42", "42".to_owned()).is_empty());
    assert!(calc_answer("1+", String::new()).is_empty());
}

#[test]
fn translate_maps_french_en_to_to() {
    let q: Vec<char> = "100  km en miles".chars().collect();
    let t: String = translate(&q).into_iter().collect();
    assert_eq!(t, "100 km to miles");
}

#[test]
fn hidden_components_detected() {
    assert!(hidden("/home/u/.cache/truc.txt"));
    assert!(!hidden("/home/u/Documents/truc.txt"));
    assert!(!hidden("/home/u/Documents"));
}

#[test]
fn filename_match_beats_path_match() {
    let by_name = to_item("/home/u/Documents/rapport.pdf", "rapport", false).unwrap();
    let by_path = to_item("/home/u/rapport/notes.txt", "rapport", false).unwrap();
    assert!(by_name.score > by_path.score);
    assert_eq!(by_name.tier, Tier::Fallback);
}

#[test]
fn short_or_impossible_queries_are_silent() {
    let p = FilesProvider::new(Some("/home/u".to_owned()));
    assert!(p.search_text("ab").is_none());
    assert!(p.search_text("").is_none());
    assert_eq!(p.search_text("  rapport ").as_deref(), Some("rapport"));
    assert!(FilesProvider::new(None).search_text("rapport").is_none());
}

#[test]
fn files_results_skip_outside_and_hidden_and_cap() {
    let p = FilesProvider::new(Some("/home/u".to_owned()));
    let mut found = vec![
        ("/etc/rapport.conf".to_owned(), false),
        ("/home/u/.cache/rapport.tmp".to_owned(), false),
    ];
    for i in 0..8 {
        found.push((format!("/home/u/docs/rapport{i}.txt"), false));
    }
    let items = p.results("rapport", found);
    assert_eq!(items.len(), 6);
    assert!(items.iter().all(|i| i.action != Action::OpenPath("/etc/rapport.conf".to_owned())));
    assert!(items.iter().all(|i| i.tier == Tier::Fallback));
}

fn entry(id: &str, name: &str, keywords: &[&str]) -> AppEntry {
    AppEntry {
        id: id.to_owned(),
        name: name.to_owned(),
        description: None,
        icon: None,
        launch: LaunchSpec::Exec(vec![name.to_lowercase()]),
        source: Source::Native,
        keywords: keywords.iter().map(|k| k.to_string()).collect(),
    }
}

/// The applications provider of these tests: fuzzy search over fixed
/// entries, no frecency.
struct Apps {
    entries: Vec<AppEntry>,
    searcher: Searcher,
}

impl Provider for Apps {
    fn name(&self) -> &'static str {
        "apps"
    }

    fn refresh(&mut self) {}

    fn watch_specs(&self) -> Vec<WatchSpec> {
        Vec::new()
    }

    fn record_activation(&mut self, _item_id: &str) {}

    fn query(&mut self, query: &str) -> Vec<ResultItem> {
        let scored = self.searcher.search_scored(&self.entries, query);
        let boosts = vec![0; scored.len()];
        app_items(&self.entries, scored, boosts)
    }
}

fn apps() -> Apps {
    Apps {
        entries: vec![
            entry("desktop:firefox.desktop", "Firefox (user override)", &["navigateur"]),
            entry("desktop:gimp.desktop", "GIMP", &[]),
            entry("desktop:fire.desktop", "Firewall", &[]),
            entry("desktop:files.desktop", "Files", &[]),
        ],
        searcher: Searcher::new(),
    }
}

/// A fake answer provider: answers in the Answer tier to the queries that
/// start with '=', records its activations.
struct FakeAnswerProvider {
    activated: Rc<RefCell<Vec<String>>>,
}

impl Provider for FakeAnswerProvider {
    fn name(&self) -> &'static str {
        "fake-answer"
    }

    fn refresh(&mut self) {}

    fn watch_specs(&self) -> Vec<WatchSpec> {
        Vec::new()
    }

    fn query(&mut self, query: &str) -> Vec<ResultItem> {
        if !query.starts_with('=') {
            return Vec::new();
        }
        vec![ResultItem {
            id: "answer".into(),
            title: "42".into(),
            subtitle: None,
            icon: None,
            action: Action::CopyText("42".into()),
            uninstall: None,
            tier: Tier::Answer,
            score: 1,
        }]
    }

    fn record_activation(&mut self, item_id: &str) {
        self.activated.borrow_mut().push(item_id.to_owned());
    }
}

#[test]
fn answer_tier_beats_high_scoring_apps() {
    let activated = Rc::new(RefCell::new(Vec::new()));
    let mut registry = Registry::new(vec![
        Box::new(apps()),
        Box::new(FakeAnswerProvider { activated: activated.clone() }),
    ]);

    let hits = registry.query("=fire");
    assert!(!hits.is_empty());
    assert_eq!(hits[0].item.title, "42", "the Answer tier comes first");
    assert_eq!(hits[0].item.tier, Tier::Answer);
}

#[test]
fn activation_routes_to_owning_provider() {
    let activated = Rc::new(RefCell::new(Vec::new()));
    let mut registry = Registry::new(vec![
        Box::new(apps()),
        Box::new(FakeAnswerProvider { activated: activated.clone() }),
    ]);

    let hits = registry.query("=x");
    let outcome = registry.activate(&hits[0]);

    assert_eq!(outcome, Activation::CopyRequested("42".into()));
    assert_eq!(*activated.borrow(), vec!["answer".to_owned()]);
}

#[test]
fn launch_activation_leaves_nothing_to_copy() {
    let activated = Rc::new(RefCell::new(Vec::new()));
    let mut registry = Registry::new(vec![
        Box::new(apps()),
        Box::new(FakeAnswerProvider { activated: activated.clone() }),
    ]);
    let hits = registry.query("gimp");
    assert_eq!(hits[0].item.title, "GIMP");
    assert_eq!(registry.activate(&hits[0]), Activation::Done);
    assert!(activated.borrow().is_empty());
    assert!(registry.uninstall(&hits[0]).is_err());
}

#[test]
fn app_items_keep_tier_and_launch() {
    let mut a = apps();
    let items = a.query("ffx");
    assert_eq!(items[0].title, "Firefox (user override)");
    assert_eq!(items[0].tier, Tier::Primary);
    assert!(items[0].score > 0);
    assert!(matches!(items[0].action, Action::Launch(_)));
    assert!(a.query("").len() >= 4);
    assert!(a.query("zzzzqqqq").is_empty());
}

#[test]
fn flatpak_and_steam_entries_are_uninstallable() {
    let argv: Vec<String> = ["/usr/bin/flatpak", "run", "--branch=stable", "org.gimp.GIMP", "%U"]
        .iter()
        .map(|s| s.to_string())
        .collect();
    assert_eq!(flatpak_app_id(&argv), Some("org.gimp.GIMP".to_owned()));
    let mut e = entry("desktop:org.gimp.GIMP.desktop", "GIMP", &[]);
    e.source = Source::Flatpak;
    e.launch = LaunchSpec::Exec(argv);
    assert_eq!(uninstall_spec(&e), Some(UninstallSpec::Flatpak("org.gimp.GIMP".to_owned())));
    let mut s = entry("steam:620", "Portal 2", &[]);
    s.source = Source::Steam;
    s.launch = LaunchSpec::SteamApp(620);
    assert_eq!(uninstall_spec(&s), Some(UninstallSpec::Steam(620)));
    assert_eq!(uninstall_spec(&entry("desktop:x.desktop", "X", &[])), None);
}

#[test]
fn app_provider_maps_entries_to_items() {
    let mut apps = apps();

    let items = apps.query("ffx");
    assert_eq!(items[0].title, "Firefox (user override)");
    assert_eq!(items[0].tier, Tier::Primary);
    assert!(items[0].score > 0);
    assert!(matches!(items[0].action, Action::Launch(_)));

    // Empty query: browsing, everything is there.
    assert!(apps.query("").len() >= 4);
    // Noise: nothing.
    assert!(apps.query("zzzzqqqq").is_empty());
}

#[test]
fn config_enables_providers_in_order() {
    let on = ProvidersConfig { apps: true, calc: true, files: false };
    let mut registry =
        Registry::from_config(&on, Box::new(apps()), Box::new(CalcProvider), Box::new(apps()));
    let hits = registry.query("23*7");
    assert_eq!(hits[0].item.title, "= 161");
    assert_eq!(hits[0].item.tier, Tier::Answer);

    let off = ProvidersConfig { apps: true, calc: false, files: false };
    let mut registry =
        Registry::from_config(&off, Box::new(apps()), Box::new(CalcProvider), Box::new(apps()));
    assert!(registry.query("23*7").iter().all(|h| h.item.tier != Tier::Answer));

    let mut all = Registry::with_defaults(Box::new(apps()), Box::new(CalcProvider), Box::new(apps()));
    assert_eq!(all.query("23*7")[0].item.title, "= 161");
}

#[test]
fn empty_command_line_is_refused() {
    match launch_spec(&LaunchSpec::Exec(vec![]), false) {
        LaunchPlan::Refuse(m) => assert_eq!(m, "argv vide"),
        _ => panic!("an empty command line must be refused"),
    }
}
