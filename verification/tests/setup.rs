//! The first-run setup: GNOME's custom keybindings.

use weft_core::setup::{free_keybinding, install_shortcut, parse_gvariant_list, shortcut_installed};

const ROOT: &str = "/org/gnome/settings-daemon/plugins/media-keys/custom-keybindings";

#[test]
fn gvariant_lists_are_read() {
    assert!(parse_gvariant_list("").is_empty());
    assert!(parse_gvariant_list("@as []\n").is_empty());
    assert!(parse_gvariant_list("[]").is_empty());
    assert_eq!(parse_gvariant_list("['/a/', '/b/']\n"), vec!["/a/".to_owned(), "/b/".to_owned()]);
    assert_eq!(parse_gvariant_list("['/a/']"), vec!["/a/".to_owned()]);
}

#[test]
fn new_keybinding_takes_the_first_free_index() {
    assert_eq!(free_keybinding(&Vec::new()), format!("{ROOT}/custom0/"));
    let existing = vec![format!("{ROOT}/custom0/"), format!("{ROOT}/custom2/")];
    assert_eq!(free_keybinding(&existing), format!("{ROOT}/custom1/"));
}

#[test]
fn shortcut_is_appended_never_replaced() {
    let existing = vec![format!("{ROOT}/custom0/")];
    let writes = install_shortcut(&existing, &vec!["'gnome-terminal'".to_owned()], &vec!["<Ctrl><Alt>t".to_owned()])
        .unwrap()
        .unwrap();
    assert_eq!(writes.len(), 4);
    assert_eq!(writes[0].key, ROOT);
    assert_eq!(writes[0].value, format!("['{ROOT}/custom0/', '{ROOT}/custom1/']"));
    assert_eq!(writes[1].key, format!("{ROOT}/custom1/name"));
    assert_eq!(writes[1].value, "'Weft'");
    assert_eq!(writes[2].value, "'/usr/bin/weft-launcher'");
    assert_eq!(writes[3].key, format!("{ROOT}/custom1/binding"));
    assert_eq!(writes[3].value, "'<Super>Return'");
}

#[test]
fn shortcut_setup_is_idempotent_and_polite() {
    let existing = vec![format!("{ROOT}/custom0/")];
    let installed = vec!["/usr/bin/weft-launcher".to_owned()];
    assert!(shortcut_installed(&installed));
    assert!(install_shortcut(&existing, &installed, &vec!["<Super>Return".to_owned()]).unwrap().is_none());
    let taken = install_shortcut(&existing, &vec!["other".to_owned()], &vec!["<Super>Return".to_owned()]);
    assert_eq!(taken.unwrap_err(), "Super + Entrée déjà utilisé — à régler à la main dans Paramètres");
}
