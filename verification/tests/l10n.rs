use zero_ui_core::app::AppExtension;
use zero_ui_core::l10n::{ftl_stem, lang_dir_entry, LangDirEntry, is_valid_file, is_valid_id, L10nManager, Lang, LangResourceStatus, Langs, L10N, L10N_MANAGER_ID};

fn tags(l: &Langs) -> Vec<String> {
    l.0.iter().map(|l| l.tag.clone()).collect()
}

#[test]
fn langs_from_config_drop_invalid() {
    let langs = Langs::from_config(&vec!["en-US".to_string(), "not a lang!".to_string(), "pt-BR".to_string()]);
    assert_eq!(tags(&langs), vec!["en-US".to_string(), "pt-BR".to_string()]);
    assert!(Lang::from_str("en US").is_none());
    assert_eq!(Lang::from_str("EN-us").map(|l| l.tag), Some("en-US".to_string()));
}

#[test]
fn app_lang_follows_sys_until_set() {
    let mut l10n = L10N::new();
    l10n.sys_lang_changed(&vec!["en-US".to_string()]);
    assert_eq!(tags(l10n.app_lang()), vec!["en-US".to_string()]);
    l10n.set_app_lang(Langs(vec![Lang::from_str("fr").unwrap()]));
    l10n.sys_lang_changed(&vec!["de".to_string()]);
    assert_eq!(tags(l10n.sys_lang()), vec!["de".to_string()]);
    assert_eq!(tags(l10n.app_lang()), vec!["fr".to_string()]);
}

#[test]
fn available_langs_status_flow() {
    let mut l10n = L10N::new();
    assert!(matches!(l10n.available_langs_status(), LangResourceStatus::NotAvailable));
    l10n.load_dir("res".to_string());
    assert!(matches!(l10n.available_langs_status(), LangResourceStatus::Loading));
    l10n.available_langs_loaded(vec![(Lang::from_str("en").unwrap(), vec![(String::new(), "res/en.ftl".to_string())])]);
    assert!(matches!(l10n.available_langs_status(), LangResourceStatus::Loaded));
    assert_eq!(l10n.available_langs().len(), 1);
    l10n.available_langs_failed(vec!["io".to_string()]);
    assert!(matches!(l10n.available_langs_status(), LangResourceStatus::Errors(_)));
}

#[test]
fn message_keys() {
    assert!(is_valid_id("id"));
    assert!(is_valid_id("a-b_c9"));
    assert!(!is_valid_id("9a"));
    assert!(!is_valid_id(""));
    assert!(!is_valid_id("a.b"));
    assert!(is_valid_file(""));
    assert!(is_valid_file("file"));
    assert!(!is_valid_file("dir/file"));
    let l10n = L10N::new();
    let m = l10n
        .message("file".to_string(), "id".to_string(), String::new(), "Hello".to_string())
        .arg("name".to_string(), "World".to_string());
    assert_eq!(m.fallback, "Hello");
    assert_eq!(m.args, vec![("name".to_string(), "World".to_string())]);
    let m2 = l10n.l10n_message("", "id", "attr", "msg");
    assert_eq!(m2.attribute, "attr");
}

#[test]
fn resource_handles_keep_resource_loaded() {
    let mut l10n = L10N::new();
    l10n.available_langs_loaded(vec![(Lang::from_str("en").unwrap(), vec![(String::new(), "res/en.ftl".to_string())])]);
    let h1 = l10n.lang_resource(Lang::from_str("en").unwrap(), String::new());
    assert!(matches!(l10n.resources[0].status, LangResourceStatus::Loading));
    let h2 = l10n.lang_resource(Lang::from_str("en").unwrap(), String::new());
    assert_eq!(h1.index, h2.index);
    assert_eq!(l10n.resources[0].handles, 2);
    l10n.resource_loaded(0, Ok(()));
    assert!(matches!(l10n.resources[0].status, LangResourceStatus::Loaded));
    l10n.drop_resource(h1);
    assert!(matches!(l10n.resources[0].status, LangResourceStatus::Loaded));
    l10n.drop_resource(h2);
    assert!(matches!(l10n.resources[0].status, LangResourceStatus::NotAvailable));
    let other = l10n.lang_resource(Lang::from_str("pt").unwrap(), "file".to_string());
    assert_eq!(other.index, 1);
    assert!(matches!(l10n.resources[1].status, LangResourceStatus::NotAvailable));
}

#[test]
fn langs_from_parse_results() {
    let langs = Langs::from_parsed(vec![None, Lang::from_str("es"), None, Lang::from_str("en-GB")]);
    assert_eq!(tags(&langs), vec!["es".to_string(), "en-GB".to_string()]);
    assert!(Langs::from_parsed(vec![None]).0.is_empty());
}

#[test]
fn manager_follows_view_process_locale() {
    let mut manager = L10nManager::new();
    assert_eq!(manager.id(), L10N_MANAGER_ID);
    assert!(manager.is_or_contain(L10N_MANAGER_ID));
    let mut l10n = L10N::new();
    manager.event_preview(&mut l10n, &vec!["pt-BR".to_string(), "not a lang!".to_string(), "en".to_string()]);
    assert_eq!(tags(&l10n.sys_lang), vec!["pt-BR".to_string(), "en".to_string()]);
    assert_eq!(tags(&l10n.app_lang), vec!["pt-BR".to_string(), "en".to_string()]);
}

#[test]
fn localization_dir_entries() {
    assert_eq!(ftl_stem("app.ftl"), Some("app".to_string()));
    assert_eq!(ftl_stem(".ftl"), None);
    assert_eq!(ftl_stem("app.txt"), None);
    assert_eq!(ftl_stem("a.b.ftl"), Some("a.b".to_string()));
    assert!(matches!(lang_dir_entry("pt-BR", true), LangDirEntry::Dir(l) if l.tag == "pt-BR"));
    assert!(matches!(lang_dir_entry("not a lang", true), LangDirEntry::Other));
    assert!(matches!(lang_dir_entry("en.ftl", false), LangDirEntry::File(l) if l.tag == "en"));
    assert!(matches!(lang_dir_entry("en", false), LangDirEntry::Other));
}
