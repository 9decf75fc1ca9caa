use rpm::i18n::I18n;
use rpm::i18n::Language;

#[test]
fn language_codes_round_trip() {
    for l in Language::all() {
        assert_eq!(Language::from_code(l.to_code()), l);
    }
    assert_eq!(Language::from_code("en"), Language::English);
    assert_eq!(Language::from_code("zh"), Language::Chinese);
    assert_eq!(Language::from_code("ru"), Language::Russian);
    assert_eq!(Language::from_code("anything else"), Language::Russian);
}

#[test]
fn display_names() {
    assert_eq!(Language::Russian.display_name(), "Русский");
    assert_eq!(Language::English.display_name(), "English");
    assert_eq!(Language::Chinese.display_name(), "中文");
    assert_eq!(Language::all().len(), 3);
    assert_eq!(Language::default(), Language::English);
}

#[test]
fn translations_look_up_by_key() {
    let i18n = I18n::new(Language::English);
    assert_eq!(i18n.get_language(), Language::English);
    assert_eq!(i18n.t("show"), "show");
    assert_eq!(i18n.t("hide"), "hide");
    assert_eq!(i18n.t("settings_title"), "Settings");
    assert_eq!(i18n.t("no_such_key_here"), "no_such_key_here");
    assert_eq!(i18n.ts("settings_title"), "Settings");
}

#[test]
fn switching_language_switches_the_table() {
    let mut i18n = I18n::new(Language::English);
    i18n.set_language(Language::Russian);
    assert_eq!(i18n.get_language(), Language::Russian);
    assert_eq!(i18n.t("show"), "показать");
    assert_eq!(i18n.t("settings_title"), "Настройки");
    i18n.set_language(Language::Chinese);
    assert_eq!(i18n.t("settings_title"), "设置");
}
