use settings::lang::{set_active_lang_code, ActiveLang, LangMode, LocalizedString};

fn lang(code: &str) -> ActiveLang {
    let mut lang = ActiveLang::new();
    set_active_lang_code(&mut lang, code.to_owned());
    lang
}

fn table(entries: &[(&str, &str)]) -> LocalizedString {
    LocalizedString::from_variants(
        entries.iter().map(|(k, v)| (k.to_string(), v.to_string())).collect(),
    )
}

#[test]
fn english_until_a_language_is_set() {
    assert_eq!(ActiveLang::new().code(), "en");
    assert_eq!(lang("ja").code(), "ja");
}

#[test]
fn first_language_stays() {
    let mut active = lang("de");
    set_active_lang_code(&mut active, "fr".to_owned());
    assert_eq!(active.code(), "de");
}

#[test]
fn plain_text_reads_the_same_everywhere() {
    let name = LocalizedString::from_plain("Name".to_owned());
    assert_eq!(name.get(&lang("de")), "Name");
    assert_eq!(name.get(&ActiveLang::new()), "Name");
    assert_eq!(LocalizedString::default().get(&lang("de")), "");
}

#[test]
fn own_entry_then_english_then_first_code() {
    let both = table(&[("ja", "一般"), ("en", "General")]);
    assert_eq!(both.get(&lang("ja")), "一般");
    assert_eq!(both.get(&lang("en")), "General");
    assert_eq!(both.get(&lang("fr")), "General");
    let no_english = table(&[("ja", "一般"), ("de", "Allgemein")]);
    assert_eq!(no_english.get(&lang("fr")), "Allgemein");
    assert_eq!(table(&[]).get(&lang("fr")), "");
}

#[test]
fn later_entry_of_a_code_wins() {
    let twice = table(&[("en", "old"), ("en", "new")]);
    assert_eq!(twice.get(&lang("en")), "new");
    assert_eq!(twice.clone().get(&lang("xx")), "new");
}

#[test]
fn language_modes() {
    assert_eq!(LangMode::from_code("os".to_owned()), LangMode::Os);
    assert_eq!(LangMode::from_code("ja".to_owned()), LangMode::Fixed("ja".to_owned()));
    assert_eq!(LangMode::default(), LangMode::Os);
}
