use hunspell_rs::{
    check_paths, classify_paths, dictionary_added, engine_opened, engine_status, spell_result,
    validate_word, Error, SpellChecker,
};

// The session constructors only require the paths to name existing regular
// files; well-known system files serve as stand-ins for an affix file and a
// dictionary file.
const AFFIX: &str = "/etc/hostname";
const DICT: &str = "/etc/hosts";
const EXTRA: &str = "/etc/passwd";

fn open() -> SpellChecker {
    SpellChecker::new(AFFIX.to_string(), DICT.to_string()).unwrap()
}

#[test]
fn open_with_existing_files() {
    let s = open();
    assert_eq!(s.affix().as_str(), AFFIX);
    assert_eq!(s.dictionary().as_str(), DICT);
    assert!(s.additional_dictionaries().is_empty());
    assert!(s.key().is_none());
}

#[test]
fn open_missing_affix() {
    let r = SpellChecker::new("no_such_file.aff".to_string(), DICT.to_string());
    assert_eq!(r.unwrap_err(), Error::AffixFileIsNoFile("no_such_file.aff".to_string()));
}

#[test]
fn open_missing_dictionary() {
    let r = SpellChecker::new(AFFIX.to_string(), "no_such_file.dic".to_string());
    assert_eq!(r.unwrap_err(), Error::DictionaryFileIsNoFile("no_such_file.dic".to_string()));
}

#[test]
fn open_with_key_stores_key() {
    let s = SpellChecker::new_with_key(AFFIX.to_string(), DICT.to_string(), "hzip".to_string())
        .unwrap();
    assert_eq!(s.key().as_deref(), Some("hzip"));
}

#[test]
fn open_with_nul_key_is_rejected() {
    let r = SpellChecker::new_with_key(AFFIX.to_string(), DICT.to_string(), "a\0b".to_string());
    assert_eq!(r.unwrap_err(), Error::NulError);
}

#[test]
fn add_dictionary_appends_path() {
    let mut s = open();
    assert_eq!(s.add_dictionary(EXTRA.to_string(), 0), Ok(true));
    assert_eq!(s.additional_dictionaries().len(), 1);
    assert_eq!(s.additional_dictionaries()[0].as_str(), EXTRA);
    // A nonzero engine status is reported as `false`, and the refused
    // dictionary is not recorded.
    assert_eq!(s.add_dictionary(EXTRA.to_string(), 1), Ok(false));
    assert_eq!(s.additional_dictionaries().len(), 1);
}

#[test]
fn add_dictionary_missing_path_changes_nothing() {
    let mut s = open();
    let r = s.add_dictionary("no_such_file.dic".to_string(), 0);
    assert_eq!(r.unwrap_err(), Error::DictionaryFileIsNoFile("no_such_file.dic".to_string()));
    assert!(s.additional_dictionaries().is_empty());
}

#[test]
fn add_dictionary_cap_is_twenty() {
    let mut s = open();
    for _ in 0..20 {
        assert_eq!(s.add_dictionary(EXTRA.to_string(), 0), Ok(true));
    }
    let r = s.add_dictionary(EXTRA.to_string(), 0);
    assert_eq!(r.unwrap_err(), Error::CannotAddMoreDictionaries(EXTRA.to_string()));
    assert_eq!(s.additional_dictionaries().len(), 20);
}

#[test]
fn can_add_dictionary_decides_before_the_engine_is_asked() {
    let mut s = open();
    assert_eq!(s.can_add_dictionary(&EXTRA.to_string()), Ok(()));
    assert_eq!(
        s.can_add_dictionary(&"no_such_file.dic".to_string()).unwrap_err(),
        Error::DictionaryFileIsNoFile("no_such_file.dic".to_string())
    );
    for _ in 0..20 {
        s.add_dictionary(EXTRA.to_string(), 0).unwrap();
    }
    assert_eq!(
        s.can_add_dictionary(&EXTRA.to_string()).unwrap_err(),
        Error::CannotAddMoreDictionaries(EXTRA.to_string())
    );
}

#[test]
fn validate_word_accepts_plain_text() {
    assert_eq!(validate_word("cats"), Ok(()));
    assert_eq!(validate_word(""), Ok(()));
    assert_eq!(validate_word("h\u{e9}llo"), Ok(()));
}

#[test]
fn validate_word_rejects_embedded_nul() {
    assert_eq!(validate_word("a\0b"), Err(Error::NulError));
    assert_eq!(validate_word("\0"), Err(Error::NulError));
}

#[test]
fn engine_interpreters() {
    assert_eq!(engine_status(0), Ok(()));
    assert_eq!(engine_status(5), Err(Error::HunspellLibError(5)));
    assert!(spell_result(1));
    assert!(spell_result(-7));
    assert!(!spell_result(0));
    assert!(dictionary_added(0));
    assert!(!dictionary_added(2));
    assert_eq!(engine_opened(false), Ok(()));
    assert_eq!(engine_opened(true), Err(Error::EngineConstructionFailed));
}

#[test]
fn check_paths_reports_affix_first() {
    let r = check_paths("no_such.aff".to_string(), "no_such.dic".to_string());
    assert_eq!(r.unwrap_err(), Error::AffixFileIsNoFile("no_such.aff".to_string()));
    let ok = check_paths(AFFIX.to_string(), DICT.to_string()).unwrap();
    assert_eq!(ok.0.as_str(), AFFIX);
    assert_eq!(ok.1.as_str(), DICT);
}

#[test]
fn classify_paths_covers_all_cases() {
    let mk = || ("a.aff".to_string(), "d.dic".to_string());
    let (a, d) = mk();
    assert_eq!(classify_paths(a, d, true, true), Ok(("a.aff".to_string(), "d.dic".to_string())));
    let (a, d) = mk();
    assert_eq!(
        classify_paths(a, d, false, true),
        Err(Error::AffixFileIsNoFile("a.aff".to_string()))
    );
    let (a, d) = mk();
    assert_eq!(
        classify_paths(a, d, false, false),
        Err(Error::AffixFileIsNoFile("a.aff".to_string()))
    );
    let (a, d) = mk();
    assert_eq!(
        classify_paths(a, d, true, false),
        Err(Error::DictionaryFileIsNoFile("d.dic".to_string()))
    );
}

#[test]
fn config_round_trip() {
    let mut s = SpellChecker::new_with_key(AFFIX.to_string(), DICT.to_string(), "k".to_string())
        .unwrap();
    s.add_dictionary(EXTRA.to_string(), 0).unwrap();
    s.add_dictionary(DICT.to_string(), 0).unwrap();
    let (affix, dictionary, additional, key) = s.config();
    let t = SpellChecker::from_parts(affix, dictionary, additional, key).unwrap();
    assert_eq!(t.affix(), s.affix());
    assert_eq!(t.dictionary(), s.dictionary());
    assert_eq!(t.additional_dictionaries(), s.additional_dictionaries());
    assert_eq!(t.key(), s.key());
}

#[test]
fn from_parts_rejects_more_than_twenty_dictionaries() {
    let additional: Vec<String> = (0..21).map(|_| EXTRA.to_string()).collect();
    let r = SpellChecker::from_parts(AFFIX.to_string(), DICT.to_string(), additional, None);
    assert_eq!(r.unwrap_err(), Error::CannotAddMoreDictionaries(EXTRA.to_string()));
}

#[test]
fn from_parts_rejects_missing_replayed_dictionary() {
    let additional = vec![EXTRA.to_string(), "gone.dic".to_string()];
    let r = SpellChecker::from_parts(AFFIX.to_string(), DICT.to_string(), additional, None);
    assert_eq!(r.unwrap_err(), Error::DictionaryFileIsNoFile("gone.dic".to_string()));
}

#[test]
fn try_clone_is_independent() {
    let mut s = open();
    s.add_dictionary(EXTRA.to_string(), 0).unwrap();
    let mut c = s.try_clone().unwrap();
    assert_eq!(c.affix(), s.affix());
    assert_eq!(c.dictionary(), s.dictionary());
    assert_eq!(c.additional_dictionaries(), s.additional_dictionaries());
    // Growing the clone's configuration leaves the original untouched.
    c.add_dictionary(DICT.to_string(), 0).unwrap();
    assert_eq!(c.additional_dictionaries().len(), 2);
    assert_eq!(s.additional_dictionaries().len(), 1);
}
