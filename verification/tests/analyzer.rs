use open_jtalk::{
    text2mecab, Mecab, MecabDictionary, MecabDictionaryEntry, MecabLoadError, Resource,
};

fn dict(entries: &[(&str, &str)]) -> MecabDictionary {
    MecabDictionary {
        entries: entries
            .iter()
            .map(|&(surface, feature)| MecabDictionaryEntry {
                surface: surface.to_string(),
                feature: feature.to_string(),
            })
            .collect(),
    }
}

fn loaded_mecab(entries: &[(&str, &str)]) -> Mecab {
    let mut mecab = Mecab::default();
    assert!(mecab.initialize());
    mecab.load("testdata", dict(entries)).unwrap();
    mecab
}

#[test]
fn mecab_load_works() {
    let mut mecab = Mecab::default();
    assert!(mecab.initialize());
    assert_eq!(Ok(()), mecab.load("testdata", dict(&[("あ", "ア")])));
}

#[test]
fn mecab_load_empty_dictionary_fails() {
    let mut mecab = Mecab::default();
    assert!(mecab.initialize());
    assert_eq!(
        Err(MecabLoadError::Unsuccessful {
            function: "Mecab_load"
        }),
        mecab.load("testdata", dict(&[]))
    );
}

#[test]
fn mecab_load_rejects_empty_surface() {
    let mut mecab = Mecab::default();
    assert!(mecab.initialize());
    assert_eq!(
        Err(MecabLoadError::Unsuccessful {
            function: "Mecab_load"
        }),
        mecab.load("testdata", dict(&[("あ", "ア"), ("", "x")]))
    );
}

#[test]
fn mecab_load_nul_in_path_fails_before_loading() {
    let mut mecab = Mecab::default();
    assert!(mecab.initialize());
    assert_eq!(
        Err(MecabLoadError::Nul {
            filename: "bad\0dir".to_string()
        }),
        mecab.load("bad\0dir", dict(&[("あ", "ア")]))
    );
    // Nothing was loaded: analysis still fails.
    assert!(!mecab.analysis("あ"));
}

#[test]
fn mecab_get_size_before_analysis_works() {
    let mut mecab = Mecab::default();
    assert!(mecab.initialize());
    assert_eq!(0, mecab.get_size());
    assert!(mecab.get_feature().is_none());
}

#[test]
fn mecab_get_feature_mut_works() {
    let mut mecab = Mecab::default();
    assert!(mecab.initialize());
    assert!(mecab.get_feature_mut().is_none());
}

#[test]
fn mecab_analysis_works() {
    let mut mecab = loaded_mecab(&[("あ", "ア"), ("いう", "イウ")]);
    let s = text2mecab("あいう").unwrap();
    assert!(mecab.analysis(&s));
    assert_eq!(2, mecab.get_size());
    let feature = mecab.get_feature().unwrap();
    assert_eq!(2, feature.len());
    assert_eq!("ア", feature.get(0).as_str());
    assert_eq!("イウ", feature.get(1).as_str());
}

#[test]
fn mecab_analysis_before_load_fails() {
    let mut mecab = Mecab::default();
    assert!(mecab.initialize());
    assert!(!mecab.analysis("あ"));
    assert_eq!(0, mecab.get_size());
}

#[test]
fn mecab_analysis_unknown_text_fails_and_keeps_table() {
    let mut mecab = loaded_mecab(&[("あ", "ア")]);
    assert!(mecab.analysis("あ"));
    assert_eq!(1, mecab.get_size());
    assert!(!mecab.analysis("x"));
    // The earlier table is kept on failure.
    assert_eq!(1, mecab.get_size());
}

#[test]
fn mecab_analysis_prefers_the_first_matching_entry() {
    let mut mecab = loaded_mecab(&[("ab", "AB"), ("a", "A"), ("b", "B")]);
    assert!(mecab.analysis("ab"));
    assert_eq!(1, mecab.get_size());
    assert_eq!("AB", mecab.get_feature().unwrap().get(0).as_str());

    let mut mecab = loaded_mecab(&[("a", "A"), ("ab", "AB"), ("b", "B")]);
    assert!(mecab.analysis("ab"));
    assert_eq!(2, mecab.get_size());
    let feature = mecab.get_feature().unwrap();
    assert_eq!("A", feature.get(0).as_str());
    assert_eq!("B", feature.get(1).as_str());
}

#[test]
fn mecab_analysis_duplicate_surfaces_use_the_first_entry() {
    let mut mecab = loaded_mecab(&[("あ", "first"), ("あ", "second")]);
    assert!(mecab.analysis("ああ"));
    assert_eq!(2, mecab.get_size());
    let feature = mecab.get_feature().unwrap();
    assert_eq!("first", feature.get(0).as_str());
    assert_eq!("first", feature.get(1).as_str());
}

#[test]
fn mecab_reload_replaces_the_dictionary() {
    let mut mecab = loaded_mecab(&[("a", "A")]);
    assert!(mecab.analysis("a"));
    mecab.load("testdata", dict(&[("b", "B")])).unwrap();
    assert!(!mecab.analysis("a"));
    assert!(mecab.analysis("b"));
}

#[test]
fn mecab_load_with_userdic_without_overlay_behaves_like_load() {
    let mut mecab = Mecab::default();
    assert!(mecab.initialize());
    assert_eq!(
        Ok(()),
        mecab.load_with_userdic("testdata", None, dict(&[("a", "A")]), None)
    );
    assert!(mecab.analysis("a"));
    assert_eq!(1, mecab.get_size());
    assert_eq!("A", mecab.get_feature().unwrap().get(0).as_str());
}

#[test]
fn mecab_load_with_userdic_overlay_extends_the_dictionary() {
    let mut mecab = Mecab::default();
    assert!(mecab.initialize());
    assert_eq!(
        Ok(()),
        mecab.load_with_userdic(
            "testdata",
            Some("user.dic"),
            dict(&[("a", "A")]),
            Some(dict(&[("b", "B")])),
        )
    );
    assert!(mecab.analysis("ab"));
    assert_eq!(2, mecab.get_size());
    let feature = mecab.get_feature().unwrap();
    assert_eq!("A", feature.get(0).as_str());
    assert_eq!("B", feature.get(1).as_str());
}

#[test]
fn mecab_load_with_userdic_nul_in_overlay_path_fails() {
    let mut mecab = Mecab::default();
    assert!(mecab.initialize());
    assert_eq!(
        Err(MecabLoadError::Nul {
            filename: "user\0.dic".to_string()
        }),
        mecab.load_with_userdic(
            "testdata",
            Some("user\0.dic"),
            dict(&[("a", "A")]),
            Some(dict(&[("b", "B")])),
        )
    );
}

#[test]
fn mecab_load_with_userdic_unsuccessful_names_its_own_operation() {
    let mut mecab = Mecab::default();
    assert!(mecab.initialize());
    assert_eq!(
        Err(MecabLoadError::Unsuccessful {
            function: "Mecab_load_with_userdic"
        }),
        mecab.load_with_userdic("testdata", None, dict(&[]), None)
    );
}

#[test]
fn mecab_refresh_works() {
    let mut mecab = loaded_mecab(&[("a", "A")]);
    assert!(mecab.analysis("a"));
    assert_eq!(1, mecab.get_size());
    assert!(mecab.refresh());
    assert_eq!(0, mecab.get_size());
    assert!(mecab.get_feature().is_none());
    // The dictionary survives a refresh.
    assert!(mecab.analysis("a"));
}

#[test]
fn mecab_print_works() {
    let mut mecab = Mecab::default();
    assert!(mecab.initialize());
    assert!(mecab.print());
}
