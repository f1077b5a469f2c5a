use open_jtalk::{
    text2mecab, JpCommon, ManagedResource, Mecab, MecabDictionary, MecabDictionaryEntry, Njd,
    Resource,
};

fn dict(entries: &[(&str, &str)]) -> MecabDictionary {
    MecabDictionary {
        entries: entries
            .iter()
            .map(|&(surface, feature)| MecabDictionaryEntry {
                surface: surface.to_string(),
                feature: feature.to_string(),
            })
            .collect(),
    }
}

#[test]
fn jpcommon_get_label_size_before_make_label_works() {
    let mut jpcommon = JpCommon::default();
    assert!(jpcommon.initialize());
    assert_eq!(0, jpcommon.get_label_size());
}

#[test]
fn jpcommon_label_sequence_absent_before_make_label() {
    let mut jpcommon = JpCommon::default();
    assert!(jpcommon.initialize());
    assert!(jpcommon.get_label_feature_to_iter().is_none());
}

#[test]
fn jpcommon_refresh_works() {
    let mut jpcommon = JpCommon::default();
    assert!(jpcommon.initialize());
    jpcommon.refresh();
    assert_eq!(0, jpcommon.get_label_size());
}

#[test]
fn jpcommon_make_label_on_empty_list_yields_empty_table() {
    let mut jpcommon = JpCommon::default();
    assert!(jpcommon.initialize());
    jpcommon.make_label();
    assert_eq!(0, jpcommon.get_label_size());
    // Present, though empty: generation has run.
    let mut iter = jpcommon.get_label_feature_to_iter().unwrap();
    assert!(iter.next().is_none());
}

#[test]
fn jpcommon_refresh_discards_the_label_table() {
    let mut jpcommon = JpCommon::default();
    assert!(jpcommon.initialize());
    jpcommon.make_label();
    assert!(jpcommon.get_label_feature_to_iter().is_some());
    jpcommon.refresh();
    assert!(jpcommon.get_label_feature_to_iter().is_none());
    assert_eq!(0, jpcommon.get_label_size());
}

#[test]
fn label_iteration_is_restartable() {
    let mut mecab = Mecab::default();
    assert!(mecab.initialize());
    mecab.load("testdata", dict(&[("あ", "ア"), ("い", "イ")])).unwrap();
    assert!(mecab.analysis("あい"));
    let mut njd = Njd::default();
    assert!(njd.initialize());
    njd.mecab2njd(mecab.get_feature().unwrap(), mecab.get_size());
    let mut jpcommon = JpCommon::default();
    assert!(jpcommon.initialize());
    jpcommon.njd2jpcommon(&njd);
    jpcommon.make_label();

    let mut first = jpcommon.get_label_feature_to_iter().unwrap();
    assert_eq!(Some("ア"), first.next());
    assert_eq!(Some("イ"), first.next());
    assert_eq!(None, first.next());
    // An exhausted pass stays exhausted.
    assert_eq!(None, first.next());
    // A new pass starts at the first label again.
    let mut second = jpcommon.get_label_feature_to_iter().unwrap();
    assert_eq!(Some("ア"), second.next());
    assert_eq!(Some("イ"), second.next());
    assert_eq!(None, second.next());
}

#[test]
fn end_to_end_pipeline_produces_labels() {
    // Minimal dictionary fixture for a known short sentence.
    let fixture = dict(&[("あいう", "アイウ"), ("えお", "エオ")]);

    let mut mecab = ManagedResource::<Mecab>::initialize().unwrap();
    mecab.get_mut().load("testdata", fixture).unwrap();

    let normalized = text2mecab("あいう\nえお").unwrap();
    assert_eq!("あいうえお", normalized);
    assert!(mecab.get_mut().analysis(&normalized));
    let size = mecab.get().get_size();
    assert_eq!(2, size);

    let mut njd = ManagedResource::<Njd>::initialize().unwrap();
    njd.get_mut().mecab2njd(mecab.get().get_feature().unwrap(), size);
    njd.get_mut().set_pronunciation();
    njd.get_mut().set_digit();
    njd.get_mut().set_accent_type();
    njd.get_mut().set_accent_phrase();
    njd.get_mut().set_unvoiced_vowel();
    njd.get_mut().set_long_vowel();

    let mut jpcommon = ManagedResource::<JpCommon>::initialize().unwrap();
    jpcommon.get_mut().njd2jpcommon(njd.get());
    jpcommon.get_mut().make_label();

    let label_size = jpcommon.get().get_label_size();
    assert!(label_size > 0);

    let mut labels = Vec::new();
    let mut iter = jpcommon.get().get_label_feature_to_iter().unwrap();
    while let Some(label) = iter.next() {
        labels.push(label.to_string());
    }
    assert_eq!(label_size as usize, labels.len());
    assert_eq!(vec!["アイウ".to_string(), "エオ".to_string()], labels);

    assert!(!jpcommon.dispose().is_initialized());
    assert!(!njd.dispose().is_initialized());
    assert!(!mecab.dispose().is_initialized());
}
