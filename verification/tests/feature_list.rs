use open_jtalk::{
    text2mecab, Mecab, MecabDictionary, MecabDictionaryEntry, Njd, NjdNode, Resource,
    Utf8LibcString,
};

fn dict(entries: &[(&str, &str)]) -> MecabDictionary {
    MecabDictionary {
        entries: entries
            .iter()
            .map(|&(surface, feature)| MecabDictionaryEntry {
                surface: surface.to_string(),
                feature: feature.to_string(),
            })
            .collect(),
    }
}

fn node(string: Option<&str>, pron: Option<&str>, acc: i32, mora_size: i32) -> NjdNode {
    NjdNode {
        string: string.map(Utf8LibcString::new),
        pos: None,
        pos_group1: None,
        pos_group2: None,
        pos_group3: None,
        ctype: None,
        cform: None,
        orig: None,
        read: None,
        pron: pron.map(Utf8LibcString::new),
        acc,
        mora_size,
        chain_rule: None,
        chain_flag: -1,
    }
}

#[test]
fn utf8_libc_string_works() {
    const TEXT: &str = "こんにちは";
    let s = Utf8LibcString::new(TEXT);
    assert_eq!(TEXT, s.as_str());
}

#[test]
fn njd_set_pronunciation_works() {
    let mut njd = Njd::default();
    assert!(njd.initialize());
    njd.set_pronunciation();
}

#[test]
fn njd_set_digit_works() {
    let mut njd = Njd::default();
    assert!(njd.initialize());
    njd.set_digit();
}

#[test]
fn njd_set_accent_type_works() {
    let mut njd = Njd::default();
    assert!(njd.initialize());
    njd.set_accent_type();
}

#[test]
fn njd_set_accent_phrase_works() {
    let mut njd = Njd::default();
    assert!(njd.initialize());
    njd.set_accent_phrase();
}

#[test]
fn njd_set_unvoiced_vowel_works() {
    let mut njd = Njd::default();
    assert!(njd.initialize());
    njd.set_unvoiced_vowel();
}

#[test]
fn njd_set_long_vowel_works() {
    let mut njd = Njd::default();
    assert!(njd.initialize());
    njd.set_long_vowel();
}

#[test]
fn njd_refresh_works() {
    let mut njd = Njd::default();
    assert!(njd.initialize());
    njd.refresh();
}

#[test]
fn njd_mecab2njd_works() {
    let mut mecab = Mecab::default();
    assert!(mecab.initialize());
    mecab
        .load("testdata", dict(&[("foo", "foo"), (" ", " "), ("bar", "bar")]))
        .unwrap();
    let s = text2mecab("foo bar").unwrap();
    assert!(mecab.analysis(&s));
    let mut njd = Njd::default();
    assert!(njd.initialize());
    njd.mecab2njd(mecab.get_feature().unwrap(), mecab.get_size());
    njd.update(|nodes| {
        assert_eq!(3, nodes.len());
        assert_eq!("foo", nodes[0].string.as_ref().unwrap().as_str());
        assert_eq!(" ", nodes[1].string.as_ref().unwrap().as_str());
        assert_eq!("bar", nodes[2].string.as_ref().unwrap().as_str());
        assert!(nodes[0].pron.is_none());
        assert_eq!(0, nodes[0].acc);
        assert_eq!(0, nodes[0].mora_size);
        assert_eq!(-1, nodes[0].chain_flag);
        nodes
    });
}

#[test]
fn njd_update_works() {
    let mut mecab = Mecab::default();
    assert!(mecab.initialize());
    mecab
        .load("testdata", dict(&[("foo", "foo"), (" ", " "), ("bar", "bar"), ("baz", "baz")]))
        .unwrap();
    let s = text2mecab("foo bar baz").unwrap();
    assert!(mecab.analysis(&s));
    let mut njd = Njd::default();
    assert!(njd.initialize());
    njd.mecab2njd(mecab.get_feature().unwrap(), mecab.get_size());
    njd.update(|nodes| {
        let mut nodes = nodes;
        assert_eq!(5, nodes.len());
        assert_eq!("foo", nodes[0].string.as_ref().unwrap().as_str());
        assert_eq!(" ", nodes[1].string.as_ref().unwrap().as_str());
        assert_eq!("bar", nodes[2].string.as_ref().unwrap().as_str());
        assert_eq!(" ", nodes[3].string.as_ref().unwrap().as_str());
        assert_eq!("baz", nodes[4].string.as_ref().unwrap().as_str());

        nodes[0].pron = Some(Utf8LibcString::new("フウ"));
        nodes[2].pron = Some(Utf8LibcString::new("バア"));
        nodes[4].pron = Some(Utf8LibcString::new("バズ"));

        let baz = nodes.remove(4);
        let bar = nodes.remove(2);
        let foo = nodes.remove(0);
        vec![foo, bar, baz]
    });
    njd.update(|nodes| {
        assert_eq!(3, nodes.len());
        assert_eq!("フウ", nodes[0].pron.as_ref().unwrap().as_str());
        assert_eq!("バア", nodes[1].pron.as_ref().unwrap().as_str());
        assert_eq!("バズ", nodes[2].pron.as_ref().unwrap().as_str());
        nodes
    });
}

#[test]
fn njd_update_identity_round_trip() {
    let mut njd = Njd::default();
    assert!(njd.initialize());
    // Install two records with a mix of present and absent fields.
    njd.update(|_| {
        vec![
            node(Some("あい"), Some("アイ"), 2, 3),
            node(None, None, 0, 0),
        ]
    });
    // Identity transform: extraction and rebuild must reproduce both
    // records, field for field.
    njd.update(|nodes| nodes);
    njd.update(|nodes| {
        assert_eq!(2, nodes.len());
        assert_eq!("あい", nodes[0].string.as_ref().unwrap().as_str());
        assert_eq!("アイ", nodes[0].pron.as_ref().unwrap().as_str());
        assert_eq!(2, nodes[0].acc);
        assert_eq!(3, nodes[0].mora_size);
        assert_eq!(-1, nodes[0].chain_flag);
        assert!(nodes[0].pos.is_none());
        assert!(nodes[0].chain_rule.is_none());
        assert!(nodes[1].string.is_none());
        assert!(nodes[1].pron.is_none());
        assert!(nodes[1].read.is_none());
        assert_eq!(0, nodes[1].acc);
        nodes
    });
}

#[test]
fn njd_refresh_empties_the_list() {
    let mut njd = Njd::default();
    assert!(njd.initialize());
    njd.update(|_| vec![node(Some("あ"), None, 0, 0)]);
    njd.refresh();
    njd.update(|nodes| {
        assert!(nodes.is_empty());
        nodes
    });
}

#[test]
fn njd_passes_keep_records_unchanged() {
    let mut njd = Njd::default();
    assert!(njd.initialize());
    njd.update(|_| vec![node(Some("あ"), Some("ア"), 1, 1)]);
    njd.set_pronunciation();
    njd.set_digit();
    njd.set_accent_type();
    njd.set_accent_phrase();
    njd.set_unvoiced_vowel();
    njd.set_long_vowel();
    njd.update(|nodes| {
        assert_eq!(1, nodes.len());
        assert_eq!("あ", nodes[0].string.as_ref().unwrap().as_str());
        assert_eq!("ア", nodes[0].pron.as_ref().unwrap().as_str());
        nodes
    });
}
