use namegen::{capitalize, Orthography};

#[test]
fn default_table_spellings() {
    let orth = Orthography::new();
    assert_eq!(orth.transform("ʃax"), "shakh");
    assert_eq!(orth.transform("ʧUŋ"), "chúng");
    assert_eq!(orth.get_mapping(&'ʒ'), "zh");
}

#[test]
fn unmapped_symbols_pass_through() {
    let orth = Orthography::new();
    assert_eq!(orth.get_mapping(&'b'), "b");
    assert_eq!(orth.transform("banta"), "banta");
    assert_eq!(orth.transform(""), "");
}

#[test]
fn later_overlay_entries_win() {
    let overlay = vec![('ʃ', String::from("x")), ('A', String::from("aa"))];
    let orth = Orthography::new().with_mapping(&overlay);
    assert_eq!(orth.transform("ʃA"), "xaa");
    // symbols the overlay does not name keep their base spelling
    assert_eq!(orth.transform("ʒ"), "zh");
}

#[test]
fn transform_never_drops_a_symbol() {
    let orth = Orthography::new();
    for word in ["", "a", "ʃʒʧʤŋ", "ptkʔm", "AEIOU"] {
        let out = orth.transform(word);
        assert!(out.chars().count() >= word.chars().count());
    }
}

#[test]
fn capitalized_words_keep_their_tail() {
    assert_eq!(capitalize("kʔam"), "Kʔam");
    assert_eq!(capitalize("x"), "X");
}
