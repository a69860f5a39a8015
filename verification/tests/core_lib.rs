use ejdict::ConvertError;
use ejdict::Dictionary;
use ejdict::SearchMode;
use ejdict::Word;

fn get_test_words() -> Vec<Word> {
    vec![word1(), word2(), word3(), word4()]
}

fn word1() -> Word {
    Word::new(
        vec!["apple".to_string()],
        "『リンゴ』;リンゴの木".to_string(),
    )
}

fn word2() -> Word {
    Word::new(
        vec!["apple butter".to_string()],
        "リンゴジャム(リンゴに香料・砂糖を加えて煮つめたジャム)".to_string(),
    )
}

fn word3() -> Word {
    Word::new(
        vec!["apple green".to_string()],
        "澄んだ淡い緑色".to_string(),
    )
}

fn word4() -> Word {
    Word::new(
        vec!["blue".to_string()],
        "『青い』,あい色の / 青黒い / 《話》陰気な,憂うつな /\
         〈U〉『青色』,あい色;青色の着物 /\
         〈U〉〈C〉青色絵の具,あい色染料 / 《the~》《詩》青空,青い海 /\
         《the blues》《話 》気のふさぎ,うれいの色 /\
         《the blues》《ときに単数扱い》(ジャズ音楽の)ブルース /\
         …'を'青色にする"
            .to_string(),
    )
}

#[test]
fn lib_test_dictionary_look() {
    let words = get_test_words();
    let dict = Dictionary::new(words);
    let apple = dict.look("apple", SearchMode::Exact);
    assert_eq!(apple, Some(&word1()));
    let blue = dict.look("blue", SearchMode::Exact);
    assert_eq!(blue, Some(&word4()));
}

#[test]
fn lib_test_dictionary_candidates() {
    let words = get_test_words();
    let dict = Dictionary::new(words);
    let mut apple_candidates = dict.candidates("apple", SearchMode::Fuzzy);
    assert_eq!(apple_candidates.next(), Some(word1()));
    assert_eq!(apple_candidates.next(), Some(word2()));
    assert_eq!(apple_candidates.next(), Some(word3()));
}

#[test]
fn lib_test_word_parse_list() {
    let apple = Word::parse_line("apple\t『リンゴ』;リンゴの木");
    assert_eq!(apple, word1());
}

#[test]
fn lib_test_word_matched() {
    let apple = Word::parse_line("apple\t『リンゴ』;リンゴの木");
    assert_eq!(apple.matched("apple", &SearchMode::Exact), Some(&word1()));
    assert_eq!(apple.matched("a", &SearchMode::Fuzzy), Some(&word1()));
    assert_eq!(apple.matched("Apple", &SearchMode::Lower), Some(&word1()));
    assert_eq!(apple.matched("blue", &SearchMode::Exact), None);
    assert_eq!(apple.matched("a", &SearchMode::Exact), None);
    assert_eq!(apple.matched("Apple", &SearchMode::Exact), None);
}

#[test]
fn lib_test_search_mode_from_str() {
    assert_eq!(SearchMode::from_str("exact"), Ok(SearchMode::Exact));
    assert_eq!(SearchMode::from_str("fuzzy"), Ok(SearchMode::Fuzzy));
    assert_eq!(SearchMode::from_str("lower"), Ok(SearchMode::Lower));
    assert_eq!(
        SearchMode::from_str("other"),
        Result::<SearchMode, ConvertError>::Err(ConvertError::InvalidSearchModeName {
            argument: "other".to_string()
        })
    );
}
