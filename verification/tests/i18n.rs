//! Picking a language, and filling the slots of its strings.

use syncmaid::i18n::{
    active, best_match, choose_language, languages, match_lowered, plural, say1, say2, say3,
    say4, set_language, substitute, tag_index, tag_of_locale, text, Catalog,
};
use syncmaid::strings;
use syncmaid::strings::Language;
use syncmaid::text::trim;

fn language(tag: &str, name: &str) -> Language {
    let mut strings: Vec<String> = vec![String::new(); strings::COUNT];
    strings[strings::COMMON_FILES_COUNT_ONE] = "{0} file".to_owned();
    strings[strings::COMMON_FILES_COUNT_OTHER] = "{0} files".to_owned();
    strings[strings::COMMON_CANCEL] = format!("Cancel in {name}");
    strings[strings::STATUS_INCOMPLETE_FORMAT] = "{0}-{1}-{2}".to_owned();
    strings[strings::PROGRESS_LINE_FORMAT] = "{0} {1} ({2}/{3})".to_owned();
    Language { tag: tag.to_owned(), name: name.to_owned(), strings }
}

fn shipped() -> Vec<Language> {
    vec![
        language("en", "English"),
        language("zh-Hans", "简体中文"),
        language("zh-Hant", "繁體中文"),
        language("ja", "日本語"),
    ]
}

fn texts(list: &[&str]) -> Vec<String> {
    list.iter().map(|s| s.to_string()).collect()
}

#[test]
fn every_shipped_language_is_reachable_by_its_own_tag() {
    let shipped = shipped();
    for (index, language) in shipped.iter().enumerate() {
        assert_eq!(Some(index), best_match(&shipped, &language.tag), "{}", language.tag);
    }
}

#[test]
fn a_region_falls_back_to_the_language_it_belongs_to() {
    let shipped = shipped();
    assert_eq!(tag_index(&shipped, "ja"), best_match(&shipped, "ja-JP"));
    assert_eq!(tag_index(&shipped, "en"), best_match(&shipped, "en-GB"));
    assert_eq!(tag_index(&shipped, "zh-Hans"), best_match(&shipped, "zh-Hans-CN"));
    assert_eq!(tag_index(&shipped, "zh-Hant"), best_match(&shipped, "zh-Hant-TW"));
    assert_eq!(Some(3), tag_index(&shipped, "ja"));
}

#[test]
fn chinese_without_a_script_is_decided_by_the_region() {
    let shipped = shipped();
    assert_eq!(tag_index(&shipped, "zh-Hant"), best_match(&shipped, "zh-TW"));
    assert_eq!(tag_index(&shipped, "zh-Hant"), best_match(&shipped, "zh-HK"));
    assert_eq!(tag_index(&shipped, "zh-Hans"), best_match(&shipped, "zh-CN"));
    assert_eq!(tag_index(&shipped, "zh-Hans"), best_match(&shipped, "zh"));
}

#[test]
fn a_language_that_does_not_ship_falls_back_to_english() {
    let shipped = shipped();
    assert_eq!(None, best_match(&shipped, "de-DE"));
    assert_eq!(0, choose_language(&shipped, Some("de-DE"), None));
    assert_eq!("en", shipped[0].tag, "English is the fallback");
}

#[test]
fn slots_are_filled_in_order_and_an_unfilled_one_stays_visible() {
    assert_eq!("a-b", substitute("{0}-{1}", &texts(&["a", "b"])));
    assert_eq!("b-a", substitute("{1}-{0}", &texts(&["a", "b"])));
    assert_eq!(
        "a-{1}",
        substitute("{0}-{1}", &texts(&["a"])),
        "a visible slot is a bug report; an empty gap is a mystery"
    );
}

#[test]
fn a_brace_that_is_not_a_slot_is_left_alone() {
    assert_eq!("{}", substitute("{}", &texts(&[])));
    assert_eq!("{x}", substitute("{x}", &texts(&["a"])));
    assert_eq!("100%", substitute("100%", &texts(&[])));
}

#[test]
fn the_count_decides_which_wording_and_is_substituted_into_it() {
    let english = language("en", "English");
    let files = |count: i64| {
        plural(
            &english,
            strings::COMMON_FILES_COUNT_ONE,
            strings::COMMON_FILES_COUNT_OTHER,
            count,
        )
    };
    assert_eq!("1 file", files(1));
    assert_eq!(
        "0 files",
        files(0),
        "zero takes the plural form in English, the way it does in speech"
    );
    assert_eq!("12 files", files(12));
    assert_eq!("-3 files", files(-3));
}

#[test]
fn the_case_of_a_tag_does_not_matter() {
    let shipped = shipped();
    assert_eq!(Some(2), best_match(&shipped, "ZH-HANT"));
    assert_eq!(Some(3), best_match(&shipped, "Ja-jp"));
    assert_eq!(
        Some(1),
        match_lowered(&texts(&["en", "JA"]), &texts(&["en", "ja"]), "ja")
    );
}

#[test]
fn an_empty_tag_follows_the_system() {
    let shipped = shipped();
    assert_eq!(3, choose_language(&shipped, None, Some("ja-JP")));
    assert_eq!(3, choose_language(&shipped, Some(""), Some("ja-JP")));
    assert_eq!(2, choose_language(&shipped, Some("zh-TW"), Some("ja-JP")));
    assert_eq!(0, choose_language(&shipped, None, None));
}

#[test]
fn switching_says_whether_anything_changed() {
    let mut catalog = Catalog { languages: shipped(), active: 0 };
    assert_eq!(4, languages(&catalog).len());
    assert!(set_language(&mut catalog, Some("ja"), None));
    assert_eq!("ja", active(&catalog).tag);
    assert_eq!("Cancel in 日本語", text(active(&catalog), strings::COMMON_CANCEL));
    assert!(!set_language(&mut catalog, Some("ja"), None));
    assert!(!set_language(&mut catalog, Some("ja-JP"), None));
    assert!(set_language(&mut catalog, None, Some("en-US")));
    assert_eq!("en", active(&catalog).tag);
    assert!(!set_language(&mut catalog, Some(""), Some("en-US")));
    assert!(set_language(&mut catalog, Some(""), Some("zh-TW")));
    assert!(!set_language(&mut catalog, None, Some("zh-TW")));
    assert_eq!("zh-Hant", active(&catalog).tag);
}

#[test]
fn a_locale_reads_as_a_tag() {
    assert_eq!("zh-TW", tag_of_locale("zh_TW.UTF-8"));
    assert_eq!("sr-RS", tag_of_locale("sr_RS@latin"));
    assert_eq!("C", tag_of_locale("C"));
}

#[test]
fn every_slot_of_a_string_is_filled() {
    let english = language("en", "English");
    assert_eq!("7 file", say1(&english, strings::COMMON_FILES_COUNT_ONE, "7"));
    assert_eq!("a-b-{2}", say2(&english, strings::STATUS_INCOMPLETE_FORMAT, "a", "b"));
    assert_eq!("a-b-c", say3(&english, strings::STATUS_INCOMPLETE_FORMAT, "a", "b", "c"));
    assert_eq!(
        "Copying a (1/2)",
        say4(&english, strings::PROGRESS_LINE_FORMAT, "Copying", "a", "1", "2")
    );
    assert_eq!(
        "x-y-z",
        syncmaid::i18n::format(&english, strings::STATUS_INCOMPLETE_FORMAT, &texts(&["x", "y", "z"]))
    );
}

#[test]
fn a_slot_may_have_more_than_one_digit_and_stand_twice() {
    let many: Vec<String> = (0..12).map(|n| format!("<{n}>")).collect();
    assert_eq!("<11><1>1", substitute("{11}{1}1", &many));
    assert_eq!("<0><0>", substitute("{0}{0}", &many));
    assert_eq!("{12}", substitute("{12}", &many));
    assert_eq!("{99999999999999999999999}", substitute("{99999999999999999999999}", &many));
    assert_eq!("{0", substitute("{0", &many));
    assert_eq!("{ 0} {{}} {-1} }0{", substitute("{ 0} {{}} {-1} }0{", &many));
}

#[test]
fn white_space_is_trimmed_and_nothing_else_is() {
    let white = |n: u32| {
        matches!(
            n,
            0x9..=0xd | 0x20 | 0x85 | 0xa0 | 0x1680 | 0x2000..=0x200a | 0x2028 | 0x2029 | 0x202f
                | 0x205f | 0x3000
        )
    };
    for c in '\0'..=char::MAX {
        let text = c.to_string();
        let left = if white(c as u32) { "" } else { text.as_str() };
        assert_eq!(left, trim(&text), "{:x}", c as u32);
    }
    assert_eq!("a b", trim("\u{3000} a b\t\n"));
}

#[test]
fn another_language_is_another_tag() {
    let mut catalog = Catalog { languages: shipped(), active: 0 };
    for tag in ["en", "ja", "ja-JP", "zh-TW", "zh-HK", "de", ""] {
        let before = active(&catalog).tag.clone();
        let changed = set_language(&mut catalog, Some(tag), None);
        assert_eq!(changed, before != active(&catalog).tag, "{tag}");
    }
}
