use tui_news::script::{
    contains_sinhala, display_units, display_width, ellipsize_checked, ellipsize_shaped,
    measured_width, merge_graphemes, split_lines, unit_width, wrap_shaped,
};

#[test]
fn sri_conjunct_is_one_unit_and_keeps_zwj() {
    let s = "ශ්‍රී";
    let units = display_units(s);
    assert_eq!(units, vec![s.to_string()], "{units:?}");
    assert!(units[0].contains('\u{200D}'));
}

#[test]
fn lanka_keeps_all_codepoints() {
    let s = "ශ්‍රී ලංකාව";
    let joined: String = display_units(s).into_iter().collect();
    assert_eq!(joined, s);
}

#[test]
fn wrap_does_not_split_conjunct() {
    let s = "ශ්‍රීලංකා";
    let lines = wrap_shaped(s, 2);
    for line in &lines {
        if line.contains('ශ') {
            assert!(
                line.contains('\u{200D}') || display_units(line).iter().any(|u| u.contains('ශ')),
                "{line:?} units={:?}",
                display_units(line)
            );
        }
        for unit in display_units(line) {
            if unit.contains('ශ') {
                assert!(unit.contains('\u{200D}'), "split conjunct {unit:?}");
            }
        }
    }
}

#[test]
fn latin_unchanged() {
    assert_eq!(
        display_units("hello"),
        ["h", "e", "l", "l", "o"].map(str::to_string)
    );
    assert_eq!(ellipsize_shaped("hello world", 8), "hello w…");
}

// ---------------------------------------------------------------------------

#[test]
fn virama_consonant_pairs_stay_together() {
    let s = "ක්ෂ ද්‍ය";
    let units = display_units(s);
    for pair in units.windows(2) {
        let ends_with_virama = pair[0].ends_with('\u{0DCA}')
            || pair[0].ends_with("\u{0DCA}\u{200D}")
            || pair[0].ends_with("\u{0DCA}\u{200C}");
        let next_is_consonant = pair[1]
            .chars()
            .next()
            .is_some_and(|c| ('\u{0D9A}'..='\u{0DC6}').contains(&c));
        assert!(!(ends_with_virama && next_is_consonant), "{units:?}");
    }
    assert_eq!(units.concat(), s);
}

#[test]
fn sinhala_is_detected() {
    assert!(contains_sinhala("news: ලංකා"));
    assert!(!contains_sinhala("news"));
}

#[test]
fn widths_count_columns() {
    assert_eq!(display_width("日本"), 4);
    assert_eq!(display_width("abc"), 3);
    assert_eq!(unit_width("\u{200D}"), 1);
    assert_eq!(unit_width("日"), 2);
    assert_eq!(measured_width("hello"), Some(5));
}

#[test]
fn too_wide_text_is_refused_by_the_checked_forms() {
    let wide = "a".repeat(70_000);
    assert_eq!(measured_width(&wide), None);
    assert_eq!(ellipsize_checked(&wide, 5), None);
    assert_eq!(ellipsize_checked(&wide, 0).as_deref(), Some(""));
    assert_eq!(ellipsize_checked("hello world", 8).as_deref(), Some("hello w…"));
}

#[test]
fn ellipsis_keeps_whole_wide_units() {
    assert_eq!(ellipsize_shaped("日本語テキスト", 6), "日本…");
    assert_eq!(ellipsize_shaped("abc", 3), "abc");
    assert_eq!(ellipsize_shaped("abcd", 1), "…");
    assert_eq!(ellipsize_shaped("abcd", 0), "");
}

#[test]
fn cut_text_fits_its_columns() {
    for max in 1..12 {
        let cut = ellipsize_shaped("ශ්‍රී ලංකාවේ පුවත් today", max);
        let w = display_width(&cut) as usize;
        assert!(w <= max, "{cut:?} {w} > {max}");
    }
}

#[test]
fn wrapping_keeps_words_and_order() {
    let lines = wrap_shaped("the quick brown fox jumps", 10);
    assert_eq!(lines, vec!["the quick", "brown fox", "jumps"]);
    let joined: String = lines.concat().chars().filter(|c| *c != ' ').collect();
    assert_eq!(joined, "thequickbrownfoxjumps");
}

#[test]
fn wrapping_breaks_paragraphs_and_long_units() {
    assert_eq!(wrap_shaped("a\n\nb", 5), vec!["a", "", "b"]);
    assert_eq!(wrap_shaped("", 5), vec![""]);
    assert_eq!(wrap_shaped("日本", 1), vec!["日", "本"]);
    assert_eq!(wrap_shaped("ab cd", 0), vec!["a", "b", "c", "d"]);
}

#[test]
fn lines_split_on_newlines() {
    assert_eq!(split_lines("a\nb\n"), vec!["a", "b", ""]);
    assert_eq!(split_lines(""), vec![""]);
}

#[test]
fn graphemes_of_a_conjunct_merge_into_one_unit() {
    let gs = vec!["ශ්".to_string(), "\u{200D}".to_string(), "රී".to_string(), " ".to_string(), "ල".to_string()];
    assert_eq!(merge_graphemes(&gs), vec!["ශ්\u{200D}රී".to_string(), " ".to_string(), "ල".to_string()]);
    let latin = vec!["a".to_string(), "b".to_string()];
    assert_eq!(merge_graphemes(&latin), latin);
}

#[test]
fn wrapping_keeps_every_other_character() {
    let text = "ශ්‍රී ලංකාව is an island\nnation   in the\n\nIndian Ocean";
    for width in [1, 3, 7, 40] {
        let lines = wrap_shaped(text, width);
        let kept: String = lines.concat().chars().filter(|c| *c != ' ').collect();
        let expected: String = text.chars().filter(|c| *c != ' ' && *c != '\n').collect();
        assert_eq!(kept, expected, "{width}");
    }
}
