use x_super::err::Error;
use x_super::lines::{nth_word, split_lines, stem_of};
use x_super::normalize::{normalize_bytes, normalize_text, sorted_lines, Extraction};
use x_super::sorted::sort_and_dedup;
use x_super::text::{chars_of, compare, is_whitespace, same_text, string_of, Order};

fn chars(s: &str) -> Vec<char> {
    s.chars().collect()
}

fn rows(v: &[&str]) -> Vec<Vec<char>> {
    v.iter().map(|s| chars(s)).collect()
}

fn names(v: &[&str]) -> Vec<String> {
    v.iter().map(|s| s.to_string()).collect()
}

#[test]
fn debian_extraction_keeps_the_first_word() {
    let raw = b"vim\t\t\tinstall\nzsh\t\t\tinstall\n".to_vec();
    let out = normalize_bytes(raw, Extraction::FirstWord).unwrap();
    assert_eq!(out, names(&["vim", "zsh"]));
}

#[test]
fn debian_extraction_sorts_the_lines_first() {
    let raw = b"zsh\t\t\tinstall\nvim\t\t\tinstall".to_vec();
    let out = normalize_bytes(raw, Extraction::FirstWord).unwrap();
    assert_eq!(out, names(&["vim", "zsh"]));
}

#[test]
fn void_extraction_drops_the_version() {
    let out = normalize_text("repo pkgname-1.2.3_1", Extraction::SecondWordStem);
    assert_eq!(out, names(&["pkgname"]));
}

#[test]
fn void_extraction_cuts_at_the_last_hyphen_only() {
    let out = normalize_text("[*] xorg-server-21.1.8_1 X server\n", Extraction::SecondWordStem);
    assert_eq!(out, names(&["xorg-server"]));
}

#[test]
fn void_extraction_drops_lines_it_cannot_read() {
    let text = "ii nohyphen\nsingle\n\nii a-1\n";
    let out = normalize_text(text, Extraction::SecondWordStem);
    assert_eq!(out, names(&["a"]));
}

#[test]
fn void_extraction_keeps_an_empty_stem() {
    let out = normalize_text("ii -1.0", Extraction::SecondWordStem);
    assert_eq!(out, names(&[""]));
}

#[test]
fn void_extraction_sorts_the_names() {
    let text = "[-] aaa-1\n[*] zzz-2\n";
    let out = normalize_text(text, Extraction::SecondWordStem);
    assert_eq!(out, names(&["aaa", "zzz"]));
    let raw = b"[*] zsh-5.9_1 shell\n[-] bash-5.2_1 shell\n".to_vec();
    let out = normalize_bytes(raw, Extraction::SecondWordStem).unwrap();
    assert_eq!(out, names(&["bash", "zsh"]));
}

#[test]
fn void_extraction_gives_each_name_once() {
    let text = "[*] zsh-5.9_1 shell\n[-] zsh-5.8_2 shell\n";
    let out = normalize_text(text, Extraction::SecondWordStem);
    assert_eq!(out, names(&["zsh"]));
}

#[test]
fn baseline_sorts_and_drops_duplicates() {
    let out = normalize_text("b\na\nb\r\n\nc", Extraction::Line);
    assert_eq!(out, names(&["", "a", "b", "c"]));
}

#[test]
fn baseline_of_empty_output_is_empty() {
    assert_eq!(normalize_bytes(Vec::new(), Extraction::Line).unwrap(), names(&[]));
    assert_eq!(normalize_text("\n", Extraction::Line), names(&[""]));
}

#[test]
fn baseline_orders_by_code_point() {
    let out = normalize_text("b\n\u{e9}\nab\nB\na\nz", Extraction::Line);
    assert_eq!(out, names(&["B", "a", "ab", "b", "z", "\u{e9}"]));
}

#[test]
fn normalizing_a_normalized_list_changes_nothing() {
    let list = names(&["bash", "vim", "zsh"]);
    let text = "bash\nvim\nzsh\n";
    assert_eq!(normalize_text(text, Extraction::Line), list);
    assert_eq!(normalize_text(text, Extraction::FirstWord), list);
}

#[test]
fn first_word_extraction_gives_each_name_once() {
    let out = normalize_text("vim install\nvim deinstall\n", Extraction::FirstWord);
    assert_eq!(out, names(&["vim"]));
    let raw = b"vim\tinstall\nvim\tdeinstall\n".to_vec();
    assert_eq!(normalize_bytes(raw, Extraction::FirstWord).unwrap(), names(&["vim"]));
}

#[test]
fn first_word_extraction_sorts_the_names() {
    let out = normalize_text(" zsh install\nvim install\n\tbash install\n", Extraction::FirstWord);
    assert_eq!(out, names(&["bash", "vim", "zsh"]));
}

#[test]
fn every_rule_gives_an_ascending_list() {
    let text = "[*] b-1 x\n[-] a-2 y\n[*] b-3 z\nc\n  c\n[*] a-2 y\n";
    for rule in [Extraction::Line, Extraction::FirstWord, Extraction::SecondWordStem] {
        let out = normalize_text(text, rule);
        assert!(out.windows(2).all(|w| w[0] < w[1]));
    }
    assert_eq!(normalize_text(text, Extraction::SecondWordStem), names(&["a", "b"]));
    assert_eq!(normalize_text(text, Extraction::FirstWord), names(&["[*]", "[-]", "c"]));
}

#[test]
fn sorted_lines_is_the_form_for_every_backend() {
    let want: Vec<Vec<char>> = vec![chars(""), chars("a"), chars("b")];
    assert_eq!(sorted_lines("b\na\n\nb\r\n"), want);
}

#[test]
fn whitespace_agrees_with_std_on_every_character() {
    let mut count = 0;
    for u in 0..=0x10ffff_u32 {
        if let Some(c) = char::from_u32(u) {
            assert_eq!(is_whitespace(c), c.is_whitespace(), "U+{:04X}", u);
            if is_whitespace(c) {
                count += 1;
            }
        }
    }
    assert_eq!(count, 25);
}

#[test]
fn first_word_extraction_drops_blank_lines() {
    let out = normalize_text("\n   \nvim install\n", Extraction::FirstWord);
    assert_eq!(out, names(&["vim"]));
}

#[test]
fn output_that_is_not_utf8_is_reported() {
    let out = normalize_bytes(vec![b'a', 0xff, 0xfe], Extraction::Line);
    assert!(matches!(out, Err(Error::CommandOutputParse(_))));
}

#[test]
fn output_in_utf8_is_decoded() {
    let raw = "caf\u{e9}\n".as_bytes().to_vec();
    assert_eq!(normalize_bytes(raw, Extraction::Line).unwrap(), names(&["caf\u{e9}"]));
}

#[test]
fn lines_end_at_line_feeds() {
    assert_eq!(split_lines(&chars("a\nb")), rows(&["a", "b"]));
    assert_eq!(split_lines(&chars("a\nb\n")), rows(&["a", "b"]));
    assert_eq!(split_lines(&chars("a\n\nb")), rows(&["a", "", "b"]));
    assert_eq!(split_lines(&chars("")), rows(&[]));
    assert_eq!(split_lines(&chars("\n")), rows(&[""]));
}

#[test]
fn lines_lose_one_carriage_return_before_the_line_feed() {
    assert_eq!(split_lines(&chars("a\r\nb\r\r\n")), rows(&["a", "b\r"]));
    assert_eq!(split_lines(&chars("a\rb\n")), rows(&["a\rb"]));
}

#[test]
fn the_last_line_keeps_its_carriage_return() {
    assert_eq!(split_lines(&chars("a\nb\r")), rows(&["a", "b\r"]));
}

#[test]
fn lines_agree_with_std() {
    for text in ["", "\n", "a", "a\n", "a\r\n\r\nb\r", "\r", "x\ny\n\n", "\n\n"] {
        let want: Vec<Vec<char>> = text.lines().map(|l| l.chars().collect()).collect();
        assert_eq!(split_lines(&chars(text)), want);
    }
}

#[test]
fn words_are_runs_without_whitespace() {
    let line = chars("  vim \t install  ");
    assert_eq!(nth_word(&line, 0), Some(chars("vim")));
    assert_eq!(nth_word(&line, 1), Some(chars("install")));
    assert_eq!(nth_word(&line, 2), None);
    assert_eq!(nth_word(&chars(""), 0), None);
    assert_eq!(nth_word(&chars(" \t "), 0), None);
}

#[test]
fn words_end_at_unicode_whitespace() {
    let line = chars("vim\u{a0}install\u{3000}x");
    assert_eq!(nth_word(&line, 0), Some(chars("vim")));
    assert_eq!(nth_word(&line, 1), Some(chars("install")));
    assert_eq!(nth_word(&line, 2), Some(chars("x")));
}

#[test]
fn words_agree_with_std() {
    for text in ["", " a", "a b  c", "\ta\u{2003}b", "ab", " "] {
        let v = chars(text);
        for n in 0..4 {
            let want: Option<Vec<char>> = text.split_whitespace().nth(n).map(|w| w.chars().collect());
            assert_eq!(nth_word(&v, n), want);
        }
    }
}

#[test]
fn stem_is_what_stands_before_the_last_hyphen() {
    assert_eq!(stem_of(&chars("pkgname-1.2.3_1")), Some(chars("pkgname")));
    assert_eq!(stem_of(&chars("a-b-c")), Some(chars("a-b")));
    assert_eq!(stem_of(&chars("abc-")), Some(chars("abc")));
    assert_eq!(stem_of(&chars("-")), Some(chars("")));
    assert_eq!(stem_of(&chars("abc")), None);
    assert_eq!(stem_of(&chars("")), None);
}

#[test]
fn compare_orders_strings() {
    assert_eq!(compare(&chars("a"), &chars("b")), Order::Before);
    assert_eq!(compare(&chars("a"), &chars("ab")), Order::Before);
    assert_eq!(compare(&chars(""), &chars("a")), Order::Before);
    assert_eq!(compare(&chars("b"), &chars("ab")), Order::After);
    assert_eq!(compare(&chars("abc"), &chars("abc")), Order::Same);
    assert_eq!(compare(&chars(""), &chars("")), Order::Same);
    assert_eq!(compare(&chars("Z"), &chars("a")), Order::Before);
}

#[test]
fn compare_agrees_with_std() {
    let all = ["", "a", "ab", "b", "B", "\u{e9}", "z", "\u{10000}", "\u{ffff}"];
    for a in all {
        for b in all {
            let want = match a.cmp(b) {
                std::cmp::Ordering::Less => Order::Before,
                std::cmp::Ordering::Equal => Order::Same,
                std::cmp::Ordering::Greater => Order::After,
            };
            assert_eq!(compare(&chars(a), &chars(b)), want);
        }
    }
}

#[test]
fn sort_and_dedup_gives_each_string_once_in_order() {
    let input = rows(&["pear", "apple", "fig", "apple", "", "fig", "pear", "apple"]);
    assert_eq!(sort_and_dedup(&input), rows(&["", "apple", "fig", "pear"]));
    assert_eq!(sort_and_dedup(&rows(&[])), rows(&[]));
    assert_eq!(sort_and_dedup(&rows(&["x"])), rows(&["x"]));
}

#[test]
fn sort_and_dedup_agrees_with_std() {
    let mut input: Vec<String> = Vec::new();
    let mut seed: u32 = 7;
    for _ in 0..500 {
        seed = seed.wrapping_mul(1103515245).wrapping_add(12345);
        input.push(format!("p{}", (seed >> 16) % 97));
    }
    let got = sort_and_dedup(&input.iter().map(|s| s.chars().collect()).collect());
    let mut want = input.clone();
    want.sort_unstable();
    want.dedup();
    let want: Vec<Vec<char>> = want.iter().map(|s| s.chars().collect()).collect();
    assert_eq!(got, want);
}

#[test]
fn strings_and_characters_convert_both_ways() {
    assert_eq!(chars_of("a\u{e9}\u{10000}"), vec!['a', '\u{e9}', '\u{10000}']);
    assert_eq!(string_of(&vec!['a', '\u{e9}', '\u{10000}']), "a\u{e9}\u{10000}");
    assert_eq!(chars_of(""), Vec::<char>::new());
    assert_eq!(string_of(&Vec::new()), "");
}

#[test]
fn same_text_tells_strings_apart() {
    assert!(same_text("doas", "doas"));
    assert!(!same_text("doas", "Doas"));
    assert!(!same_text("doas", "doa"));
    assert!(same_text("", ""));
}
