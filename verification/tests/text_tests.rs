use chrysocolle::text::{chars_of, strip_groups, text_le};
use regex::Regex;

fn strip_with_regex(s: &str) -> String {
    let re = Regex::new(r"\([^)]*\)|\[[^\]]*\]").unwrap();
    re.replace_all(s, "").into_owned()
}

const SAMPLES: &[&str] = &[
    "",
    "Zelda (USA) [!]",
    "Mario Kart (Europe) (En,Fr,De)",
    "(abc",
    "abc)",
    "a)b(c",
    "[x(]y)",
    "((a))",
    "(a(b)c)",
    "([)]",
    "[a]b[c",
    "no groups here",
    "Pokémon (Évolution) [Ü]",
    "(\n)",
    "[]()",
    "x[(y]z)",
];

#[test]
fn strip_groups_removes_tags() {
    assert_eq!(strip_groups("Zelda (USA) [!]"), "Zelda  ");
    assert_eq!(strip_groups("Metroid Fusion (Europe)"), "Metroid Fusion ");
}

#[test]
fn strip_groups_keeps_unclosed_openers() {
    assert_eq!(strip_groups("(abc"), "(abc");
    assert_eq!(strip_groups("a)b(c"), "a)b(c");
    assert_eq!(strip_groups("[a]b[c"), "b[c");
}

#[test]
fn strip_groups_agrees_with_the_regex() {
    for s in SAMPLES {
        assert_eq!(strip_groups(s), strip_with_regex(s), "on {:?}", s);
    }
}

#[test]
fn strip_groups_is_idempotent() {
    for s in SAMPLES {
        let once = strip_groups(s);
        assert_eq!(strip_groups(&once), once, "on {:?}", s);
    }
}

#[test]
fn strip_groups_keeps_clean_names() {
    assert_eq!(strip_groups("Super Metroid"), "Super Metroid");
    assert_eq!(strip_groups(") closes ] first ( [ "), ") closes ] first ( [ ");
}

#[test]
fn text_order_is_str_order() {
    let words = ["", "a", "b", "ab", "abc", "B", "é", "e", "zz", "z", "Ä", "a b"];
    for x in words.iter() {
        for y in words.iter() {
            let le = text_le(&chars_of(x), &chars_of(y));
            assert_eq!(le, x <= y, "{:?} <= {:?}", x, y);
        }
    }
}

#[test]
fn chars_of_lists_characters() {
    assert_eq!(chars_of("héllo"), vec!['h', 'é', 'l', 'l', 'o']);
    assert_eq!(chars_of(""), Vec::<char>::new());
}
