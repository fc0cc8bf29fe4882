use dau::text::{
    chars_of, is_whitespace, split_str, str_eq, str_eq_ignore_ascii_case, to_ascii_lower, trim_str,
};
use dau::nesting::{is_shallow, MAX_NESTING};
use dau::{parse_document, Config, Item, ParseError};

#[test]
fn split_on_a_separator() {
    assert_eq!(vec!["sudo", "wheel", "admin"], split_str("sudo:wheel:admin", ':'));
    assert_eq!(vec!["sudo"], split_str("sudo", ':'));
    assert_eq!(vec![""], split_str("", ':'));
    assert_eq!(vec!["", ""], split_str(":", ':'));
    assert_eq!(vec!["a", "", "b"], split_str("a::b", ':'));
    assert_eq!(vec!["", "a", ""], split_str(":a:", ':'));
    assert_eq!(vec!["gr\u{fc}n", "bl\u{e5}"], split_str("gr\u{fc}n=bl\u{e5}", '='));
}

#[test]
fn split_agrees_with_the_standard_library() {
    for text in ["", ":", "::", "a", "a:b", ":a", "a:", "ab:cd:ef", "x::y:", "\u{e9}:\u{e8}"] {
        let expected: Vec<String> = text.split(':').map(String::from).collect();
        assert_eq!(expected, split_str(text, ':'));
    }
}

#[test]
fn characters_of_a_text() {
    assert_eq!(vec!['a', '\u{e9}', 'z'], chars_of("a\u{e9}z"));
    assert!(chars_of("").is_empty());
}

#[test]
fn lower_case_of_ascii_letters() {
    assert_eq!('a', to_ascii_lower('A'));
    assert_eq!('z', to_ascii_lower('Z'));
    assert_eq!('m', to_ascii_lower('m'));
    assert_eq!('@', to_ascii_lower('@'));
    assert_eq!('[', to_ascii_lower('['));
    assert_eq!('\u{c9}', to_ascii_lower('\u{c9}'));
    for c in ['A', 'Q', 'Z', 'a', '0', '@', '[', '`', '{', '\u{c9}', '\u{212a}'] {
        assert_eq!(c.to_ascii_lowercase(), to_ascii_lower(c));
    }
}

#[test]
fn equality_of_texts() {
    assert!(str_eq("all", "all"));
    assert!(!str_eq("all", "All"));
    assert!(!str_eq("all", "al"));
    assert!(str_eq("", ""));
    assert!(str_eq_ignore_ascii_case("Group", "group"));
    assert!(str_eq_ignore_ascii_case("GROUP", "group"));
    assert!(str_eq_ignore_ascii_case("user", "USER"));
    assert!(!str_eq_ignore_ascii_case("users", "user"));
    assert!(!str_eq_ignore_ascii_case("usr", "user"));
    assert!(!str_eq_ignore_ascii_case("\u{212a}", "k"));
    assert!(str_eq_ignore_ascii_case("", ""));
}

#[test]
fn document_of_a_text() {
    let doc = parse_document("b = 2\na = 'x'\n[t]\nflag = true\nlist = [1.5, 1979-05-27]").unwrap();
    match doc {
        Item::Table(entries) => {
            assert_eq!(3, entries.len());
            assert_eq!("a", entries[0].0);
            assert!(matches!(&entries[0].1, Item::Str(s) if s == "x"));
            assert_eq!("b", entries[1].0);
            assert!(matches!(entries[1].1, Item::Int(2)));
            assert_eq!("t", entries[2].0);
            match &entries[2].1 {
                Item::Table(fields) => {
                    assert_eq!(2, fields.len());
                    assert_eq!("flag", fields[0].0);
                    assert!(matches!(fields[0].1, Item::Bool(true)));
                    assert_eq!("list", fields[1].0);
                    match &fields[1].1 {
                        Item::Array(items) => {
                            assert_eq!(2, items.len());
                            assert!(matches!(items[0], Item::Real));
                            assert!(matches!(items[1], Item::Datetime));
                        }
                        other => panic!("no array: {:?}", other),
                    }
                }
                other => panic!("no table: {:?}", other),
            }
        }
        other => panic!("no table: {:?}", other),
    }
}

#[test]
fn document_of_no_text() {
    assert!(matches!(parse_document("").unwrap(), Item::Table(entries) if entries.is_empty()));
    assert_eq!(ParseError::Syntax, parse_document("= 1").unwrap_err());
    assert_eq!(ParseError::Syntax, parse_document("a = ").unwrap_err());
}

#[test]
fn white_space_is_what_the_standard_library_says() {
    for code in 0..=0x10ffffu32 {
        if let Some(c) = char::from_u32(code) {
            assert_eq!(c.is_whitespace(), is_whitespace(c), "U+{:04X}", code);
        }
    }
}

#[test]
fn trimmed_texts() {
    assert_eq!("a b", trim_str("  a b\t\r\n"));
    assert_eq!("", trim_str(""));
    assert_eq!("", trim_str(" \t \u{3000}"));
    assert_eq!("x", trim_str("x"));
    assert_eq!("x", trim_str("\u{a0}x\u{2003}"));
    assert_eq!("\u{200b}x", trim_str(" \u{200b}x "));
    for text in ["", " ", "a", " a", "a ", " a b ", "\n\ta\u{85}", "\u{e9} \u{e9}"] {
        assert_eq!(text.trim(), trim_str(text));
    }
}

fn depth(item: &Item) -> usize {
    match item {
        Item::Array(items) => 1 + items.iter().map(depth).max().unwrap_or(0),
        Item::Table(entries) => 1 + entries.iter().map(|e| depth(&e.1)).max().unwrap_or(0),
        _ => 0,
    }
}

/// A statement whose value is an array in an array and so on, `n` deep.
fn arrays(n: usize) -> String {
    format!("x = {}{}\n", "[".repeat(n), "]".repeat(n))
}

#[test]
fn limit_of_nesting() {
    assert_eq!(128, MAX_NESTING);
    assert!(is_shallow(""));
    assert!(is_shallow(&arrays(128)));
    assert!(!is_shallow(&arrays(129)));
    assert!(is_shallow(&format!("x = {}", "{a=".repeat(128))));
    assert!(!is_shallow(&format!("x = {}", "{a=".repeat(129))));
    assert!(is_shallow(&format!("{}k = 1", "k.".repeat(128))));
    assert!(!is_shallow(&format!("{}k = 1", "k.".repeat(129))));
    assert!(is_shallow(&format!("[{}h]", "h.".repeat(63))));
    assert!(!is_shallow(&format!("[{}h]", "h.".repeat(64))));
    assert!(is_shallow(&format!("[[{}h]]", "h.".repeat(63))));
    assert!(!is_shallow(&format!("[[{}h]]", "h.".repeat(64))));
}

#[test]
fn nesting_adds_up_along_one_way() {
    // Twice 20 for the header, 30 for the key, 58 arrays: 128.
    let text = format!("[{}h]\n{}k = {}", "h.".repeat(19), "k.".repeat(30), "[".repeat(58));
    assert!(is_shallow(&text));
    let text = format!("[{}h]\n{}k = {}", "h.".repeat(19), "k.".repeat(30), "[".repeat(59));
    assert!(!is_shallow(&text));
    let text = format!("[{}h]\n{}k = {}", "h.".repeat(19), "k.".repeat(31), "[".repeat(58));
    assert!(!is_shallow(&text));
    let text = format!("[{}h]\n{}k = {}", "h.".repeat(20), "k.".repeat(30), "[".repeat(57));
    assert!(!is_shallow(&text));
    // Sixty-six for each line: an inline table, the 64 dots of its key, an array.
    let line = format!("{{{}k = [\n", "k.".repeat(64));
    assert!(is_shallow(&format!("x = [\n{}", line)));
    assert!(!is_shallow(&format!("x = [\n{}", line.repeat(2))));
    let text = format!("x = [\n{}1\n{}]\n", line.repeat(127), "]}\n".repeat(127));
    assert_eq!(ParseError::TooNested, parse_document(&text).unwrap_err());
}

#[test]
fn what_is_closed_no_longer_counts() {
    assert!(is_shallow(&arrays(100).repeat(50)));
    assert!(is_shallow(&format!("x = [{}]", "[[[]]],".repeat(1000))));
    assert!(is_shallow(&format!("x = [{}]", "{a.b.c = 1},".repeat(1000))));
    assert!(is_shallow(&format!("x = {{{}z = 1}}", "a.b.c = 1, ".repeat(1000))));
    assert!(is_shallow(&"a.b.c.d = 1.5\n".repeat(1000)));
    assert!(is_shallow(&"[a.b.c]\nx = [1.5, 2.5]\n".repeat(1000)));
    assert!(is_shallow(&"]".repeat(1000)));
    assert!(is_shallow(&format!("{}{}", "]".repeat(1000), arrays(128))));
}

#[test]
fn comments_and_strings_are_passed_over() {
    for filler in ["[", "{", ".", "[{.", "= [", "\"", "'"] {
        let text = format!("# {}\nx = 1\n", filler.repeat(300));
        assert!(parse_document(&text).is_ok(), "{}", filler);
    }
    for filler in ["[", "{", ".", "[{.", "= [", "#", "'"] {
        let text = format!("x = \"{}\"\n", filler.repeat(300));
        assert!(parse_document(&text).is_ok(), "{}", filler);
        let text = format!("x = \"\"\"\n{}\n{}\"\"\"\n", filler.repeat(300), filler.repeat(300));
        assert!(parse_document(&text).is_ok(), "{}", filler);
        let text = format!("\"{}\" = 1\n", filler.repeat(300));
        assert!(parse_document(&text).is_ok(), "{}", filler);
        let text = format!("[\"{}\"]\nx = 1\n", filler.repeat(300));
        assert!(parse_document(&text).is_ok(), "{}", filler);
    }
    for filler in ["[", "{", ".", "[{.", "= [", "#", "\"", "\\"] {
        let text = format!("x = '{}'\n", filler.repeat(300));
        assert!(parse_document(&text).is_ok(), "{}", filler);
        let text = format!("x = '''\n{}\n{}'''\n", filler.repeat(300), filler.repeat(300));
        assert!(parse_document(&text).is_ok(), "{}", filler);
        let text = format!("['{}']\nx = 1 # {}\n", filler.repeat(300), filler.repeat(300));
        assert!(parse_document(&text).is_ok(), "{}", filler);
    }
}

/// Statements that are whole, each with what its table header adds to the
/// nesting of what follows.
const WHOLE: [(&str, usize); 40] = [
    ("", 0),
    ("\u{feff}", 0),
    ("a = 1\n", 0),
    ("a = 1 # \" ' [ {\n", 0),
    ("# \"\"\"\n", 0),
    ("# '''\r\n", 0),
    ("a = \"\"\n", 0),
    ("a = ''\n", 0),
    ("a = \"]\"\n", 0),
    ("a = \"\\\"[\"\n", 0),
    ("a = \"\\\\\"\n", 0),
    ("a = \"\\u005B'\"\n", 0),
    ("a = '\\'\n", 0),
    ("a = '\"'\n", 0),
    ("a = \"'\"\n", 0),
    ("a = \"#\"\n", 0),
    ("a = \"\"\"b\"\"\"\n", 0),
    ("a = \"\"\"\"b\"\"\"\n", 0),
    ("a = \"\"\"\"\"b\"\"\"\n", 0),
    ("a = \"\"\"b\"\"\"\"\n", 0),
    ("a = \"\"\"b\"\"\"\"\"\n", 0),
    ("a = \"\"\"\"\"\"\n", 0),
    ("a = \"\"\"\"\"\"\"\"\n", 0),
    ("a = \"\"\"b\\\"\"\"c\"\"\"\n", 0),
    ("a = \"\"\"b\\\\\"\"\"\n", 0),
    ("a = \"\"\"b \\\n   \n  c [\"\"\"\n", 0),
    ("a = \"\"\"\n[\n\"\n\"\"\n'''\n\"\"\"\r\n", 0),
    ("a = '''b'''\n", 0),
    ("a = ''''b'''\n", 0),
    ("a = '''b'''''\n", 0),
    ("a = '''b\\'''\n", 0),
    ("a = '''\n\"\"\"\n[\n'\n''\n'''\n", 0),
    ("a = [\"]\", ']', # ]\n ]\n", 0),
    ("a = { b = \"}\", c = '}' }\n", 0),
    ("\"a]\" = 1\n'b[' = 2\n", 0),
    ("[a]\n", 2),
    ("[a] # \"\n", 2),
    ("[\"a]\\\"b\"]\n", 2),
    ("['a\"b'. \"c'd\"]\r\n", 4),
    ("[[a]]\n[a.b]\n", 4),
];

#[test]
fn what_follows_a_whole_statement_is_counted() {
    for (whole, header) in WHOLE {
        let text = format!("{}{}", whole, arrays(128 - header));
        match parse_document(&text) {
            Ok(doc) => assert!(depth(&doc) >= 129 - header, "{:?}", whole),
            Err(e) => panic!("{:?}: {:?}", whole, e),
        }
        let text = format!("{}{}", whole, arrays(129 - header));
        assert_eq!(Err(ParseError::TooNested), parse_document(&text).map(|_| ()), "{:?}", whole);
    }
}

#[test]
fn what_is_read_is_no_deeper_than_the_limit() {
    let texts = [
        arrays(128),
        format!("x = {}1{}", "{a=".repeat(128), "}".repeat(128)),
        format!("{}k = 1", "k.".repeat(128)),
        format!("[{}h]\nx = 1", "h.".repeat(63)),
        format!("[[{}h]]\nx = 1", "h.".repeat(63)),
        format!(
            "[[{}h]]\n{}k = {}{}1{}{}",
            "h.".repeat(19),
            "k.".repeat(30),
            "[".repeat(29),
            "{a.b=".repeat(14),
            "}".repeat(14),
            "]".repeat(29)
        ),
    ];
    for text in texts {
        let doc = parse_document(&text).unwrap();
        assert!(depth(&doc) <= 129, "{}", depth(&doc));
        assert!(depth(&doc) >= 65, "{}", depth(&doc));
    }
}

#[test]
fn deepest_arrays_are_read() {
    let text = format!("a = {}1{}", "[".repeat(128), "]".repeat(128));
    let doc = parse_document(&text).unwrap();
    assert_eq!(129, depth(&doc));
    assert_eq!(ParseError::InvalidValue, Config::parse(&text).unwrap_err());
    let text = format!("a = {}1{}", "[".repeat(129), "]".repeat(129));
    assert_eq!(ParseError::TooNested, parse_document(&text).unwrap_err());
    assert_eq!(ParseError::TooNested, Config::parse(&text).unwrap_err());
}

#[test]
fn unfinished_nesting_is_a_syntax_fault() {
    assert_eq!(ParseError::Syntax, parse_document(&format!("a = {}", "[".repeat(128))).unwrap_err());
    assert_eq!(ParseError::Syntax, parse_document(&format!("a = {}", "{a=".repeat(128))).unwrap_err());
    assert_eq!(ParseError::Syntax, parse_document(&format!("{}k", "k.".repeat(128))).unwrap_err());
    assert_eq!(ParseError::Syntax, parse_document(&format!("[{}h", "h.".repeat(63))).unwrap_err());
    assert_eq!(ParseError::Syntax, parse_document(&"[".repeat(1000)).unwrap_err());
    assert_eq!(ParseError::Syntax, parse_document(&"[a]\n".repeat(1000)).unwrap_err());
}

#[test]
fn large_flat_configurations_are_read() {
    let mut text = format!("# {}\n", ".".repeat(80));
    for i in 0..1000 {
        text.push_str(&format!(
            "[user{}]\ncommands = ['/usr/bin/tool-1.2.3', \"/bin/[\"] # [{{.\n",
            i
        ));
    }
    let config = Config::parse(&text).unwrap();
    assert_eq!(1000, config.len());
    assert_eq!(vec!["/usr/bin/tool-1.2.3", "/bin/["], config.get("user999").unwrap().commands);
    let mut text = String::new();
    for i in 0..500 {
        text.push_str(&format!("user{} = {{ all = true, type = 'group' }}\n", i));
        text.push_str(&format!("other{}.commands = ['a.b.c.d']\n", i));
    }
    assert_eq!(1000, Config::parse(&text).unwrap().len());
}

#[test]
fn comments_alone_are_the_default_configuration() {
    let text = format!("# {}\n# {}\n\n#{}\n", ".".repeat(65), "[".repeat(300), "{a.b=".repeat(300));
    let config = Config::parse(&text).unwrap();
    assert_eq!("5m", config.timeout());
    assert_eq!(0, config.len());
}

const LINES: [&str; 14] = [
    "[a]", "[[a]]", "[a.b]", "[[a.b]]", "[a.b.c]", "[[a.b.c]]", "[b]", "[[b]]", "a = 1",
    "a.b = 1", "b = {}", "a = [{}]", "a = {b = {}}", "b.c.d = []",
];

fn walk(text: &mut String, left: usize, seen: &mut usize) {
    let _ = parse_document(text);
    *seen += 1;
    if left == 0 {
        return;
    }
    for line in LINES {
        let length = text.len();
        text.push_str(line);
        text.push('\n');
        walk(text, left - 1, seen);
        text.truncate(length);
    }
}

#[test]
fn tables_in_every_order_are_read_or_refused() {
    let mut seen = 0;
    walk(&mut String::new(), 4, &mut seen);
    assert_eq!(1 + 14 + 14 * 14 + 14 * 14 * 14 + 14 * 14 * 14 * 14, seen);
}

const PIECES: [&str; 14] =
    ["\"", "'", "\\", "\n", "#", "[", "]", "a=", "\"\"\"", "'''", ",", "{", "}", "."];

/// Builds every text of up to `left` more pieces and holds each, with deep
/// arrays behind it, against the limit: what is read is no deeper.
fn every(text: &mut String, left: usize, tails: &[&str], seen: &mut usize) {
    for tail in tails {
        for gap in ["\n", ""] {
            let whole = format!("{}{}{}{}", text, gap, arrays(140), tail);
            if let Ok(doc) = parse_document(&whole) {
                assert!(depth(&doc) <= 129, "{:?}", whole);
            }
            *seen += 1;
        }
    }
    if left == 0 {
        return;
    }
    for piece in PIECES {
        let length = text.len();
        text.push_str(piece);
        every(text, left - 1, tails, seen);
        text.truncate(length);
    }
}

#[test]
fn nothing_deep_slips_past_behind_short_texts() {
    let mut seen = 0;
    every(&mut String::new(), 3, &["", "\"", "'", "\"\"\"", "'''", "]", "}"], &mut seen);
    assert_eq!((1 + 14 + 14 * 14 + 14 * 14 * 14) * 14, seen);
}

#[test]
fn nothing_deep_slips_past_behind_longer_texts() {
    let mut seen = 0;
    every(&mut String::new(), 4, &[""], &mut seen);
    assert_eq!((1 + 14 + 14 * 14 + 14 * 14 * 14 + 14 * 14 * 14 * 14) * 2, seen);
}

fn never_refused(text: &mut String, left: usize, seen: &mut usize) {
    for gap in ["\n", ""] {
        let whole = format!("{}{}{}", text, gap, arrays(100));
        assert_ne!(Err(ParseError::TooNested), parse_document(&whole).map(|_| ()), "{:?}", whole);
        *seen += 1;
    }
    if left == 0 {
        return;
    }
    for piece in PIECES {
        let length = text.len();
        text.push_str(piece);
        never_refused(text, left - 1, seen);
        text.truncate(length);
    }
}

#[test]
fn nothing_shallow_is_refused_behind_short_texts() {
    let mut seen = 0;
    never_refused(&mut String::new(), 4, &mut seen);
    assert_eq!((1 + 14 + 14 * 14 + 14 * 14 * 14 + 14 * 14 * 14 * 14) * 2, seen);
}
