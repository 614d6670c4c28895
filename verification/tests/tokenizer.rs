use book_searcher_core::tokenizer::chinese::{
    check_positions, check_spans, distinct_strings, phonetic_word_tokens, pinyin_of_word,
    readings_of, word_tokens, Reading, WordSpan,
};
use book_searcher_core::tokenizer::utils::{is_chinese, is_chinese_char};
use book_searcher_core::tokenizer::{
    check_well_formed, get_tokenizer, MetaTokenStream, MetaTokenizer, Token,
};

fn collect(mut stream: MetaTokenStream) -> Vec<Token> {
    let mut tokens = Vec::new();
    while stream.advance() {
        tokens.push(stream.token().clone());
    }
    tokens
}

#[test]
fn chinese_chars_are_recognised() {
    assert!(is_chinese_char('中'));
    assert!(is_chinese_char('\u{4E00}'));
    assert!(is_chinese_char('\u{9FFF}'));
    assert!(is_chinese_char('\u{3105}'));
    assert!(is_chinese_char('\u{2A6D6}'));
    assert!(!is_chinese_char('a'));
    assert!(!is_chinese_char('\u{4DFF}'));
    assert!(!is_chinese_char('\u{3104}'));
    assert!(!is_chinese_char('，'));
}

#[test]
fn text_is_chinese_above_three_tenths() {
    assert!(!is_chinese(""));
    assert!(is_chinese("中文"));
    assert!(!is_chinese("hello world"));
    // 3 of 10 is not more than three tenths, 4 of 10 is.
    assert!(!is_chinese("中文字abcdefg"));
    assert!(is_chinese("中文字符abcdef"));
}

#[test]
fn empty_text_has_no_tokens() {
    let tokenizer = MetaTokenizer::new(true);
    assert!(collect(tokenizer.token_stream("")).is_empty());
}

#[test]
fn latin_text_is_split_into_runs() {
    let tokenizer = MetaTokenizer::new(false);
    let tokens = collect(tokenizer.token_stream("Hello, happy tax payer!"));
    let texts: Vec<&str> = tokens.iter().map(|t| t.text.as_str()).collect();
    assert_eq!(texts, vec!["Hello", "happy", "tax", "payer"]);
    assert_eq!(tokens[1].offset_from, 7);
    assert_eq!(tokens[1].offset_to, 12);
    assert_eq!(tokens[3].position, 3);
    assert_eq!(tokens[0].position_length, 1);
}

#[test]
fn chinese_words_without_pinyin() {
    let tokenizer = MetaTokenizer::new(false);
    let tokens = collect(tokenizer.token_stream("南京市长江大桥"));
    assert!(!tokens.is_empty());
    let n = tokens.len();
    for (i, t) in tokens.iter().enumerate() {
        assert_eq!(t.position, i + 1);
        assert_eq!(t.position_length, n);
        assert!(t.offset_from < t.offset_to);
        assert!(t.offset_to <= "南京市长江大桥".len());
        assert_eq!(&"南京市长江大桥"[t.offset_from..t.offset_to], t.text);
    }
    assert!(tokens.iter().any(|t| t.text == "南京"));
    assert!(tokens.iter().any(|t| t.text == "大桥"));
}

#[test]
fn chinese_words_with_pinyin() {
    let text = "中国";
    let tokenizer = MetaTokenizer::new(true);
    let tokens = collect(tokenizer.token_stream(text));
    // one word, its reading, and the readings of the two characters
    assert_eq!(tokens[0].text, "中国");
    assert_eq!(tokens[0].position, 1);
    assert_eq!((tokens[0].offset_from, tokens[0].offset_to), (0, 6));
    assert_eq!(tokens[1].text, "zhongguo");
    assert_eq!(tokens[1].position, 2);
    assert_eq!((tokens[1].offset_from, tokens[1].offset_to), (0, 6));
    let total = tokens.len();
    assert!(total >= 4);
    // one word and two characters: two slots and two more
    for t in &tokens {
        assert_eq!(t.position_length, 4);
        assert!(1 <= t.position && t.position <= t.position_length);
    }
    let first: Vec<&Token> = tokens.iter().filter(|t| t.position == 3).collect();
    assert!(!first.is_empty());
    assert!(first.iter().all(|t| (t.offset_from, t.offset_to) == (0, 3)));
    assert!(first.iter().any(|t| t.text == "zhong"));
    let second: Vec<&Token> = tokens.iter().filter(|t| t.position == 4).collect();
    assert!(second.iter().all(|t| (t.offset_from, t.offset_to) == (3, 6)));
    assert!(second.iter().any(|t| t.text == "guo"));
    assert_eq!(2 + first.len() + second.len(), total);
}

#[test]
fn traditional_text_is_simplified() {
    let tokenizer = MetaTokenizer::new(false);
    let tokens = collect(tokenizer.token_stream("計劃"));
    assert!(tokens.iter().any(|t| t.text == "计划"));
    assert!(tokens.iter().all(|t| t.offset_to <= "計劃".len()));
}

#[test]
fn positions_never_decrease() {
    let tokenizer = MetaTokenizer::new(true);
    for text in ["红楼梦 曹雪芹", "The Art of 计算机程序设计", "hello", "乾隆的乾兒子"] {
        let tokens = collect(tokenizer.token_stream(text));
        for pair in tokens.windows(2) {
            assert!(pair[0].position <= pair[1].position);
        }
        for t in &tokens {
            assert!(t.offset_from < t.offset_to && t.offset_to <= text.len());
        }
    }
}

#[test]
fn readings_of_a_character_are_distinct() {
    let tokenizer = MetaTokenizer::new(true);
    let tokens = collect(tokenizer.token_stream("还"));
    let readings: Vec<&str> =
        tokens.iter().filter(|t| t.position == 3).map(|t| t.text.as_str()).collect();
    assert!(readings.contains(&"hai"));
    assert!(readings.contains(&"huan"));
    let mut sorted = readings.clone();
    sorted.sort();
    sorted.dedup();
    assert_eq!(sorted.len(), readings.len());
    // more readings than characters: the slots are still one word and one character
    assert!(readings.len() > 1);
    assert!(tokens.iter().all(|t| t.position_length == 3 && t.position <= 3));
}

#[test]
fn filters_drop_long_tokens_and_stop_words_and_lower_the_rest() {
    let analyzer = get_tokenizer(false, vec!["the".to_string()]);
    let tokens = collect(analyzer.token_stream("the Quick abcdefghijklmnopqrstu Fox"));
    let texts: Vec<&str> = tokens.iter().map(|t| t.text.as_str()).collect();
    assert_eq!(texts, vec!["quick", "fox"]);
    assert_eq!(tokens[0].position, 1);
    assert_eq!(tokens[1].position, 3);
}

#[test]
fn a_token_of_twenty_characters_is_kept() {
    let analyzer = get_tokenizer(false, Vec::new());
    let tokens = collect(analyzer.token_stream("abcdefghijklmnopqrst The"));
    let texts: Vec<&str> = tokens.iter().map(|t| t.text.as_str()).collect();
    assert_eq!(texts, vec!["abcdefghijklmnopqrst", "the"]);
}

#[test]
fn stop_words_are_matched_before_lowering() {
    let analyzer = get_tokenizer(false, vec!["the".to_string()]);
    let tokens = collect(analyzer.token_stream("The the"));
    let texts: Vec<&str> = tokens.iter().map(|t| t.text.as_str()).collect();
    assert_eq!(texts, vec!["the"]);
    assert_eq!(tokens[0].position, 0);
}

#[test]
fn token_can_be_changed_in_place() {
    let tokenizer = MetaTokenizer::new(false);
    let mut stream = tokenizer.token_stream("one two");
    assert!(stream.advance());
    stream.token_mut().text.push('!');
    assert_eq!(stream.token().text, "one!");
    assert!(stream.advance());
    assert_eq!(stream.token().text, "two");
    assert!(!stream.advance());
    assert!(!stream.advance());
    assert_eq!(stream.token().text, "two");
}

#[test]
fn remaining_tokens_follow_the_cursor() {
    let tokenizer = MetaTokenizer::new(false);
    let mut stream = tokenizer.token_stream("one two three");
    assert!(stream.advance());
    let rest = stream.into_remaining();
    let texts: Vec<&str> = rest.iter().map(|t| t.text.as_str()).collect();
    assert_eq!(texts, vec!["two", "three"]);
}

#[test]
fn word_tokens_of_given_words() {
    let text = "a中文";
    let words = vec![
        WordSpan { word: "中".to_string(), start: 1, end: 2 },
        WordSpan { word: "a中文".to_string(), start: 0, end: 3 },
    ];
    assert!(check_spans(&words, 3));
    assert!(!check_spans(&words, 2));
    assert!(!check_spans(&vec![WordSpan { word: String::new(), start: 1, end: 1 }], 3));
    let plain = word_tokens(text, &words);
    assert_eq!(plain.len(), 2);
    assert_eq!((plain[0].offset_from, plain[0].offset_to, plain[0].position), (1, 4, 1));
    assert_eq!((plain[1].offset_from, plain[1].offset_to, plain[1].position), (0, 7, 2));
    assert_eq!(plain[1].position_length, 2);
    assert_eq!(plain[0].text, "中");

    let pinyins = vec!["zhong".to_string(), "zhongwen".to_string()];
    let readings = vec![
        Reading { index: 1, text: "zhong".to_string() },
        Reading { index: 2, text: "wen".to_string() },
    ];
    assert!(check_positions(2, 3));
    assert!(check_positions(usize::MAX / 2, 1));
    assert!(!check_positions(usize::MAX / 2 + 1, 0));
    assert!(!check_positions(usize::MAX / 2, 2));
    let tokens = phonetic_word_tokens(text, &words, &pinyins, &readings);
    let seen: Vec<(&str, usize, usize, usize)> = tokens
        .iter()
        .map(|t| (t.text.as_str(), t.position, t.offset_from, t.offset_to))
        .collect();
    assert_eq!(
        seen,
        vec![
            ("中", 1, 1, 4),
            ("zhong", 2, 1, 4),
            ("a中文", 3, 0, 7),
            ("zhongwen", 4, 0, 7),
            ("zhong", 6, 1, 4),
            ("wen", 7, 4, 7),
        ]
    );
    assert!(tokens.iter().all(|t| t.position_length == 7));
}

#[test]
fn readings_and_distinct_strings() {
    let kept = distinct_strings(&vec![
        "a".to_string(),
        "b".to_string(),
        "a".to_string(),
        "c".to_string(),
        "b".to_string(),
    ]);
    assert_eq!(kept, vec!["a", "b", "c"]);
    assert_eq!(pinyin_of_word("中a国"), "zhongguo");
    assert_eq!(pinyin_of_word("abc"), "");
    let readings = readings_of(&vec!['x', '中']);
    assert!(!readings.is_empty());
    assert!(readings.iter().all(|r| r.index == 1));
    assert!(readings.iter().any(|r| r.text == "zhong"));
}

fn token(text: &str, from: usize, to: usize, position: usize) -> Token {
    Token { offset_from: from, offset_to: to, position, text: text.to_string(), position_length: 1 }
}

#[test]
fn tokens_must_lie_on_character_boundaries() {
    let text = "aé中";
    assert!(check_well_formed(&vec![token("a", 0, 1, 0), token("é中", 1, 6, 1)], text));
    assert!(check_well_formed(&vec![token("中", 3, 6, 0)], text));
    // inside the two bytes of the second character
    assert!(!check_well_formed(&vec![token("x", 0, 2, 0)], text));
    assert!(!check_well_formed(&vec![token("x", 2, 3, 0)], text));
    assert!(!check_well_formed(&vec![token("x", 4, 6, 0)], text));
    // empty, reversed, or beyond the text
    assert!(!check_well_formed(&vec![token("x", 1, 1, 0)], text));
    assert!(!check_well_formed(&vec![token("x", 3, 1, 0)], text));
    assert!(!check_well_formed(&vec![token("x", 3, 7, 0)], text));
    // positions that go back
    assert!(!check_well_formed(&vec![token("a", 0, 1, 1), token("é", 1, 3, 0)], text));
    assert!(check_well_formed(&vec![token("a", 0, 1, 1), token("é", 1, 3, 1)], text));
    assert!(check_well_formed(&Vec::new(), ""));
}

#[test]
fn latin_tokens_lie_on_character_boundaries() {
    let text = "naïve café — Ünïcödé";
    let tokens = collect(MetaTokenizer::new(false).token_stream(text));
    let texts: Vec<&str> = tokens.iter().map(|t| t.text.as_str()).collect();
    assert_eq!(texts, vec!["naïve", "café", "Ünïcödé"]);
    for t in &tokens {
        assert!(text.is_char_boundary(t.offset_from) && text.is_char_boundary(t.offset_to));
        assert_eq!(&text[t.offset_from..t.offset_to], t.text);
    }
}

#[test]
fn tokens_are_lowered_character_by_character() {
    let analyzer = get_tokenizer(false, Vec::new());
    let tokens = collect(analyzer.token_stream("ΟΔΟΣ İstanbul ÀB"));
    let texts: Vec<&str> = tokens.iter().map(|t| t.text.as_str()).collect();
    assert_eq!(texts, vec!["οδοσ", "i\u{307}stanbul", "àb"]);
}
