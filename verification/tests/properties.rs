use regex_tokenizer::RegexTokenizer;

const WORD_PATTERN: &str = r"[a-zA-Z0-9]+(?:[-.:'][a-zA-Z0-9]+)*|[.!?]+|[,;:]";

#[test]
fn spans_are_nonoverlapping_and_ordered() {
    let tokenizer = RegexTokenizer::new(WORD_PATTERN).unwrap();
    let input = "It's state-of-the-art! The price is $3.14... Really?! Time: 12:30.";
    let tokens = tokenizer.tokenize(input);
    assert!(!tokens.is_empty());
    for pair in tokens.windows(2) {
        assert!(pair[0].end <= pair[1].start);
        assert!(pair[0].start < pair[1].start);
    }
}

#[test]
fn token_text_is_exact_byte_substring() {
    let tokenizer = RegexTokenizer::new(WORD_PATTERN).unwrap();
    let input = "Hello, world! It's 3.14.";
    let tokens = tokenizer.tokenize(input);
    assert!(!tokens.is_empty());
    for token in &tokens {
        assert!(token.start <= token.end && token.end <= input.len());
        assert_eq!(&input[token.start..token.end], token.text);
        assert_eq!(token.end - token.start, token.text.len());
    }
}

#[test]
fn byte_offsets_with_multibyte_input() {
    // Offsets are byte offsets, not character indices: each Greek letter
    // takes two bytes, so the match starts at byte 7 and ends at byte 15.
    let tokenizer = RegexTokenizer::new(r"\p{Greek}+").unwrap();
    let input = "Greek: αβγδ";
    let tokens = tokenizer.tokenize(input);
    assert_eq!(tokens.len(), 1);
    assert_eq!(tokens[0].text, "αβγδ");
    assert_eq!(tokens[0].start, 7);
    assert_eq!(tokens[0].end, 15);
    assert_eq!(&input[tokens[0].start..tokens[0].end], tokens[0].text);
}

#[test]
fn empty_input_yields_no_tokens() {
    let tokenizer = RegexTokenizer::new(WORD_PATTERN).unwrap();
    assert!(tokenizer.tokenize("").is_empty());
}

#[test]
fn no_match_yields_no_tokens() {
    let tokenizer = RegexTokenizer::new(r"\d+").unwrap();
    assert!(tokenizer.tokenize("no digits here").is_empty());
}

#[test]
fn tokenize_is_deterministic() {
    let tokenizer = RegexTokenizer::new(WORD_PATTERN).unwrap();
    let input = "Hello! Is it working? Yes, it is.";
    let first = tokenizer.tokenize(input);
    let second = tokenizer.tokenize(input);
    assert_eq!(first.len(), second.len());
    for (a, b) in first.iter().zip(second.iter()) {
        assert_eq!(a.text, b.text);
        assert_eq!(a.start, b.start);
        assert_eq!(a.end, b.end);
    }
}

#[test]
fn unclosed_character_class_is_rejected() {
    let err = RegexTokenizer::new("[a-z").unwrap_err();
    assert!(!err.message.is_empty());
}

#[test]
fn valid_pattern_is_accepted() {
    assert!(RegexTokenizer::new(r"\d+(?:\.\d+)?").is_ok());
}

#[test]
fn token_new_sets_fields() {
    let token = regex_tokenizer::Token::new("abc".to_string(), 2, 5);
    assert_eq!(token.text, "abc");
    assert_eq!(token.start, 2);
    assert_eq!(token.end, 5);
}
