use p_mo::chars::{is_ascii_punctuation, is_whitespace, trim};
use p_mo::keywords::{add_to_tally, keywords_of_prepared, strip_punctuation, tally_words};
use p_mo::text_chunks::{chunk_by_tokens, cut_at_ends, find_from, find_last_space, find_token_ends, settle_chunks};
use p_mo::text_layout::{find_blank_line, find_char, header_fields, split_lines, split_paragraphs, split_parts};
use p_mo::summary::{count_hits, join_sentences, split_sentences, summarize_sentences};
use p_mo::text_processing::{
    summarize_text,
    extract_keywords, has_suffix, levenshtein_distance, read_heading, remove_punctuation,
    split_words, stem_word, ChunkingStrategy, TextProcessor, TokenizerConfig,
};
use p_mo::word_lists::{common_words_list, list_has, stopwords_list};

fn chars(s: &str) -> Vec<char> {
    s.chars().collect()
}

fn text(v: &Vec<char>) -> String {
    v.iter().collect()
}

fn texts(v: &Vec<Vec<char>>) -> Vec<String> {
    v.iter().map(text).collect()
}

fn strings(list: &[&str]) -> Vec<String> {
    list.iter().map(|s| s.to_string()).collect()
}

#[test]
fn test_levenshtein_distance() {
    assert_eq!(levenshtein_distance("kitten", "sitting"), 3);
    assert_eq!(levenshtein_distance("saturday", "sunday"), 3);
    assert_eq!(levenshtein_distance("", ""), 0);
    assert_eq!(levenshtein_distance("abc", ""), 3);
    assert_eq!(levenshtein_distance("", "abc"), 3);
}

#[test]
fn levenshtein_counts_characters_and_is_symmetric() {
    assert_eq!(levenshtein_distance("abc", "abc"), 0);
    assert_eq!(levenshtein_distance("test", "text"), 1);
    assert_eq!(levenshtein_distance("é", "e"), 1);
    assert_eq!(levenshtein_distance("flaw", "lawn"), 2);
    assert_eq!(levenshtein_distance("lawn", "flaw"), 2);
    assert_eq!(levenshtein_distance("a", "bcd"), 3);
}

#[test]
fn character_classes_agree_with_std() {
    for code in 0u32..0x3100 {
        if let Some(c) = char::from_u32(code) {
            assert_eq!(is_ascii_punctuation(c), c.is_ascii_punctuation(), "{:x}", code);
            assert_eq!(is_whitespace(c), c.is_whitespace(), "{:x}", code);
        }
    }
    assert!(!is_whitespace('\u{feff}'));
    assert!(!is_whitespace('\u{1F600}'));
}

#[test]
fn trim_takes_white_space_off_both_ends() {
    for s in ["", " ", " \t\n", "a", " a", "a ", "  a b  ", "\u{3000}x\u{a0}", "a\u{85}"] {
        assert_eq!(text(&trim(&chars(s))), s.trim(), "{:?}", s);
    }
}

#[test]
fn test_extract_keywords() {
    let text = "Artificial intelligence is the simulation of human intelligence processes by machines, especially computer systems. These processes include learning, reasoning, and self-correction.";
    let keywords = extract_keywords(text, 5);

    println!("Extracted keywords: {:?}", keywords);

    let important_words = vec!["artificial", "intelligence", "simulation"];
    for word in important_words {
        assert!(
            keywords.iter().any(|kw| kw.to_lowercase() == word.to_lowercase()),
            "Expected keyword '{}' not found in {:?}",
            word,
            keywords
        );
    }

    assert!(keywords.len() <= 5);
}

#[test]
fn keywords_are_ranked_by_count_times_length() {
    let keywords = keywords_of_prepared("zebra zebra ox cat cat cat elephant the the the", 10);
    assert_eq!(keywords, strings(&["zebra", "cat", "elephant"]));
    assert_eq!(keywords_of_prepared("bbb aaa ccc", 2), strings(&["bbb", "aaa"]));
    assert_eq!(keywords_of_prepared("bbb aaa ccc", 0), strings(&[]));
    assert_eq!(keywords_of_prepared("", 3), strings(&[]));
    assert_eq!(keywords_of_prepared("internationalization encyclopedia encyclopedia", 1), strings(&["encyclopedia"]));
    assert_eq!(extract_keywords("Cat CAT cat. Dog!", 5), strings(&["cat", "dog"]));
}

#[test]
fn keyword_tally_counts_and_boosts() {
    let tally = tally_words(&chars("artificial intelligence, (machine) learning: a simulation."));
    let found: Vec<(String, u64)> = tally.iter().map(|(w, n)| (text(w), *n)).collect();
    assert_eq!(
        found,
        vec![
            ("artificial".to_string(), 3),
            ("intelligence".to_string(), 3),
            ("machine".to_string(), 3),
            ("learning".to_string(), 3),
            ("simulation".to_string(), 4),
        ]
    );
    let tally = tally_words(&chars("simulation simulation"));
    assert_eq!(tally.len(), 1);
    assert_eq!(tally[0].1, 5);
    let mut tally: Vec<(Vec<char>, u64)> = vec![(chars("a"), u64::MAX - 1)];
    add_to_tally(&mut tally, &chars("a"), 3);
    add_to_tally(&mut tally, &chars("b"), 2);
    assert_eq!(tally, vec![(chars("a"), u64::MAX), (chars("b"), 2)]);
    assert_eq!(text(&strip_punctuation(&chars("(('it's',"))), "it's");
    assert_eq!(text(&strip_punctuation(&chars("..."))), "");
}

#[test]
fn word_lists_hold_their_words() {
    let stop = stopwords_list();
    let common = common_words_list();
    assert_eq!(stop.len(), 162);
    assert_eq!(common.len(), 50);
    for w in ["a", "the", "nor", "should", "how's", "i'm", "cannot"] {
        assert!(list_has(&stop, &chars(w)), "{}", w);
    }
    for w in ["test", "", "The", "say"] {
        assert!(!list_has(&stop, &chars(w)), "{}", w);
    }
    for w in ["the", "say", "me", "go"] {
        assert!(list_has(&common, &chars(w)), "{}", w);
    }
    assert!(!list_has(&common, &chars("is")));
}

#[test]
fn stemming_takes_the_first_suffix_that_fits() {
    assert_eq!(stem_word("running"), "runn");
    assert_eq!(stem_word("jumped"), "jump");
    assert_eq!(stem_word("cats"), "cat");
    assert_eq!(stem_word("boxes"), "boxe");
    assert_eq!(stem_word("quickly"), "quick");
    assert_eq!(stem_word("movement"), "move");
    assert_eq!(stem_word("kindness"), "kindnes");
    assert_eq!(stem_word("activity"), "activ");
    assert_eq!(stem_word("station"), "sta");
    assert_eq!(stem_word("sing"), "sing");
    assert_eq!(stem_word("bring"), "bring");
    assert_eq!(stem_word("being"), "being");
    assert_eq!(stem_word("string"), "str");
    assert_eq!(stem_word("as"), "as");
    assert_eq!(stem_word("gas"), "gas");
    assert_eq!(stem_word("gaps"), "gap");
    assert_eq!(stem_word("és"), "és");
    assert_eq!(stem_word("éés"), "éé");
    assert_eq!(stem_word(""), "");
    assert!(has_suffix(&chars("abc"), &chars("bc")));
    assert!(has_suffix(&chars("abc"), &chars("")));
    assert!(!has_suffix(&chars("bc"), &chars("abc")));
    assert!(!has_suffix(&chars("abc"), &chars("ab")));
}

#[test]
fn words_and_punctuation() {
    assert_eq!(texts(&split_words(&chars("  a bc\t\nd  "))), strings(&["a", "bc", "d"]));
    assert_eq!(texts(&split_words(&chars(""))), strings(&[]));
    assert_eq!(texts(&split_words(&chars(" \n "))), strings(&[]));
    assert_eq!(texts(&split_words(&chars("one"))), strings(&["one"]));
    assert_eq!(text(&remove_punctuation(&chars("it's, a (test)!"))), "it's a test");
}

#[test]
fn test_tokenization() {
    let config = TokenizerConfig::default();
    let processor = TextProcessor::new(config, ChunkingStrategy::FixedSize(100));

    let text = "This is a test sentence. This is another test sentence.";
    let tokens = processor.tokenize(text);

    assert!(tokens.len() > 0);
    assert!(tokens.contains(&"test".to_string()));
    assert!(tokens.contains(&"sentence".to_string()));
    assert_eq!(
        tokens,
        strings(&["this", "is", "a", "test", "sentence", "this", "is", "another", "test", "sentence"])
    );
}

#[test]
fn test_custom_tokenizer_config() {
    let config = TokenizerConfig {
        lowercase: true,
        remove_punctuation: true,
        remove_stopwords: true,
        ..Default::default()
    };
    let processor = TextProcessor::new(config, ChunkingStrategy::FixedSize(100));

    let text = "This is a test sentence with some punctuation!";
    let tokens = processor.tokenize(text);

    assert!(!tokens.contains(&"this".to_string()));
    assert!(!tokens.contains(&"is".to_string()));
    assert!(!tokens.contains(&"a".to_string()));

    assert!(!tokens.contains(&"punctuation!".to_string()));
    assert!(tokens.contains(&"punctuation".to_string()));
    assert_eq!(tokens, strings(&["test", "sentence", "punctuation"]));
}

#[test]
fn tokenizer_settings_apply_in_turn() {
    let plain = TokenizerConfig {
        lowercase: false,
        remove_punctuation: false,
        remove_stopwords: false,
        stem_words: false,
    };
    let p = TextProcessor::new(plain, ChunkingStrategy::Paragraph);
    assert_eq!(p.tokenize("The Cats, running!"), strings(&["The", "Cats,", "running!"]));
    assert_eq!(p.tokenize_prepared("The Cats"), strings(&["The", "Cats"]));
    let stems = TokenizerConfig { stem_words: true, lowercase: true, remove_punctuation: true, ..plain };
    let p = TextProcessor::new(stems, ChunkingStrategy::Paragraph);
    assert_eq!(p.tokenize("The Cats, running!"), strings(&["the", "cat", "runn"]));
    let upper_stop = TokenizerConfig { remove_stopwords: true, ..plain };
    let p = TextProcessor::new(upper_stop, ChunkingStrategy::Paragraph);
    assert_eq!(p.tokenize("The the cat"), strings(&["The", "cat"]));
    assert_eq!(TokenizerConfig::default(), TokenizerConfig {
        lowercase: true,
        remove_punctuation: true,
        remove_stopwords: false,
        stem_words: false,
    });
}

#[test]
fn lines_as_std_splits_them() {
    for s in ["", "a", "a\n", "a\nb", "a\r\nb\r\n", "\n", "\n\n", "a\r", "a\r\n\r\n", "\r\n", "a\n\rb", "x\r\r\ny"] {
        let expected: Vec<String> = s.lines().map(|l| l.to_string()).collect();
        assert_eq!(texts(&split_lines(&chars(s))), expected, "{:?}", s);
    }
}

#[test]
fn parts_and_paragraphs() {
    for s in ["", "a", "a\n\nb", "a\n\n", "\n\n", "a\n\n\nb", "a\n\n\n\nb", "\n\n\na", "a\nb"] {
        let expected: Vec<String> = s.split("\n\n").map(|l| l.to_string()).collect();
        assert_eq!(texts(&split_parts(&chars(s))), expected, "{:?}", s);
        let paragraphs: Vec<String> = s
            .split("\n\n")
            .filter(|p| !p.trim().is_empty())
            .map(|p| p.trim().to_string())
            .collect();
        assert_eq!(texts(&split_paragraphs(&chars(s))), paragraphs, "{:?}", s);
    }
    assert_eq!(find_blank_line(&chars("ab\n\ncd"), 0), 2);
    assert_eq!(find_blank_line(&chars("ab\n\ncd"), 3), 6);
    assert_eq!(find_blank_line(&chars("ab\n"), 0), 3);
    assert_eq!(find_char(&chars("a:b:c"), ':'), Some(1));
    assert_eq!(find_char(&chars("abc"), ':'), None);
}

#[test]
fn test_paragraph_chunking() {
    let config = TokenizerConfig::default();
    let processor = TextProcessor::new(config, ChunkingStrategy::Paragraph);

    let text = "This is paragraph one.\n\nThis is paragraph two.\n\nThis is paragraph three.";
    let chunks = processor.chunk_paragraph(text);

    assert_eq!(chunks.len(), 3);
    assert_eq!(chunks[0].content, "This is paragraph one.");
    assert_eq!(chunks[1].content, "This is paragraph two.");
    assert_eq!(chunks[2].content, "This is paragraph three.");
    assert!(chunks[0].metadata.is_empty());
}

#[test]
fn test_semantic_chunking() {
    let config = TokenizerConfig::default();
    let processor = TextProcessor::new(config, ChunkingStrategy::Semantic);

    let text = "# Introduction\nThis is an introduction.\n\n# Methods\nThese are the methods.\n\n# Results\nThese are the results.";
    let chunks = processor.chunk_semantic(text);

    assert_eq!(chunks.len(), 3);
    assert!(chunks[0].content.contains("Introduction"));
    assert!(chunks[1].content.contains("Methods"));
    assert!(chunks[2].content.contains("Results"));
    assert_eq!(chunks[0].content, "# Introduction\nThis is an introduction.");
    assert_eq!(chunks[0].metadata.get("heading"), Some(&"Introduction".to_string()));
    assert_eq!(chunks[2].metadata.get("heading"), Some(&"Results".to_string()));
}

#[test]
fn semantic_chunking_edges() {
    let p = TextProcessor::new(TokenizerConfig::default(), ChunkingStrategy::Semantic);
    let chunks = p.chunk_semantic("preface\n## A  b \ntext\n#not a heading\n#\tC\n");
    assert_eq!(chunks.len(), 3);
    assert_eq!(chunks[0].content, "preface");
    assert!(chunks[0].metadata.is_empty());
    assert_eq!(chunks[1].content, "## A  b \ntext\n#not a heading");
    assert_eq!(chunks[1].metadata.get("heading"), Some(&"A  b ".to_string()));
    assert_eq!(chunks[2].content, "#\tC");
    assert_eq!(chunks[2].metadata.get("heading"), Some(&"C".to_string()));
    let chunks = p.chunk_semantic("  \n ");
    assert_eq!(chunks.len(), 1);
    assert_eq!(chunks[0].content, "  \n ");
    let chunks = p.chunk_semantic("# \nbody");
    assert_eq!(chunks.len(), 1);
    assert!(chunks[0].metadata.is_empty());
    assert_eq!(read_heading(&chars("### x")), Some(chars("x")));
    assert_eq!(read_heading(&chars("#x")), None);
    assert_eq!(read_heading(&chars(" # x")), None);
    assert_eq!(read_heading(&chars("# ")), Some(chars("")));
    assert_eq!(read_heading(&chars("#")), None);
}

#[test]
fn test_metadata_extraction() {
    let config = TokenizerConfig::default();
    let processor = TextProcessor::new(config, ChunkingStrategy::FixedSize(100));

    let text = "Title: Test Document\nAuthor: Test Author\nDate: 2025-03-14\n\nThis is the content of the document.";
    let metadata = processor.extract_metadata(text);

    assert_eq!(metadata.get("title"), Some(&"Test Document".to_string()));
    assert_eq!(metadata.get("author"), Some(&"Test Author".to_string()));
    assert_eq!(metadata.get("date"), Some(&"2025-03-14".to_string()));
}

#[test]
fn metadata_extraction_edges() {
    let p = TextProcessor::new(TokenizerConfig::default(), ChunkingStrategy::Paragraph);
    let m = p.extract_metadata("  KEY :  a:b  \nno colon here\nKey: second\n \nlater: no");
    assert_eq!(m.get("key"), Some(&"second".to_string()));
    assert_eq!(m.get("later"), None);
    assert!(p.extract_metadata("\nTitle: x").is_empty());
    assert!(p.extract_metadata("").is_empty());
    let fields = header_fields(&chars("A: 1\r\n: empty\nB:\n\nC: 3"));
    let found: Vec<(String, String)> = fields.iter().map(|(k, v)| (text(k), text(v))).collect();
    assert_eq!(
        found,
        vec![
            ("A".to_string(), "1".to_string()),
            ("".to_string(), "empty".to_string()),
            ("B".to_string(), "".to_string()),
        ]
    );
}

#[test]
fn test_fixed_size_chunking() {
    let config = TokenizerConfig::default();
    let processor = TextProcessor::new(config, ChunkingStrategy::FixedSize(10));

    let text = "This is a test sentence. This is another test sentence.";
    let chunks = processor.chunk(text);

    assert!(chunks.len() >= 2);

    for chunk in &chunks {
        let tokens = processor.tokenize(&chunk.content);
        assert!(tokens.len() <= 10);
    }

    let combined = chunks.iter().map(|c| c.content.clone()).collect::<Vec<String>>().join("");
    assert_eq!(combined, text);
}

#[test]
fn test_chunk_with_metadata() {
    let config = TokenizerConfig::default();
    let processor = TextProcessor::new(config, ChunkingStrategy::FixedSize(100));

    let text = "Title: Test Document\nAuthor: Test Author\nDate: 2025-03-14\n\nThis is the content of the document.";
    let chunks = processor.chunk_with_metadata(text);

    assert!(chunks.len() > 0);

    for chunk in &chunks {
        assert_eq!(chunk.metadata.get("title"), Some(&"Test Document".to_string()));
        assert_eq!(chunk.metadata.get("author"), Some(&"Test Author".to_string()));
        assert_eq!(chunk.metadata.get("date"), Some(&"2025-03-14".to_string()));
    }
    let contents: Vec<String> = chunks.iter().map(|c| c.content.clone()).collect();
    assert_eq!(contents, strings(&["This is the content of the document", "."]));
}

#[test]
fn chunk_follows_the_strategy() {
    let text = "# One\nalpha beta\n\n# Two\ngamma";
    let p = TextProcessor::new(TokenizerConfig::default(), ChunkingStrategy::Paragraph);
    let contents: Vec<String> = p.chunk(text).iter().map(|c| c.content.clone()).collect();
    assert_eq!(contents, strings(&["# One\nalpha beta", "# Two\ngamma"]));
    let p = TextProcessor::new(TokenizerConfig::default(), ChunkingStrategy::Semantic);
    let chunks = p.chunk(text);
    assert_eq!(chunks.len(), 2);
    assert_eq!(chunks[1].metadata.get("heading"), Some(&"Two".to_string()));
    let p = TextProcessor::new(TokenizerConfig::default(), ChunkingStrategy::FixedSize(2));
    let contents: Vec<String> = p.chunk("aa bb cc dd ee").iter().map(|c| c.content.clone()).collect();
    assert_eq!(contents, strings(&["aa bb", " cc dd", " ee"]));
    assert!(p.chunk("  ").is_empty());
    assert!(p.chunk("").is_empty());
    let without = p.chunk_with_metadata("no header here at all");
    assert!(without[0].metadata.is_empty());
}

#[test]
fn fixed_size_chunks_by_tokens() {
    let cut = |t: &str, needles: &[&str], max: usize| -> Vec<String> {
        let needles: Vec<Vec<char>> = needles.iter().map(|n| chars(n)).collect();
        texts(&chunk_by_tokens(&chars(t), &needles, max))
    };
    assert_eq!(cut("one two three four", &["one", "two", "three", "four"], 3), strings(&["one two three", " four"]));
    assert_eq!(cut("one two three four", &["one", "two", "three", "four"], 0), strings(&["one", " two", " three", " four"]));
    assert_eq!(cut("one two three four!", &["one", "two", "three", "four"], 4), strings(&["one two three four", "!"]));
    assert_eq!(cut("one two three four  ", &["one", "two", "three", "four"], 9), strings(&["one two", " three four"]));
    assert_eq!(cut("One Two", &["one", "two"], 9), strings(&["One Two"]));
    assert_eq!(cut("Alpha Beta Gamma", &["alpha", "beta", "gamma"], 9), strings(&["Alpha", " Beta Gamma"]));
    assert_eq!(cut("abc abc", &["abc", "abc", "abc"], 1), strings(&["abc", " abc"]));
    assert_eq!(cut("short", &["short"], 5), strings(&["short"]));
    assert_eq!(cut("aaaaaaaaaaaa", &["aaaaaaaaaaaa"], 5), strings(&["aaaaaaaaaaaa"]));
}

#[test]
fn chunking_steps() {
    let t = chars("ab abc b");
    assert_eq!(find_from(&t, &chars("b"), 0), Some(1));
    assert_eq!(find_from(&t, &chars("b"), 2), Some(4));
    assert_eq!(find_from(&t, &chars("b"), 5), Some(7));
    assert_eq!(find_from(&t, &chars("b"), 8), None);
    assert_eq!(find_from(&t, &chars("abc"), 0), Some(3));
    assert_eq!(find_from(&t, &chars(""), 8), Some(8));
    assert_eq!(find_from(&t, &chars(""), 9), None);
    assert_eq!(find_from(&t, &chars("abcd"), 0), None);
    assert_eq!(find_from(&chars(""), &chars("a"), 0), None);
    for (hay, needle) in [("hello world", "o w"), ("aaa", "aa"), ("abc", "c"), ("abc", "x"), ("", "")] {
        assert_eq!(find_from(&chars(hay), &chars(needle), 0), hay.find(needle));
    }
    let ends = find_token_ends(&t, &vec![chars("ab"), chars("zz"), chars("b")]);
    assert_eq!(ends, vec![2, 5]);
    assert_eq!(texts(&cut_at_ends(&t, &ends, 1)), strings(&["ab", " ab", "c b"]));
    assert_eq!(texts(&cut_at_ends(&t, &vec![], 1)), strings(&["ab abc b"]));
    assert_eq!(texts(&cut_at_ends(&chars("  "), &vec![], 1)), strings(&[]));
    assert_eq!(find_last_space(&chars("a b c"), 5), Some(3));
    assert_eq!(find_last_space(&chars("a b c"), 3), Some(1));
    assert_eq!(find_last_space(&chars("a b c"), 1), None);
    assert_eq!(find_last_space(&chars("a b c"), 0), None);
    assert_eq!(texts(&settle_chunks(&chars("ab"), vec![])), strings(&["ab"]));
    assert_eq!(
        texts(&settle_chunks(&chars("abc def ghi jkl"), vec![chars("abc def ghi jkl")])),
        strings(&["abc", " def ghi jkl"])
    );
    assert_eq!(
        texts(&settle_chunks(&chars("abc def ghi jkl"), vec![chars("x"), chars("y")])),
        strings(&["x", "y"])
    );
}

#[test]
fn test_summarize_text() {
    let text = "Artificial intelligence is the simulation of human intelligence processes by machines. These processes include learning, reasoning, and self-correction. AI is a broad field that encompasses many different approaches. Machine learning is a subset of AI that focuses on training algorithms to learn from data.";
    let summary = summarize_text(text, 2);

    assert!(summary.contains("Artificial intelligence"));
    assert!(summary.split(". ").count() <= 3);
}

#[test]
fn summary_of_few_sentences_is_all_of_them() {
    assert_eq!(summarize_text("One. Two! Three?", 3), "One. Two. Three.");
    assert_eq!(summarize_text("One. Two! Three?", 5), "One. Two. Three.");
    assert_eq!(summarize_text("  One  ..  Two ", 2), "One. Two.");
    assert_eq!(summarize_text("", 0), ".");
    assert_eq!(summarize_text("...", 1), ".");
    assert_eq!(summarize_text("no end", 1), "no end.");
}

#[test]
fn summary_keeps_the_best_sentences_in_their_order() {
    let text = "Zebras run fast. The weather is nice today and we walk. Nobody saw zebras that ran. It rains.";
    assert_eq!(summarize_text(text, 2), "Zebras run fast. The weather is nice today and we walk.");
    assert_eq!(
        summarize_text(text, 3),
        "Zebras run fast. The weather is nice today and we walk. Nobody saw zebras that ran."
    );
    assert_eq!(summarize_text(text, 1), "Zebras run fast.");
    assert_eq!(summarize_text(text, 0), ".");
}

#[test]
fn summarize_sentences_by_given_keywords() {
    let sentences: Vec<Vec<char>> =
        ["a b c d", "x y", "x", "q q q q q q q q q"].iter().map(|s| chars(s)).collect();
    let keywords = vec![chars("x"), chars("y")];
    let pick = |max: usize| text(&summarize_sentences(&sentences, &sentences, &keywords, max));
    assert_eq!(pick(1), "x y.");
    assert_eq!(pick(2), "x y. x.");
    assert_eq!(pick(3), "a b c d. x y. x.");
    assert_eq!(pick(4), "a b c d. x y. x. q q q q q q q q q.");
    let tie: Vec<Vec<char>> = ["k a a a", "k", "k k b b"].iter().map(|s| chars(s)).collect();
    let kw = vec![chars("k"), chars("b")];
    let pick = |max: usize| text(&summarize_sentences(&tie, &tie, &kw, max));
    assert_eq!(pick(1), "k.");
    assert_eq!(pick(2), "k. k k b b.");
    assert_eq!(count_hits(&chars("a bb c"), &vec![chars("bb"), chars("z"), chars(""), chars("a b")]), 3);
    assert_eq!(texts(&split_sentences(&chars("Hi there! How? Fine. "))), strings(&["Hi there", "How", "Fine"]));
    assert_eq!(text(&join_sentences(&vec![])), ".");
    assert_eq!(text(&join_sentences(&vec![chars("a")])), "a.");
    assert_eq!(text(&join_sentences(&vec![chars("a"), chars("b")])), "a. b.");
}

#[test]
fn words_as_std_splits_them() {
    for s in ["", " ", "a", " a  b\tc\n", "\u{a0}x\u{2003}y\u{3000}", "a\u{200b}b c", "é è\r\nfin"] {
        let expected: Vec<String> = s.split_whitespace().map(|w| w.to_string()).collect();
        assert_eq!(texts(&split_words(&chars(s))), expected, "{:?}", s);
    }
}
