use searcher::tokenizer::{char_boundaries, token_stream, Token};

fn assert_common_invariants(input_byte_len: usize, tokens: &[Token]) {
    for (k, t) in tokens.iter().enumerate() {
        assert!(t.offset_from <= t.offset_to);
        assert!(t.offset_to <= input_byte_len);
        assert_eq!(t.position, 2 * k + 1);
        assert_eq!(t.position % 2, 1);
        assert_eq!(t.position_length, tokens.len());
    }
    for pair in tokens.windows(2) {
        assert!(pair[0].position < pair[1].position);
    }
}

#[test]
fn empty_input_yields_no_tokens() {
    assert_eq!(token_stream("").len(), 0);
}

#[test]
fn boundary_table_counts_bytes_per_character() {
    // One ASCII byte, one three-byte character, one ASCII byte, with the
    // terminal sentinel equal to the total byte length.
    assert_eq!(char_boundaries("a\u{4e2d}b"), vec![0, 1, 4, 5]);
    assert_eq!(char_boundaries(""), vec![0]);
    assert_eq!(char_boundaries("ab"), vec![0, 1, 2]);
}

#[test]
fn single_character_spans_the_whole_input() {
    let input = "\u{4e2d}";
    let tokens = token_stream(input);
    assert_eq!(tokens.len(), 1);
    assert_eq!(tokens[0].text, input);
    assert_eq!(tokens[0].offset_from, 0);
    assert_eq!(tokens[0].offset_to, input.len());
    assert_eq!(tokens[0].position, 1);
    assert_eq!(tokens[0].position_length, 1);
}

#[test]
fn compound_word_yields_overlapping_granularities() {
    // A four-character compound word: the dictionary strategy emits its
    // sub-words as well as the compound itself.
    let input = "\u{6e05}\u{534e}\u{5927}\u{5b66}";
    let tokens = token_stream(input);
    assert!(tokens.len() >= 2, "expected several granularities, got {:?}", tokens);
    assert_common_invariants(input.len(), &tokens);
    // The token offsets cover the whole input without gaps.
    let mut covered = vec![false; input.len()];
    for t in &tokens {
        for b in t.offset_from..t.offset_to {
            covered[b] = true;
        }
    }
    assert!(covered.iter().all(|&c| c));
    // Every token's text is the slice of the input at its offsets.
    for t in &tokens {
        assert_eq!(t.text.as_bytes(), &input.as_bytes()[t.offset_from..t.offset_to]);
    }
}

#[test]
fn traditional_input_is_normalized_before_segmentation() {
    // Traditional forms; the token texts come from the simplified text.
    let input = "\u{4e2d}\u{83ef}\u{4eba}\u{6c11}\u{5171}\u{548c}\u{570b}";
    let simplified = "\u{4e2d}\u{534e}\u{4eba}\u{6c11}\u{5171}\u{548c}\u{56fd}";
    let tokens = token_stream(input);
    assert!(!tokens.is_empty());
    assert_common_invariants(simplified.len(), &tokens);
    for t in &tokens {
        assert!(!t.text.contains('\u{83ef}'), "token text kept a traditional form: {:?}", t);
        assert!(!t.text.contains('\u{570b}'), "token text kept a traditional form: {:?}", t);
        // Offsets index into the normalized text.
        assert_eq!(t.text.as_bytes(), &simplified.as_bytes()[t.offset_from..t.offset_to]);
    }
}

#[test]
fn mixed_width_characters_get_byte_offsets() {
    // An ASCII digit next to a three-byte character: offsets count bytes,
    // not characters.
    let input = "5\u{5927}";
    let tokens = token_stream(input);
    assert!(!tokens.is_empty());
    assert_common_invariants(input.len(), &tokens);
    for t in &tokens {
        assert_eq!(t.text.as_bytes(), &input.as_bytes()[t.offset_from..t.offset_to]);
    }
}
