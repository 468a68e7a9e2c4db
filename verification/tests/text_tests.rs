use mayhem_advisor::text::{calculate_similarity, normalize_text};

#[test]
fn normalization_strips_and_lowercases() {
    assert_eq!(normalize_text("Cut  Down!"), "cutdown");
    assert_eq!(normalize_text("cutdown"), "cutdown");
    assert_eq!(normalize_text("Cut  Down!"), normalize_text("cutdown"));
}

#[test]
fn normalization_handles_punctuation_and_unicode() {
    assert_eq!(normalize_text("A.b?C!"), "abc");
    assert_eq!(normalize_text("  \t\n "), "");
    assert_eq!(normalize_text("안녕 하세요?"), "안녕하세요");
    assert_eq!(normalize_text(""), "");
}

#[test]
fn similarity_of_equal_normalized_forms_is_full_scale() {
    assert_eq!(calculate_similarity("Cut  Down!", "cutdown"), 1_000_000);
}

#[test]
fn similarity_is_full_scale_on_identical_nonempty_input() {
    assert_eq!(calculate_similarity("hello", "hello"), 1_000_000);
    assert_eq!(calculate_similarity("안녕하세요", "안녕하세요"), 1_000_000);
}

#[test]
fn similarity_against_empty_is_zero() {
    assert_eq!(calculate_similarity("anything", ""), 0);
    assert_eq!(calculate_similarity("", "anything"), 0);
    assert_eq!(calculate_similarity("", ""), 0);
}

#[test]
fn similarity_stays_within_scale() {
    let pairs = [
        ("abc", "abd"),
        ("short", "a much longer candidate name"),
        ("prefix match", "prefix mismatch"),
        ("xyz", "abc"),
        ("CutDown", "cut down!"),
    ];
    for (a, b) in pairs {
        let s = calculate_similarity(a, b);
        assert!(s <= 1_000_000, "similarity {} out of range for {:?}/{:?}", s, a, b);
    }
}

#[test]
fn similarity_exact_formula_values() {
    // Twenty characters each, no common prefix, three substitutions:
    // ((20-3)*10 + 0) * (7*20 + 3*20) * 10000 / (20*20) = 850000.
    let a = "abcdefghijklmnopqrst";
    let b = "xyzdefghijklmnopqrst";
    assert_eq!(calculate_similarity(a, b), 850_000);
    // Four substitutions: ((20-4)*10) * 200 * 10000 / 400 = 800000.
    let c = "wxyzefghijklmnopqrst";
    assert_eq!(calculate_similarity(a, c), 800_000);
    // One substitution away, still no common prefix: 190*200*10000/400.
    let d = "xbcdefghijklmnopqrst";
    assert_eq!(calculate_similarity(a, d), 950_000);
}

#[test]
fn similarity_rewards_matching_prefix() {
    // Same edit distance, but a shared prefix scores the bonus.
    // "abcdx" vs "abcdy": d=1, p=4, maxl=minl=5:
    // ((5-1)*10 + 4*1) * (7*5+3*5) * 10000 / 25 = 44*50*10000/25 = 880000.
    assert_eq!(calculate_similarity("abcdx", "abcdy"), 880_000);
    // "xbcda" vs "ybcda": d=1, p=0: 40*50*10000/25 = 800000.
    assert_eq!(calculate_similarity("xbcda", "ybcda"), 800_000);
}

#[test]
fn similarity_penalizes_length_mismatch() {
    // "ab" vs "abcdefgh": d=6, p=2, maxl=8, minl=2:
    // ((8-6)*10 + 2*6) * (7*8+3*2) * 10000 / 64 = 32*62*10000/64 = 310000.
    assert_eq!(calculate_similarity("ab", "abcdefgh"), 310_000);
}

#[test]
fn similarity_over_length_limit_scores_zero() {
    // Normalized forms longer than the scorer's limit score zero, even
    // for identical inputs.
    let long = "a".repeat(100_001);
    assert_eq!(calculate_similarity(&long, &long), 0);
}

#[test]
fn similarity_zero_when_normalization_empties_input() {
    // Inputs of nothing but whitespace and stripped punctuation
    // normalize to the empty string and score zero against themselves.
    assert_eq!(calculate_similarity("!!", "!!"), 0);
}
