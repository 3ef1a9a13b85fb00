use parallelism::pronouns::count_gendered_pronouns;
use parallelism::pronouns::PronounSet;
use parallelism::records::count_text_pronouns;
use parallelism::records::get_pronoun_counts;
use parallelism::records::process_record;
use parallelism::records::process_records;
use parallelism::records::Record;
use parallelism::records::RecordCounts;
use parallelism::records::TextRecord;
use parallelism::text::chars_of;
use parallelism::text::clean_text;
use parallelism::text::expand_contractions_of;
use parallelism::text::lower_ascii_of;
use parallelism::text::strip_non_letters_of;
use parallelism::text::tokenize;

fn record(id: u32, content: &str) -> Record {
    Record {
        id,
        publication: "The New York Times".to_string(),
        author: "Rob Williamson".to_string(),
        date: "2016-12-31".to_string(),
        content: content.to_string(),
    }
}

#[test]
fn test_clean_text() {
    let text = "He's he’s he’ll she'll he’d She'd HE SHE";
    let result = clean_text(text);
    assert_eq!(result, "he is he is he will she will he had she had he she");
}

#[test]
fn test_process_record() {
    let record = Record {
        id: 1,
        publication: "The New York Times".to_string(),
        author: "Rob Williamson".to_string(),
        date: "2016-12-31".to_string(),
        content: "She's swum the fastest she's ever done in her life.".to_string(),
    };
    let result = process_record(&record);
    assert!(result.num_male_pronouns == 0);
    assert!(result.num_female_pronouns == 3);
}

#[test]
fn test_count_gendered_pronouns() {
    let text = "He's he’ll he’d HE she's she'll She’d SHE random text here";
    let clean_text = clean_text(text);
    let tokens = clean_text.split_whitespace().collect();
    let (n_m, n_f) = count_gendered_pronouns(tokens);
    assert_eq!(n_m, 4);
    assert_eq!(n_f, 4);
}

#[test]
fn clean_text_expands_the_three_contractions() {
    assert_eq!(clean_text("He's she'll he'd"), "he is she will he had");
}

#[test]
fn clean_text_of_empty_is_empty() {
    assert_eq!(clean_text(""), "");
    assert!(tokenize("").is_empty());
}

#[test]
fn clean_text_removes_digits_and_punctuation_without_spacing() {
    assert_eq!(clean_text("Hello, World! 42 times-over."), "hello world  timesover");
    assert_eq!(clean_text("café São"), "caf so");
}

#[test]
fn clean_text_output_is_lowercase_letters_and_white_space() {
    let inputs = [
        "He's 3 cats; THEY'LL run!",
        "tab\there\nnew line\u{a0}nbsp",
        "Ünïcödé ‘quotes’ and “more”",
        "''''s'd'll'l",
    ];
    for text in inputs.iter() {
        let out = clean_text(text);
        assert!(out
            .chars()
            .all(|c| c.is_ascii_lowercase() || c.is_whitespace()));
    }
}

#[test]
fn clean_text_is_idempotent() {
    let inputs = [
        "He's he’s he’ll she'll he’d She'd HE SHE",
        "It's 5 o'clock; we'd   better GO.",
        "tab\there\nnew line",
        "",
    ];
    for text in inputs.iter() {
        let once = clean_text(text);
        assert_eq!(clean_text(&once), once);
    }
}

#[test]
fn contraction_suffixes_are_case_sensitive() {
    assert_eq!(clean_text("HE'S"), "hes");
    assert_eq!(clean_text("HE'LL"), "hell");
    assert_eq!(clean_text("she'l"), "shel");
}

#[test]
fn contractions_are_matched_from_the_left_without_rescanning() {
    assert_eq!(clean_text("x's's"), "x is is");
    assert_eq!(clean_text("''s"), " is");
    assert_eq!(clean_text("a’lls"), "a wills");
}

#[test]
fn expansion_steps_one_by_one() {
    let chars = chars_of("It's DONE, she'd say.");
    let expanded = expand_contractions_of(&chars);
    assert_eq!(expanded.iter().collect::<String>(), "It is DONE, she had say.");
    let stripped = strip_non_letters_of(&expanded);
    assert_eq!(stripped.iter().collect::<String>(), "It is DONE she had say");
    let lowered = lower_ascii_of(&stripped);
    assert_eq!(lowered.iter().collect::<String>(), "it is done she had say");
}

#[test]
fn tokenize_splits_on_runs_of_white_space() {
    assert_eq!(
        tokenize("  he  is\t\the\nhim \u{a0}his\u{3000} "),
        vec!["he", "is", "he", "him", "his"]
    );
    assert_eq!(tokenize("one"), vec!["one"]);
    assert!(tokenize(" \t\n").is_empty());
}

#[test]
fn pronoun_sets_match_exact_words_only() {
    assert!(PronounSet::Male.contains("he"));
    assert!(PronounSet::Male.contains("him"));
    assert!(PronounSet::Male.contains("his"));
    assert!(!PronounSet::Male.contains("hes"));
    assert!(!PronounSet::Male.contains("He"));
    assert!(!PronounSet::Male.contains("she"));
    assert!(PronounSet::Female.contains("she"));
    assert!(PronounSet::Female.contains("her"));
    assert!(PronounSet::Female.contains("hers"));
    assert!(!PronounSet::Female.contains("he"));
    assert!(!PronounSet::Female.contains("herself"));
    assert!(!PronounSet::Female.contains(""));
}

#[test]
fn counts_never_exceed_the_number_of_tokens() {
    let tokens = vec!["he", "she", "him", "her", "his", "hers", "they", "he"];
    let n = tokens.len();
    let (m, f) = count_gendered_pronouns(tokens);
    assert_eq!((m, f), (4, 3));
    assert!(m + f <= n);
    assert_eq!(count_gendered_pronouns(vec![]), (0, 0));
    assert_eq!(count_gendered_pronouns(vec!["x", "hisself"]), (0, 0));
}

#[test]
fn process_record_counts_mixed_pronouns() {
    let r = process_record(&record(
        7,
        "He's he'll he'd HE she's she'll She'd SHE random text here",
    ));
    assert_eq!(r.id, 7);
    assert_eq!(r.num_male_pronouns, 4);
    assert_eq!(r.num_female_pronouns, 4);
    assert_eq!(r.publication, "The New York Times");
    assert_eq!(r.author, "Rob Williamson");
    assert_eq!(r.date, "2016-12-31");
}

#[test]
fn process_records_keeps_ids_and_order() {
    let records = vec![
        record(3, "He said his piece."),
        record(1, "She's here."),
        record(2, "Nothing to count"),
        record(3, "her, hers, him"),
    ];
    let out = process_records(&records);
    assert_eq!(out.len(), records.len());
    let ids: Vec<u32> = out.iter().map(|r| r.id).collect();
    assert_eq!(ids, vec![3, 1, 2, 3]);
    let counts: Vec<(usize, usize)> = out
        .iter()
        .map(|r| (r.num_male_pronouns, r.num_female_pronouns))
        .collect();
    assert_eq!(counts, vec![(2, 0), (0, 1), (0, 0), (1, 2)]);
    assert!(process_records(&vec![]).is_empty());
}

#[test]
fn process_records_on_a_larger_batch() {
    let mut records = Vec::new();
    for id in 0..200u32 {
        records.push(record(id, if id % 2 == 0 { "he he" } else { "she" }));
    }
    let out = process_records(&records);
    assert_eq!(out.len(), 200);
    for (i, r) in out.iter().enumerate() {
        assert_eq!(r.id, i as u32);
        let expected = if i % 2 == 0 { (2, 0) } else { (0, 1) };
        assert_eq!((r.num_male_pronouns, r.num_female_pronouns), expected);
    }
}

#[test]
fn count_text_pronouns_on_raw_text() {
    assert_eq!(
        count_text_pronouns("She's swum the fastest she's ever done in her life."),
        (0, 3)
    );
    assert_eq!(count_text_pronouns("HIS book; Him? hers!"), (2, 1));
    assert_eq!(count_text_pronouns(""), (0, 0));
}

#[test]
fn get_pronoun_counts_per_record_in_order() {
    let records = vec![
        TextRecord { id: 10, content: "He's he’ll he’d HE she's she'll She’d SHE random text here".to_string() },
        TextRecord { id: 4, content: "no pronouns".to_string() },
    ];
    let counts = get_pronoun_counts(&records);
    assert_eq!(
        counts,
        vec![
            RecordCounts { id: 10, n_m: 4, n_f: 4 },
            RecordCounts { id: 4, n_m: 0, n_f: 0 },
        ]
    );
    assert!(get_pronoun_counts(&vec![]).is_empty());
}
