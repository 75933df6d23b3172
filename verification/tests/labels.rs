use navigator::label::generate_labels;
use std::collections::HashSet;

fn hap_alphabet() -> Vec<char> {
    "SADFJKLEWCMPGH".chars().collect()
}

fn prefix_free(labels: &[String]) -> bool {
    for (i, a) in labels.iter().enumerate() {
        for (j, b) in labels.iter().enumerate() {
            if i != j && b.starts_with(a.as_str()) {
                return false;
            }
        }
    }
    true
}

#[test]
fn get_hint_strings_zero() {
    let a = hap_alphabet();
    let hints = generate_labels(0, &a);
    assert!(hints.is_empty());
}

#[test]
fn get_hint_strings_one() {
    let a = hap_alphabet();
    let hints = generate_labels(1, &a);
    assert_eq!(hints.len(), 1);
    assert_eq!(hints[0], "S");
}

#[test]
fn get_hint_strings_fourteen() {
    let a = hap_alphabet();
    let hints = generate_labels(14, &a);
    assert_eq!(hints.len(), 14);
    for (h, ch) in hints.iter().zip(a.iter()) {
        assert_eq!(*h, ch.to_string());
    }
}

#[test]
fn get_hint_strings_fifteen() {
    let a = hap_alphabet();
    let hints = generate_labels(15, &a);
    assert_eq!(hints.len(), 15);
    let lengths: Vec<usize> = hints.iter().map(|s| s.len()).collect();
    let singles = lengths.iter().filter(|&&l| l == 1).count();
    let doubles = lengths.iter().filter(|&&l| l == 2).count();
    assert_eq!(singles + doubles, 15);
    assert_eq!(singles, 12);
    assert_eq!(doubles, 3);
}

#[test]
fn get_hint_strings_196() {
    let a = hap_alphabet();
    let hints = generate_labels(196, &a);
    assert_eq!(hints.len(), 196);
    assert!(hints.iter().all(|s| s.len() == 2));
    assert_eq!(hints.iter().collect::<HashSet<_>>().len(), 196);
}

#[test]
fn get_hint_strings_197() {
    let a = hap_alphabet();
    let hints = generate_labels(197, &a);
    assert_eq!(hints.len(), 197);
    let n3 = hints.iter().filter(|s| s.len() == 3).count();
    let n2 = hints.iter().filter(|s| s.len() == 2).count();
    assert_eq!(n2 + n3, 197);
}

#[test]
fn get_hint_strings_unique_256_legacy() {
    let a = hap_alphabet();
    let hints = generate_labels(256, &a);
    assert_eq!(hints.len(), 256);
    assert_eq!(hints.iter().collect::<HashSet<_>>().len(), 256);
}

#[test]
fn alphabet_len_two() {
    let a = vec!['a', 'b'];
    let hints = generate_labels(5, &a);
    assert_eq!(hints.len(), 5);
    assert_eq!(hints.iter().collect::<HashSet<_>>().len(), 5);
}

#[test]
fn n_1000_and_5000_counts() {
    let a = hap_alphabet();
    assert_eq!(generate_labels(1000, &a).len(), 1000);
    assert_eq!(generate_labels(5000, &a).len(), 5000);
}

#[test]
fn n_1024_unique_mixed_lengths() {
    let a = hap_alphabet();
    let hints = generate_labels(1024, &a);
    assert_eq!(hints.len(), 1024);
    assert_eq!(hints.iter().collect::<HashSet<_>>().len(), 1024);
}

#[test]
fn fifteen_labels_exact_values() {
    let a = hap_alphabet();
    let hints = generate_labels(15, &a);
    let expected = ["SS", "AS", "SA", "D", "F", "J", "K", "L", "E", "W", "C", "M", "P", "G", "H"];
    assert_eq!(hints, expected.iter().map(|s| s.to_string()).collect::<Vec<_>>());
}

#[test]
fn two_symbol_alphabet_five_labels_exact() {
    let hints = generate_labels(5, &['a', 'b']);
    assert_eq!(hints, vec!["aaa", "baa", "aba", "aab", "bb"]);
}

#[test]
fn labels_are_prefix_free_for_many_counts() {
    let a: Vec<char> = "sadfjklewcmpgh".chars().collect();
    for n in [0usize, 1, 2, 13, 14, 15, 100, 195, 196, 197, 500, 2744, 2745, 3000] {
        let labels = generate_labels(n, &a);
        assert_eq!(labels.len(), n);
        assert!(prefix_free(&labels), "n={n}");
        assert!(labels.iter().all(|s| s.chars().all(|c| a.contains(&c))));
        assert_eq!(labels.iter().collect::<HashSet<_>>().len(), n);
    }
}

#[test]
fn small_counts_get_single_symbols() {
    let a: Vec<char> = "sadfjklewcmpgh".chars().collect();
    for n in 1..=14 {
        assert!(generate_labels(n, &a).iter().all(|s| s.chars().count() == 1));
    }
    for n in 15..=196 {
        assert!(generate_labels(n, &a).iter().all(|s| (1..=2).contains(&s.chars().count())));
    }
}

#[test]
fn non_ascii_alphabet_stays_prefix_free() {
    let a = vec!['é', 'ß', 'ø'];
    let labels = generate_labels(7, &a);
    assert_eq!(labels.len(), 7);
    assert!(prefix_free(&labels));
}

#[test]
fn empty_alphabet_gives_an_empty_label() {
    let labels = generate_labels(1, &[]);
    assert_eq!(labels, vec![String::new()]);
    assert!(generate_labels(0, &[]).is_empty());
}
