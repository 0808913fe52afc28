use seqsearch::contains_kmp;
use seqsearch::CharCursor;

fn chars(s: &str) -> Vec<char> {
    s.chars().collect()
}

fn contains(h: &str, n: &str) -> bool {
    let h = chars(h);
    let n = chars(n);
    contains_kmp(CharCursor::new(&h), CharCursor::new(&n))
}

#[test]
fn empty_needle_always_found() {
    assert!(contains("", ""));
    assert!(contains("abc", ""));
    assert!(contains("aaaa", ""));
}

#[test]
fn haystack_contains_itself() {
    assert!(contains("abcdef", "abcdef"));
    assert!(contains("aaaab", "aaaab"));
    assert!(contains("x", "x"));
}

#[test]
fn empty_haystack_only_holds_empty_needle() {
    assert!(contains("", ""));
    assert!(!contains("", "a"));
    assert!(!contains("", "abc"));
}

#[test]
fn contiguous_slice_found() {
    assert!(contains("abcdef", "cde"));
    let h = "hello, world";
    for start in 0..h.len() {
        for end in start..=h.len() {
            assert!(contains(h, &h[start..end]));
        }
    }
}

#[test]
fn self_overlapping_needle_found() {
    assert!(contains("aaaab", "aaab"));
}

#[test]
fn partial_prefix_without_match() {
    assert!(!contains("aabcaabd", "aabcx"));
}

#[test]
fn no_match_at_all() {
    assert!(!contains("xyz", "abc"));
}

#[test]
fn repeated_search_gives_same_answer() {
    let h = chars("abracadabra");
    let n = chars("cad");
    let hc = CharCursor::new(&h);
    let nc = CharCursor::new(&n);
    assert!(contains_kmp(hc, nc));
    assert!(contains_kmp(hc, nc));
    let m = chars("cab");
    let mc = CharCursor::new(&m);
    assert!(!contains_kmp(hc, mc));
    assert!(!contains_kmp(hc, mc));
}

#[test]
fn needle_longer_than_haystack() {
    assert!(!contains("ab", "abc"));
    assert!(!contains("a", "aa"));
}

#[test]
fn match_at_ends() {
    assert!(contains("abcxyz", "abc"));
    assert!(contains("abcxyz", "xyz"));
    assert!(!contains("abcxy", "xyz"));
}

#[test]
fn restart_after_failed_attempt() {
    assert!(contains("abaabab", "abab"));
    assert!(contains("aaaaaaaaaab", "aaaaab"));
    assert!(contains("ababcabababd", "ababd"));
    assert!(!contains("aabaabaab", "aabaaa"));
}

#[test]
fn matches_naive_search_on_small_alphabet() {
    let alphabet = ['a', 'b'];
    let mut words: Vec<Vec<char>> = vec![Vec::new()];
    let mut frontier: Vec<Vec<char>> = vec![Vec::new()];
    for _ in 0..5 {
        let mut next = Vec::new();
        for w in &frontier {
            for c in alphabet {
                let mut v = w.clone();
                v.push(c);
                next.push(v);
            }
        }
        words.extend(next.iter().cloned());
        frontier = next;
    }
    for h in &words {
        for n in &words {
            let naive = n.is_empty() || h.windows(n.len()).any(|w| w == n.as_slice());
            assert_eq!(contains_kmp(CharCursor::new(h), CharCursor::new(n)), naive);
        }
    }
}

#[test]
fn cursor_steps_forward() {
    let v = chars("ab");
    let mut c = CharCursor::new(&v);
    assert_eq!(c.remaining(), 2);
    assert_eq!(c.peek(), Some('a'));
    let copy = c;
    assert_eq!(c.next(), Some('a'));
    assert_eq!(c.next(), Some('b'));
    assert_eq!(c.next(), None);
    assert_eq!(c.remaining(), 0);
    assert_eq!(c.peek(), None);
    assert_eq!(copy.remaining(), 2);
}
