use cuy::stack::{max_usage, paint, COLOR};

const X: u32 = 0x1234_5678;

#[test]
fn reports_the_used_words_at_the_top() {
    let stack = [COLOR, COLOR, COLOR, X, X];
    assert_eq!(8, max_usage(&stack));

    let mut stack = vec![COLOR; 256];
    for word in &mut stack[200..] {
        *word = X;
    }
    assert_eq!(4 * 56, max_usage(&stack));

    // every word but the lowest one has been used
    let stack = [COLOR, X, X, X];
    assert_eq!(12, max_usage(&stack));
}

#[test]
fn edge_cases() {
    assert_eq!(0, max_usage(&[]));
    // still fully painted: nothing used
    assert_eq!(0, max_usage(&[COLOR, COLOR]));
    // even the lowest word has been overwritten: all of it used
    assert_eq!(12, max_usage(&[X, X, X]));
    assert_eq!(4, max_usage(&[X]));
}

#[test]
fn usage_is_found_whatever_the_boundary() {
    for n in 1..40usize {
        for used in 0..=n {
            let mut stack = vec![COLOR; n];
            for word in &mut stack[n - used..] {
                *word = X;
            }
            assert_eq!(4 * used, max_usage(&stack));
        }
    }
}

#[test]
fn paints_every_word() {
    let mut memory = vec![0u32; 17];
    paint(&mut memory, COLOR);
    assert!(memory.iter().all(|w| *w == COLOR));
    assert_eq!(17, memory.len());
    assert_eq!(0, max_usage(&memory));
}

#[test]
fn usage_on_a_stack_that_is_not_prefix_painted() {
    // the binary search settles between the first two words
    assert_eq!(12, max_usage(&[COLOR, X, COLOR, X]));
}
