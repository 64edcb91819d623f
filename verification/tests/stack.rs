use starry_task::auxv::{
    contains_kind, AuxEntry, AT_EXECFN, AT_NULL, AT_PAGESZ, AT_RANDOM,
};
use starry_task::stack::{app_stack_region, stack_fits};
use starry_task::words::{half_to_bytes, push_word, read_word, AlignedBytes};

const TOP: usize = 0x0400_0000_0000;

fn strings(list: &[&str]) -> Vec<String> {
    list.iter().map(|s| s.to_string()).collect()
}

fn word(image: &[u8], i: usize) -> usize {
    read_word(image, 8 * i) as usize
}

/// The string at the address `addr` of a stack that ends at `TOP`.
fn string_at(image: &[u8], addr: usize) -> String {
    let at = addr - (TOP - image.len());
    let end = at + image[at..].iter().position(|b| *b == 0).unwrap();
    String::from_utf8(image[at..end].to_vec()).unwrap()
}

#[test]
fn the_stack_presents_arguments_environment_and_auxv() {
    let args = strings(&["/bin/ls", "-l"]);
    let envs = strings(&["PATH=/usr/bin", "HOME=/", "LANG=\u{e9}"]);
    let auxv = vec![AuxEntry { kind: AT_PAGESZ, value: 4096 }];
    let image = app_stack_region(&args, &envs, &auxv, TOP);
    assert_eq!((TOP - image.len()) % 16, 0);

    assert_eq!(word(&image, 0), 2);
    assert_eq!(string_at(&image, word(&image, 1)), "/bin/ls");
    assert_eq!(string_at(&image, word(&image, 2)), "-l");
    assert_eq!(word(&image, 3), 0);
    assert_eq!(string_at(&image, word(&image, 4)), "PATH=/usr/bin");
    assert_eq!(string_at(&image, word(&image, 5)), "HOME=/");
    assert_eq!(string_at(&image, word(&image, 6)), "LANG=\u{e9}");
    assert_eq!(word(&image, 7), 0);
    let pairs: Vec<(usize, usize)> = (0..4)
        .map(|i| (word(&image, 8 + 2 * i), word(&image, 9 + 2 * i)))
        .collect();
    assert_eq!(pairs[0], (AT_PAGESZ, 4096));
    assert_eq!(pairs[1], (AT_RANDOM, TOP - 16));
    assert_eq!(pairs[2], (AT_EXECFN, word(&image, 1)));
    assert_eq!(pairs[3], (AT_NULL, 0));
    assert_eq!(&image[image.len() - 16..], b"0123456789abcdef");
}

#[test]
fn the_smallest_stack_is_known_byte_by_byte() {
    let args = strings(&["a"]);
    let image = app_stack_region(&args, &vec![], &vec![], TOP);
    let argv0 = (TOP - 18) as u64;
    let mut expected = Vec::new();
    for w in [1, argv0, 0, 0, 25, (TOP - 16) as u64, 31, argv0, 0, 0] {
        push_word(&mut expected, w);
    }
    // A null word, and fourteen less eight bytes to a multiple of sixteen.
    expected.extend_from_slice(&[0; 8 + 6]);
    expected.extend_from_slice(b"a\0");
    expected.extend_from_slice(b"0123456789abcdef");
    assert_eq!(image, expected);
    assert_eq!(image.len() % 16, 0);
}

#[test]
fn the_stack_pointer_is_aligned_for_all_counts() {
    for n in 0..6usize {
        for m in 0..6usize {
            let args: Vec<String> = (0..n + 1).map(|i| "x".repeat(i * 3)).collect();
            let envs: Vec<String> = (0..m).map(|i| "y".repeat(i * 5)).collect();
            let image = app_stack_region(&args, &envs, &vec![], TOP);
            assert_eq!((TOP - image.len()) % 16, 0);
        }
    }
}

#[test]
fn given_entries_are_not_added_again() {
    let args = strings(&["a"]);
    let auxv = vec![
        AuxEntry { kind: AT_RANDOM, value: 1 },
        AuxEntry { kind: AT_EXECFN, value: 2 },
    ];
    assert!(contains_kind(&auxv, AT_EXECFN));
    assert!(!contains_kind(&auxv, AT_NULL));
    let image = app_stack_region(&args, &vec![], &auxv, TOP);
    let words: Vec<usize> = (4..10).map(|i| word(&image, i)).collect();
    assert_eq!(words, vec![AT_RANDOM, 1, AT_EXECFN, 2, AT_NULL, 0]);
    // With a name given, there need be no argument.
    let none = app_stack_region(&vec![], &vec![], &auxv, TOP);
    assert_eq!(word(&none, 0), 0);
    assert_eq!((TOP - none.len()) % 16, 0);
}

#[test]
fn a_stack_that_is_too_small_is_noticed() {
    let args = strings(&["prog", "argument"]);
    let envs = strings(&["A=B"]);
    let auxv = vec![AuxEntry { kind: AT_PAGESZ, value: 4096 }];
    for sp in (0..4096usize).step_by(8) {
        if stack_fits(&args, &envs, &auxv, sp) {
            assert!(app_stack_region(&args, &envs, &auxv, sp).len() <= sp);
            assert!(sp >= 160);
        } else {
            assert!(sp < 256);
        }
    }
    assert!(stack_fits(&args, &envs, &auxv, TOP));
    assert!(!stack_fits(&vec![], &envs, &auxv, TOP));
}

#[test]
fn words_are_little_endian() {
    let mut bytes = Vec::new();
    push_word(&mut bytes, 0x0807_0605_0403_0201);
    assert_eq!(bytes, vec![1, 2, 3, 4, 5, 6, 7, 8]);
    assert_eq!(read_word(&bytes, 0), 0x0807_0605_0403_0201);
    assert_eq!(half_to_bytes(0x0403_0201), vec![1, 2, 3, 4]);
    let aligned = AlignedBytes::new(&[1, 2, 3, 4, 5, 6, 7, 8, 9]);
    assert_eq!(aligned.words, vec![0x0807_0605_0403_0201, 9]);
    assert_eq!(aligned.len, 9);
}
