use terminux::text::{chars_of, key_lt, key_of_text, parse_u16, push_decimal, rank};

#[test]
fn chars_of_gives_the_code_points() {
    assert_eq!(chars_of(""), Vec::<char>::new());
    assert_eq!(chars_of("aß€"), vec!['a', 'ß', '€']);
    assert_eq!(key_of_text("aZ"), vec![97, 90]);
    assert_eq!(key_of_text("é"), vec![233]);
}

#[test]
fn decimal_is_what_the_standard_library_writes() {
    for n in [0u64, 1, 9, 10, 11, 22, 99, 100, 101, 2222, 65535, 1_000_000, u64::MAX] {
        let mut out = String::from("n=");
        push_decimal(&mut out, n);
        assert_eq!(out, format!("n={}", n));
    }
}

#[test]
fn parse_u16_reads_what_the_standard_library_reads() {
    let texts = [
        "", "0", "1", "22", "0022", "65535", "65536", "99999", "100000", "4294967318",
        "18446744073709551638", "+", "+1", "+65535", "+65536", "++1", "-", "-1", "-0", " 1",
        "1 ", "1a", "a1", "0x10", "1.0", "１２", "٣", "8080", "+0", "00000000000000000000001",
    ];
    for text in texts {
        assert_eq!(parse_u16(text), text.parse::<u16>().ok(), "{:?}", text);
    }
    assert_eq!(parse_u16("22"), Some(22));
    assert_eq!(parse_u16("65536"), None);
    assert_eq!(parse_u16("ssh"), None);
}

#[test]
fn keys_compare_lexicographically() {
    let cases: [(&[u32], &[u32]); 8] = [
        (&[], &[]),
        (&[], &[0]),
        (&[0], &[]),
        (&[1, 2], &[1, 2]),
        (&[1, 2], &[1, 3]),
        (&[1, 2], &[1, 2, 0]),
        (&[2], &[1, 9, 9]),
        (&[u32::MAX], &[0, 0]),
    ];
    for (a, b) in cases {
        assert_eq!(key_lt(&a.to_vec(), &b.to_vec()), a < b, "{:?} < {:?}", a, b);
        assert_eq!(key_lt(&b.to_vec(), &a.to_vec()), b < a, "{:?} < {:?}", b, a);
    }
}

#[test]
fn rank_orders_positions_by_key_and_keeps_ties() {
    assert_eq!(rank(&Vec::new()), Vec::<usize>::new());
    assert_eq!(rank(&vec![vec![5]]), vec![0]);
    let keys = vec![vec![3], vec![1], vec![2], vec![1], vec![], vec![1, 0], vec![3]];
    assert_eq!(rank(&keys), vec![4, 1, 3, 5, 2, 0, 6]);
    let same = vec![vec![7]; 5];
    assert_eq!(rank(&same), vec![0, 1, 2, 3, 4]);
    let descending: Vec<Vec<u32>> = (0..50u32).rev().map(|n| vec![n]).collect();
    assert_eq!(rank(&descending), (0..50usize).rev().collect::<Vec<usize>>());
}
