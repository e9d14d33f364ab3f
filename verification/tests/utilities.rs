use xpmanager::errors::ErrorKind;
use xpmanager::utilities;
use xpmanager::utilities::PasswordSample;

fn paths(count: usize) -> Vec<String> {
    (0..count).map(|i| format!("file-{}.txt", i)).collect()
}

#[test]
fn get_sample() {
    let mut sample = utilities::get_sample(PasswordSample::Ascii);
    let ascii: Vec<char> = ('a'..='z')
        .chain('A'..='Z')
        .chain('0'..='9')
        .chain([
            '!', '@', '#', '$', '%', '^', '&', '(', ')', '-', '+', '=', '~', '[', ']', '{', '}',
            '/', '|', ':', ';', '?', ',', '.', '<', '>',
        ])
        .collect();
    let hex: Vec<char> = ('0'..='9').chain('A'..='F').collect();
    let no_sympols: Vec<char> = ('a'..='z').chain('A'..='Z').chain('0'..='9').collect();
    assert_eq!(sample, ascii, "ASCII samples NOT match!!");
    sample = utilities::get_sample(PasswordSample::Hex);
    assert_eq!(sample, hex, "HEX samples NOT match!!");
    sample = utilities::get_sample(PasswordSample::NoSymbols);
    assert_eq!(sample, no_sympols, "NoSymbols samples NOT match!!");
}

#[test]
fn get_ran_string_number() {
    let number_str = utilities::get_ran_string_number();
    let number = number_str
        .parse::<u8>()
        .expect("Can NOT parse the random number to u8!!");
    assert!(number >= 32 && number <= 72, "Random number NOT in (32 <= x <= 72)!!");
}

#[test]
fn random_numbers_stay_in_range_and_vary() {
    let mut seen = std::collections::BTreeSet::new();
    for _ in 0..400 {
        let text = utilities::get_ran_string_number();
        assert_eq!(text.len(), 2);
        let number = text.parse::<u8>().unwrap();
        assert!((32..=72).contains(&number));
        seen.insert(number);
    }
    assert!(seen.len() > 1);
}

#[test]
fn number_string_is_decimal() {
    assert_eq!(utilities::number_string(0), "0");
    assert_eq!(utilities::number_string(7), "7");
    assert_eq!(utilities::number_string(10), "10");
    assert_eq!(utilities::number_string(45), "45");
    assert_eq!(utilities::number_string(99), "99");
    assert_eq!(utilities::number_string(100), "100");
    assert_eq!(utilities::number_string(205), "205");
    assert_eq!(utilities::number_string(255), "255");
    for n in 0..=255u8 {
        assert_eq!(utilities::number_string(n), n.to_string());
    }
}

#[test]
fn sample_sizes() {
    assert_eq!(utilities::get_sample(PasswordSample::Ascii).len(), 88);
    assert_eq!(utilities::get_sample(PasswordSample::NoSymbols).len(), 62);
    assert_eq!(utilities::get_sample(PasswordSample::Hex).len(), 16);
    let hex: String = utilities::get_sample(PasswordSample::Hex).into_iter().collect();
    assert_eq!(hex, "0123456789ABCDEF");
}

#[test]
fn confirmation_code_is_six_nonzero_digits() {
    let mut seen = std::collections::BTreeSet::new();
    for _ in 0..50 {
        let code = utilities::confirmation_code();
        assert_eq!(code.chars().count(), 6);
        assert!(code.chars().all(|c| ('1'..='9').contains(&c)));
        seen.insert(code);
    }
    assert!(seen.len() > 1);
}

#[test]
fn confirm_accepts_the_code_only() {
    let code = "123456".to_string();
    assert_eq!(utilities::confirm(&code, &"123456".to_string()), Ok(()));
    assert_eq!(
        utilities::confirm(&code, &"123457".to_string()),
        Err(ErrorKind::ConfirmationNotMatch)
    );
    assert_eq!(
        utilities::confirm(&code, &String::new()),
        Err(ErrorKind::ConfirmationNotMatch)
    );
    assert_eq!(
        utilities::confirm(&code, &"1234567".to_string()),
        Err(ErrorKind::ConfirmationNotMatch)
    );
}

#[test]
fn partition_seven_paths_among_four_workers() {
    let list = paths(7);
    let slices = utilities::partition(&list, 4);
    let sizes: Vec<usize> = slices.iter().map(|s| s.len()).collect();
    assert_eq!(sizes, vec![2, 2, 2, 1]);
    assert_eq!(slices[0], vec!["file-0.txt".to_string(), "file-1.txt".to_string()]);
    assert_eq!(slices[3], vec!["file-6.txt".to_string()]);
    assert_eq!(slices.concat(), list);
}

#[test]
fn partition_three_paths_among_four_workers() {
    let list = paths(3);
    let slices = utilities::partition(&list, 4);
    assert_eq!(
        slices,
        vec![
            vec!["file-0.txt".to_string()],
            vec!["file-1.txt".to_string()],
            vec!["file-2.txt".to_string()],
        ]
    );
}

#[test]
fn partition_of_nothing_is_nothing() {
    assert!(utilities::partition(&Vec::new(), 1).is_empty());
    assert!(utilities::partition(&Vec::new(), 8).is_empty());
}

#[test]
fn partition_that_divides_evenly_has_no_empty_slice() {
    let list = paths(6);
    let slices = utilities::partition(&list, 4);
    let sizes: Vec<usize> = slices.iter().map(|s| s.len()).collect();
    assert_eq!(sizes, vec![2, 2, 2]);
    let list = paths(9);
    let slices = utilities::partition(&list, 4);
    let sizes: Vec<usize> = slices.iter().map(|s| s.len()).collect();
    assert_eq!(sizes, vec![3, 3, 3]);
    let list = paths(8);
    let slices = utilities::partition(&list, 4);
    let sizes: Vec<usize> = slices.iter().map(|s| s.len()).collect();
    assert_eq!(sizes, vec![2, 2, 2, 2]);
}

#[test]
fn partition_for_one_worker_is_one_slice() {
    let list = paths(5);
    assert_eq!(utilities::partition(&list, 1), vec![list.clone()]);
    let list = paths(1);
    assert_eq!(utilities::partition(&list, 1), vec![list.clone()]);
}

#[test]
fn partition_keeps_every_path_in_order() {
    for count in 0..40 {
        for workers in 1..12 {
            let list = paths(count);
            let slices = utilities::partition(&list, workers);
            assert_eq!(slices.concat(), list);
            assert!(slices.len() <= workers);
            assert!(slices.iter().all(|s| !s.is_empty()));
            let per = if count <= workers { 1 } else { (count + workers - 1) / workers };
            assert!(slices.iter().all(|s| s.len() <= per));
            if let Some((_, but_last)) = slices.split_last() {
                assert!(but_last.iter().all(|s| s.len() == per));
            }
        }
    }
}

#[test]
fn distribute_paths_keeps_every_path_in_order() {
    for count in [0usize, 1, 2, 3, 7, 64, 257] {
        let list = paths(count);
        let slices = utilities::distribute_paths(list.clone());
        assert_eq!(slices.concat(), list);
        assert!(slices.iter().all(|s| !s.is_empty()));
        assert!(slices.len() <= num_cpus::get().max(1));
        assert_eq!(slices, utilities::partition(&list, num_cpus::get().max(1)));
    }
}
