use rust_cred_gen::alphabet::Alphabet;
use rust_cred_gen::resources::{get_adjs, get_file, get_nouns};
use rust_cred_gen::username::{title_case, Username};
use rust_cred_gen::username::SizeType;
use rust_cred_gen::utils::{index_err, CredError, IndexGen};

fn words(ws: &[&str]) -> Vec<String> {
    ws.iter().map(|w| w.to_string()).collect()
}

#[test]
fn index_gen_same_seed_same_draws() {
    let mut a = IndexGen::new(12345);
    let mut b = IndexGen::new(12345);
    for i in 1..200u32 {
        let x = a.gen_index(i);
        let y = b.gen_index(i);
        assert_eq!(x, y);
        assert!(x < i as usize);
    }
}

#[test]
fn index_gen_seed_42_first_draws() {
    let mut g = IndexGen::new(42);
    let got: Vec<usize> = (0..4).map(|_| g.gen_index(2)).collect();
    assert_eq!(got, vec![0, 1, 1, 1]);
}

#[test]
fn index_gen_full_range_word() {
    let mut g = IndexGen::new(42);
    assert_eq!(g.gen_index(u32::MAX), 3618982008usize);
}

#[test]
fn index_gen_different_seeds_differ() {
    let mut a = IndexGen::new(1);
    let mut b = IndexGen::new(2);
    let xs: Vec<usize> = (0..16).map(|_| a.gen_index(1000)).collect();
    let ys: Vec<usize> = (0..16).map(|_| b.gen_index(1000)).collect();
    assert_ne!(xs, ys);
}

#[test]
fn index_err_message() {
    assert_eq!(index_err("nouns"), "Could not fetch index from nouns");
}

#[test]
fn title_case_capitalizes_first() {
    assert_eq!(title_case("big".to_string()).unwrap(), "Big");
    assert_eq!(title_case("fOX".to_string()).unwrap(), "FOX");
    assert_eq!(title_case("élan".to_string()).unwrap(), "Élan");
}

#[test]
fn title_case_ascii_non_letter_kept() {
    assert_eq!(title_case(" -x".to_string()).unwrap(), "-x");
    assert_eq!(title_case("Zebra".to_string()).unwrap(), "Zebra");
}

#[test]
fn title_case_strips_spaces() {
    assert_eq!(title_case("  fast fox ".to_string()).unwrap(), "Fastfox");
}

#[test]
fn title_case_empty_and_blank() {
    assert_eq!(title_case(String::new()).unwrap(), "");
    assert_eq!(title_case("   ".to_string()).unwrap(), "");
}

#[test]
fn title_case_non_letter_first() {
    assert_eq!(title_case("7up".to_string()).unwrap(), "7up");
}

#[test]
fn title_case_multi_char_uppercase_fails() {
    assert!(matches!(title_case("ßa".to_string()), Err(CredError::Conversion)));
}

#[test]
fn title_case_twice_same_as_once() {
    for w in ["red", " big dog", "cat", "Élan"] {
        let once = title_case(w.to_string()).unwrap();
        let twice = title_case(once.clone()).unwrap();
        assert_eq!(once, twice);
    }
}

#[test]
fn username_seed_42() {
    let mut u = Username::new(42, words(&["cat", "dog"]), words(&["big", "red"]));
    u.make_username().unwrap();
    assert_eq!(u.un, "RedCat");
}

#[test]
fn username_single_words() {
    for seed in [0u64, 1, 42, 99, u64::MAX] {
        let mut u = Username::new(seed, words(&["fox"]), words(&["fast"]));
        u.make_username().unwrap();
        assert_eq!(u.un, "FastFox");
        let mut a = Alphabet::new(seed);
        a.make_password(8).unwrap();
        assert_eq!(a.pw.chars().count(), 8);
    }
}

#[test]
fn username_shape() {
    let nouns = words(&["cat", "dog", "sea lion", "owl"]);
    let adjs = words(&["big", "very red", "old"]);
    for seed in 0..50u64 {
        let mut u = Username::new(seed, nouns.clone(), adjs.clone());
        u.make_username().unwrap();
        assert!(!u.un.contains(' '));
        assert!(u.un.chars().next().unwrap().is_ascii_uppercase());
    }
}

#[test]
fn username_same_seed_same_name() {
    let nouns = words(&["cat", "dog", "owl", "elk", "yak"]);
    let adjs = words(&["big", "red", "old", "shy"]);
    let mut a = Username::new(7, nouns.clone(), adjs.clone());
    let mut b = Username::new(7, nouns, adjs);
    a.make_username().unwrap();
    b.make_username().unwrap();
    assert_eq!(a.un, b.un);
}

#[test]
fn username_empty_nouns() {
    let mut u = Username::new(1, Vec::new(), words(&["big"]));
    assert!(matches!(u.make_username(), Err(CredError::Lookup(SizeType::NounSize))));
    assert_eq!(u.un, "");
}

#[test]
fn username_empty_adjs() {
    let mut u = Username::new(1, words(&["cat"]), Vec::new());
    assert!(matches!(u.make_username(), Err(CredError::Lookup(SizeType::AdjSize))));
    assert_eq!(u.un, "");
}

#[test]
fn username_conversion_error() {
    let mut u = Username::new(1, words(&["ßa"]), words(&["big"]));
    assert!(matches!(u.make_username(), Err(CredError::Conversion)));
}

#[test]
fn create_pw_seed_42() {
    let mut a = Alphabet::new(42);
    assert_eq!(a.create_pw(8), "u5jJxHuI");
    assert_eq!(a.create_pw(0), "");
}

#[test]
fn password_seed_42_length_8() {
    let mut a = Alphabet::new(42);
    a.make_password(8).unwrap();
    assert_eq!(a.pw, "WfF.7OgD");
}

#[test]
fn password_seed_42_length_12() {
    let mut a = Alphabet::new(42);
    a.make_password(12).unwrap();
    assert_eq!(a.pw, "u5jJxHuIRD%*");
}

#[test]
fn password_shortest_length() {
    let mut a = Alphabet::new(7);
    a.make_password(4).unwrap();
    assert_eq!(a.pw, ";1Wi");
}

#[test]
fn password_properties() {
    let alphabet: Vec<char> = "0123456789!\"#$%&()*+,-.:;<=>?@ABCDEFGHIJKLMNOPQRSTUVWXYZabcdefghijklmnopqrstuvwxyz"
        .chars()
        .collect();
    assert_eq!(alphabet.len(), 82);
    for seed in 0..40u64 {
        for length in [4u32, 5, 8, 16, 64] {
            let mut a = Alphabet::new(seed);
            a.make_password(length).unwrap();
            assert_eq!(a.pw.chars().count(), length as usize);
            assert!(a.pw.chars().all(|c| alphabet.contains(&c)));
            assert!(a.pw.chars().any(|c| c.is_ascii_digit()));
            assert!(a.pw.chars().any(|c| c.is_ascii_uppercase()));
            assert!(a.pw.chars().any(|c| c.is_ascii_lowercase()));
            assert!(a.pw.chars().any(|c| !c.is_alphanumeric()));
        }
    }
}

#[test]
fn password_zero_length_refused() {
    let mut a = Alphabet::new(42);
    assert!(matches!(a.make_password(0), Err(CredError::PasswordTooShort(0))));
    assert_eq!(a.pw, "");
}

#[test]
fn password_too_short_refused() {
    let mut a = Alphabet::new(42);
    assert!(matches!(a.make_password(3), Err(CredError::PasswordTooShort(3))));
}

#[test]
fn check_pw_reqs_cases() {
    assert!(Alphabet::check_pw_reqs("aA1!"));
    assert!(!Alphabet::check_pw_reqs("aA1b"));
    assert!(!Alphabet::check_pw_reqs("aa1!"));
    assert!(!Alphabet::check_pw_reqs("AA1!"));
    assert!(!Alphabet::check_pw_reqs("aAb!"));
    assert!(!Alphabet::check_pw_reqs(""));
}

#[test]
fn check_pw_reqs_unicode_classes() {
    assert!(Alphabet::check_pw_reqs("1Éa!"));
    assert!(Alphabet::check_pw_reqs("1Aé!"));
    assert!(!Alphabet::check_pw_reqs("²Aa!"));
    assert!(!Alphabet::check_pw_reqs("\u{0663}Aa!"));
}

#[test]
fn check_pw_reqs_three_chars_never_pass() {
    for s in ["aA1", "a1!", "A!1", "!!!", "aA!"] {
        assert!(!Alphabet::check_pw_reqs(s));
    }
}

#[test]
fn get_file_splits_lines() {
    let ws = get_file("list", Some(b"cat\ndog\n".to_vec())).unwrap();
    assert_eq!(ws, words(&["cat", "dog"]));
}

#[test]
fn get_file_latin1_bytes() {
    let ws = get_file("list", Some(vec![0xE9, b'l', b'a', b'n'])).unwrap();
    assert_eq!(ws, words(&["élan"]));
}

#[test]
fn get_file_empty_data() {
    match get_file("list", Some(Vec::new())) {
        Err(CredError::EmptyResource(n)) => assert_eq!(n, "list"),
        _ => panic!("expected an empty resource"),
    }
}

#[test]
fn get_file_skips_blank_lines() {
    let ws = get_file("list", Some(b"\n\ncat\n\n\ndog\n\n".to_vec())).unwrap();
    assert_eq!(ws, words(&["cat", "dog"]));
    match get_file("list", Some(b"\n".to_vec())) {
        Err(CredError::EmptyResource(n)) => assert_eq!(n, "list"),
        _ => panic!("expected an empty resource"),
    }
}

#[test]
fn get_nouns_blank_only() {
    match get_nouns(Some(b"\n\n\n".to_vec())) {
        Err(CredError::EmptyResource(n)) => assert_eq!(n, "nouns"),
        _ => panic!("expected an empty resource"),
    }
}

#[test]
fn get_nouns_missing() {
    match get_nouns(None) {
        Err(CredError::MissingResource(n)) => assert_eq!(n, "nouns"),
        _ => panic!("expected a missing resource"),
    }
}

#[test]
fn get_adjs_missing() {
    match get_adjs(None) {
        Err(CredError::MissingResource(n)) => assert_eq!(n, "adjectives"),
        _ => panic!("expected a missing resource"),
    }
}

#[test]
fn get_adjs_present() {
    let ws = get_adjs(Some(b"big\nred".to_vec())).unwrap();
    assert_eq!(ws, words(&["big", "red"]));
}
