use bloom::Bloom;

#[test]
fn inserted_keys_are_always_found() {
    let mut bloom = Bloom::with_seeds([1, 2, 3]);
    let keys: Vec<String> = (0..50).map(|n| format!("k{}", n)).collect();
    for (n, key) in keys.iter().enumerate() {
        assert_eq!(bloom.add(key), Ok(()));
        for earlier in keys[..=n].iter() {
            assert_eq!(bloom.has_key(earlier), true);
        }
    }
}

#[test]
fn inserted_keys_are_found_under_random_seeds() {
    let mut bloom = Bloom::new();
    for key in ["alpha", "beta", "gamma", ""] {
        assert_eq!(bloom.add(key), Ok(()));
    }
    for key in ["alpha", "beta", "gamma", ""] {
        assert_eq!(bloom.has_key(key), true);
        assert_eq!(bloom.try_has_key(key), Ok(true));
    }
}

#[test]
fn inserting_twice_changes_nothing() {
    let mut once = Bloom::with_seeds([1, 2, 3]);
    assert_eq!(once.add("key"), Ok(()));
    let after_first = format!("{:?}", once);
    assert_eq!(once.add("key"), Ok(()));
    assert_eq!(format!("{:?}", once), after_first);

    for index in 0..32 {
        let expected = index == 12 || index == 26 || index == 28;
        assert_eq!(once.has_bits(&[index, index, index]), expected);
    }
}

#[test]
fn a_new_filter_contains_nothing() {
    let fixed = Bloom::with_seeds([1, 2, 3]);
    let random = Bloom::new();
    for key in ["", "key", "def-not-a-key", "hello"] {
        assert_eq!(fixed.has_key(key), false);
        assert_eq!(random.has_key(key), false);
        assert_eq!(random.try_has_key(key), Ok(false));
    }
    for index in 0..32 {
        assert_eq!(fixed.has_bits(&[index, index, index]), false);
        assert_eq!(random.has_bits(&[index, index, index]), false);
    }
}

#[test]
fn a_key_never_inserted_can_be_answered_present() {
    // With 32 bits a few insertions are enough for a false positive: the
    // positions of "ar" are 12, 31 and 21, all set by the keys below.
    let mut bloom = Bloom::with_seeds([1, 2, 3]);
    for key in ["key", "hello", "another"] {
        assert_eq!(bloom.add(key), Ok(()));
    }
    assert_eq!(bloom.hash_key("ar"), Ok([12, 31, 21]));
    assert_eq!(bloom.has_key("ar"), true);
    // "def-not-a-key" selects 3, 27 and 22; 27 and 22 are still clear.
    assert_eq!(bloom.has_key("def-not-a-key"), false);
}

#[test]
fn insertion_sets_exactly_the_positions_of_the_key() {
    let mut bloom = Bloom::with_seeds([1, 2, 3]);
    assert_eq!(bloom.add("hello"), Ok(()));
    for index in 0..32 {
        let expected = index == 13 || index == 29 || index == 21;
        assert_eq!(bloom.has_bits(&[index, index, index]), expected);
    }
}

#[test]
fn insertion_keeps_the_seeds() {
    let mut bloom = Bloom::with_seeds([5, 6, 7]);
    assert_eq!(bloom.add("key"), Ok(()));
    assert_eq!(bloom.seeds(), [5, 6, 7]);
}

#[test]
fn set_bits_sets_the_first_and_the_last_bit() {
    let mut bloom = Bloom::with_seeds([1, 2, 3]);
    bloom.set_bits(&[0, 31, 5]);
    assert_eq!(bloom.has_bits(&[0, 31, 5]), true);
    assert_eq!(bloom.has_bits(&[31, 31, 0]), true);
    assert_eq!(bloom.has_bits(&[0, 1, 31]), false);
    assert_eq!(bloom.has_bits(&[30, 30, 30]), false);
    assert_eq!(format!("{:?}", bloom), "Bloom { data: [2147483681], hash_seeds: [1, 2, 3] }");
}

#[test]
fn set_bits_keeps_the_bits_that_were_set() {
    let mut bloom = Bloom::with_seeds([1, 2, 3]);
    bloom.set_bits(&[1, 2, 3]);
    bloom.set_bits(&[3, 4, 4]);
    for index in 0..32 {
        assert_eq!(bloom.has_bits(&[index, index, index]), 1 <= index && index <= 4);
    }
}

#[test]
fn separately_built_filters_draw_their_own_seeds() {
    let first = Bloom::new();
    let second = Bloom::new();
    // Equal only if three independent 32-bit draws repeat.
    assert_ne!(first.seeds(), second.seeds());
}
