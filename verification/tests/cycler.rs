use reconnaissance::block_client::Cycler;

#[test]
fn cycler_hands_out_values_in_turn() {
    let mut c = Cycler::new(vec!["a", "b", "c"]);
    let got: Vec<&str> = (0..7).map(|_| *c.get()).collect();
    assert_eq!(got, vec!["a", "b", "c", "a", "b", "c", "a"]);
}

#[test]
fn cycler_with_one_value_always_returns_it() {
    let mut c = Cycler::new(vec![42u32]);
    for _ in 0..5 {
        assert_eq!(*c.get(), 42);
    }
}

#[test]
fn cycler_is_back_at_start_after_len_calls() {
    let mut c = Cycler::new(vec![1u8, 2, 3, 4]);
    c.get();
    let first = *c.get();
    for _ in 0..3 {
        c.get();
    }
    assert_eq!(*c.get(), first);
}

#[test]
fn cycler_visits_every_value_within_len_calls() {
    let values = vec![10u64, 20, 30, 40, 50];
    let mut c = Cycler::new(values.clone());
    c.get();
    c.get();
    let mut seen: Vec<u64> = (0..values.len()).map(|_| *c.get()).collect();
    seen.sort();
    assert_eq!(seen, values);
}
