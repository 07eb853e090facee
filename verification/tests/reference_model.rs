use proptest::collection;
use proptest::prelude::{any, Strategy};
use proptest::test_runner::{Config, TestCaseError, TestRunner};
use rt_ring::ring::{available_between, round_capacity};
use std::collections::VecDeque;

/// One operation of a run: `Some(bits)` pushes `bits`, `None` pops.
fn op_strategy() -> impl Strategy<Value = Option<u32>> {
    (any::<bool>(), any::<u32>()).prop_map(|(push, v)| if push { Some(v) } else { None })
}

fn check_against_reference(capacity: usize, ops: &[Option<u32>]) -> Result<(), TestCaseError> {
    let (p, c) = rt_ring::new(capacity);
    let actual_cap = p.capacity();
    let mut reference: VecDeque<u32> = VecDeque::new();
    let mut pushed: u64 = 0;
    let mut popped: u64 = 0;
    for op in ops {
        match op {
            Some(val) => {
                p.push(*val);
                pushed += 1;
                reference.push_back(*val);
                while reference.len() > actual_cap {
                    reference.pop_front();
                }
            }
            None => {
                let got = c.pop();
                let expected = reference.pop_front();
                if got.is_some() {
                    popped += 1;
                }
                if got != expected {
                    return Err(TestCaseError::fail(format!("pop mismatch: got {:?}, expected {:?}", got, expected)));
                }
            }
        }
        if c.available() != reference.len() || c.available() > actual_cap {
            return Err(TestCaseError::fail("available disagrees with the reference"));
        }
        if c.overwrite_count() + popped + c.available() as u64 != pushed {
            return Err(TestCaseError::fail("accounting invariant broken"));
        }
    }
    Ok(())
}

#[test]
fn matches_reference_model() {
    let mut runner = TestRunner::new(Config::with_cases(10_000));
    let strategy = (1usize..=64, collection::vec(op_strategy(), 0..=500));
    runner
        .run(&strategy, |(capacity, ops)| check_against_reference(capacity, &ops))
        .unwrap();
}

/// The byte-driven scenario of the fuzz target, on fixed inputs: the first
/// byte picks the capacity, then an even byte pushes the next byte and an
/// odd byte pops.
fn run_bytes(data: &[u8]) {
    if data.is_empty() {
        return;
    }
    let capacity = (data[0] as usize % 64) + 1;
    let mut ops: Vec<Option<u32>> = Vec::new();
    let mut i: usize = 1;
    while i < data.len() {
        if data[i] % 2 == 0 {
            i += 1;
            let val: f32 = if i < data.len() { data[i] as f32 } else { 0.0 };
            ops.push(Some(val.to_bits()));
        } else {
            ops.push(None);
        }
        i += 1;
    }
    check_against_reference(capacity, &ops).unwrap();
}

#[test]
fn byte_driven_push_pop_matches_reference() {
    run_bytes(&[]);
    run_bytes(&[0, 2, 7, 1, 1, 1]);
    run_bytes(&[3, 0, 1, 0, 2, 0, 3, 0, 4, 0, 5, 0, 6, 1, 1, 1, 1, 1, 1]);
    let long: Vec<u8> = (0..4000u32).map(|i| ((i * 37 + 11) % 256) as u8).collect();
    run_bytes(&long);
    run_bytes(&[63, 4]);
}

#[test]
fn round_capacity_is_next_power_of_two() {
    assert_eq!(round_capacity(0), 1);
    assert_eq!(round_capacity(1), 1);
    assert_eq!(round_capacity(2), 2);
    assert_eq!(round_capacity(3), 4);
    assert_eq!(round_capacity(5), 8);
    assert_eq!(round_capacity(8), 8);
    assert_eq!(round_capacity(1000), 1024);
    assert_eq!(round_capacity(usize::MAX / 2 + 1), usize::MAX / 2 + 1);
}

#[test]
fn available_between_saturates() {
    assert_eq!(available_between(10, 4), 6);
    assert_eq!(available_between(4, 4), 0);
    assert_eq!(available_between(3, 4), 0);
}

#[test]
fn accounting_holds_on_a_concrete_run() {
    let (p, c) = rt_ring::new(3);
    let mut popped: u64 = 0;
    for i in 0..20u32 {
        p.push(i);
        if i % 3 == 0 && c.pop().is_some() {
            popped += 1;
        }
    }
    assert_eq!(c.overwrite_count() + popped + c.available() as u64, 20);
    assert!(c.available() <= c.capacity());
}

#[test]
fn popped_values_keep_push_order_across_overwrites() {
    let (p, c) = rt_ring::new(1);
    p.push(0);
    assert_eq!(c.pop(), Some(0));
    for i in 1..5u32 {
        p.push(i);
    }
    // Values 1, 2 and 3 were overwritten: a gap of three with capacity one.
    assert_eq!(c.pop(), Some(4));
    assert_eq!(c.overwrite_count(), 3);
}
