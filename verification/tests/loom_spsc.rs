use loom::model::Builder;
use loom::thread;

fn assert_monotonic(vals: &[usize]) {
    for w in vals.windows(2) {
        assert!(w[1] > w[0], "non-monotonic sequence: {:?}", vals);
    }
}

fn as_index(sample_bits: u32) -> usize {
    f32::from_bits(sample_bits) as usize
}

#[test]
fn loom_small_interleavings_accounting_and_order() {
    let mut builder = Builder::new();
    builder.max_permutations = Some(5_000);

    builder.check(|| {
        let capacity: usize = 4;
        let pushed: usize = 6;
        let (p, c) = rt_ring::new(capacity);

        let producer = thread::spawn(move || {
            for i in 0..pushed {
                p.push((i as f32).to_bits());
                thread::yield_now();
            }
        });

        let consumer = thread::spawn(move || {
            let mut out = Vec::new();
            for _ in 0..pushed {
                if let Some(v) = c.pop() {
                    out.push(as_index(v));
                }
                thread::yield_now();
            }
            (c, out)
        });

        producer.join().unwrap();
        let (c, mut out) = consumer.join().unwrap();

        while let Some(v) = c.pop() {
            out.push(as_index(v));
        }

        assert_monotonic(&out);
        let overwrites = c.overwrite_count() as usize;
        assert_eq!(
            out.len() + overwrites,
            pushed,
            "accounting mismatch: popped={} overwrites={} pushed={}",
            out.len(),
            overwrites,
            pushed
        );
        assert!(c.available() <= c.capacity());
    });
}

#[test]
fn loom_capacity_one_keeps_latest_value() {
    let mut builder = Builder::new();
    builder.max_permutations = Some(2_000);

    builder.check(|| {
        let (p, c) = rt_ring::new(1);

        let producer = thread::spawn(move || {
            p.push(10.0f32.to_bits());
            thread::yield_now();
            p.push(11.0f32.to_bits());
            thread::yield_now();
            p.push(12.0f32.to_bits());
        });

        let consumer = thread::spawn(move || {
            let mut seen = Vec::new();
            for _ in 0..3 {
                if let Some(v) = c.pop() {
                    seen.push(as_index(v));
                }
                thread::yield_now();
            }
            (c, seen)
        });

        producer.join().unwrap();
        let (c, mut seen) = consumer.join().unwrap();
        while let Some(v) = c.pop() {
            seen.push(as_index(v));
        }

        assert_monotonic(&seen);
        let overwrites = c.overwrite_count() as usize;
        assert_eq!(seen.len() + overwrites, 3);
        assert!(seen.last().copied().unwrap_or(12) <= 12);
    });
}
