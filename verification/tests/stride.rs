use fourier::stride::{element, store};
use fourier::Stride;

#[test]
fn full_covers_a_buffer_in_order() {
    let v = Stride::full(5);
    assert_eq!(v.length, 5);
    for i in 0..5 {
        assert_eq!(v.position(i), i);
    }
}

#[test]
fn split_at_partitions_the_view() {
    let v = Stride { offset: 3, length: 6, step: 2 };
    let (left, right) = v.split_at(2);
    assert_eq!(left.length, 2);
    assert_eq!(right.length, 4);
    let mut seen: Vec<usize> = (0..left.length)
        .map(|i| left.position(i))
        .chain((0..right.length).map(|i| right.position(i)))
        .collect();
    let parent: Vec<usize> = (0..v.length).map(|i| v.position(i)).collect();
    seen.sort();
    assert_eq!(seen, parent);
}

#[test]
fn alternating_split_never_shares_an_index() {
    for length in [2usize, 4, 6, 8, 10, 12, 14, 16] {
        for offset in 0..3usize {
            for step in 1..4usize {
                let v = Stride { offset, length, step };
                let (evens, odds) = v.decimate();
                let even_positions: Vec<usize> =
                    (0..evens.length).map(|i| evens.position(i)).collect();
                let odd_positions: Vec<usize> =
                    (0..odds.length).map(|i| odds.position(i)).collect();
                for e in &even_positions {
                    assert!(
                        !odd_positions.contains(e),
                        "views alias at {e} for offset {offset}, length {length}, step {step}"
                    );
                }
            }
        }
    }
}

#[test]
fn writes_through_one_part_never_reach_the_other() {
    for length in [2usize, 4, 6, 8] {
        for offset in 0..3usize {
            for step in 1..4usize {
                let v = Stride { offset, length, step };
                let size = offset + (length - 1) * step + 1;
                let mut buffer: Vec<u64> = (0..size as u64).collect();
                let (evens, odds) = v.decimate();
                let before: Vec<u64> = (0..odds.length)
                    .map(|i| *element(&buffer, odds, i))
                    .collect();
                for i in 0..evens.length {
                    store(&mut buffer, evens, i, 1_000_000 + i as u64);
                }
                for i in 0..odds.length {
                    assert_eq!(*element(&buffer, odds, i), before[i]);
                }
                for i in 0..evens.length {
                    assert_eq!(*element(&buffer, evens, i), 1_000_000 + i as u64);
                }
            }
        }
    }
}
