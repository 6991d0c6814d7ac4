use identicon_service::color::Rgb;
use identicon_service::pattern::generate;

#[test]
fn generation_is_deterministic() {
    let a = generate("some seed", 5);
    let b = generate("some seed", 5);
    assert_eq!(a.size, b.size);
    assert_eq!(a.cells, b.cells);
    assert_eq!(a.foreground, b.foreground);
    assert_eq!(a.background, b.background);
}

#[test]
fn different_seeds_may_differ() {
    // Not a guarantee for every pair, but these two seeds must not share
    // both pattern and color unless SHA-512 collides on them.
    let a = generate("alpha", 8);
    let b = generate("omega", 8);
    assert!(a.cells != b.cells || a.foreground != b.foreground);
}

#[test]
fn grid_is_left_right_symmetric() {
    for seed in ["magic", "test", "x"] {
        for size in [1u32, 2, 3, 5, 6, 16] {
            let g = generate(seed, size);
            let n = size as usize;
            assert_eq!(g.cells.len(), n * n);
            for row in 0..n {
                for col in 0..n {
                    assert_eq!(
                        g.cells[row * n + col],
                        g.cells[row * n + (n - 1 - col)],
                        "asymmetry at seed {seed} size {size} ({row},{col})"
                    );
                }
            }
        }
    }
}

#[test]
fn digest_spreads_over_the_grid() {
    // A single-character seed still yields a varied pattern, because the
    // cells draw on a full 64-byte digest, not on the seed bytes.
    let g = generate("a", 16);
    let any_on = g.cells.iter().any(|c| *c);
    let any_off = g.cells.iter().any(|c| !*c);
    assert!(any_on && any_off);
}

#[test]
fn size_zero_gives_empty_grid() {
    let g = generate("anything", 0);
    assert_eq!(g.size, 0);
    assert_eq!(g.cells.len(), 0);
}

#[test]
fn foreground_distinct_from_background() {
    for seed in ["a", "b", "magic", "test", "0123456789"] {
        let g = generate(seed, 5);
        assert_eq!(g.background, Rgb { r: 240, g: 240, b: 240 });
        assert_ne!(g.foreground, g.background);
    }
}
