use half_shapes::geometry::LocalPoint;
use half_shapes::levels::{generate_level, generate_levels, LEVEL_COUNT};

fn pts(v: &[(i32, i32)]) -> Vec<LocalPoint> {
    v.iter().map(|&(x, y)| LocalPoint { x, y }).collect()
}

#[test]
fn first_level_shapes() {
    let levels = generate_levels();
    assert_eq!(levels.len(), LEVEL_COUNT);
    let l = &levels[0];
    assert_eq!(l.target, pts(&[(0, 1000), (-1000, 0), (1000, 0), (0, 1000)]));
    assert_eq!(
        l.player1,
        pts(&[(0, 1000), (-1000, 0), (0, 0), (0, 300), (-300, 300), (-300, 600), (0, 600), (0, 1000)])
    );
    assert_eq!(
        l.player2,
        pts(&[(0, 1000), (1000, 0), (0, 0), (0, 300), (-300, 300), (-300, 600), (0, 600), (0, 1000)])
    );
}

#[test]
fn level_generation_is_deterministic() {
    let a = generate_level(0).unwrap();
    let b = generate_level(0).unwrap();
    assert_eq!(a.target.len(), b.target.len());
    assert_eq!(a.target, b.target);
    assert_eq!(a.player1, b.player1);
    assert_eq!(a.player2, b.player2);
    let c = generate_levels().pop().unwrap();
    assert_eq!(a.target, c.target);
    assert_eq!(a.player1, c.player1);
    assert_eq!(a.player2, c.player2);
}

#[test]
fn levels_past_the_table_are_absent() {
    assert!(generate_level(1).is_none());
    assert!(generate_level(usize::MAX).is_none());
}

#[test]
fn shapes_are_closed_loops() {
    let l = generate_level(0).unwrap();
    for shape in [&l.target, &l.player1, &l.player2] {
        assert_eq!(shape.first(), shape.last());
    }
}
