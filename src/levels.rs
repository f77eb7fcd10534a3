//! The table of levels: for each, a target outline and the two player halves
//! that tile it when placed at the target's transform.
use vstd::prelude::*;
use crate::geometry::LocalPoint;

verus! {

/// The three polygons of one level, in local coordinates.
pub struct LevelData {
    /// Target shape to tile onto.
    pub target: Vec<LocalPoint>,
    /// Shape of the first player.
    pub player1: Vec<LocalPoint>,
    /// Shape of the second player.
    pub player2: Vec<LocalPoint>,
}

/// Number of levels in the table.
pub const LEVEL_COUNT: usize = 1;

pub open spec fn lp(x: int, y: int) -> LocalPoint {
    LocalPoint { x: x as i32, y: y as i32 }
}

/// Outline of the first level's target: an isosceles triangle.
pub open spec fn first_target() -> Seq<LocalPoint> {
    seq![lp(0, 1000), lp(-1000, 0), lp(1000, 0), lp(0, 1000)]
}

/// Left half of the first level's target, with a notch cut into its
/// right edge.
pub open spec fn first_player1() -> Seq<LocalPoint> {
    seq![
        lp(0, 1000), lp(-1000, 0), lp(0, 0), lp(0, 300),
        lp(-300, 300), lp(-300, 600), lp(0, 600), lp(0, 1000),
    ]
}

/// Right half of the first level's target, with the tab that fills the
/// notch of the left half.
pub open spec fn first_player2() -> Seq<LocalPoint> {
    seq![
        lp(0, 1000), lp(1000, 0), lp(0, 0), lp(0, 300),
        lp(-300, 300), lp(-300, 600), lp(0, 600), lp(0, 1000),
    ]
}

impl LevelData {
    /// The polygons are those of level `index` of the table.
    pub open spec fn is_level(&self, index: int) -> bool {
        index == 0 && self.target@ == first_target() && self.player1@ == first_player1()
            && self.player2@ == first_player2()
    }
}

fn point(x: i32, y: i32) -> (r: LocalPoint)
    ensures
        r == lp(x as int, y as int),
{
    LocalPoint { x, y }
}

fn first_level() -> (r: LevelData)
    ensures
        r.is_level(0),
{
    let target = vec![point(0, 1000), point(-1000, 0), point(1000, 0), point(0, 1000)];
    let player1 = vec![
        point(0, 1000), point(-1000, 0), point(0, 0), point(0, 300),
        point(-300, 300), point(-300, 600), point(0, 600), point(0, 1000),
    ];
    let player2 = vec![
        point(0, 1000), point(1000, 0), point(0, 0), point(0, 300),
        point(-300, 300), point(-300, 600), point(0, 600), point(0, 1000),
    ];
    assert(target@ == first_target());
    assert(player1@ == first_player1());
    assert(player2@ == first_player2());
    LevelData { target, player1, player2 }
}

/// Generates the target and the two player shapes of every level, in order.
pub fn generate_levels() -> (r: Vec<LevelData>)
    ensures
        r@.len() == LEVEL_COUNT,
        forall|i: int| 0 <= i < r@.len() ==> #[trigger] r@[i].is_level(i),
{
    let mut levels: Vec<LevelData> = Vec::new();
    levels.push(first_level());
    levels
}

/// Generates the shapes of level `index`, or `None` past the end of the table.
pub fn generate_level(index: usize) -> (r: Option<LevelData>)
    ensures
        index < LEVEL_COUNT <==> r.is_some(),
        r matches Some(l) ==> l.is_level(index as int),
{
    if index == 0 {
        Some(first_level())
    } else {
        None
    }
}

/// Generating a level twice gives the same polygons, point for point.
pub proof fn lemma_level_generation_deterministic(index: int, a: LevelData, b: LevelData)
    requires
        a.is_level(index),
        b.is_level(index),
    ensures
        a.target@ == b.target@,
        a.player1@ == b.player1@,
        a.player2@ == b.player2@,
{
}

} // verus!
