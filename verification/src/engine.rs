//! Frame bookkeeping of the Carbon engine and the scene it starts with.

use vstd::prelude::*;
use crate::scene::{Group, Rectangle, RenderNode, SceneGraph};

verus! {

/// Number of columns of the grid of tiles that the "disco" demo paints.
pub const DISCO_COLUMNS: u32 = 20;

/// Number of rows of the grid of tiles that the "disco" demo paints.
pub const DISCO_ROWS: u32 = 12;

/// The count of frames that the engine has produced.
pub struct FrameCounter {
    pub frames_elapsed: u32,
}

impl FrameCounter {
    /// No frame yet.
    pub fn new() -> (r: Self)
        ensures
            r.frames_elapsed == 0,
    {
        FrameCounter { frames_elapsed: 0 }
    }

    /// Counts one more frame; the count must not be at its maximum.
    pub fn advance(&mut self)
        requires
            old(self).frames_elapsed < u32::MAX,
        ensures
            final(self).frames_elapsed == old(self).frames_elapsed + 1,
    {
        self.frames_elapsed = self.frames_elapsed + 1;
    }
}

/// The hue, in degrees, of the background of the frame that follows
/// `frames_elapsed` frames: two degrees per frame, around the color wheel.
pub open spec fn spec_disco_hue(frames_elapsed: u32) -> int {
    ((frames_elapsed + 1) * 2) % 360
}

/// The hue of the background of the next "disco" frame.
pub fn disco_hue(frames_elapsed: u32) -> (r: u32)
    requires
        frames_elapsed < u32::MAX,
    ensures
        r == spec_disco_hue(frames_elapsed),
        r < 360,
{
    (((frames_elapsed as u64 + 1) * 2) % 360) as u32
}

/// The hue of the tiles: the background hue turned half way around the color
/// wheel.
pub fn phased_hue(hue: u32) -> (r: u32)
    requires
        hue < 360,
    ensures
        r == (hue + 180) % 360,
        r < 360,
        (r + 180) % 360 == hue,
{
    (hue + 180) % 360
}

/// The tiles of the "disco" grid, column by column and, within a column, row
/// by row: tile `k` is column `k / DISCO_ROWS`, row `k % DISCO_ROWS`.
pub fn disco_tiles() -> (r: Vec<(u32, u32)>)
    ensures
        r@.len() == DISCO_COLUMNS * DISCO_ROWS,
        forall|k: int|
            0 <= k < r@.len() ==> #[trigger] r@[k] == ((k / DISCO_ROWS as int) as u32, (k
                % DISCO_ROWS as int) as u32),
{
    let mut tiles: Vec<(u32, u32)> = Vec::new();
    let mut x: u32 = 0;
    while x < DISCO_COLUMNS
        invariant
            x <= DISCO_COLUMNS,
            tiles@.len() == x * DISCO_ROWS,
            forall|k: int|
                0 <= k < tiles@.len() ==> #[trigger] tiles@[k] == ((k / DISCO_ROWS as int) as u32,
                    (k % DISCO_ROWS as int) as u32),
        decreases DISCO_COLUMNS - x,
    {
        let mut y: u32 = 0;
        while y < DISCO_ROWS
            invariant
                x < DISCO_COLUMNS,
                y <= DISCO_ROWS,
                tiles@.len() == x * DISCO_ROWS + y,
                forall|k: int|
                    0 <= k < tiles@.len() ==> #[trigger] tiles@[k] == ((k / DISCO_ROWS as int) as u32,
                        (k % DISCO_ROWS as int) as u32),
            decreases DISCO_ROWS - y,
        {
            let ghost k = tiles@.len() as int;
            tiles.push((x, y));
            assert(k / DISCO_ROWS as int == x && k % DISCO_ROWS as int == y);
            y = y + 1;
        }
        x = x + 1;
    }
    tiles
}

/// `node` is a group with the given id and payload and `n` children.
pub open spec fn is_group_node<P>(node: RenderNode<P>, id: Seq<char>, props: P, n: nat) -> bool {
    node matches RenderNode::Group(g) && g.id@ == id && g.props == props && g.children@.len() == n
}

/// `node` is a rectangle with the given id and payload.
pub open spec fn is_rectangle_node<P>(node: RenderNode<P>, id: Seq<char>, props: P) -> bool {
    node matches RenderNode::Rectangle(r) && r.id@ == id && r.props == props
}

/// The scene the engine starts with: a root group holding one group, which
/// holds the rectangles `rect_4`, `rect_6` and `rect_5` in that order. The
/// arguments are what each node draws with.
pub fn initial_scene<P>(root: P, group_1: P, rect_4: P, rect_6: P, rect_5: P) -> (r: SceneGraph<P>)
    ensures
        is_group_node(r.root, "root"@, root, 1),
        is_group_node(r.root->Group_0.children@[0], "group_1"@, group_1, 3),
        is_rectangle_node(r.root->Group_0.children@[0]->Group_0.children@[0], "rect_4"@, rect_4),
        is_rectangle_node(r.root->Group_0.children@[0]->Group_0.children@[1], "rect_6"@, rect_6),
        is_rectangle_node(r.root->Group_0.children@[0]->Group_0.children@[2], "rect_5"@, rect_5),
{
    let rects = vec![
        RenderNode::Rectangle(Rectangle { id: String::from_str("rect_4"), props: rect_4 }),
        RenderNode::Rectangle(Rectangle { id: String::from_str("rect_6"), props: rect_6 }),
        RenderNode::Rectangle(Rectangle { id: String::from_str("rect_5"), props: rect_5 }),
    ];
    let group = RenderNode::Group(
        Group { id: String::from_str("group_1"), props: group_1, children: rects },
    );
    SceneGraph {
        root: RenderNode::Group(Group { id: String::from_str("root"), props: root, children: vec![group] }),
    }
}

} // verus!
