use pax_carbon::engine::{
    disco_hue, disco_tiles, initial_scene, phased_hue, FrameCounter, DISCO_COLUMNS, DISCO_ROWS,
};
use pax_carbon::scene::{Group, Rectangle, RenderNode, SceneGraph};

fn rect(id: &str) -> RenderNode<u32> {
    RenderNode::Rectangle(Rectangle { id: id.to_string(), props: 0 })
}

fn group(id: &str, children: Vec<RenderNode<u32>>) -> RenderNode<u32> {
    RenderNode::Group(Group { id: id.to_string(), props: 0, children })
}

#[test]
fn initial_scene_paints_last_rectangle_first() {
    let scene = initial_scene(1u32, 2, 3, 4, 5);
    assert_eq!(scene.render_order(), vec![vec![0, 2], vec![0, 1], vec![0, 0]]);
    let ids: Vec<String> = scene
        .render_order()
        .iter()
        .map(|p| scene.root.get_node(p).unwrap().get_id().clone())
        .collect();
    assert_eq!(ids, vec!["rect_5", "rect_6", "rect_4"]);
}

#[test]
fn initial_scene_evaluates_in_preorder() {
    let scene = initial_scene(1u32, 2, 3, 4, 5);
    assert_eq!(
        scene.update_order(),
        vec![vec![], vec![0], vec![0, 0], vec![0, 1], vec![0, 2]]
    );
    match scene.root.get_node(&[0, 1]) {
        Some(RenderNode::Rectangle(r)) => {
            assert_eq!(r.id, "rect_6");
            assert_eq!(r.props, 4);
        }
        _ => panic!("expected rect_6"),
    }
    assert!(scene.root.get_node(&[0, 3]).is_none());
    assert!(scene.root.get_node(&[0, 0, 0]).is_none());
}

#[test]
fn painting_order_reverses_document_order() {
    let scene = SceneGraph {
        root: group(
            "root",
            vec![
                rect("a"),
                group("g", vec![rect("b"), group("empty", vec![]), rect("c")]),
                rect("d"),
            ],
        ),
    };
    let paint = scene.render_order();
    assert_eq!(paint, vec![vec![2], vec![1, 2], vec![1, 0], vec![0]]);
    let update = scene.update_order();
    assert_eq!(
        update,
        vec![vec![], vec![0], vec![1], vec![1, 0], vec![1, 1], vec![1, 2], vec![2]]
    );
}

#[test]
fn empty_group_paints_nothing() {
    let scene = SceneGraph { root: group("root", vec![]) };
    assert!(scene.render_order().is_empty());
    assert_eq!(scene.update_order(), vec![Vec::<usize>::new()]);
    assert!(scene.root.get_children().unwrap().is_empty());
}

#[test]
fn lone_rectangle_is_painted_once() {
    let scene = SceneGraph { root: rect("only") };
    assert_eq!(scene.render_order(), vec![Vec::<usize>::new()]);
    assert!(scene.root.get_children().is_none());
    assert_eq!(scene.root.get_id(), "only");
}

#[test]
fn frame_counter_counts_frames() {
    let mut c = FrameCounter::new();
    assert_eq!(c.frames_elapsed, 0);
    c.advance();
    c.advance();
    assert_eq!(c.frames_elapsed, 2);
}

#[test]
fn disco_hues_turn_two_degrees_per_frame() {
    assert_eq!(disco_hue(0), 2);
    assert_eq!(disco_hue(178), 358);
    assert_eq!(disco_hue(179), 0);
    assert_eq!(disco_hue(u32::MAX - 1), ((u32::MAX as u64 * 2) % 360) as u32);
    assert_eq!(phased_hue(10), 190);
    assert_eq!(phased_hue(200), 20);
    assert_eq!(phased_hue(phased_hue(77)), 77);
}

#[test]
fn disco_tiles_cover_the_grid_column_by_column() {
    let tiles = disco_tiles();
    assert_eq!(tiles.len(), (DISCO_COLUMNS * DISCO_ROWS) as usize);
    assert_eq!(tiles[0], (0, 0));
    assert_eq!(tiles[11], (0, 11));
    assert_eq!(tiles[12], (1, 0));
    assert_eq!(tiles[239], (19, 11));
}
