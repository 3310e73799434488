use robowire::pipeline::{map_corners, Model};

type P3 = (f64, f64, f64, f64);
type P2 = (f64, f64);

#[test]
fn unit_triangle_end_to_end() {
    let tri: [P3; 3] = [(1.0, 0.0, 5.0, 1.0), (-1.0, 0.0, 5.0, 1.0), (0.0, 1.0, 5.0, 1.0)];
    let mut m: Model<P3, P2> = Model::init(vec![tri]);
    let depth = 50.0;
    let (width, height) = (640.0, 480.0);
    // eye at the origin looking down +z: the camera transform leaves points as they are
    let to_view = |p: &P3| *p;
    let to_screen = |p: &P3| {
        let ratio = depth / p.2;
        (p.0 * ratio, p.1 * ratio)
    };
    let to_display = |q: &P2| (width / 2.0 + q.0, height / 2.0 - q.1);
    m.run_frame(&to_view, &to_screen, &to_display);
    assert_eq!(m.view, vec![tri]);
    assert_eq!(m.screen, vec![[(10.0, 0.0), (-10.0, 0.0), (0.0, 10.0)]]);
    assert_eq!(m.display, vec![[(330.0, 240.0), (310.0, 240.0), (320.0, 230.0)]]);
}

#[test]
fn every_stage_has_one_entry_per_triangle() {
    let tris: Vec<[i64; 3]> = (0..7).map(|i| [i, i + 1, i + 2]).collect();
    let mut m: Model<i64, i64> = Model::init(tris.clone());
    for _ in 0..3 {
        m.run_frame(&|a: &i64| a * 2, &|a: &i64| a + 1, &|a: &i64| -a);
        assert_eq!(m.triangles, tris);
        assert_eq!(m.view.len(), 7);
        assert_eq!(m.screen.len(), 7);
        assert_eq!(m.display.len(), 7);
    }
    assert_eq!(m.view[3], [6, 8, 10]);
    assert_eq!(m.screen[3], [7, 9, 11]);
    assert_eq!(m.display[3], [-7, -9, -11]);
}

#[test]
fn empty_model_gives_empty_stages() {
    let mut m: Model<i64, i64> = Model::init(Vec::new());
    m.run_frame(&|a: &i64| *a, &|a: &i64| *a, &|a: &i64| *a);
    assert!(m.view.is_empty() && m.screen.is_empty() && m.display.is_empty());
}

#[test]
fn clear_drops_derived_arrays() {
    let mut m: Model<i64, i64> = Model::init(vec![[1, 2, 3]]);
    m.run_frame(&|a: &i64| *a, &|a: &i64| *a, &|a: &i64| *a);
    m.clear_trans_pos();
    assert!(m.view.is_empty() && m.screen.is_empty() && m.display.is_empty());
    assert_eq!(m.triangles, vec![[1, 2, 3]]);
}

#[test]
fn stages_run_one_at_a_time() {
    let mut m: Model<i64, i64> = Model::init(vec![[1, 2, 3], [4, 5, 6]]);
    m.cal_view_pos(&|a: &i64| a * 10);
    assert_eq!(m.view, vec![[10, 20, 30], [40, 50, 60]]);
    assert!(m.screen.is_empty());
    m.cal_screen_pos(&|a: &i64| a + 1);
    assert_eq!(m.screen, vec![[11, 21, 31], [41, 51, 61]]);
    m.cal_display_pos(&|a: &i64| 100 - a);
    assert_eq!(m.display, vec![[89, 79, 69], [59, 49, 39]]);
}

#[test]
fn map_corners_keeps_order() {
    let src = vec![[1u8, 2, 3], [4, 5, 6]];
    let out = map_corners(&src, &|a: &u8| u32::from(*a) * 3);
    assert_eq!(out, vec![[3u32, 6, 9], [12, 15, 18]]);
}
