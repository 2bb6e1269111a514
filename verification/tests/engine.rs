use hypersheet::dimension::DimensionIndex;
use hypersheet::geometry::{Point, Rectangle};
use hypersheet::grid::GridModel;
use hypersheet::viewport::{visible_range, visible_start, Viewport};

#[test]
fn point_arithmetic() {
    let p = Point::new(3, 4);
    let q = p.plus(2, -1);
    assert_eq!(q.x, 5);
    assert_eq!(q.y, 3);
    let r = q.minus(5, 3);
    assert!(r.eq(Point::origin()));
    let lo = p.min(Point::new(1, 7));
    let hi = p.max(Point::new(1, 7));
    assert_eq!((lo.x, lo.y), (1, 4));
    assert_eq!((hi.x, hi.y), (3, 7));
}

#[test]
fn point_comparisons_hold_on_both_components() {
    let p = Point::new(2, 3);
    assert!(p.gt(Point::new(1, 1)));
    assert!(!p.gt(Point::new(1, 3)));
    assert!(p.lt(Point::new(5, 5)));
    assert!(!p.lt(Point::new(5, 3)));
    assert!(p.gte(Point::new(2, 3)));
    assert!(p.lte(Point::new(2, 3)));
    assert!(!p.gte(Point::new(3, 3)));
}

#[test]
fn point_distance_squared() {
    let d = Point::new(0, 0).distance_squared(Point::new(3, 4));
    assert_eq!(d, 25u128);
    let d2 = Point::new(-1, -1).distance_squared(Point::new(2, 3));
    assert_eq!(d2, 25u128);
}

#[test]
fn negative_extent_is_normalized() {
    let a = Rectangle::new(0, 0, -10, -10);
    let b = Rectangle::new(-10, -10, 10, 10);
    assert_eq!(a.left(), -10);
    assert_eq!(a.top(), -10);
    assert_eq!(a.width(), 10);
    assert_eq!(a.height(), 10);
    assert_eq!(a.left(), b.left());
    assert_eq!(a.top(), b.top());
    assert_eq!(a.width(), b.width());
    assert_eq!(a.height(), b.height());
    let ac = a.corner();
    let bc = b.corner();
    assert!(ac.eq(bc));
    assert_eq!(ac.x, 0);
    assert_eq!(ac.y, 0);
    let ao = a.get_origin();
    assert!(ao.eq(b.get_origin()));
}

#[test]
fn rectangle_accessors_and_area() {
    let r = Rectangle::new(2, 3, 10, 5);
    assert_eq!(r.left(), 2);
    assert_eq!(r.top(), 3);
    assert_eq!(r.right(), 12);
    assert_eq!(r.bottom(), 8);
    assert_eq!(r.width(), 10);
    assert_eq!(r.height(), 5);
    assert_eq!(r.area(), 50);
    let c = r.center();
    assert_eq!((c.x, c.y), (7, 5));
    let e = r.extent();
    assert_eq!((e.x, e.y), (10, 5));
}

#[test]
fn rectangle_flatten() {
    let r = Rectangle::new(2, 3, 10, 5);
    let fx = r.flatten_x_at(7);
    assert_eq!((fx.left(), fx.top(), fx.width(), fx.height()), (7, 3, 0, 5));
    let fy = r.flatten_y_at(9);
    assert_eq!((fy.left(), fy.top(), fy.width(), fy.height()), (2, 9, 10, 0));
}

#[test]
fn grow_and_shrink() {
    let r = Rectangle::new(0, 0, 10, 10);
    let inset = r.grow_by(2);
    assert_eq!((inset.left(), inset.top(), inset.width(), inset.height()), (2, 2, 6, 6));
    let outset = r.shrink_by(2);
    assert_eq!(
        (outset.left(), outset.top(), outset.width(), outset.height()),
        (-2, -2, 14, 14)
    );
    // an inset past the middle normalizes like any negative extent
    let collapsed = r.grow_by(7);
    assert_eq!((collapsed.left(), collapsed.width()), (3, 4));
}

#[test]
fn half_open_containment() {
    let r = Rectangle::new(0, 0, 10, 10);
    assert!(Point::new(0, 0).within(r));
    assert!(Point::new(9, 9).within(r));
    assert!(!Point::new(10, 5).within(r));
    assert!(!Point::new(5, 10).within(r));
    assert!(!Point::new(-1, 5).within(r));
}

#[test]
fn union_contains_both_rectangles() {
    let a = Rectangle::new(0, 0, 10, 10);
    let b = Rectangle::new(5, 5, 20, 20);
    let u = a.union(b);
    assert_eq!((u.left(), u.top(), u.right(), u.bottom()), (0, 0, 25, 25));
    assert!(a.within(u));
    assert!(b.within(u));
    // every corner lies between the union's edges on both axes
    for r in [a, b] {
        for (cx, cy) in [
            (r.left(), r.top()),
            (r.right(), r.top()),
            (r.left(), r.bottom()),
            (r.right(), r.bottom()),
        ] {
            assert!(u.left() <= cx && cx <= u.right());
            assert!(u.top() <= cy && cy <= u.bottom());
        }
    }
}

#[test]
fn touching_rectangles_do_not_intersect() {
    let a = Rectangle::new(0, 0, 10, 10);
    let b = Rectangle::new(10, 0, 10, 10);
    assert!(!a.intersects(b));
    assert!(!b.intersects(a));
    // sharing only a corner does not intersect either
    let c = Rectangle::new(10, 10, 5, 5);
    assert!(!a.intersects(c));
    // genuine overlap does
    let d = Rectangle::new(9, 9, 5, 5);
    assert!(a.intersects(d));
    assert!(d.intersects(a));
}

#[test]
fn intersect_returns_overlap_or_falls_back() {
    let a = Rectangle::new(0, 0, 10, 10);
    let b = Rectangle::new(5, 5, 20, 20);
    let got = a.intersect(b, |_x, _y| None);
    let r = got.expect("overlapping rectangles must intersect");
    assert_eq!((r.left(), r.top(), r.right(), r.bottom()), (5, 5, 10, 10));

    // no geometric overlap: the fallback decides the outcome
    let c = Rectangle::new(10, 0, 10, 10);
    let fallback_none = a.intersect(c, |_x, _y| None);
    assert!(fallback_none.is_none());
    let fallback_clip = a.intersect(c, |x, _y| Some(x.flatten_x_at(10)));
    let clip = fallback_clip.expect("fallback chose a clipped region");
    assert_eq!((clip.left(), clip.width()), (10, 0));
}

#[test]
fn sizes_fall_back_to_default() {
    let mut d = DimensionIndex::new(20);
    assert_eq!(d.get_size(0), 20);
    assert_eq!(d.get_size(777), 20);
    d.set_size(3, 200);
    assert_eq!(d.get_size(3), 200);
    assert_eq!(d.get_size(2), 20);
    d.set_size(3, 7);
    assert_eq!(d.get_size(3), 7);
}

#[test]
fn zero_size_is_rejected() {
    let mut d = DimensionIndex::new(20);
    d.set_size(5, 44);
    d.set_size(5, 0);
    assert_eq!(d.get_size(5), 44);
    d.set_size(6, 0);
    assert_eq!(d.get_size(6), 20);
}

#[test]
fn offsets_step_by_the_size_at_each_index() {
    let mut d = DimensionIndex::new(20);
    d.set_size(0, 40);
    d.set_size(3, 200);
    d.set_size(7, 1);
    for i in 0..12u32 {
        let step = d.cumulative_offset(i + 1) - d.cumulative_offset(i);
        assert_eq!(step, d.get_size(i) as u64);
    }
}

#[test]
fn locate_round_trips_at_boundaries() {
    let mut d = DimensionIndex::new(20);
    d.set_size(0, 40);
    d.set_size(3, 200);
    d.set_size(7, 1);
    for i in [0u32, 1, 2, 3, 4, 7, 8, 100, 65536] {
        let off = d.cumulative_offset(i);
        let loc = d.locate(off);
        assert_eq!(loc.index, i);
        assert_eq!(loc.offset, off);
    }
}

#[test]
fn locate_with_a_leading_override() {
    let mut d = DimensionIndex::new(20);
    d.set_size(0, 40);
    assert_eq!(d.get_size(0), 40);
    assert_eq!(d.cumulative_offset(1), 40);
    assert_eq!(d.locate(39).index, 0);
    assert_eq!(d.locate(40).index, 1);
    assert_eq!(d.locate(40).offset, 40);
    assert_eq!(d.locate(0).index, 0);
}

#[test]
fn cumulative_offsets_with_a_sparse_override() {
    let mut cols = DimensionIndex::new(85);
    cols.set_size(3, 200);
    assert_eq!(cols.cumulative_offset(3), 3 * 85);
    assert_eq!(cols.cumulative_offset(4), 3 * 85 + 200);
}

#[test]
fn visible_start_matches_locate() {
    let mut d = DimensionIndex::new(20);
    d.set_size(1, 40);
    let loc = visible_start(30, &d);
    assert_eq!(loc.index, 1);
    assert_eq!(loc.offset, 20);
}

#[test]
fn visible_range_walks_the_pane_lazily() {
    let mut d = DimensionIndex::new(20);
    d.set_size(1, 40);
    let mut vr = visible_range(30, 50, &d);
    let mut triples = Vec::new();
    while let Some(t) = vr.next(&d) {
        triples.push(t);
    }
    assert_eq!(triples, vec![(1u32, 20u64, 40u32), (2u32, 60u64, 20u32)]);
}

#[test]
fn viewport_scrolling() {
    let mut vp = Viewport::new(560, 380);
    assert_eq!(vp.scroll_x, 0);
    vp.set_scroll_x(120);
    vp.set_scroll_y(35);
    assert_eq!((vp.scroll_x, vp.scroll_y), (120, 35));
    let r = vp.visible_rect();
    assert_eq!((r.left(), r.top(), r.width(), r.height()), (120, 35, 560, 380));
}

#[test]
fn first_move_initializes_at_the_origin_cell() {
    let mut g = GridModel::new(20, 85, 560, 380, 20000, 1245560);
    let out = g.on_right_arrow_keydown();
    let cell = out.active.expect("the first move selects a cell");
    assert_eq!((cell.col, cell.row), (1, 1));
    assert_eq!((cell.bounds.left(), cell.bounds.top()), (0, 0));
    assert_eq!((cell.bounds.width(), cell.bounds.height()), (85, 20));
    assert_eq!(out.scroll_delta, 0);
}

#[test]
fn moves_clamp_at_column_and_row_one() {
    let mut g = GridModel::new(20, 85, 560, 380, 20000, 1245560);
    g.on_down_arrow_keydown();
    let before = g.on_left_arrow_keydown();
    let cell = before.active.expect("cursor exists");
    assert_eq!((cell.col, cell.row), (1, 1));
    let after_left = g.on_left_arrow_keydown();
    let after_up = g.on_up_arrow_keydown();
    let l = after_left.active.expect("cursor survives a clamped move");
    let u = after_up.active.expect("cursor survives a clamped move");
    assert_eq!((l.col, l.row), (1, 1));
    assert_eq!((u.col, u.row), (1, 1));
    assert_eq!(after_left.scroll_delta, 0);
    assert_eq!(after_up.scroll_delta, 0);
    assert_eq!((u.bounds.left(), u.bounds.top()), (0, 0));
    assert_eq!((u.bounds.width(), u.bounds.height()), (85, 20));
}

#[test]
fn moves_past_the_maximum_extent_are_rejected() {
    let mut g = GridModel::new(20, 85, 560, 380, 100, 30);
    g.on_right_arrow_keydown();
    // a second step right would reach 170 pixels, past the 100-pixel bound
    let out = g.on_right_arrow_keydown();
    let cell = out.active.expect("cursor unchanged");
    assert_eq!((cell.col, cell.row), (1, 1));
    assert_eq!((cell.bounds.left(), cell.bounds.right()), (0, 85));
    assert_eq!(out.scroll_delta, 0);
    // a step down would reach 40 pixels, past the 30-pixel bound
    let down = g.on_down_arrow_keydown();
    let cell2 = down.active.expect("cursor unchanged");
    assert_eq!((cell2.col, cell2.row), (1, 1));
    assert_eq!(down.scroll_delta, 0);
}

#[test]
fn moving_right_emits_a_scroll_delta_past_the_pane() {
    let mut g = GridModel::new(20, 85, 100, 50, 20000, 20000);
    g.on_right_arrow_keydown();
    let out = g.on_right_arrow_keydown();
    let cell = out.active.expect("moved");
    assert_eq!((cell.col, cell.row), (2, 1));
    assert_eq!(cell.bounds.right(), 170);
    assert_eq!(out.scroll_delta, 70);
    assert_eq!(g.viewport.scroll_x, 70);
    let out2 = g.on_right_arrow_keydown();
    assert_eq!(out2.scroll_delta, 85);
    assert_eq!(g.viewport.scroll_x, 155);
}

#[test]
fn moving_left_emits_a_negative_scroll_delta() {
    let mut g = GridModel::new(20, 85, 100, 50, 20000, 20000);
    g.on_right_arrow_keydown();
    g.on_right_arrow_keydown();
    g.on_right_arrow_keydown();
    assert_eq!(g.viewport.scroll_x, 155);
    let out = g.on_left_arrow_keydown();
    let cell = out.active.expect("moved");
    assert_eq!((cell.col, cell.row), (2, 1));
    assert_eq!(cell.bounds.left(), 85);
    assert_eq!(out.scroll_delta, -70);
    assert_eq!(g.viewport.scroll_x, 85);
}

#[test]
fn click_resolves_past_a_tall_first_row() {
    let mut g = GridModel::new(20, 85, 560, 380, 20000, 1245560);
    g.set_row_size(0, 40);
    let cell = g.on_click(0, 45).expect("a click always selects a cell");
    // pixel 45 lies past the 40-pixel-tall first row
    assert_eq!((cell.col, cell.row), (1, 2));
    assert_eq!((cell.bounds.left(), cell.bounds.top()), (0, 40));
    assert_eq!((cell.bounds.width(), cell.bounds.height()), (85, 20));
    assert_eq!(g.get_last_visible_row_offset(45), 40);
    assert_eq!(g.get_last_visible_row_offset(39), 0);
    assert_eq!(g.get_last_visible_col_offset(100), 85);
}

#[test]
fn click_clamps_negative_coordinates() {
    let mut g = GridModel::new(20, 85, 560, 380, 20000, 1245560);
    let cell = g.on_click(-7, -3).expect("a click always selects a cell");
    assert_eq!((cell.col, cell.row), (1, 1));
    assert_eq!((cell.bounds.left(), cell.bounds.top()), (0, 0));
}

#[test]
fn clicking_the_active_cell_reproduces_its_bounds() {
    let mut g = GridModel::new(20, 85, 560, 380, 20000, 1245560);
    g.on_right_arrow_keydown();
    let moved = g.on_right_arrow_keydown().active.expect("moved");
    let clicked = g
        .on_click(moved.bounds.left(), moved.bounds.top())
        .expect("a click always selects a cell");
    assert_eq!((clicked.col, clicked.row), (moved.col, moved.row));
    assert_eq!(clicked.bounds.left(), moved.bounds.left());
    assert_eq!(clicked.bounds.top(), moved.bounds.top());
    assert_eq!(clicked.bounds.width(), moved.bounds.width());
    assert_eq!(clicked.bounds.height(), moved.bounds.height());
}

#[test]
fn cell_dimension_falls_back_to_axis_defaults() {
    let mut g = GridModel::new(20, 85, 560, 380, 20000, 1245560);
    assert_eq!(g.get_cell_dimension(1, 1), (85, 20));
    g.set_col_size(0, 200);
    assert_eq!(g.get_cell_dimension(1, 1), (200, 20));
    assert_eq!(g.get_cell_dimension(2, 5), (85, 20));
    // zero-sized requests are rejected, keeping the prior value
    g.set_col_size(0, 0);
    assert_eq!(g.get_cell_dimension(1, 1), (200, 20));
}

#[test]
fn scroll_events_update_the_viewport() {
    let mut g = GridModel::new(20, 85, 560, 380, 20000, 1245560);
    g.on_h_scroll(300);
    g.on_v_scroll(77);
    assert_eq!(g.viewport.scroll_x, 300);
    assert_eq!(g.viewport.scroll_y, 77);
}

#[test]
fn largest_size_override() {
    let mut d = DimensionIndex::new(20);
    d.set_size(0, u32::MAX);
    assert_eq!(d.get_size(0), u32::MAX);
    assert_eq!(d.cumulative_offset(1), u64::from(u32::MAX));
    assert_eq!(d.locate(u64::from(u32::MAX) - 1).index, 0);
    let loc = d.locate(u64::from(u32::MAX));
    assert_eq!(loc.index, 1);
    assert_eq!(loc.offset, u64::from(u32::MAX));
}

#[test]
fn for_each_visits_every_point_in_column_order() {
    let r = Rectangle::new(2, 3, 3, 2);
    let seen = std::cell::RefCell::new(Vec::new());
    r.for_each(
        |rect, x, y| {
            assert_eq!((rect.left(), rect.top()), (2, 3));
            seen.borrow_mut().push((x, y));
        },
        None,
    );
    assert_eq!(
        *seen.borrow(),
        vec![(2, 3), (2, 4), (3, 3), (3, 4), (4, 3), (4, 4)]
    );
    // with a context rectangle, that rectangle is handed to the iteratee
    let ctx = Rectangle::new(0, 0, 1, 1);
    r.for_each(|rect, _x, _y| assert_eq!(rect.width(), 1), Some(ctx));
    // an empty rectangle visits nothing
    let count = std::cell::Cell::new(0u32);
    Rectangle::new(5, 5, 0, 7).for_each(|_r, _x, _y| count.set(count.get() + 1), None);
    assert_eq!(count.get(), 0);
}
