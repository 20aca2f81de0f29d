use nano9::line::{exit_status, line_plan, ExitStatus};

#[test]
fn line_box_and_points() {
    let plan = line_plan((2, 3), (5, 4));
    assert_eq!(plan.min, (2, 3));
    assert_eq!(plan.size, (4, 2));
    assert_eq!(plan.points.len(), 3);
    assert_eq!(plan.points[0], (0, 0));
    let back = line_plan((5, 4), (2, 3));
    assert_eq!(back.min, (2, 3));
    assert_eq!(back.points[0], (3, 1));
    let dot = line_plan((1, 1), (1, 1));
    assert_eq!(dot.size, (1, 1));
    assert!(dot.points.is_empty());
}

#[test]
fn exit_codes() {
    assert_eq!(exit_status(None), ExitStatus::Success);
    assert_eq!(exit_status(Some(0)), ExitStatus::Success);
    assert_eq!(exit_status(Some(3)), ExitStatus::Error(3));
}

#[test]
fn steep_and_reversed_lines() {
    let steep = line_plan((0, 0), (2, 5));
    assert_eq!(steep.points, vec![(0, 0), (0, 1), (0, 2), (1, 3), (1, 4)]);
    let back = line_plan((6, 4), (0, 1));
    assert_eq!(back.min, (0, 1));
    assert_eq!(back.points, vec![(6, 3), (5, 3), (4, 2), (3, 2), (2, 1), (1, 1)]);
}
