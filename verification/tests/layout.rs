use sysfetch_rs::layout::LayoutMode;
use sysfetch_rs::layout::Rect;
use sysfetch_rs::layout::SizeRule;
use sysfetch_rs::layout::layout_mode;
use sysfetch_rs::layout::partition;
use sysfetch_rs::layout::split;

#[test]
fn mode_boundaries() {
    // compact whenever the height is under 20 or the width under 60
    assert_eq!(layout_mode(59, 50), LayoutMode::Compact);
    assert_eq!(layout_mode(200, 19), LayoutMode::Compact);
    assert_eq!(layout_mode(0, 0), LayoutMode::Compact);
    // the boundary values select the non-compact branch
    assert_eq!(layout_mode(60, 20), LayoutMode::Narrow);
    assert_eq!(layout_mode(99, 20), LayoutMode::Narrow);
    assert_eq!(layout_mode(100, 20), LayoutMode::Wide);
    assert_eq!(layout_mode(200, 50), LayoutMode::Wide);
}

#[test]
fn partition_fixed_and_remainder() {
    let rules = vec![SizeRule::Fixed(3), SizeRule::Remainder(0), SizeRule::Fixed(3)];
    assert_eq!(partition(50, &rules), vec![3, 44, 3]);
    // shortage clips in order
    assert_eq!(partition(4, &rules), vec![3, 0, 1]);
    assert_eq!(partition(0, &rules), vec![0, 0, 0]);
}

#[test]
fn partition_percentages() {
    let rules = vec![SizeRule::Percent(40), SizeRule::Percent(60)];
    assert_eq!(partition(10, &rules), vec![4, 6]);
    // rounding leftover goes to the last region
    let rules2 = vec![SizeRule::Percent(30), SizeRule::Percent(70)];
    assert_eq!(partition(35, &rules2), vec![10, 25]);
}

#[test]
fn partition_remainder_minimum() {
    let rules = vec![
        SizeRule::Fixed(4),
        SizeRule::Fixed(4),
        SizeRule::Fixed(3),
        SizeRule::Fixed(3),
        SizeRule::Remainder(3),
    ];
    assert_eq!(partition(28, &rules), vec![4, 4, 3, 3, 14]);
    assert_eq!(partition(17, &rules), vec![4, 4, 3, 3, 3]);
}

#[test]
fn split_positions_follow_sizes() {
    let area = Rect { x: 1, y: 4, width: 198, height: 42 };
    let rules = vec![SizeRule::Percent(40), SizeRule::Percent(60)];
    let chunks = split(area, false, &rules);
    assert_eq!(chunks.len(), 2);
    assert_eq!(chunks[0], Rect { x: 1, y: 4, width: 79, height: 42 });
    assert_eq!(chunks[1], Rect { x: 80, y: 4, width: 119, height: 42 });
}

#[test]
fn inner_shrinks_by_margin() {
    let area = Rect { x: 0, y: 0, width: 200, height: 50 };
    assert_eq!(area.inner(1), Rect { x: 1, y: 1, width: 198, height: 48 });
    let tiny = Rect { x: 5, y: 5, width: 1, height: 1 };
    assert_eq!(tiny.inner(1), Rect { x: 5, y: 5, width: 0, height: 0 });
}
