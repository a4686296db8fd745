#![allow(unused_imports, dead_code)]

use dmux::layout::{layout_regions_for_size, LayoutNode, PaneRegion, PtySize};
use dmux::protocol::{LayoutPreset, PaneResizeDirection, SplitDirection};


#[test]
fn split_pane_replaces_target_leaf_with_split() {
    let mut layout = LayoutNode::Pane(0);

    assert!(layout.split_pane(0, SplitDirection::Horizontal, 1));

    assert_eq!(
        layout,
        LayoutNode::Split {
            direction: SplitDirection::Horizontal,
            first_weight: 1,
            second_weight: 1,
            first: Box::new(LayoutNode::Pane(0)),
            second: Box::new(LayoutNode::Pane(1)),
        }
    );
}

#[test]
fn remove_pane_collapses_split_and_reindexes_higher_panes() {
    let mut layout = LayoutNode::Split {
        direction: SplitDirection::Vertical,
        first_weight: 1,
        second_weight: 1,
        first: Box::new(LayoutNode::Pane(0)),
        second: Box::new(LayoutNode::Split {
            direction: SplitDirection::Horizontal,
            first_weight: 1,
            second_weight: 1,
            first: Box::new(LayoutNode::Pane(1)),
            second: Box::new(LayoutNode::Pane(2)),
        }),
    };

    assert!(layout.remove_pane(1));

    assert_eq!(
        layout,
        LayoutNode::Split {
            direction: SplitDirection::Vertical,
            first_weight: 1,
            second_weight: 1,
            first: Box::new(LayoutNode::Pane(0)),
            second: Box::new(LayoutNode::Pane(1)),
        }
    );
}

#[test]
fn layout_regions_for_size_splits_horizontal_panes_around_separator() {
    let layout = LayoutNode::Split {
        direction: SplitDirection::Horizontal,
        first_weight: 1,
        second_weight: 1,
        first: Box::new(LayoutNode::Pane(0)),
        second: Box::new(LayoutNode::Pane(1)),
    };

    assert_eq!(
        layout_regions_for_size(&layout, PtySize { cols: 83, rows: 24 }),
        vec![
            PaneRegion {
                pane: 0,
                row_start: 0,
                row_end: 24,
                col_start: 0,
                col_end: 40,
            },
            PaneRegion {
                pane: 1,
                row_start: 0,
                row_end: 24,
                col_start: 43,
                col_end: 83,
            },
        ]
    );
}

#[test]
fn weighted_split_regions_preserve_custom_ratio() {
    let layout = LayoutNode::Split {
        direction: SplitDirection::Horizontal,
        first_weight: 30,
        second_weight: 50,
        first: Box::new(LayoutNode::Pane(0)),
        second: Box::new(LayoutNode::Pane(1)),
    };

    let regions = layout_regions_for_size(
        &layout,
        PtySize {
            cols: 163,
            rows: 24,
        },
    );

    assert_eq!(regions[0].col_end - regions[0].col_start, 60);
    assert_eq!(regions[1].col_end - regions[1].col_start, 100);
}

#[test]
fn resize_active_right_pane_left_adjusts_nearest_horizontal_split() {
    let mut layout = LayoutNode::Split {
        direction: SplitDirection::Horizontal,
        first_weight: 1,
        second_weight: 1,
        first: Box::new(LayoutNode::Pane(0)),
        second: Box::new(LayoutNode::Pane(1)),
    };

    layout
        .resize_pane(
            1,
            PaneResizeDirection::Left,
            5,
            PtySize { cols: 83, rows: 24 },
        )
        .unwrap();

    assert_eq!(
        layout_regions_for_size(&layout, PtySize { cols: 83, rows: 24 }),
        vec![
            PaneRegion {
                pane: 0,
                row_start: 0,
                row_end: 24,
                col_start: 0,
                col_end: 35,
            },
            PaneRegion {
                pane: 1,
                row_start: 0,
                row_end: 24,
                col_start: 38,
                col_end: 83,
            },
        ]
    );
}

#[test]
fn resize_without_adjacent_split_returns_error() {
    let mut layout = LayoutNode::Pane(0);

    let err = layout
        .resize_pane(
            0,
            PaneResizeDirection::Left,
            1,
            PtySize { cols: 80, rows: 24 },
        )
        .unwrap_err();

    assert_eq!(err, "missing adjacent pane");
}

#[test]
fn resize_outer_edge_of_split_returns_missing_adjacent_pane() {
    let mut layout = LayoutNode::Split {
        direction: SplitDirection::Horizontal,
        first_weight: 1,
        second_weight: 1,
        first: Box::new(LayoutNode::Pane(0)),
        second: Box::new(LayoutNode::Pane(1)),
    };

    let err = layout
        .resize_pane(
            0,
            PaneResizeDirection::Left,
            1,
            PtySize { cols: 80, rows: 24 },
        )
        .unwrap_err();

    assert_eq!(err, "missing adjacent pane");
}

#[test]
fn resize_rejects_shrinking_either_side_below_one_cell() {
    let mut layout = LayoutNode::Split {
        direction: SplitDirection::Horizontal,
        first_weight: 1,
        second_weight: 1,
        first: Box::new(LayoutNode::Pane(0)),
        second: Box::new(LayoutNode::Pane(1)),
    };

    let err = layout
        .resize_pane(
            1,
            PaneResizeDirection::Left,
            40,
            PtySize { cols: 83, rows: 24 },
        )
        .unwrap_err();

    assert!(err.contains("minimum pane size"), "{err}");
}

#[test]
fn resize_rejects_nested_zero_sized_descendant() {
    let mut layout = LayoutNode::Split {
        direction: SplitDirection::Horizontal,
        first_weight: 1,
        second_weight: 1,
        first: Box::new(LayoutNode::Pane(0)),
        second: Box::new(LayoutNode::Split {
            direction: SplitDirection::Horizontal,
            first_weight: 1,
            second_weight: 1,
            first: Box::new(LayoutNode::Pane(1)),
            second: Box::new(LayoutNode::Pane(2)),
        }),
    };
    let size = PtySize { cols: 8, rows: 5 };
    let before = layout_regions_for_size(&layout, size);

    let err = layout
        .resize_pane(0, PaneResizeDirection::Right, 3, size)
        .unwrap_err();

    assert!(err.contains("minimum pane size"), "{err}");
    assert_eq!(layout_regions_for_size(&layout, size), before);
}

#[test]
fn layout_preset_even_horizontal_arranges_equal_columns_in_pane_order() {
    let mut layout = LayoutNode::Pane(0);
    layout
        .apply_preset(
            LayoutPreset::EvenHorizontal,
            4,
            0,
            PtySize { cols: 92, rows: 20 },
        )
        .unwrap();

    assert_eq!(
        layout_regions_for_size(&layout, PtySize { cols: 92, rows: 20 }),
        vec![
            PaneRegion {
                pane: 0,
                row_start: 0,
                row_end: 20,
                col_start: 0,
                col_end: 20,
            },
            PaneRegion {
                pane: 1,
                row_start: 0,
                row_end: 20,
                col_start: 23,
                col_end: 44,
            },
            PaneRegion {
                pane: 2,
                row_start: 0,
                row_end: 20,
                col_start: 47,
                col_end: 68,
            },
            PaneRegion {
                pane: 3,
                row_start: 0,
                row_end: 20,
                col_start: 71,
                col_end: 92,
            },
        ]
    );
}

#[test]
fn layout_preset_tiled_preserves_all_panes_with_positive_regions() {
    let mut layout = LayoutNode::Pane(0);
    layout
        .apply_preset(LayoutPreset::Tiled, 5, 0, PtySize { cols: 90, rows: 25 })
        .unwrap();

    let regions = layout_regions_for_size(&layout, PtySize { cols: 90, rows: 25 });
    assert_eq!(
        regions.iter().map(|region| region.pane).collect::<Vec<_>>(),
        vec![0, 1, 2, 3, 4]
    );
    assert!(regions.iter().all(|region| {
        region.row_start < region.row_end && region.col_start < region.col_end
    }));
    assert_eq!(regions[0].row_start, regions[1].row_start);
    assert_eq!(regions[1].row_start, regions[2].row_start);
    assert!(regions[3].row_start > regions[0].row_start);
}

#[test]
fn layout_preset_main_vertical_places_active_pane_in_main_area() {
    let mut layout = LayoutNode::Pane(0);
    layout
        .apply_preset(
            LayoutPreset::MainVertical,
            4,
            2,
            PtySize {
                cols: 100,
                rows: 30,
            },
        )
        .unwrap();

    let regions = layout_regions_for_size(
        &layout,
        PtySize {
            cols: 100,
            rows: 30,
        },
    );
    let main = regions.iter().find(|region| region.pane == 2).unwrap();
    assert_eq!(main.col_start, 0);
    assert_eq!(main.row_start, 0);
    assert_eq!(main.row_end, 30);
    assert!(
        regions
            .iter()
            .filter(|region| region.pane != 2)
            .all(|region| region.col_start > main.col_end)
    );
}

#[test]
fn layout_preset_rejects_zero_sized_results_without_changing_layout() {
    let mut layout = LayoutNode::Pane(0);
    let before = layout.clone();

    let err = layout
        .apply_preset(
            LayoutPreset::EvenHorizontal,
            4,
            0,
            PtySize { cols: 3, rows: 20 },
        )
        .unwrap_err();

    assert!(err.contains("minimum pane size"), "{err}");
    assert_eq!(layout, before);
}
