use todo_tui::geometry::{centered_rect, centered_shares, main_panes, Area, Share};

#[test]
fn centered_rect_on_square_surface() {
    let r = centered_rect(60, 25, Area { x: 0, y: 0, width: 100, height: 100 });
    assert_eq!(r, Area { x: 20, y: 37, width: 60, height: 25 });
}

#[test]
fn centered_rect_full_size() {
    let area = Area { x: 3, y: 4, width: 50, height: 20 };
    assert_eq!(centered_rect(100, 100, area), area);
}

#[test]
fn centered_shares_margins() {
    assert_eq!(
        centered_shares(60),
        vec![Share::Percentage(20), Share::Percentage(60), Share::Percentage(20)]
    );
    assert_eq!(
        centered_shares(25),
        vec![Share::Percentage(37), Share::Percentage(25), Share::Percentage(38)]
    );
    assert_eq!(
        centered_shares(0),
        vec![Share::Percentage(50), Share::Percentage(0), Share::Percentage(50)]
    );
}

#[test]
fn main_panes_are_equal_thirds() {
    let panes = main_panes(Area { x: 0, y: 0, width: 99, height: 10 });
    assert_eq!(panes.len(), 3);
    for (i, p) in panes.iter().enumerate() {
        assert_eq!(p.x, 33 * i as u16);
        assert_eq!(p.width, 33);
        assert_eq!(p.y, 0);
        assert_eq!(p.height, 10);
    }
}

#[test]
fn centered_rect_lies_within_offset_surface() {
    let area = Area { x: 7, y: 3, width: 41, height: 17 };
    let r = centered_rect(60, 25, area);
    assert!(r.x >= area.x && r.x + r.width <= area.x + area.width);
    assert!(r.y >= area.y && r.y + r.height <= area.y + area.height);
    assert_eq!(r, Area { x: 15, y: 9, width: 25, height: 5 });
}

#[test]
fn main_panes_round_thirds_to_cells() {
    let panes = main_panes(Area { x: 0, y: 2, width: 100, height: 5 });
    assert_eq!(
        panes,
        vec![
            Area { x: 0, y: 2, width: 33, height: 5 },
            Area { x: 33, y: 2, width: 34, height: 5 },
            Area { x: 67, y: 2, width: 33, height: 5 },
        ]
    );
}

#[test]
fn centered_rect_clips_at_grid_edge() {
    let area = Area { x: 65000, y: 0, width: 1000, height: 10 };
    let r = centered_rect(50, 100, area);
    assert_eq!(r, Area { x: 65134, y: 0, width: 267, height: 10 });
}
