use tui_equalizer::Region;

#[test]
fn new_keeps_what_fits() {
    let region = Region::new(1, 2, 3, 4);
    assert_eq!(region, Region { x: 1, y: 2, width: 3, height: 4 });
    assert_eq!(region.left(), 1);
    assert_eq!(region.top(), 2);
    assert_eq!(region.right(), 4);
    assert_eq!(region.bottom(), 6);
}

#[test]
fn new_cuts_back_what_does_not_fit() {
    let region = Region::new(65530, 65000, 10, 1000);
    assert_eq!(region, Region { x: 65530, y: 65000, width: 5, height: 535 });
    assert_eq!(region.right(), 65535);
    assert_eq!(region.bottom(), 65535);
    assert_eq!(Region::new(65535, 65535, 1, 1), Region { x: 65535, y: 65535, width: 0, height: 0 });
    assert_eq!(Region::new(0, 0, 65535, 65535), Region { x: 0, y: 0, width: 65535, height: 65535 });
}

#[test]
fn edges_are_held_at_the_last_column_and_row() {
    let region = Region { x: 65530, y: 65000, width: 10, height: 1000 };
    assert_eq!(region.left(), 65530);
    assert_eq!(region.top(), 65000);
    assert_eq!(region.right(), 65535);
    assert_eq!(region.bottom(), 65535);
}

#[test]
fn an_empty_region_has_its_edges_at_its_corner() {
    let region = Region::new(7, 9, 0, 0);
    assert_eq!(region.right(), 7);
    assert_eq!(region.bottom(), 9);
}
