use vegas_lattice::{Site, Tagged};

#[test]
fn site_can_be_created() {
    let site = Site::new("Fe");
    assert_eq!(site.kind(), "Fe");
    assert_eq!(site.position(), (0, 0, 0));
}

#[test]
fn site_can_be_moved() {
    let site = Site::new("Fe").move_x(1);
    assert_eq!(site.position(), (1, 0, 0));
}

#[test]
fn site_can_be_changed() {
    let site = Site::new("Fe").with_kind("Cu");
    assert_eq!(site.kind(), "Cu");
}

#[test]
fn site_can_be_positioned() {
    let site = Site::new("Fe").with_position((1, 1, 1));
    assert_eq!(site.position(), (1, 1, 1));
}

#[test]
fn site_can_be_tagged() {
    let site = Site::new("Fe").with_tags(vec!["core", "inner"]);
    assert_eq!(
        site.tags(),
        Some(&vec!["core".to_string(), "inner".to_string()])
    );
}

#[test]
fn site_has_tag_sees_only_its_own_tags() {
    let site = Site::new("Fe").with_tags(vec!["core", "inner"]);
    assert!(site.has_tag("core"));
    assert!(site.has_tag("inner"));
    assert!(!site.has_tag("outer"));
    assert!(!Site::new("Fe").has_tag("core"));
}

#[test]
fn site_moves_compose_along_axes() {
    let site = Site::new("Fe").move_x(1).move_y(-2).move_z(3).move_x(4);
    assert_eq!(site.position(), (5, -2, 3));
}
