use lib::shape::{should_query_collide, should_shapes_collide};
use lib::types::{default_filter, default_query_filter, Filter};

#[test]
fn shape_filter_logic() {
    // Same positive group always collides, same negative group never.
    let mut a = default_filter();
    let mut b = default_filter();
    a.group_index = 3;
    b.group_index = 3;
    assert!(should_shapes_collide(a, b));
    a.group_index = -3;
    b.group_index = -3;
    assert!(!should_shapes_collide(a, b));

    // Zero group falls back to category/mask.
    a.group_index = 0;
    b.group_index = 0;
    a.category_bits = 0x2;
    a.mask_bits = 0x4;
    b.category_bits = 0x4;
    b.mask_bits = 0x2;
    assert!(should_shapes_collide(a, b));
    b.mask_bits = 0x8;
    assert!(!should_shapes_collide(a, b));

    // Query filtering is symmetric category/mask with no groups.
    let shape_filter = default_filter();
    let query = default_query_filter();
    assert!(should_query_collide(shape_filter, query));
}

#[test]
fn mod_filter_logic() {
    let mut a = default_filter();
    let mut b = default_filter();
    a.group_index = 3;
    b.group_index = 3;
    assert!(should_shapes_collide(a, b));
    a.group_index = -3;
    b.group_index = -3;
    assert!(!should_shapes_collide(a, b));

    a.group_index = 0;
    b.group_index = 0;
    a.category_bits = 0x2;
    a.mask_bits = 0x4;
    b.category_bits = 0x4;
    b.mask_bits = 0x2;
    assert!(should_shapes_collide(a, b));
    b.mask_bits = 0x8;
    assert!(!should_shapes_collide(a, b));

    let shape_filter = default_filter();
    let query = default_query_filter();
    assert!(should_query_collide(shape_filter, query));
}

#[test]
fn filter_decision_is_symmetric() {
    let a = Filter { category_bits: 0x2, mask_bits: 0x4, group_index: 0 };
    let b = Filter { category_bits: 0x4, mask_bits: 0x1, group_index: 0 };
    assert_eq!(should_shapes_collide(a, b), should_shapes_collide(b, a));
    assert!(!should_shapes_collide(a, b));
    let c = Filter { category_bits: 0x4, mask_bits: 0x2, group_index: 5 };
    let d = Filter { category_bits: 0x2, mask_bits: 0x4, group_index: 7 };
    // Different groups fall back to category and mask.
    assert!(should_shapes_collide(c, d));
    assert!(should_shapes_collide(d, c));
}

#[test]
fn shared_group_overrides_masks() {
    let a = Filter { category_bits: 0x1, mask_bits: 0, group_index: 2 };
    let b = Filter { category_bits: 0x1, mask_bits: 0, group_index: 2 };
    assert!(should_shapes_collide(a, b));
    let c = Filter { category_bits: 1, mask_bits: u64::MAX, group_index: -2 };
    assert!(!should_shapes_collide(c, c));
}

#[test]
fn query_filter_needs_both_directions() {
    let shape = Filter { category_bits: 0x2, mask_bits: 0x1, group_index: 0 };
    let q = lib::types::QueryFilter { category_bits: 0x1, mask_bits: 0x2 };
    assert!(should_query_collide(shape, q));
    let q2 = lib::types::QueryFilter { category_bits: 0x4, mask_bits: 0x2 };
    assert!(!should_query_collide(shape, q2));
}
