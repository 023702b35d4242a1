use raytracer::trace::{albedo_shade, nearest_hit, reflection_budget, trace_shadow, BOUNCE_LIMIT};

fn key(d: f64) -> u64 {
    d.to_bits()
}

#[test]
fn nearest_hit_empty_scene() {
    assert_eq!(nearest_hit(&vec![]), None);
}

#[test]
fn nearest_hit_all_missed() {
    assert_eq!(nearest_hit(&vec![None, None, None]), None);
}

#[test]
fn nearest_hit_two_overlapping_spheres_either_order() {
    // Two spheres on one ray: the near one is hit at 9.0, the far one at 14.0.
    let near = Some(key(9.0));
    let far = Some(key(14.0));
    assert_eq!(nearest_hit(&vec![near, far]), Some(0));
    assert_eq!(nearest_hit(&vec![far, near]), Some(1));
}

#[test]
fn nearest_hit_skips_misses() {
    let cands = vec![None, Some(key(3.5)), None, Some(key(2.25)), Some(key(7.0))];
    assert_eq!(nearest_hit(&cands), Some(3));
}

#[test]
fn nearest_hit_tie_keeps_first() {
    let cands = vec![Some(key(4.0)), Some(key(5.0)), Some(key(4.0))];
    assert_eq!(nearest_hit(&cands), Some(0));
}

#[test]
fn nearest_hit_background_only_when_nothing_else() {
    let sky = Some(key(f64::INFINITY));
    assert_eq!(nearest_hit(&vec![None, sky]), Some(1));
    assert_eq!(nearest_hit(&vec![sky, Some(key(1.0e6))]), Some(1));
    assert_eq!(nearest_hit(&vec![Some(key(0.5)), sky]), Some(0));
}

#[test]
fn trace_shadow_no_surfaces() {
    assert!(!trace_shadow(&vec![]));
}

#[test]
fn trace_shadow_one_occluder() {
    assert!(trace_shadow(&vec![false, true, false]));
    assert!(!trace_shadow(&vec![false, false]));
}

#[test]
fn albedo_without_lights_keeps_color() {
    let color = (0.0, 150.0 / 255.0, 1.0);
    let black = (0.0, 0.0, 0.0);
    assert_eq!(albedo_shade(color, None, black), color);
}

#[test]
fn albedo_lit_by_all_lights_keeps_color() {
    let shadowed = vec![false, false];
    assert_eq!(albedo_shade([1u8, 2, 3], Some(&shadowed), [0u8, 0, 0]), [1, 2, 3]);
}

#[test]
fn albedo_one_shadowed_light_blackens_all() {
    let shadowed = vec![false, true, false];
    assert_eq!(albedo_shade([1u8, 2, 3], Some(&shadowed), [0u8, 0, 0]), [0, 0, 0]);
}

#[test]
fn albedo_empty_light_list_keeps_color() {
    let shadowed: Vec<bool> = vec![];
    assert_eq!(albedo_shade(7u32, Some(&shadowed), 0u32), 7);
}

#[test]
fn reflection_budget_spent() {
    assert_eq!(reflection_budget(0), None);
}

#[test]
fn reflection_budget_decrements() {
    assert_eq!(reflection_budget(1), Some(0));
    assert_eq!(reflection_budget(BOUNCE_LIMIT), Some(9));
}

#[test]
fn reflection_chain_casts_budget_rays() {
    let mut budget = BOUNCE_LIMIT;
    let mut casts = 0usize;
    while let Some(next) = reflection_budget(budget) {
        casts += 1;
        budget = next;
    }
    assert_eq!(casts, BOUNCE_LIMIT);
    assert_eq!(budget, 0);
}
