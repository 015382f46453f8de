use ares_options::orca_block_keys::contains;

#[test]
fn split_key_set_preserves_boundary_membership() {
    assert!(contains("accel_to_decel_enable"));
    assert!(contains("machine_unload_filament_time"));
    assert!(contains("make_overhang_printable"));
    assert!(contains("z_hop"));
    assert!(!contains("not_an_orca_key"));
}

#[test]
fn keys_on_both_sides_of_the_split_are_found() {
    assert!(contains("filament_colour"));
    assert!(contains("wipe_tower_x"));
    assert!(contains("retraction_length"));
    assert!(!contains(""));
    assert!(!contains("make_overhang"));
    assert!(!contains("z_hop_typess"));
}
