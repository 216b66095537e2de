use thrw::vfs::placement::{
    bucket_file_path, fresh_placement, get_hierarchial_hash_path, get_vfs_dir, placement_for,
};

#[test]
fn vfs_dir_is_fixed() {
    assert_eq!(get_vfs_dir(), "vfsfiles");
}

#[test]
fn bucket_path_peels_two_levels_of_two_characters() {
    assert_eq!(get_hierarchial_hash_path("abcdef"), "ab/cd/abcdef");
    assert_eq!(get_hierarchial_hash_path("abcd"), "ab/cd/abcd");
    assert_eq!(
        get_hierarchial_hash_path("67e55044-10b1-426f-9247-bb680e5fe0c8"),
        "67/e5/67e55044-10b1-426f-9247-bb680e5fe0c8"
    );
}

#[test]
fn bucket_file_path_appends_the_extension() {
    assert_eq!(bucket_file_path("abcdef", "mp4"), "ab/cd/abcdef.mp4");
    assert_eq!(bucket_file_path("abcdef", ""), "ab/cd/abcdef");
}

#[test]
fn bucket_path_is_deterministic() {
    let id = 0x67e55044_10b1_426f_9247_bb680e5fe0c8u128;
    let first = placement_for(id, "webm");
    let second = placement_for(id, "webm");
    assert_eq!(first.id, second.id);
    assert_eq!(first.path, second.path);
    assert_eq!(first.id, "67e55044-10b1-426f-9247-bb680e5fe0c8");
    assert_eq!(first.path, "67/e5/67e55044-10b1-426f-9247-bb680e5fe0c8.webm");
}

#[test]
fn identifier_text_is_lower_case_hyphenated_hex() {
    assert_eq!(placement_for(0, "").id, "00000000-0000-0000-0000-000000000000");
    assert_eq!(placement_for(u128::MAX, "").id, "ffffffff-ffff-ffff-ffff-ffffffffffff");
    assert_eq!(
        placement_for(0x0123456789abcdef_0123456789abcdefu128, "").id,
        "01234567-89ab-cdef-0123-456789abcdef"
    );
    assert_eq!(placement_for(1, "").path, "00/00/00000000-0000-0000-0000-000000000001");
}

#[test]
fn fresh_placement_is_the_bucket_of_a_fresh_identifier() {
    let p = fresh_placement("mp3");
    assert_eq!(p.id.len(), 36);
    assert_eq!(p.path, bucket_file_path(&p.id, "mp3"));
    assert_eq!(p.path, format!("{}/{}/{}.mp3", &p.id[0..2], &p.id[2..4], p.id));
    let q = fresh_placement("mp3");
    assert_ne!(p.id, q.id);
    let parsed = uuid::Uuid::parse_str(&p.id).unwrap();
    assert_eq!(parsed.get_version_num(), 4);
}

/// The text of an identifier, digit by digit: 32 hexadecimal digits, most
/// significant first, hyphens at positions 8, 13, 18 and 23.
fn digit_by_digit(id: u128) -> String {
    let digits = b"0123456789abcdef";
    let mut out = String::new();
    let mut j = 0;
    for i in 0..36 {
        if i == 8 || i == 13 || i == 18 || i == 23 {
            out.push('-');
        } else {
            let nibble = ((id >> (4 * (31 - j))) & 0xf) as usize;
            out.push(digits[nibble] as char);
            j += 1;
        }
    }
    out
}

#[test]
fn identifier_text_follows_the_digits_of_the_number() {
    let mut id: u128 = 0x0123_4567_89ab_cdef_fedc_ba98_7654_3210;
    for _ in 0..200 {
        assert_eq!(placement_for(id, "").id, digit_by_digit(id));
        // a simple scramble to visit many bit patterns
        id = id.wrapping_mul(0x9e37_79b9_7f4a_7c15_f39c_c060_5ced_c835).rotate_left(17) ^ 0x5555;
    }
    for id in [0u128, 1, u128::MAX, 1 << 127, 0xf << 60] {
        assert_eq!(placement_for(id, "").id, digit_by_digit(id));
    }
}
