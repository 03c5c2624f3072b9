use memora_cli::doc_id::{doc_id_for, generate_doc_id, LocalStamp};

fn stamp(year: i32, month: u32, day: u32, hour: u32, minute: u32, second: u32) -> LocalStamp {
    LocalStamp { year, month, day, hour, minute, second }
}

fn has_shape(id: &str) -> bool {
    let b: Vec<char> = id.chars().collect();
    b.len() == 23
        && id.starts_with("cli_put_")
        && b[8..16].iter().all(|c| c.is_ascii_digit())
        && b[16] == '_'
        && b[17..23].iter().all(|c| c.is_ascii_digit())
}

#[test]
fn doc_id_is_zero_padded() {
    assert_eq!(doc_id_for(&stamp(2024, 3, 5, 7, 8, 9)), "cli_put_20240305_070809");
    assert_eq!(doc_id_for(&stamp(987, 12, 31, 23, 59, 59)), "cli_put_09871231_235959");
}

#[test]
fn doc_id_year_outside_four_digits_has_sign() {
    assert_eq!(doc_id_for(&stamp(12345, 1, 1, 0, 0, 0)), "cli_put_+123450101_000000");
    assert_eq!(doc_id_for(&stamp(-44, 3, 15, 12, 0, 0)), "cli_put_-00440315_120000");
}

#[test]
fn generated_doc_id_has_shape() {
    let id = generate_doc_id();
    assert!(has_shape(&id), "{}", id);
}

#[test]
fn doc_ids_one_second_apart_differ() {
    let a = doc_id_for(&stamp(2025, 6, 30, 23, 59, 59));
    let b = doc_id_for(&stamp(2025, 7, 1, 0, 0, 0));
    let c = doc_id_for(&stamp(2025, 7, 1, 0, 0, 1));
    assert_ne!(a, b);
    assert_ne!(b, c);
    assert!(has_shape(&a) && has_shape(&b) && has_shape(&c));
}

#[test]
fn later_doc_ids_sort_after_earlier_ones() {
    let ids = [
        doc_id_for(&stamp(2024, 12, 31, 23, 59, 59)),
        doc_id_for(&stamp(2025, 1, 1, 0, 0, 0)),
        doc_id_for(&stamp(2025, 1, 1, 0, 0, 1)),
        doc_id_for(&stamp(2025, 1, 1, 0, 1, 0)),
        doc_id_for(&stamp(2025, 1, 1, 9, 0, 0)),
        doc_id_for(&stamp(2025, 1, 1, 10, 0, 0)),
    ];
    for w in ids.windows(2) {
        assert!(w[0] < w[1], "{} !< {}", w[0], w[1]);
    }
}
