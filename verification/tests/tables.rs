use skirmish::entity::Entity;
use skirmish::fixed::{floor_div, integer_sqrt, way_over_time, Vec3};
use skirmish::table::Table;

fn e(id: u64) -> Entity {
    Entity { id }
}

#[test]
fn rows_keep_their_order() {
    let mut table: Table<u32> = Table::new();
    assert_eq!(table.len(), 0);
    assert_eq!(table.insert(e(5), 50), None);
    assert_eq!(table.insert(e(3), 30), None);
    assert_eq!(table.insert(e(9), 90), None);
    assert_eq!(table.insert(e(3), 31), Some(30));
    assert_eq!(table.len(), 3);
    assert_eq!((table.key_at(0), *table.value_at(0)), (e(5), 50));
    assert_eq!((table.key_at(1), *table.value_at(1)), (e(3), 31));
    assert_eq!((table.key_at(2), *table.value_at(2)), (e(9), 90));
    assert_eq!(table.find(e(9)), Some(2));
    assert_eq!(table.find(e(4)), None);
    assert_eq!(table.get(e(3)), Some(&31));
    assert_eq!(table.get(e(4)), None);
    assert!(table.has(e(5)));
    assert!(!table.has(e(6)));
}

#[test]
fn rows_are_replaced_and_removed() {
    let mut table: Table<u32> = Table::new();
    for id in 1..=5u64 {
        table.push(e(id), id as u32 * 10);
    }
    assert_eq!(table.replace_at(1, 21), 20);
    assert_eq!(table.remove_at(0), 10);
    assert_eq!(table.key_at(0), e(2));
    assert_eq!(table.remove(e(4)), Some(40));
    assert_eq!(table.remove(e(4)), None);
    assert_eq!(table.len(), 3);
    assert_eq!((table.key_at(0), *table.value_at(0)), (e(2), 21));
    assert_eq!((table.key_at(1), *table.value_at(1)), (e(3), 30));
    assert_eq!((table.key_at(2), *table.value_at(2)), (e(5), 50));
}

#[test]
fn marked_rows_are_removed_in_order() {
    let mut table: Table<u32> = Table::new();
    for id in 1..=6u64 {
        table.push(e(id), id as u32);
    }
    let removed = table.remove_marked(&vec![true, false, true, true, false, true]);
    assert_eq!(removed, vec![e(1), e(3), e(4), e(6)]);
    assert_eq!(table.len(), 2);
    assert_eq!((table.key_at(0), *table.value_at(0)), (e(2), 2));
    assert_eq!((table.key_at(1), *table.value_at(1)), (e(5), 5));
    assert!(table.remove_marked(&vec![false, false]).is_empty());
    assert_eq!(table.remove_marked(&vec![true, true]), vec![e(2), e(5)]);
    assert_eq!(table.len(), 0);
    assert!(table.remove_marked(&Vec::new()).is_empty());
}

#[test]
fn listed_entities_are_removed() {
    let mut table: Table<u32> = Table::new();
    for id in 1..=5u64 {
        table.push(e(id), id as u32);
    }
    let removed = table.remove_entities(&vec![e(4), e(9), e(1), e(4)]);
    assert_eq!(removed, vec![e(1), e(4)]);
    assert_eq!(table.len(), 3);
    assert_eq!(table.key_at(0), e(2));
    assert_eq!(table.key_at(1), e(3));
    assert_eq!(table.key_at(2), e(5));
    assert!(table.remove_entities(&Vec::new()).is_empty());
}

#[test]
fn integer_square_roots() {
    assert_eq!(integer_sqrt(0), 0);
    assert_eq!(integer_sqrt(1), 1);
    assert_eq!(integer_sqrt(3), 1);
    assert_eq!(integer_sqrt(4), 2);
    assert_eq!(integer_sqrt(24), 4);
    assert_eq!(integer_sqrt(25), 5);
    assert_eq!(integer_sqrt(25_856_000_000), 160_798);
    assert_eq!(integer_sqrt(u128::MAX), u64::MAX);
    assert_eq!(integer_sqrt((u64::MAX as u128) * (u64::MAX as u128) - 1), u64::MAX - 1);
}

#[test]
fn division_rounds_down() {
    assert_eq!(floor_div(7, 2), 3);
    assert_eq!(floor_div(-7, 2), -4);
    assert_eq!(floor_div(-8, 2), -4);
    assert_eq!(floor_div(-1, 1_000_000), -1);
    assert_eq!(floor_div(0, 5), 0);
    assert_eq!(floor_div(i128::MAX, 1), i128::MAX);
    assert_eq!(floor_div(i128::MIN + 2, 1), i128::MIN + 2);
    assert_eq!(way_over_time(10_000_000, 16_000), 160_000);
    assert_eq!(way_over_time(-10_000_000, 16_000), -160_000);
    assert_eq!(way_over_time(-1, 1), -1);
    assert_eq!(way_over_time(1, 999_999), 0);
    assert_eq!(way_over_time(i64::MIN, u64::MAX), -170_141_183_460_469_231_722_463_931_679_030);
}

#[test]
fn vectors() {
    assert!(Vec3::zero().is_zero());
    assert!(!Vec3::new(0, 0, -1).is_zero());
    assert_eq!(Vec3::new(3, -4, 12).length_squared(), 169);
    assert_eq!(Vec3::new(3, -4, 12).length(), 13);
    assert_eq!(Vec3::new(1, 1, 1).length(), 1);
    assert_eq!(
        Vec3::new(i64::MIN, i64::MIN, i64::MIN).length_squared(),
        3 * (1u128 << 126)
    );
    assert_eq!(Vec3::new(1, 2, 3).checked_offset(&Vec3::new(-1, 0, 5), 10), Some(Vec3::new(-9, 2, 53)));
    assert_eq!(Vec3::new(i64::MAX, 0, 0).checked_offset(&Vec3::new(1, 0, 0), 1), None);
    assert_eq!(
        Vec3::new(i64::MAX, 0, 0).checked_offset(&Vec3::new(1, 0, 0), 0),
        Some(Vec3::new(i64::MAX, 0, 0))
    );
    assert!(Vec3::new(1_000_000_000_000, -1_000_000_000_000, 0).within_bounds());
    assert!(!Vec3::new(1_000_000_000_001, 0, 0).within_bounds());
}
