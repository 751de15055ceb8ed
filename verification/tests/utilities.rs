use worksteal::datetime::{
    datetime_difference, decompose_date, is_countable, seconds_since_start, try_decompose_date,
};
use worksteal::experiments::{combine, four_dice, mntd, write_vec_to_file};
use worksteal::grid::{Node, Wire};
use worksteal::rollup::Rollup;
use worksteal::stars::{pyramider, pyramider_row};
use worksteal::text::{list_string, signed_decimal_string};

#[test]
fn dates_come_apart_into_numbers() {
    assert_eq!(decompose_date("2025-03-07 23:39:44"), vec![2025, 3, 7, 23, 39, 44]);
    assert_eq!(try_decompose_date("2025-03-07 23:39:44"), Some(vec![2025, 3, 7, 23, 39, 44]));
    assert_eq!(try_decompose_date("+1-02 3"), Some(vec![1, 2, 3]));
    assert_eq!(try_decompose_date("1 2 junk"), Some(vec![1, 2]));
    assert_eq!(try_decompose_date("65535 0"), Some(vec![65535, 0]));
    assert_eq!(try_decompose_date("65536 0"), None);
    assert_eq!(try_decompose_date("2025-03-07"), None);
    assert_eq!(try_decompose_date("2025-03-07 "), None);
    assert_eq!(try_decompose_date("2025--07 1"), None);
    assert_eq!(try_decompose_date("2025-03-07 23:39:4x"), None);
    assert_eq!(try_decompose_date("-1 1"), None);
    assert_eq!(try_decompose_date("+ 1"), None);
    assert_eq!(try_decompose_date(""), None);
}

#[test]
fn seconds_are_counted_from_2001() {
    assert_eq!(seconds_since_start(vec![2001, 0, 0, 0, 0, 0]), 0);
    assert_eq!(seconds_since_start(vec![2001, 0, 0, 0, 0, 1]), 1);
    assert_eq!(
        seconds_since_start(vec![2025, 3, 7, 23, 39, 44]),
        24 * 31536000 + 3 * 2592000 + 7 * 86400 + 23 * 3600 + 39 * 60 + 44
    );
    assert!(is_countable("2025-03-07 23:39:44"));
    assert!(!is_countable("2000-03-07 23:39:44"));
    assert!(!is_countable("2025-03-07 23:39"));
    assert!(!is_countable("yesterday"));
}

#[test]
fn difference_is_the_same_both_ways() {
    let a = "2025-03-07 23:39:44";
    let b = "2025-03-08 00:00:00";
    assert_eq!(datetime_difference(a, b), 86400 - (23 * 3600 + 39 * 60 + 44));
    assert_eq!(datetime_difference(b, a), datetime_difference(a, b));
    assert_eq!(datetime_difference(a, a), 0);
}

#[test]
fn rollup_keeps_a_block_when_enough_time_has_gone_by() {
    let mut rollup = Rollup::new();
    assert!(rollup.is_well_formed());
    assert!(rollup.write);
    // the same date as the reference: no new block
    assert!(!rollup.opens_block(&"2025-03-07 23:39:44".to_string()));
    assert!(rollup.observe("2025-03-07 23:39:44".to_string(), 1));
    assert_eq!(rollup.number_blocks, 0);
    // 299 seconds later, with a rollup value of one: not more than 299
    assert!(!rollup.observe("2025-03-07 23:44:43".to_string(), 1));
    assert_eq!(rollup.number_blocks, 1);
    assert_eq!(rollup.deleted_count, 1);
    assert_eq!(rollup.last_write_time, 299);
    // the block goes on
    assert!(!rollup.observe("2025-03-07 23:44:43".to_string(), 1));
    assert_eq!(rollup.number_blocks, 1);
    // one second more, and 300 is more than 299
    assert!(rollup.observe("2025-03-07 23:44:44".to_string(), 1));
    assert_eq!(rollup.number_blocks, 2);
    assert_eq!(rollup.deleted_count, 1);
    assert_eq!(rollup.last_write_time, 0);
    assert!(rollup.observe("2025-03-07 23:44:44".to_string(), 1));
    // a larger rollup value asks for more time
    assert!(!rollup.observe("2025-03-07 23:54:44".to_string(), 3));
    assert_eq!(rollup.last_write_time, 600);
    assert_eq!(rollup.previous_date, "2025-03-07 23:54:44");
}

#[test]
fn dice_stay_within_bounds() {
    assert_eq!(four_dice(0, 0, 0, 0), 0);
    assert_eq!(four_dice(5, 11, 23, 255), 5 + 5 + 5 + 3);
    assert_eq!(four_dice(6, 7, 8, 9), 0 + 1 + 2 + 3);
    let result = mntd(1000);
    assert_eq!(result.len(), 1000);
    assert!(result.iter().all(|sum| *sum <= 40));
    assert!(mntd(0).is_empty());
    assert_eq!(combine(&vec![1, 20, 3], &vec![10, 20, 30]), vec![11, 40, 33]);
}

#[test]
fn vectors_are_written_with_commas() {
    assert_eq!(write_vec_to_file(&vec![]), "");
    assert_eq!(write_vec_to_file(&vec![7]), "7,");
    assert_eq!(write_vec_to_file(&vec![1, 20, 0, 4294967295]), "1,20,0,4294967295,");
}

#[test]
fn numbers_are_written_in_decimal() {
    assert_eq!(signed_decimal_string(0), "0");
    assert_eq!(signed_decimal_string(-1), "-1");
    assert_eq!(signed_decimal_string(i32::MAX), "2147483647");
    assert_eq!(signed_decimal_string(i32::MIN), "-2147483648");
    assert_eq!(list_string(&vec![]), "[]");
    assert_eq!(list_string(&vec![5]), "[5]");
    assert_eq!(list_string(&vec![0, -1, 99]), "[0, -1, 99]");
}

#[test]
fn nodes_connect() {
    let mut node1 = Node::new("node1", 10);
    let node2 = Node::new("node2", 20);
    node1.connect(1);
    node1.connect(0);
    assert_eq!(node1.id, "node1");
    assert_eq!(node1.power, 10);
    assert_eq!(node1.connections, vec![1, 0]);
    assert!(node2.connections.is_empty());
    let wire = Wire { source: node1, sink: node2 };
    assert_eq!(wire.source.power + wire.sink.power, 30);
}

#[test]
fn pyramid_rows() {
    assert_eq!(pyramider_row(1, 3), "*    *");
    assert_eq!(pyramider_row(3, 3), "******");
    assert_eq!(pyramider_row(4, 3), "********");
    assert_eq!(pyramider(3), vec!["*    *", "**  **", "******"]);
    assert!(pyramider(0).is_empty());
}
