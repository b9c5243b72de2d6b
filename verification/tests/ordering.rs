use cert_expiry::aggregate::aggregate;
use cert_expiry::classify::{SiteResult, Status, DAYS_LEFT_UNKNOWN};

fn read(domain: &str, days_left: i64) -> SiteResult {
    SiteResult {
        domain: domain.to_string(),
        status: if days_left < 7 { Status::Expired } else { Status::Valid },
        expiry_display: "2030-01-01".to_string(),
        days_left,
    }
}

fn unread(domain: &str) -> SiteResult {
    SiteResult {
        domain: domain.to_string(),
        status: Status::Error,
        expiry_display: "N/A".to_string(),
        days_left: DAYS_LEFT_UNKNOWN,
    }
}

fn domains(rows: &[SiteResult]) -> Vec<&str> {
    rows.iter().map(|row| row.domain.as_str()).collect()
}

#[test]
fn the_expired_host_comes_before_the_valid_one() {
    let sorted = aggregate(vec![read("fresh.example", 30), read("stale.example", -5)]);
    assert_eq!(sorted, vec![read("stale.example", -5), read("fresh.example", 30)]);
}

#[test]
fn nothing_in_gives_nothing_out() {
    assert_eq!(aggregate(Vec::new()), Vec::new());
}

#[test]
fn a_single_row_stays() {
    assert_eq!(aggregate(vec![read("a.example", 12)]), vec![read("a.example", 12)]);
    assert_eq!(aggregate(vec![unread("a.example")]), vec![unread("a.example")]);
}

#[test]
fn rows_in_order_stay_in_order() {
    let rows = vec![read("a", -3), read("b", 0), read("c", 7), read("d", 400), unread("e")];
    assert_eq!(aggregate(rows.clone()), rows);
}

#[test]
fn rows_in_reverse_are_turned_round() {
    let rows = vec![unread("e"), read("d", 400), read("c", 7), read("b", 0), read("a", -3)];
    assert_eq!(domains(&aggregate(rows)), vec!["a", "b", "c", "d", "e"]);
}

#[test]
fn equal_counts_keep_the_order_they_came_in() {
    let rows = vec![read("a", 5), read("b", 3), read("c", 5), read("d", 3), read("e", 5)];
    assert_eq!(domains(&aggregate(rows)), vec!["b", "d", "a", "c", "e"]);
}

#[test]
fn errors_keep_their_order_among_themselves() {
    let rows = vec![unread("z"), read("m", 1), unread("a"), unread("k")];
    assert_eq!(domains(&aggregate(rows)), vec!["m", "z", "a", "k"]);
}

#[test]
fn errors_come_after_every_row_that_was_read() {
    let rows = vec![
        unread("down.example"),
        read("fresh.example", 10),
        unread("slow.example"),
        read("stale.example", -1),
        read("long.example", 213_503_982_334_601),
    ];
    let sorted = aggregate(rows);
    assert_eq!(
        domains(&sorted),
        vec!["stale.example", "fresh.example", "long.example", "down.example", "slow.example"]
    );
    let first_error = sorted.iter().position(|row| row.status == Status::Error).unwrap();
    assert!(sorted[first_error..].iter().all(|row| row.status == Status::Error));
    assert!(sorted[..first_error].iter().all(|row| row.status != Status::Error));
}

#[test]
fn the_day_counts_never_fall() {
    let rows = vec![
        read("a", 9),
        read("b", -40),
        unread("c"),
        read("d", 0),
        read("e", i64::MIN),
        read("f", 9),
        read("g", 8),
        read("h", -40),
    ];
    let sorted = aggregate(rows);
    for pair in sorted.windows(2) {
        assert!(pair[0].days_left <= pair[1].days_left);
    }
    assert_eq!(domains(&sorted), vec!["e", "b", "h", "d", "g", "a", "f", "c"]);
}

#[test]
fn every_row_is_kept_once() {
    let rows = vec![read("a", 9), read("a", 9), unread("b"), read("c", -2), read("a", 1)];
    let sorted = aggregate(rows.clone());
    assert_eq!(sorted.len(), rows.len());
    for row in rows.iter() {
        let before = rows.iter().filter(|other| *other == row).count();
        let after = sorted.iter().filter(|other| *other == row).count();
        assert_eq!(before, after);
    }
}

#[test]
fn rows_are_moved_whole() {
    let odd = SiteResult {
        domain: "odd.example".to_string(),
        status: Status::Valid,
        expiry_display: "whenever".to_string(),
        days_left: -7,
    };
    let sorted = aggregate(vec![read("a", 0), odd.clone()]);
    assert_eq!(sorted, vec![odd, read("a", 0)]);
}

#[test]
fn sorting_agrees_with_a_stable_sort_by_key() {
    let mut rows = Vec::new();
    let mut seed: u64 = 7;
    for index in 0..200 {
        seed = seed.wrapping_mul(6_364_136_223_846_793_005).wrapping_add(1_442_695_040_888_963_407);
        let days = ((seed >> 33) % 11) as i64 - 5;
        if seed % 7 == 0 {
            rows.push(unread(&format!("host{}", index)));
        } else {
            rows.push(read(&format!("host{}", index), days));
        }
    }
    let mut expected = rows.clone();
    expected.sort_by_key(|row| row.days_left);
    assert_eq!(aggregate(rows), expected);
}
