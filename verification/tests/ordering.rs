use std::cmp::Ordering;

use photo_manifest::file::FileInformation;
use photo_manifest::order::{name_is_before, names_match};
use photo_manifest::sort::sort;
use photo_manifest::timestamp::Timestamp;

fn file(name: &[u8], size: u64, seconds: i64, nanos: u32, offset: i32) -> FileInformation {
    FileInformation::new(name.to_vec(), size, Timestamp::new(seconds, nanos, offset).unwrap())
}

fn names(files: &[FileInformation]) -> Vec<Vec<u8>> {
    files.iter().map(|f| f.file_name.clone()).collect()
}

#[test]
fn names_compare_byte_by_byte() {
    assert!(name_is_before(&b"a".to_vec(), &b"b".to_vec()));
    assert!(!name_is_before(&b"b".to_vec(), &b"a".to_vec()));
    assert!(name_is_before(&b"a.jpg".to_vec(), &b"b.jpg".to_vec()));
    assert!(name_is_before(&b"Z".to_vec(), &b"a".to_vec()));
    assert!(name_is_before(&b"a10".to_vec(), &b"a2".to_vec()));
    assert!(name_is_before(&vec![0x7f], &vec![0x80]));
    assert!(name_is_before(&vec![0x61, 0xff], &vec![0x62]));
}

#[test]
fn a_prefix_comes_before_what_it_starts() {
    assert!(name_is_before(&b"".to_vec(), &b"a".to_vec()));
    assert!(name_is_before(&b"photo".to_vec(), &b"photo.jpg".to_vec()));
    assert!(!name_is_before(&b"photo.jpg".to_vec(), &b"photo".to_vec()));
}

#[test]
fn no_name_comes_before_itself() {
    assert!(!name_is_before(&b"".to_vec(), &b"".to_vec()));
    assert!(!name_is_before(&b"same".to_vec(), &b"same".to_vec()));
}

#[test]
fn name_order_is_that_of_byte_slices() {
    let samples: Vec<Vec<u8>> = vec![
        vec![],
        vec![0],
        vec![0, 0],
        vec![1],
        vec![0xff],
        b"a".to_vec(),
        b"ab".to_vec(),
        b"abc".to_vec(),
        b"b".to_vec(),
        "é".as_bytes().to_vec(),
    ];
    for a in &samples {
        for b in &samples {
            assert_eq!(name_is_before(a, b), a < b);
            assert_eq!(names_match(a, b), a == b);
        }
    }
}

#[test]
fn names_match_only_when_every_byte_does() {
    assert!(names_match(&b"".to_vec(), &b"".to_vec()));
    assert!(names_match(&b"a.jpg".to_vec(), &b"a.jpg".to_vec()));
    assert!(!names_match(&b"a.jpg".to_vec(), &b"a.jpG".to_vec()));
    assert!(!names_match(&b"a".to_vec(), &b"ab".to_vec()));
}

#[test]
fn cmp_goes_by_timestamp_first() {
    let early = file(b"z", 1, 100, 0, 0);
    let late = file(b"a", 1, 200, 0, 0);
    assert_eq!(early.cmp(&late), Ordering::Less);
    assert_eq!(late.cmp(&early), Ordering::Greater);
    assert!(early.precedes(&late));
    assert!(!late.precedes(&early));
}

#[test]
fn cmp_goes_by_name_between_equal_timestamps() {
    let a = file(b"a.jpg", 1, 100, 0, 0);
    let b = file(b"b.jpg", 1, 100, 0, 0);
    assert_eq!(a.cmp(&b), Ordering::Less);
    assert_eq!(b.cmp(&a), Ordering::Greater);
}

#[test]
fn cmp_is_equal_for_same_moment_and_name() {
    let a = file(b"a.jpg", 1, 100, 0, 0);
    let b = file(b"a.jpg", 2, 100, 0, 3600);
    assert_eq!(a.cmp(&b), Ordering::Equal);
    assert!(a == b);
    assert!(!a.precedes(&b));
    assert!(!b.precedes(&a));
}

#[test]
fn eq_needs_moment_and_name() {
    let a = file(b"a.jpg", 1, 100, 0, 0);
    assert!(a != file(b"a.jpg", 1, 101, 0, 0));
    assert!(a != file(b"a.jpg", 1, 100, 1, 0));
    assert!(a != file(b"b.jpg", 1, 100, 0, 0));
    assert!(a == file(b"a.jpg", 9, 100, 0, -60));
}

#[test]
fn partial_cmp_is_cmp() {
    let a = file(b"a.jpg", 1, 100, 0, 0);
    let b = file(b"b.jpg", 1, 100, 0, 0);
    let c = file(b"b.jpg", 1, 99, 999_999_999, 0);
    assert_eq!(a.partial_cmp(&b), Some(Ordering::Less));
    assert_eq!(b.partial_cmp(&a), Some(Ordering::Greater));
    assert_eq!(a.partial_cmp(&a), Some(Ordering::Equal));
    assert_eq!(c.partial_cmp(&a), Some(Ordering::Less));
    assert!(a < b);
    assert!(c < a);
    assert!(b >= a);
}

#[test]
fn exactly_one_of_before_after_and_same_holds() {
    let all = [
        file(b"a", 1, 100, 0, 0),
        file(b"b", 1, 100, 0, 0),
        file(b"a", 1, 100, 1, 0),
        file(b"", 1, 99, 0, 0),
        file(b"ab", 1, 100, 0, 60),
    ];
    for x in &all {
        for y in &all {
            let held = [x.precedes(y), y.precedes(x), x == y];
            assert_eq!(held.iter().filter(|h| **h).count(), 1);
        }
    }
}

#[test]
fn order_is_transitive() {
    let all = [
        file(b"a", 1, 100, 0, 0),
        file(b"b", 1, 100, 0, 0),
        file(b"a", 1, 100, 1, 0),
        file(b"", 1, 99, 0, 0),
        file(b"ab", 1, 100, 0, 60),
    ];
    for x in &all {
        for y in &all {
            for z in &all {
                if x.precedes(y) && y.precedes(z) {
                    assert!(x.precedes(z));
                }
            }
        }
    }
}

#[test]
fn sort_of_nothing_is_nothing() {
    assert!(sort(Vec::new()).is_empty());
}

#[test]
fn sort_of_one_is_that_one() {
    let sorted = sort(vec![file(b"only", 3, 5, 0, 0)]);
    assert_eq!(names(&sorted), vec![b"only".to_vec()]);
    assert_eq!(sorted[0].size, 3);
}

#[test]
fn sort_orders_by_moment() {
    let sorted = sort(vec![
        file(b"c", 1, 300, 0, 0),
        file(b"a", 1, 100, 0, 0),
        file(b"d", 1, 400, 0, 0),
        file(b"b", 1, 200, 0, 0),
        file(b"e", 1, 50, 0, 0),
    ]);
    assert_eq!(
        names(&sorted),
        vec![b"e".to_vec(), b"a".to_vec(), b"b".to_vec(), b"c".to_vec(), b"d".to_vec()]
    );
}

#[test]
fn sort_breaks_ties_by_name() {
    let sorted = sort(vec![
        file(b"b.jpg", 1, 100, 0, 0),
        file(b"c.jpg", 1, 100, 0, 3600),
        file(b"a.jpg", 1, 100, 0, -3600),
    ]);
    assert_eq!(names(&sorted), vec![b"a.jpg".to_vec(), b"b.jpg".to_vec(), b"c.jpg".to_vec()]);
}

#[test]
fn sort_keeps_every_file_once() {
    let mut files = Vec::new();
    for i in 0..200u64 {
        let seconds = ((i * 7919) % 211) as i64;
        files.push(file(format!("f{i}").as_bytes(), i, seconds, 0, 0));
    }
    let sorted = sort(files);
    assert_eq!(sorted.len(), 200);
    let mut sizes: Vec<u64> = sorted.iter().map(|f| f.size).collect();
    sizes.sort();
    assert_eq!(sizes, (0..200u64).collect::<Vec<u64>>());
    for pair in sorted.windows(2) {
        assert!(!pair[1].precedes(&pair[0]));
    }
}

#[test]
fn sort_is_what_std_gives() {
    let mut keys = Vec::new();
    let mut files = Vec::new();
    for i in 0..97u64 {
        let seconds = ((i * 31) % 13) as i64;
        let nanos = ((i * 17) % 3) as u32;
        let name = format!("n{}", (i * 5) % 97).into_bytes();
        keys.push((seconds, nanos, name.clone()));
        files.push(file(&name, i, seconds, nanos, 0));
    }
    keys.sort();
    let sorted = sort(files);
    let got: Vec<(i64, u32, Vec<u8>)> = sorted
        .iter()
        .map(|f| (f.timestamp.seconds(), f.timestamp.nanos(), f.file_name.clone()))
        .collect();
    assert_eq!(got, keys);
}
