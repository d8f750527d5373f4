use hardlight::{deflate, inflate};

#[test]
fn inflating_undoes_deflating_at_every_level() {
    let messages: Vec<Vec<u8>> = vec![vec![], vec![7], b"hello hello hello".to_vec(), (0..=255).collect(), vec![0; 10000]];
    for level in 0..=10 {
        for msg in &messages {
            let packed = deflate(msg, level).unwrap();
            assert_eq!(inflate(&packed), Some(msg.clone()));
        }
    }
}

#[test]
fn deflating_makes_repetition_smaller() {
    let msg = vec![42; 10000];
    let packed = deflate(&msg, 9).unwrap();
    assert!(packed.len() < 100);
    assert_ne!(packed, msg);
}

#[test]
fn level_zero_stores_the_bytes() {
    let msg = vec![42; 1000];
    assert!(deflate(&msg, 0).unwrap().len() > 1000);
}

#[test]
fn bytes_that_are_no_stream_are_not_inflated() {
    // A block type that DEFLATE does not have.
    assert_eq!(inflate(&[0xff, 0xff, 0xff, 0xff]), None);
}
