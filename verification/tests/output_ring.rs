use around::output::create_output;

#[test]
fn round_trip_bytes() {
    let (mut prod, mut cons) = create_output(1024);
    let bytes: Vec<u8> = (0..100).collect();
    assert_eq!(prod.push_slice(&bytes), 100);
    let mut out = vec![0; 200];
    assert_eq!(cons.pop_slice(&mut out), 100);
    assert_eq!(&out[..100], &bytes[..]);
}

#[test]
fn empty_returns_zero() {
    let (_, mut cons) = create_output(1024);
    assert_eq!(cons.pop_slice(&mut [0; 64]), 0);
}

#[test]
fn push_stops_at_capacity_and_pop_keeps_order() {
    let (mut prod, mut cons) = create_output(4);
    assert_eq!(prod.push_slice(&[1, 2, 3, 4, 5, 6]), 4);
    let mut out = [9u8; 3];
    assert_eq!(cons.pop_slice(&mut out), 3);
    assert_eq!(out, [1, 2, 3]);
    assert_eq!(prod.push_slice(&[7, 8]), 2);
    let mut rest = [0u8; 5];
    assert_eq!(cons.pop_slice(&mut rest), 3);
    assert_eq!(rest, [4, 7, 8, 0, 0]);
}
