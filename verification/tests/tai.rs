use rupervise::tai::{Tai, TAI_OFFSET, now, tai_unix, unpack};

#[test]
fn tai_at_epoch() {
    assert_eq!(Tai(TAI_OFFSET), tai_unix(0));
}

#[test]
fn tai_at_epoch_plus_one() {
    assert_eq!(Tai(TAI_OFFSET + 1), tai_unix(1));
}

#[test]
fn less_tais() {
    let t0 = Tai(0);
    let t1 = Tai(1);

    assert!(t0 < t1);
}

#[test]
fn sub_tais() {
    let t0 = Tai(12345);
    let t1 = Tai(12300);

    assert_eq!(Tai(45), t0.sub(t1));
}

#[test]
fn add_tais() {
    let t0 = Tai(123);
    let t1 = Tai(123);

    assert_eq!(Tai(246), t0.add(t1));
}

#[test]
fn tai_as_secs() {
    let t0 = Tai(123);
    assert_eq!(123, t0.as_secs());
}

#[test]
fn tai_unpack_zero() {
    let array: [u8; 8] = [0; 8];
    assert_eq!(Tai(0), unpack(&array));
}

#[test]
fn tai_unpack_one() {
    let array: [u8; 8] = [0, 0, 0, 0, 0, 0, 0, 1];
    assert_eq!(Tai(1), unpack(&array));
}

#[test]
fn tai_unpack() {
    let tai_array: [u8; 8] = [0xff, 0, 0xff, 0, 0xff, 0, 0xff, 0];
    println!("{:?}", tai_array);
    assert_eq!(Tai(0xff00ff00ff00ff00), unpack(&tai_array));
}

#[test]
fn sub_clamps_to_zero() {
    assert_eq!(Tai(0), Tai(5).sub(Tai(9)));
    assert_eq!(Tai(0), Tai(9).sub(Tai(9)));
}

#[test]
fn now_is_past_the_offset() {
    assert!(now().as_secs() >= TAI_OFFSET);
}
