use gremlin_types::extended::Period;

#[test]
fn period_text_examples() {
    assert_eq!(Period::new(1, 2, 3).to_string(), "P1Y2M3D");
    assert_eq!(Period::zero().to_string(), "P0D");
    assert_eq!(Period::new(0, 0, -5).to_string(), "P-5D");
    assert_eq!(Period::new(2, 0, 0).to_string(), "P2Y");
    assert_eq!(Period::new(0, -14, 0).to_string(), "P-14M");
    assert_eq!(Period::new(i32::MIN, 0, 10).to_string(), "P-2147483648Y10D");
}

#[test]
fn period_text_reads_back() {
    for p in [
        Period::new(1, 2, 3),
        Period::zero(),
        Period::new(0, 0, -5),
        Period::new(i32::MAX, i32::MIN, 7),
        Period::new(0, 12, 0),
    ] {
        assert_eq!(Period::parse(&p.to_string()), Ok(p));
    }
}
