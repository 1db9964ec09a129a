use pokescript::generations::range_for;
use pokescript::Error;

#[test]
fn range_for_exact_values() {
    assert_eq!(range_for(1), Ok((1, 151)));
    assert_eq!(range_for(2), Ok((152, 251)));
    assert_eq!(range_for(3), Ok((252, 386)));
    assert_eq!(range_for(4), Ok((387, 493)));
    assert_eq!(range_for(5), Ok((494, 649)));
    assert_eq!(range_for(6), Ok((650, 721)));
    assert_eq!(range_for(7), Ok((722, 809)));
    assert_eq!(range_for(8), Ok((810, 898)));
}

#[test]
fn range_for_rejects_out_of_table() {
    assert_eq!(range_for(0), Err(Error::InvalidGeneration));
    assert_eq!(range_for(9), Err(Error::InvalidGeneration));
    assert_eq!(range_for(255), Err(Error::InvalidGeneration));
}

#[test]
fn ranges_are_contiguous() {
    let (first_1, _) = range_for(1).unwrap();
    assert_eq!(first_1, 1);
    let (_, last_8) = range_for(8).unwrap();
    assert_eq!(last_8, 898);
    for g in 2u8..=8 {
        let (_, prev_last) = range_for(g - 1).unwrap();
        let (first, last) = range_for(g).unwrap();
        assert_eq!(first, prev_last + 1);
        assert!(first <= last);
    }
}
