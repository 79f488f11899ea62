use rustwarrior_core::priority::Error;
use rustwarrior_core::Priority;

#[test]
fn priority_ord() {
    assert!(Priority::One > Priority::Two);
    assert!(Priority::Two > Priority::Three);
}

#[test]
fn parse_zero_is_rejected() {
    assert_eq!(Priority::try_from(0), Err(Error(0)));
}

#[test]
fn parse_one() {
    assert_eq!(Priority::try_from(1), Ok(Priority::One));
}

#[test]
fn parse_two() {
    assert_eq!(Priority::try_from(2), Ok(Priority::Two));
}

#[test]
fn parse_three() {
    assert_eq!(Priority::try_from(3), Ok(Priority::Three));
}

#[test]
fn parse_above_the_maximum_is_rejected() {
    assert_eq!(Priority::try_from(4), Err(Error(4)));
    assert_eq!(Priority::try_from(5), Err(Error(5)));
    assert_eq!(Priority::try_from(255), Err(Error(255)));
}

#[test]
fn encode_is_the_inverse_of_parse() {
    for level in 1u8..=3 {
        let priority = Priority::try_from(level).unwrap();
        assert_eq!(u8::from(priority), level);
    }
}
