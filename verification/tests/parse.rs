use fosolid::Action;

#[derive(Debug, PartialEq)]
struct Integer(i32);

impl TryFrom<&'static str> for Integer {
    type Error = std::num::ParseIntError;

    fn try_from(s: &'static str) -> Result<Self, Self::Error> {
        s.parse::<i32>().map(Integer)
    }
}

#[test]
fn try_into_convertible_yields_success() {
    let a = Action::new(|| "5");
    let r = a.try_into::<Integer>().unwrap();
    assert_eq!(r, Ok(Integer(5)));
}

#[test]
fn try_into_non_convertible_yields_failure() {
    let a = Action::new(|| "x");
    let r = a.try_into::<Integer>().unwrap();
    assert!(r.is_err());
}
