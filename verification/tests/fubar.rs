use xdrk::error::ensure;
use xdrk::error::Fubar;

fn fails_with(text: &str) -> Result<(), Fubar> {
    Err(Fubar(format!("{}", text)))
}

#[test]
fn fubar_test() {
    let test_str = "warblgarbl";
    let err = Fubar(test_str.to_string());

    assert_eq!(test_str, &err.to_string());
    assert_eq!(fails_with(test_str), Err(err.clone()));
    assert_eq!(Err(Fubar(format!("warblgarbl"))) as Result<(), Fubar>, Err(err.clone()));
    assert_eq!(Err(Fubar(format!(""))) as Result<(), Fubar>, Err(Fubar("".to_string())));
}

#[test]
fn ensure_test() {
    fn wrapper(cond: bool, msg: &str) -> Result<(), Fubar> {
        assert_eq!(ensure(cond, msg)?, ());
        Ok(())
    }

    let test_str = "warblgarbl";
    let err = Fubar(test_str.to_string());

    assert_eq!(wrapper(true, test_str), Ok(()));
    assert_eq!(wrapper(false, test_str), Err(err));
}
