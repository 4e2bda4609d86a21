use tailwind_fuse::arbitrary::LengthUnit;
use tailwind_fuse::arbitrary::TailwindArbitrary;
use tailwind_fuse::arbitrary::TailwindError;

fn arb(s: &str) -> TailwindArbitrary {
    TailwindArbitrary::new(s.to_string())
}

#[test]
fn presence() {
    assert!(arb("3px").is_some());
    assert!(!arb("3px").is_none());
    assert!(arb("").is_none());
    assert_eq!(arb("color:blue").as_str(), "color:blue");
}

#[test]
fn integer_values() {
    assert_eq!(arb("42").as_integer(), Ok(42));
    assert_eq!(arb("+10").as_integer(), Ok(10));
    assert_eq!(arb("-7").as_integer(), Ok(-7));
    assert_eq!(arb("0").as_integer(), Ok(0));
    assert_eq!(arb("2147483647").as_integer(), Ok(2147483647));
    assert_eq!(arb("-2147483648").as_integer(), Ok(i32::MIN));
}

#[test]
fn integer_errors() {
    assert_eq!(arb("").as_integer(), Err(TailwindError::SyntaxError));
    assert_eq!(arb("abc").as_integer(), Err(TailwindError::SyntaxError));
    assert_eq!(arb("1.5").as_integer(), Err(TailwindError::SyntaxError));
    assert_eq!(arb("2147483648").as_integer(), Err(TailwindError::SyntaxError));
    assert_eq!(arb("-2147483649").as_integer(), Err(TailwindError::SyntaxError));
    assert_eq!(
        arb("99999999999999999999999").as_integer(),
        Err(TailwindError::SyntaxError)
    );
    assert_eq!(arb("+").as_integer(), Err(TailwindError::SyntaxError));
}

#[test]
fn fraction_values() {
    assert_eq!(arb("1/2").as_fraction(), Ok((1, 2)));
    assert_eq!(arb("11/12").as_fraction(), Ok((11, 12)));
    assert_eq!(arb("3").as_fraction(), Err(TailwindError::SyntaxError));
    assert_eq!(arb("a/2").as_fraction(), Err(TailwindError::SyntaxError));
    assert_eq!(arb("1/2/3").as_fraction(), Err(TailwindError::SyntaxError));
    assert_eq!(arb("/2").as_fraction(), Err(TailwindError::SyntaxError));
    assert_eq!(arb("1/").as_fraction(), Err(TailwindError::SyntaxError));
}

#[test]
fn length_values() {
    assert_eq!(
        arb("3px").as_length(),
        Ok(LengthUnit::Length {
            value: "3".to_string(),
            unit: "px".to_string()
        })
    );
    assert_eq!(
        arb("2.5rem").as_length(),
        Ok(LengthUnit::Length {
            value: "2.5".to_string(),
            unit: "rem".to_string()
        })
    );
    assert_eq!(
        arb("50%").as_length(),
        Ok(LengthUnit::Length {
            value: "50".to_string(),
            unit: "%".to_string()
        })
    );
}

#[test]
fn length_errors() {
    assert_eq!(arb("3").as_length(), Err(TailwindError::SyntaxError));
    assert_eq!(arb("px").as_length(), Err(TailwindError::SyntaxError));
    assert_eq!(arb("10deg").as_length(), Err(TailwindError::SyntaxError));
    assert_eq!(arb("3.px").as_length(), Err(TailwindError::SyntaxError));
    assert_eq!(arb(".5px").as_length(), Err(TailwindError::SyntaxError));
}

#[test]
fn length_or_fraction() {
    assert_eq!(
        arb("1/2").as_length_or_fraction(),
        Ok(LengthUnit::Fraction {
            numerator: 1,
            denominator: 2
        })
    );
    assert_eq!(
        arb("3px").as_length_or_fraction(),
        Ok(LengthUnit::Length {
            value: "3".to_string(),
            unit: "px".to_string()
        })
    );
    assert_eq!(
        arb("nope").as_length_or_fraction(),
        Err(TailwindError::SyntaxError)
    );
}

#[test]
fn angle_values() {
    assert_eq!(
        arb("45deg").as_angle(),
        Ok(LengthUnit::Angle {
            value: "45".to_string(),
            unit: "deg"
                .to_string()
        })
    );
    assert_eq!(
        arb("0.5turn").as_angle(),
        Ok(LengthUnit::Angle {
            value: "0.5".to_string(),
            unit: "turn".to_string()
        })
    );
    assert_eq!(arb("3px").as_angle(), Err(TailwindError::SyntaxError));
}
