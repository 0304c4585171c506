use string_calculator::{add, Error, InvalidSeparator, MultipleErrorKind, NegativeNumber};

#[test]
fn given_empty_string_return_0() {
    // Act
    let result = add("");

    // Assert
    assert_eq!(0, result.unwrap(), "given an empty string the result is 0")
}

#[test]
fn given_only_1_number_return_the_number() {
    // Act
    let result = add("10");

    // Assert
    assert_eq!(
        10,
        result.unwrap(),
        "given only one number the result is the number itself"
    )
}

#[test]
fn given_2_numbers_return_the_sum() {
    // Act
    let result = add("1,10");

    // Assert
    assert_eq!(11, result.unwrap(), "given \"1,10\" return 11")
}

#[test]
fn given_3_numbers_return_the_sum() {
    // Act
    let result = add("1,1,10");

    // Assert
    assert_eq!(12, result.unwrap(), "given \"1,1,10\" return 12")
}

#[test]
fn commas_or_newlines_may_act_as_separators() {
    // Arrange
    let op = "1,2\n3";

    // Act
    let result = add(op);

    // Assert
    assert_eq!(result.unwrap(), 6, "given: 1,2\\n3 result is 6");
}

#[test]
fn given_calculation_with_trailing_comma_return_error() {
    // Arrange
    let op = "1,2,";

    // Act
    let result = add(op);

    // Assert
    assert!(result.is_err(), "given: 1,2, result is an error");
    assert_eq!(
        result.unwrap_err(),
        Error::TrailingSeparator,
        "given: 1,2\\n3, TrailingSeparator Error is returned"
    );
}

#[test]
fn given_initial_line_to_set_separator_then_use_new_separator() {
    // Arrange
    let op = "//|\n1|3";

    // Act
    let result = add(op);

    // Assert
    assert_eq!(result.unwrap(), 4, "given: //|\n1|3 result is 4");
}

#[test]
fn given_a_specified_separator_when_another_separator_is_used_then_error() {
    // Arrange
    let op = "//;\n1|2";

    // Act
    let result = add(op);

    // Assert
    assert!(result.is_err(), "given: //;\n1|2 result is an error");
    assert_eq!(
        result.err().unwrap(),
        Error::InvalidSeparator(InvalidSeparator {
            expected: ';',
            actual: '|',
            position: 2
        })
    );
}

#[test]
fn given_a_negative_number_then_error() {
    // Arrange
    let op = "1,-2";

    // Act
    let result = add(op);

    // Assert
    assert!(result.is_err(), "given: 1,-2 result is an error");
    assert_eq!(
        result.err().unwrap(),
        Error::NegativeNumber(NegativeNumber { numbers: vec![-2] })
    );
}

#[test]
fn given_multiple_negative_numbers_then_error() {
    // Arrange
    let op = "2,-4,-9";

    // Act
    let result = add(op);

    // Assert
    assert!(
        result.is_err(),
        "given: 2,-4,-9 result is an error with all numbers"
    );
    assert_eq!(
        result.err().unwrap(),
        Error::NegativeNumber(NegativeNumber {
            numbers: vec![-4, -9],
        })
    );
}

#[test]
fn given_multiple_errors_then_return_all_errors() {
    // Arrange
    let op = "//|\n1|2,-3";

    // Act
    let result = add(op);

    // Assert
    assert!(
        result.is_err(),
        "given://|\n1|2,-3 result is multiple errors"
    );
    assert_eq!(
        result.err().unwrap(),
        Error::Multiple(MultipleErrorKind {
            errors: vec![
                Error::InvalidSeparator(InvalidSeparator {
                    expected: '|',
                    actual: ',',
                    position: 4,
                }),
                Error::NegativeNumber(NegativeNumber { numbers: vec![-3] })
            ],
        })
    );
}

#[test]
fn reparsing_the_same_input_yields_the_same_result() {
    // add is a pure function of its input: no hidden state
    assert_eq!(add("1,2\n3"), add("1,2\n3"));
    assert_eq!(add("//|\n1|2,-3"), add("//|\n1|2,-3"));
    assert_eq!(add(""), add(""));
}

#[test]
fn trailing_custom_separator_is_an_error_too() {
    let result = add("//|\n1|3|");
    assert_eq!(result.unwrap_err(), Error::TrailingSeparator);
}

#[test]
fn header_with_empty_payload_counts_as_trailing_separator() {
    let result = add("//|\n");
    assert_eq!(result.unwrap_err(), Error::TrailingSeparator);
}

#[test]
fn plus_sign_is_accepted() {
    assert_eq!(add("+5,3").unwrap(), 8);
}

#[test]
fn zero_alone_is_zero() {
    assert_eq!(add("0").unwrap(), 0);
}

#[test]
fn empty_interior_token_takes_the_invalid_separator_path() {
    // "1,,2": the empty middle token fails to parse, no negative number is
    // found, and the scan runs off the clean payload: the expected separator
    // itself is reported, one past the end.
    let result = add("1,,2");
    assert_eq!(
        result.unwrap_err(),
        Error::InvalidSeparator(InvalidSeparator {
            expected: ',',
            actual: ',',
            position: 5
        })
    );
}

#[test]
fn overflowing_token_takes_the_invalid_separator_path() {
    // one past i32::MAX: unparseable, and every character is clean
    let result = add("2147483648");
    assert_eq!(
        result.unwrap_err(),
        Error::InvalidSeparator(InvalidSeparator {
            expected: ',',
            actual: ',',
            position: 11
        })
    );
}

#[test]
fn most_negative_value_is_collected() {
    let result = add("-2147483648");
    assert_eq!(
        result.unwrap_err(),
        Error::NegativeNumber(NegativeNumber {
            numbers: vec![i32::MIN]
        })
    );
}

#[test]
fn malformed_header_falls_back_to_default_separators() {
    // "//" without the newline is no header: the whole input is the payload
    // and its first character is already invalid
    let result = add("//");
    assert_eq!(
        result.unwrap_err(),
        Error::InvalidSeparator(InvalidSeparator {
            expected: ',',
            actual: '/',
            position: 1
        })
    );
}

#[test]
fn negative_numbers_with_custom_separator() {
    let result = add("//;\n3;-4");
    assert_eq!(
        result.unwrap_err(),
        Error::NegativeNumber(NegativeNumber { numbers: vec![-4] })
    );
}

#[test]
fn trailing_separator_message_template() {
    assert_eq!(Error::TrailingSeparator.message(), "trailing separator in input");
}

#[test]
fn invalid_separator_message_template() {
    let e = InvalidSeparator {
        expected: ';',
        actual: '|',
        position: 12,
    };
    assert_eq!(e.message(), "';' expected, but found '|' at position 12");
}

#[test]
fn negative_number_message_template() {
    let e = NegativeNumber {
        numbers: vec![-4, -9, -2147483648],
    };
    assert_eq!(
        e.message(),
        "Negative number(s) are not allowed: -4,-9,-2147483648"
    );
}

#[test]
fn multiple_errors_message_template() {
    let e = Error::Multiple(MultipleErrorKind {
        errors: vec![Error::TrailingSeparator],
    });
    assert_eq!(e.message(), "multiple errors");
}

#[test]
fn positions_count_characters_not_bytes() {
    // a multi-byte character is one position
    let result = add("1,ü");
    assert_eq!(
        result.unwrap_err(),
        Error::InvalidSeparator(InvalidSeparator {
            expected: ',',
            actual: 'ü',
            position: 3
        })
    );
}

#[test]
fn scan_excludes_only_the_expected_separator() {
    // under the default set the expected separator is the comma, so a
    // newline standing where a token should be is itself the found character
    let result = add("1\nx,2");
    assert_eq!(
        result.unwrap_err(),
        Error::InvalidSeparator(InvalidSeparator {
            expected: ',',
            actual: '\n',
            position: 2
        })
    );
}
