use sipmsg::bnfcore::ByteClass;
use sipmsg::nom_wrappers::{take_qutoed_string, take_sws, take_while_trim_sws, take_while_with_escaped};

fn take_quoted_string_case(input: &str, expected_result: &str, expected_input_rest: &str) {
    let res = take_qutoed_string(input.as_bytes());
    let (input, result) = res.unwrap();
    assert_eq!(result, expected_result.as_bytes());
    assert_eq!(input, expected_input_rest.as_bytes())
}

#[test]
fn take_qutoed_string_test() {
    take_quoted_string_case(
        "  \t\"dcd98b7102dd2f0e8b11d0f600bfb0c093\"  \r\n",
        "dcd98b7102dd2f0e8b11d0f600bfb0c093",
        "\r\n",
    );

    // an escaped quote stays in the interior
    take_quoted_string_case(
        "  \"this is string with escaped \\\" char\"  \r\nNextHeader: nextvalue\r\n\r\n",
        "this is string with escaped \\\" char",
        "\r\nNextHeader: nextvalue\r\n\r\n",
    );

    take_quoted_string_case("\"\"", "", "");
}

fn test_sws_case(source_val: &str, expected_result: &str) {
    let (input, _) = take_sws(source_val.as_bytes());
    assert_eq!(input, expected_result.as_bytes());
}

#[test]
fn test_sws_test() {
    test_sws_case("value", "value");
    test_sws_case("\r\nvalue", "\r\nvalue");
    test_sws_case("\r\n\tvalue", "value");
    test_sws_case("   \r\n\t \tvalue", "value");
    test_sws_case("  \r\nvalue", "\r\nvalue");
}

fn test_take_while_trim_sws_case(test_string: &str, expected_result: &str, expected_rest: &str) {
    let res = take_while_trim_sws(test_string.as_bytes(), ByteClass::TokenChar);
    let (input, result) = res.unwrap();
    assert_eq!(input, expected_rest.as_bytes());
    assert_eq!(result, expected_result.as_bytes());
}

#[test]
fn test_take_while_trim_sws() {
    test_take_while_trim_sws_case(" qqq s", "qqq", "s");
    test_take_while_trim_sws_case("qqq s", "qqq", "s");
    test_take_while_trim_sws_case(" q ", "q", "");
    test_take_while_trim_sws_case("s", "s", "");
}

#[test]
#[should_panic]
fn test_take_while_trim_sws_panic() {
    test_take_while_trim_sws_case("", "", "");
}

fn take_while_with_escaped_test_case(
    input_str: &str,
    expected_res: &str,
    expected_rem: &str,
    cls: ByteClass,
) {
    let (remainder, result) = take_while_with_escaped(input_str.as_bytes(), cls);
    assert_eq!(result, expected_res.as_bytes());
    assert_eq!(remainder, expected_rem.as_bytes());
}

#[test]
fn take_while_with_escaped_test() {
    take_while_with_escaped_test_case(
        "project%20x&priority=urgent",
        "project%20x",
        "&priority=urgent",
        ByteClass::Alpha,
    );
    take_while_with_escaped_test_case(
        "project%2Gx&priority=urgent",
        "project",
        "%2Gx&priority=urgent",
        ByteClass::Alpha,
    );

    take_while_with_escaped_test_case("p", "p", "", ByteClass::Alpha);
    take_while_with_escaped_test_case("123123X", "123123", "X", ByteClass::Digit);
    take_while_with_escaped_test_case("abc", "", "abc", ByteClass::Digit);
}
