use midi::ports::{plan_port, port_from_text, select_port, PortError, PortPlan};

#[test]
fn no_port_is_an_error() {
    assert!(matches!(plan_port(0), Err(PortError::NoInputPort)));
}

#[test]
fn one_port_is_taken_without_asking() {
    assert!(matches!(plan_port(1), Ok(PortPlan::UseOnlyPort)));
}

#[test]
fn several_ports_need_a_choice() {
    assert!(matches!(plan_port(2), Ok(PortPlan::AskUser)));
    assert!(matches!(plan_port(usize::MAX), Ok(PortPlan::AskUser)));
}

#[test]
fn typed_line_selects_a_port() {
    assert!(matches!(select_port(3, "1\n"), Ok(1)));
    assert!(matches!(select_port(3, "  2 \r\n"), Ok(2)));
    assert!(matches!(select_port(3, "0"), Ok(0)));
    assert!(matches!(select_port(3, "\t+2\n"), Ok(2)));
    assert!(matches!(select_port(300, "007\n"), Ok(7)));
}

#[test]
fn white_space_inside_the_number_is_not_trimmed() {
    assert!(matches!(select_port(30, "1 2\n"), Err(PortError::NotANumber(_))));
}

#[test]
fn untrimmed_text_is_read_as_it_stands() {
    assert!(matches!(port_from_text(3, "1"), Ok(1)));
    assert!(matches!(port_from_text(3, "1\n"), Err(PortError::NotANumber(_))));
    assert!(matches!(port_from_text(3, " 1"), Err(PortError::NotANumber(_))));
}

#[test]
fn port_out_of_range_is_refused() {
    assert!(matches!(select_port(3, "3\n"), Err(PortError::InvalidPort)));
    assert!(matches!(select_port(3, "7\n"), Err(PortError::InvalidPort)));
    assert!(matches!(select_port(0, "0\n"), Err(PortError::InvalidPort)));
}

#[test]
fn text_that_is_no_number_is_refused() {
    assert!(matches!(select_port(3, "one\n"), Err(PortError::NotANumber(_))));
    assert!(matches!(select_port(3, "\n"), Err(PortError::NotANumber(_))));
    assert!(matches!(select_port(3, "-1\n"), Err(PortError::NotANumber(_))));
    assert!(matches!(select_port(3, "+\n"), Err(PortError::NotANumber(_))));
    assert!(matches!(select_port(3, "1.0\n"), Err(PortError::NotANumber(_))));
    assert!(matches!(
        select_port(3, "340282366920938463463374607431768211456\n"),
        Err(PortError::NotANumber(_))
    ));
}

#[test]
fn errors_say_what_went_wrong() {
    assert_eq!(PortError::NoInputPort.message(), "no input port found");
    assert_eq!(PortError::InvalidPort.message(), "invalid input port selected");
    match select_port(3, "one\n") {
        Err(error) => assert_eq!(error.message(), "invalid digit found in string"),
        Ok(_) => panic!("a word is no port number"),
    }
    match select_port(3, "\n") {
        Err(error) => assert_eq!(error.message(), "cannot parse integer from empty string"),
        Ok(_) => panic!("an empty line is no port number"),
    }
}
