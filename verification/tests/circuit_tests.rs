use netlist::{Circuit, Error, SearchDir, SourceFile};

fn no_fs() -> Vec<SearchDir> {
    Vec::new()
}

#[test]
fn elements_render_one_line_each() {
    let mut c = Circuit::new("test".to_string(), Vec::new());
    c.resistor(
        "R1".to_string(),
        "1".to_string(),
        "2".to_string(),
        "100".to_string(),
    );
    c.capacitor(
        "C1".to_string(),
        "2".to_string(),
        "0".to_string(),
        "10n".to_string(),
    );
    c.diode(
        "D1".to_string(),
        "2".to_string(),
        "3".to_string(),
        "1N4148".to_string(),
    );
    c.voltage(
        "1".to_string(),
        "1".to_string(),
        "0".to_string(),
        "5V".to_string(),
    );
    let lines = c.to_str(false, &no_fs()).unwrap();
    assert_eq!(
        lines,
        vec![
            "R1 1 2 100".to_string(),
            "C1 2 0 10n".to_string(),
            "D1 2 3 1N4148".to_string(),
            "V1 1 0 5V".to_string(),
        ]
    );
}

#[test]
fn close_appends_end_line() {
    let mut c = Circuit::new("test".to_string(), Vec::new());
    c.resistor(
        "R1".to_string(),
        "1".to_string(),
        "2".to_string(),
        "100".to_string(),
    );
    let lines = c.to_str(true, &no_fs()).unwrap();
    assert_eq!(lines, vec!["R1 1 2 100".to_string(), ".end".to_string()]);
}

#[test]
fn prefix_added_only_when_missing() {
    let mut c = Circuit::new("test".to_string(), Vec::new());
    c.resistor(
        "R1".to_string(),
        "1".to_string(),
        "2".to_string(),
        "100".to_string(),
    );
    c.resistor(
        "1".to_string(),
        "1".to_string(),
        "2".to_string(),
        "100".to_string(),
    );
    c.capacitor(
        "7".to_string(),
        "2".to_string(),
        "0".to_string(),
        "1u".to_string(),
    );
    let lines = c.to_str(false, &no_fs()).unwrap();
    assert_eq!(lines[0], "R1 1 2 100");
    assert_eq!(lines[1], "R1 1 2 100");
    assert_eq!(lines[2], "C7 2 0 1u");
}

#[test]
fn transistor_prefix_is_unconditional() {
    // The transistor and instance prefixes are prepended without any check
    // of the stored reference; a reference already carrying the letter
    // keeps both.  The referenced name is defined locally, so nothing is
    // resolved.
    let inner = Circuit::new("amp".to_string(), Vec::new());
    let mut outer = Circuit::new("o".to_string(), Vec::new());
    outer
        .subcircuit("amp".to_string(), vec!["1".to_string()], inner)
        .unwrap();
    outer.bjt(
        "1".to_string(),
        "c".to_string(),
        "b".to_string(),
        "e".to_string(),
        "amp".to_string(),
    );
    outer.bjt(
        "Q1".to_string(),
        "c".to_string(),
        "b".to_string(),
        "e".to_string(),
        "amp".to_string(),
    );
    outer
        .circuit(
            "1".to_string(),
            vec!["4".to_string(), "5".to_string()],
            "amp".to_string(),
        )
        .unwrap();
    let lines = outer.to_str(false, &no_fs()).unwrap();
    assert_eq!(lines[0], ".subckt amp 1");
    assert_eq!(lines[1], ".ends");
    assert_eq!(lines[2], "Q1 c b e amp");
    assert_eq!(lines[3], "QQ1 c b e amp");
    assert_eq!(lines[4], "X1 4 5 amp");
}

#[test]
fn voltage_prefix_is_unconditional() {
    let mut c = Circuit::new("test".to_string(), Vec::new());
    c.voltage(
        "V1".to_string(),
        "1".to_string(),
        "0".to_string(),
        "5V".to_string(),
    );
    let lines = c.to_str(false, &no_fs()).unwrap();
    assert_eq!(lines[0], "VV1 1 0 5V");
}

#[test]
fn set_value_shows_in_rendering() {
    let mut c = Circuit::new("test".to_string(), Vec::new());
    c.resistor(
        "R1".to_string(),
        "1".to_string(),
        "2".to_string(),
        "100".to_string(),
    );
    c.capacitor(
        "C1".to_string(),
        "2".to_string(),
        "0".to_string(),
        "10n".to_string(),
    );
    c.set_value("C1", "22n").unwrap();
    let lines = c.to_str(false, &no_fs()).unwrap();
    assert_eq!(lines[1], "C1 2 0 22n");
}

#[test]
fn set_value_updates_only_the_first_match() {
    let mut c = Circuit::new("test".to_string(), Vec::new());
    c.resistor(
        "R1".to_string(),
        "1".to_string(),
        "2".to_string(),
        "100".to_string(),
    );
    c.resistor(
        "R1".to_string(),
        "3".to_string(),
        "4".to_string(),
        "200".to_string(),
    );
    c.set_value("R1", "330").unwrap();
    let lines = c.to_str(false, &no_fs()).unwrap();
    assert_eq!(lines[0], "R1 1 2 330");
    assert_eq!(lines[1], "R1 3 4 200");
}

#[test]
fn set_value_unknown_reference_fails() {
    let mut c = Circuit::new("test".to_string(), Vec::new());
    c.resistor(
        "R1".to_string(),
        "1".to_string(),
        "2".to_string(),
        "100".to_string(),
    );
    assert_eq!(
        c.set_value("R9", "1"),
        Err(Error::UnknownElement("R9".to_string()))
    );
}

#[test]
fn set_value_never_touches_transistors_or_instances() {
    let mut c = Circuit::new("test".to_string(), Vec::new());
    c.bjt(
        "Q1".to_string(),
        "c".to_string(),
        "b".to_string(),
        "e".to_string(),
        "BC547B".to_string(),
    );
    c.circuit(
        "U1".to_string(),
        vec!["1".to_string()],
        "amp".to_string(),
    )
    .unwrap();
    assert_eq!(
        c.set_value("Q1", "BC556B"),
        Err(Error::UnknownElement("Q1".to_string()))
    );
    assert_eq!(
        c.set_value("U1", "other"),
        Err(Error::UnknownElement("U1".to_string()))
    );
}

#[test]
fn nested_subcircuit_line_order() {
    let mut inner = Circuit::new("amp".to_string(), Vec::new());
    inner.resistor(
        "R1".to_string(),
        "3".to_string(),
        "4".to_string(),
        "100".to_string(),
    );
    let mut outer = Circuit::new("main".to_string(), Vec::new());
    outer
        .subcircuit(
            "amp".to_string(),
            vec!["1".to_string(), "2".to_string()],
            inner,
        )
        .unwrap();
    outer.resistor(
        "R2".to_string(),
        "5".to_string(),
        "6".to_string(),
        "220".to_string(),
    );
    let lines = outer.to_str(false, &no_fs()).unwrap();
    assert_eq!(
        lines,
        vec![
            ".subckt amp 1 2".to_string(),
            "R1 3 4 100".to_string(),
            ".ends".to_string(),
            "R2 5 6 220".to_string(),
        ]
    );
}

#[test]
fn subcircuit_redefinition_last_write_wins() {
    let mut first = Circuit::new("amp".to_string(), Vec::new());
    first.resistor(
        "R1".to_string(),
        "1".to_string(),
        "2".to_string(),
        "100".to_string(),
    );
    let mut second = Circuit::new("amp".to_string(), Vec::new());
    second.resistor(
        "R1".to_string(),
        "1".to_string(),
        "2".to_string(),
        "999".to_string(),
    );
    let mut outer = Circuit::new("main".to_string(), Vec::new());
    outer
        .subcircuit("amp".to_string(), vec!["1".to_string()], first)
        .unwrap();
    outer
        .subcircuit("amp".to_string(), vec!["1".to_string()], second)
        .unwrap();
    let lines = outer.to_str(false, &no_fs()).unwrap();
    assert_eq!(
        lines,
        vec![
            ".subckt amp 1".to_string(),
            "R1 1 2 999".to_string(),
            ".ends".to_string(),
        ]
    );
}

#[test]
fn error_messages() {
    let e = Error::UnknownElement("R9".to_string());
    assert_eq!(e.message(), "unknown circuit element: R9");
    let e = Error::ModelNotFound("TL072".to_string());
    assert_eq!(e.message(), "spice model not found: TL072");
}
