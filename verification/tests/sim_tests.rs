use netlist::sim::{ac_command, tran_command, u32_dec_str};
use netlist::{Cb, Circuit, Simulation};

#[test]
fn tran_command_layout() {
    assert_eq!(tran_command("1u", "10m", "0"), "tran 1u 10m 0");
}

#[test]
fn ac_command_layout() {
    assert_eq!(ac_command("10", "1Meg", 10, "DEC"), "ac DEC 10 10 1Meg");
    assert_eq!(ac_command("1", "100k", 4070, "OCT"), "ac OCT 4070 1 100k");
}

#[test]
fn decimal_rendering() {
    assert_eq!(u32_dec_str(0), "0");
    assert_eq!(u32_dec_str(9), "9");
    assert_eq!(u32_dec_str(10), "10");
    assert_eq!(u32_dec_str(4070), "4070");
    assert_eq!(u32_dec_str(4294967295), "4294967295");
}

#[test]
fn callbacks_record_engine_output() {
    let mut cb = Cb::new();
    assert_eq!(cb.status, 0);
    assert_eq!(cb.unload, false);
    assert_eq!(cb.quit, false);
    cb.send_char("stdout one");
    cb.send_char("stdout two");
    cb.controlled_exit(1, true, false);
    assert_eq!(cb.strs, vec!["stdout one".to_string(), "stdout two".to_string()]);
    assert_eq!(cb.status, 1);
    assert_eq!(cb.unload, true);
    assert_eq!(cb.quit, false);
}

#[test]
fn simulation_starts_without_buffer() {
    let mut c = Circuit::new("test".to_string(), Vec::new());
    c.resistor(
        "R1".to_string(),
        "1".to_string(),
        "2".to_string(),
        "100".to_string(),
    );
    let sim = Simulation::new(c);
    assert!(sim.buffer.is_none());
    let lines = sim.circuit.to_str(true, &Vec::new()).unwrap();
    assert_eq!(lines, vec!["R1 1 2 100".to_string(), ".end".to_string()]);
}
