use netlist::{Circuit, Error, SearchDir, SourceFile};

fn spice_dir() -> Vec<SearchDir> {
    vec![SearchDir {
        path: "files/spice/".to_string(),
        files: vec![
            SourceFile {
                path: "files/spice/TL072.lib".to_string(),
                dir: "files/spice".to_string(),
                content: ".SUBCKT TL072 1 2 3 4 5\n* op amp macromodel\n.ENDS TL072\n"
                    .to_string(),
            },
            SourceFile {
                path: "files/spice/BC547.mod".to_string(),
                dir: "files/spice".to_string(),
                content: ".model BC547B NPN (IS=1e-14 BF=300)\n.include bc5x7.lib\n".to_string(),
            },
            SourceFile {
                path: "files/spice/bc5x7.lib".to_string(),
                dir: "files/spice".to_string(),
                content: ".model BC556B PNP (IS=1e-14 BF=200)\n".to_string(),
            },
        ],
    }]
}

fn spice_circuit() -> Circuit {
    Circuit::new("test".to_string(), vec!["files/spice/".to_string()])
}

#[test]
fn load_model() {
    let fs = spice_dir();
    let circuit = spice_circuit();
    let found = circuit.get_includes(String::from("TL072"), &fs).unwrap();
    assert_eq!("files/spice/TL072.lib", found.get("TL072").unwrap());
    let found = circuit.get_includes(String::from("BC547B"), &fs).unwrap();
    assert_eq!("files/spice/BC547.mod", found.get("BC547B").unwrap());
    let found = circuit.get_includes(String::from("BC556B"), &fs).unwrap();
    assert_eq!("files/spice/bc5x7.lib", found.get("BC556B").unwrap());
}

#[test]
fn resolve_subckt_yields_single_entry() {
    let fs = spice_dir();
    let circuit = spice_circuit();
    let found = circuit.get_includes(String::from("TL072"), &fs).unwrap();
    assert_eq!(found.len(), 1);
    assert_eq!("files/spice/TL072.lib", found.get("TL072").unwrap());
}

#[test]
fn resolve_model_collects_nested_entry() {
    let fs = spice_dir();
    let circuit = spice_circuit();
    let found = circuit.get_includes(String::from("BC547B"), &fs).unwrap();
    assert_eq!(found.len(), 2);
    assert_eq!("files/spice/BC547.mod", found.get("BC547B").unwrap());
    assert_eq!("files/spice/bc5x7.lib", found.get("bc5x7.lib").unwrap());
}

#[test]
fn resolve_keeps_separator_arguments_verbatim() {
    let fs = vec![SearchDir {
        path: "lib".to_string(),
        files: vec![SourceFile {
            path: "lib/a.mod".to_string(),
            dir: "lib".to_string(),
            content: ".model FOO NPN (X=1)\n.include vendor/extra.lib\n".to_string(),
        }],
    }];
    let circuit = Circuit::new("test".to_string(), vec!["lib".to_string()]);
    let found = circuit.get_includes(String::from("FOO"), &fs).unwrap();
    assert_eq!(found.len(), 2);
    assert_eq!("lib/a.mod", found.get("FOO").unwrap());
    assert_eq!("vendor/extra.lib", found.get("vendor/extra.lib").unwrap());
}

#[test]
fn resolve_miss_reports_model_not_found() {
    let fs = spice_dir();
    let circuit = spice_circuit();
    let r = circuit.get_includes(String::from("DOES_NOT_EXIST"), &fs);
    assert_eq!(r.unwrap_err(), Error::ModelNotFound("DOES_NOT_EXIST".to_string()));
}

#[test]
fn subckt_pass_beats_earlier_model_pass() {
    // Every file is scanned for a sub-circuit definition before any is
    // scanned for a model definition, so a later sub-circuit definition
    // wins over an earlier model definition of the same name.
    let fs = vec![SearchDir {
        path: "p".to_string(),
        files: vec![
            SourceFile {
                path: "p/a.lib".to_string(),
                dir: "p".to_string(),
                content: ".model FOO NPN (X=1)\n".to_string(),
            },
            SourceFile {
                path: "p/b.lib".to_string(),
                dir: "p".to_string(),
                content: ".SUBCKT FOO 1 2\n.ENDS\n".to_string(),
            },
        ],
    }];
    let circuit = Circuit::new("test".to_string(), vec!["p".to_string()]);
    let found = circuit.get_includes(String::from("FOO"), &fs).unwrap();
    assert_eq!("p/b.lib", found.get("FOO").unwrap());
}

#[test]
fn directive_keyword_is_case_insensitive() {
    let fs = vec![SearchDir {
        path: "p".to_string(),
        files: vec![SourceFile {
            path: "p/a.lib".to_string(),
            dir: "p".to_string(),
            content: "* preamble\n.SuBcKt MIXED 1 2\n.ends\n".to_string(),
        }],
    }];
    let circuit = Circuit::new("test".to_string(), vec!["p".to_string()]);
    let found = circuit.get_includes(String::from("MIXED"), &fs).unwrap();
    assert_eq!("p/a.lib", found.get("MIXED").unwrap());
}

#[test]
fn search_paths_are_scanned_in_order() {
    let fs = vec![
        SearchDir {
            path: "second".to_string(),
            files: vec![SourceFile {
                path: "second/foo.lib".to_string(),
                dir: "second".to_string(),
                content: ".model FOO NPN (X=2)\n".to_string(),
            }],
        },
        SearchDir {
            path: "first".to_string(),
            files: vec![SourceFile {
                path: "first/foo.lib".to_string(),
                dir: "first".to_string(),
                content: ".model FOO NPN (X=1)\n".to_string(),
            }],
        },
    ];
    let circuit = Circuit::new(
        "test".to_string(),
        vec!["first".to_string(), "second".to_string()],
    );
    let found = circuit.get_includes(String::from("FOO"), &fs).unwrap();
    assert_eq!("first/foo.lib", found.get("FOO").unwrap());
}

#[test]
fn includes_lines_carry_resolved_paths() {
    let fs = spice_dir();
    let mut c = spice_circuit();
    c.bjt(
        "1".to_string(),
        "c".to_string(),
        "b".to_string(),
        "e".to_string(),
        "BC547B".to_string(),
    );
    let lines = c.includes(&fs).unwrap();
    assert_eq!(
        lines,
        vec![
            ".include files/spice/BC547.mod\n".to_string(),
            ".include files/spice/bc5x7.lib\n".to_string(),
        ]
    );
}

#[test]
fn rendering_is_idempotent() {
    // Include lines are kept in first-insertion order, so rendering the
    // same circuit over the same snapshot twice gives identical lines.
    let fs = spice_dir();
    let mut c = spice_circuit();
    c.bjt(
        "1".to_string(),
        "c".to_string(),
        "b".to_string(),
        "e".to_string(),
        "BC547B".to_string(),
    );
    c.circuit(
        "2".to_string(),
        vec!["1".to_string(), "2".to_string()],
        "TL072".to_string(),
    )
    .unwrap();
    c.resistor(
        "R1".to_string(),
        "1".to_string(),
        "2".to_string(),
        "100".to_string(),
    );
    let first = c.to_str(true, &fs).unwrap();
    let second = c.to_str(true, &fs).unwrap();
    assert_eq!(first, second);
    assert_eq!(
        first,
        vec![
            ".include files/spice/BC547.mod\n".to_string(),
            ".include files/spice/bc5x7.lib\n".to_string(),
            ".include files/spice/TL072.lib\n".to_string(),
            "Q1 c b e BC547B".to_string(),
            "X2 1 2 TL072".to_string(),
            "R1 1 2 100".to_string(),
            ".end".to_string(),
        ]
    );
}

#[test]
fn unresolvable_reference_fails_rendering() {
    let fs = spice_dir();
    let mut c = spice_circuit();
    c.bjt(
        "1".to_string(),
        "c".to_string(),
        "b".to_string(),
        "e".to_string(),
        "NO_SUCH_MODEL".to_string(),
    );
    let r = c.to_str(true, &fs);
    assert_eq!(r.unwrap_err(), Error::ModelNotFound("NO_SUCH_MODEL".to_string()));
}

#[test]
fn definition_needs_trailing_field_after_name() {
    // A definition directive captures a name only when a space separates it
    // from the rest of its line; a bare name at the end of the line is not
    // a match.
    let fs = vec![SearchDir {
        path: "p".to_string(),
        files: vec![SourceFile {
            path: "p/a.lib".to_string(),
            dir: "p".to_string(),
            content: ".SUBCKT BARE\n".to_string(),
        }],
    }];
    let circuit = Circuit::new("test".to_string(), vec!["p".to_string()]);
    let r = circuit.get_includes(String::from("BARE"), &fs);
    assert_eq!(r.unwrap_err(), Error::ModelNotFound("BARE".to_string()));
}
