use happe::gate::{
    apply_choice, check_function_call, choice_from_normalized, parse_choice, split_qualified_name,
    Authorization, AuthorizationGate, Choice, GateError, GateStep,
};

#[test]
fn function_name_round_trips_to_server_and_tool() {
    let gate = AuthorizationGate::new();
    match check_function_call(&gate, "fs.read_file") {
        Ok(GateStep::Ask { server, tool, qualified }) => {
            assert_eq!(server, "fs");
            assert_eq!(tool, "read_file");
            assert_eq!(qualified, "fs/read_file");
        }
        _ => panic!("an unknown pair must be asked about"),
    }
}

#[test]
fn split_takes_the_first_slash() {
    let (s, t) = split_qualified_name("a/b/c").ok().unwrap();
    assert_eq!(s, "a");
    assert_eq!(t, "b/c");
}

#[test]
fn malformed_names_are_rejected_with_the_name() {
    for bad in ["noSlashHere", "/tool", "server/", "", "/"] {
        match split_qualified_name(bad) {
            Err(GateError::InvalidName(n)) => assert_eq!(n, bad),
            _ => panic!("{} must be rejected", bad),
        }
    }
    let gate = AuthorizationGate::new();
    match check_function_call(&gate, "noSlashHere") {
        Err(e) => {
            assert_eq!(e.name(), "noSlashHere");
            assert_eq!(e.message(), "Invalid qualified tool name: noSlashHere");
        }
        Ok(_) => panic!("must not reach execution"),
    }
}

#[test]
fn always_allow_skips_prompt_for_good() {
    let mut gate = AuthorizationGate::new();
    assert_eq!(gate.authorize("fs", "read_file"), Authorization::MustPrompt);
    apply_choice(&mut gate, "fs", "read_file", "fs/read_file", Choice::AlwaysAllow).ok().unwrap();
    for _ in 0..1000 {
        match check_function_call(&gate, "fs.read_file") {
            Ok(GateStep::Execute { server, tool }) => {
                assert_eq!(server, "fs");
                assert_eq!(tool, "read_file");
            }
            _ => panic!("an always-allowed pair must run without asking"),
        }
    }
    assert_eq!(gate.authorize("fs", "write_file"), Authorization::MustPrompt);
    assert!(!gate.is_always_allowed("other", "read_file"));
}

#[test]
fn allow_once_and_deny_change_nothing() {
    let mut gate = AuthorizationGate::new();
    assert!(apply_choice(&mut gate, "s", "t", "s/t", Choice::AllowOnce).is_ok());
    match apply_choice(&mut gate, "s", "t", "s/t", Choice::Deny) {
        Err(e) => assert_eq!(e.message(), "User denied execution of tool: s/t"),
        Ok(_) => panic!("denial is an error"),
    }
    assert_eq!(gate.authorize("s", "t"), Authorization::MustPrompt);
}

#[test]
fn replies_map_to_choices() {
    assert_eq!(parse_choice("  Always \n"), Choice::AlwaysAllow);
    assert_eq!(parse_choice("A"), Choice::AlwaysAllow);
    assert_eq!(parse_choice("Y"), Choice::AllowOnce);
    assert_eq!(parse_choice("yes"), Choice::AllowOnce);
    assert_eq!(parse_choice("\n"), Choice::AllowOnce);
    assert_eq!(parse_choice("N"), Choice::Deny);
    assert_eq!(parse_choice("maybe"), Choice::Deny);
    assert_eq!(choice_from_normalized(&"Always".to_string()), Choice::Deny);
    assert_eq!(choice_from_normalized(&"".to_string()), Choice::AllowOnce);
}
