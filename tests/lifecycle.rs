use fragile::allocator::{descriptor_text, unused_ip_block};
use fragile::commander::{ended, ChildState, NonZero};
use fragile::commands::build_command;
use fragile::driver::{exit_for, test_or_interrupted, Exit, SIGINT};
use fragile::error::Error;
use fragile::provision::{
    after_stop, configuration_path, configuration_dir, configuration_text, destroy_plan, parse_leader,
    provision_next, provision_start, teardown_result, test_exit, tree_removal, CleanupKind,
    Provision, ProvisionAction, Removal, StepOutcome, StopNext,
};

#[test]
fn leader_line_is_parsed() {
    assert_eq!(parse_leader("Leader=1234\n").unwrap(), "1234");
    assert_eq!(parse_leader("Leader=5").unwrap(), "5");
    assert_eq!(parse_leader("Leader=77 \t\n").unwrap(), "77");
}

#[test]
fn bad_leader_output_is_a_control_error() {
    for o in ["Leader=\n", "Leader=12x", "leader=1", "", "Leader=1 2"] {
        match parse_leader(o) {
            Err(Error::ControlError(m)) => assert_eq!(m, format!("Bad machinectl output {}", o)),
            other => panic!("unexpected {:?}", other),
        }
    }
}

#[test]
fn configuration_names_host_and_import() {
    let t = configuration_text("frx", "/home/u/c.nix");
    assert_eq!(
        t,
        "\n    { config, lib, pkgs, ... }:\n    with lib;\n\n    {\n        boot.isContainer = true;\n        networking.hostName = mkDefault \"frx\";\n        networking.useDHCP = false;\n        imports = [ /home/u/c.nix ];\n    }"
    );
    assert_eq!(configuration_dir("frx"), "/var/lib/containers/frx/etc/nixos");
    assert_eq!(configuration_path("frx"), "/var/lib/containers/frx/etc/nixos/configuration.nix");
}

#[test]
fn provisioning_moves_forward_on_success() {
    let (s, a) = provision_start();
    assert_eq!((s, a), (Provision::Unallocated, ProvisionAction::WriteDescriptor));
    let (s, a) = provision_next(s, StepOutcome::Done);
    assert_eq!((s, a), (Provision::DescriptorWritten, ProvisionAction::Populate));
    let (s, a) = provision_next(s, StepOutcome::Done);
    assert_eq!((s, a), (Provision::FilesystemPopulated, ProvisionAction::Build));
    let (s, a) = provision_next(s, StepOutcome::Done);
    assert_eq!((s, a), (Provision::Ready, ProvisionAction::Finish));
}

#[test]
fn provisioning_failure_at_each_step_tears_down() {
    for s in [Provision::Unallocated, Provision::DescriptorWritten, Provision::FilesystemPopulated] {
        assert_eq!(provision_next(s, StepOutcome::Failed), (Provision::Failed, ProvisionAction::TearDown));
    }
    for s in [Provision::DescriptorWritten, Provision::FilesystemPopulated] {
        assert_eq!(provision_next(s, StepOutcome::FailedUntouched), (Provision::Failed, ProvisionAction::TearDown));
    }
    let plan = destroy_plan("frx");
    assert!(plan.iter().any(|c| c.kind == CleanupKind::RemoveDescriptor && c.path == "/etc/containers/frx.conf"));
    assert!(plan.iter().any(|c| c.kind == CleanupKind::RemoveTree && c.path == "/var/lib/containers/frx"));
}

#[test]
fn teardown_plan_order() {
    let plan: Vec<(CleanupKind, String)> = destroy_plan("frx").into_iter().map(|c| (c.kind, c.path)).collect();
    assert_eq!(
        plan,
        vec![
            (CleanupKind::RemoveTree, "/nix/var/nix/profiles/per-container/frx".to_string()),
            (CleanupKind::RemoveTree, "/nix/var/nix/gcroots/per-container/frx".to_string()),
            (CleanupKind::ClearImmutable, "/var/lib/containers/frx/var/empty".to_string()),
            (CleanupKind::RemoveTree, "/var/lib/containers/frx".to_string()),
            (CleanupKind::RemoveDescriptor, "/etc/containers/frx.conf".to_string()),
        ]
    );
}

#[test]
fn tree_removal_skips_missing_directories() {
    assert!(tree_removal("/nope", false).is_empty());
    let c = tree_removal("/var/lib/containers/frx", true);
    assert_eq!(c.len(), 2);
    assert_eq!(c[0].program, "find");
    assert_eq!(c[1].program, "rm");
}

#[test]
fn teardown_twice_is_harmless() {
    let (r, log) = teardown_result(Removal::Removed);
    assert!(r.is_ok() && log.is_none());
    let (r, log) = teardown_result(Removal::Absent);
    assert!(r.is_ok() && log.is_none());
    for _ in 0..2 {
        let (r, log) = teardown_result(Removal::Failed("denied".to_string()));
        assert!(r.is_ok());
        assert_eq!(log, Some("denied".to_string()));
    }
}

#[test]
fn taken_name_is_left_untouched() {
    assert_eq!(
        provision_next(Provision::Unallocated, StepOutcome::FailedUntouched),
        (Provision::Abandoned, ProvisionAction::Abandon)
    );
    assert_eq!(
        provision_next(Provision::Abandoned, StepOutcome::Done),
        (Provision::Abandoned, ProvisionAction::Abandon)
    );
}

#[test]
fn interrupted_stop_escalates() {
    assert!(matches!(after_stop(Err(Error::Interrupted(15))), StopNext::Kill));
    assert!(matches!(after_stop(Ok(())), StopNext::Done(Ok(()))));
    assert!(matches!(after_stop(Err(Error::NonZero("x".to_string(), 1))), StopNext::Done(Err(Error::NonZero(_, 1)))));
}

#[test]
fn exit_codes() {
    assert_eq!(exit_for(&Ok(0)), Exit::Code(0));
    assert_eq!(exit_for(&Err(Error::Usage("u".to_string()))), Exit::Code(1));
    assert_eq!(exit_for(&Err(Error::NonZero("c".to_string(), 9))), Exit::Code(2));
    assert_eq!(exit_for(&Err(Error::IoError("io".to_string()))), Exit::Code(2));
    assert_eq!(exit_for(&Err(Error::ControlError("c".to_string()))), Exit::Code(2));
    assert_eq!(exit_for(&Err(Error::Interrupted(SIGINT))), Exit::Reraise(SIGINT));
    assert_eq!(exit_for(&Err(Error::Interrupted(15))), Exit::Code(143));
    assert_eq!(exit_for(&Err(Error::Interrupted(i32::MAX))), Exit::Code(i32::MAX));
}

#[test]
fn pending_signal_preempts_the_test() {
    assert!(matches!(test_or_interrupted(Some(15)), Some(Error::Interrupted(15))));
    assert!(test_or_interrupted(None).is_none());
}

#[test]
fn scenario_successful_command() {
    let code = test_exit(Ok(())).unwrap();
    assert_eq!(code, 0);
    assert!(teardown_result(Removal::Removed).0.is_ok());
    assert_eq!(exit_for(&Ok(code)), Exit::Code(0));
    let plan = destroy_plan("frx");
    assert_eq!(plan[4].kind, CleanupKind::RemoveDescriptor);
    assert_eq!(plan[3].path, "/var/lib/containers/frx");
}

#[test]
fn scenario_command_exits_seven() {
    let r = test_exit(Err(Error::NonZero("nsenter".to_string(), 7)));
    assert!(matches!(r, Ok(7)));
    assert!(teardown_result(Removal::Failed("busy".to_string())).0.is_ok());
    assert_eq!(exit_for(&r), Exit::Code(7));
}

#[test]
fn scenario_builder_fails() {
    let b = build_command("frx");
    assert_eq!(b.program, "nix-env");
    let description = format!("{:?} {:?}", b.program, b.args);
    let e = match ended(&description, ChildState::Exited(1)) {
        Some(Err(n)) => Error::from(n),
        other => panic!("unexpected {:?}", other),
    };
    match &e {
        Error::NonZero(d, 1) => assert!(d.contains("nix-env")),
        other => panic!("unexpected {:?}", other),
    }
    assert_eq!(provision_next(Provision::FilesystemPopulated, StepOutcome::Failed), (Provision::Failed, ProvisionAction::TearDown));
    assert!(destroy_plan("frx").iter().any(|c| c.kind == CleanupKind::RemoveDescriptor));
    assert_eq!(exit_for(&Err(e)), Exit::Code(2));
}

#[test]
fn scenario_address_pool_exhausted() {
    let d: Vec<String> = (0..255).map(|p| descriptor_text(&format!("10.233.{}", p))).collect();
    let e = unused_ip_block(&d).unwrap_err();
    assert!(matches!(e, Error::ControlError(_)));
    // no descriptor was created: nothing is stopped or removed
    assert_eq!(
        provision_next(Provision::Unallocated, StepOutcome::FailedUntouched),
        (Provision::Abandoned, ProvisionAction::Abandon)
    );
    assert_eq!(exit_for(&Err(e)), Exit::Code(2));
}

#[test]
fn scenario_no_destroy() {
    let r = test_exit(Ok(()));
    assert_eq!(exit_for(&r), Exit::Code(0));
}

#[test]
fn nonzero_from_infrastructure_is_not_a_test_code() {
    let n = NonZero::Interrupted(2);
    assert!(matches!(test_exit(Err(Error::from(n))), Err(Error::Interrupted(2))));
}
