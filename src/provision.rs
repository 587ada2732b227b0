//! Provisioning and teardown of one sandbox: what is written, in which order,
//! and what follows each step's success or failure.
use vstd::prelude::*;
use vstd::string::*;
use crate::allocator::starts_with;
use crate::error::Error;
use crate::naming::{
    conf_file, conf_file_spec, container_root, container_root_spec, gcroots_dir, gcroots_dir_spec,
    profile_dir, profile_dir_spec,
};
use crate::text::{
    all_spaces, char_is_digit, char_is_space, concat, digit_run, is_digit, is_space, push_all,
    slice_of,
};

verus! {

/// The leading process number in the status output `o`: exactly
/// `Leader=<digits>`, then only whitespace.
pub open spec fn leader_spec(o: Seq<char>) -> Option<Seq<char>> {
    let rest = o.skip(7);
    let k = digit_run(rest);
    if starts_with(o, "Leader="@) && k > 0 && all_spaces(rest.skip(k as int)) {
        Some(rest.take(k as int))
    } else {
        None
    }
}

/// Reads the leading process number from the status output `o`; a
/// `ControlError` quoting `o` when it has another shape.
pub fn parse_leader(o: &str) -> (r: Result<String, Error>)
    ensures
        match leader_spec(o@) {
            Some(d) => r matches Ok(s) && s@ == d,
            None => r matches Err(Error::ControlError(m)) && m@ == "Bad machinectl output "@ + o@,
        },
{
    let n = o.unicode_len();
    let bad = concat("Bad machinectl output ", o);
    if !crate::allocator::has_prefix(o, "Leader=") {
        return Err(Error::ControlError(bad));
    }
    proof {
        reveal_strlit("Leader=");
    }
    let ghost rest = o@.skip(7);
    let mut j: usize = 7;
    while j < n && char_is_digit(o.get_char(j))
        invariant
            n == o@.len(),
            7 <= j <= n,
            forall|i: int| 7 <= i < j ==> is_digit(o@[i]),
        decreases n - j,
    {
        j = j + 1;
    }
    proof {
        crate::allocator::lemma_digit_run_at(rest, j - 7);
    }
    if j == 7 {
        return Err(Error::ControlError(bad));
    }
    let mut e: usize = j;
    while e < n
        invariant
            n == o@.len(),
            7 < j <= e <= n,
            rest == o@.skip(7),
            starts_with(o@, "Leader="@),
            bad@ == "Bad machinectl output "@ + o@,
            digit_run(rest) == j - 7,
            forall|i: int| j <= i < e ==> is_space(o@[i]),
        decreases n - e,
    {
        if !char_is_space(o.get_char(e)) {
            proof {
                assert(rest.skip(j - 7)[e - j] == o@[e as int]);
                assert(!all_spaces(rest.skip(j - 7)));
            }
            return Err(Error::ControlError(bad));
        }
        e = e + 1;
    }
    let d = slice_of(o, 7, j);
    proof {
        assert(d@ =~= rest.take(j - 7));
        assert(all_spaces(rest.skip(j - 7)));
    }
    Ok(d)
}

/// The configuration written into the sandbox root: a container with
/// hostname `name` that imports the caller's configuration `config_file`.
pub open spec fn configuration_spec(name: Seq<char>, config_file: Seq<char>) -> Seq<char> {
    "\n    { config, lib, pkgs, ... }:\n    with lib;\n\n    {\n        boot.isContainer = true;\n        networking.hostName = mkDefault \""@
        + name + "\";\n        networking.useDHCP = false;\n        imports = [ "@ + config_file
        + " ];\n    }"@
}

/// The text of the configuration file written into the sandbox root.
pub fn configuration_text(name: &str, config_file: &str) -> (r: String)
    ensures
        r@ == configuration_spec(name@, config_file@),
{
    let mut r = String::from_str(
        "\n    { config, lib, pkgs, ... }:\n    with lib;\n\n    {\n        boot.isContainer = true;\n        networking.hostName = mkDefault \"",
    );
    push_all(&mut r, name);
    push_all(&mut r, "\";\n        networking.useDHCP = false;\n        imports = [ ");
    push_all(&mut r, config_file);
    push_all(&mut r, " ];\n    }");
    r
}

/// The directory inside the sandbox root that holds its configuration.
pub fn configuration_dir(name: &str) -> (r: String)
    ensures
        r@ == container_root_spec(name@) + "/etc/nixos"@,
{
    let root = container_root(name);
    concat(root.as_str(), "/etc/nixos")
}

/// The configuration file inside the sandbox root.
pub fn configuration_path(name: &str) -> (r: String)
    ensures
        r@ == crate::commands::configuration_nix_spec(name@),
{
    let root = container_root(name);
    concat(root.as_str(), "/etc/nixos/configuration.nix")
}

/// The exit code of the caller's command: `0` on success, its own code when
/// it exited nonzero; any other failure stays an error.
pub fn test_exit(r: Result<(), Error>) -> (c: Result<i32, Error>)
    ensures
        match r {
            Ok(()) => c == Ok::<i32, Error>(0),
            Err(Error::NonZero(_, code)) => c == Ok::<i32, Error>(code),
            Err(e) => c == Err::<i32, Error>(e),
        },
{
    match r {
        Ok(()) => Ok(0),
        Err(Error::NonZero(_, code)) => Ok(code),
        Err(e) => Err(e),
    }
}

/// What follows a request to stop a sandbox.
#[derive(Debug)]
pub enum StopNext {
    /// Stopping is over, with this result.
    Done(Result<(), Error>),
    /// The stop was interrupted: kill the sandbox instead.
    Kill,
}

/// An interrupted stop escalates to a kill; any other result stands.
pub fn after_stop(r: Result<(), Error>) -> (n: StopNext)
    ensures
        match r {
            Err(Error::Interrupted(_)) => n is Kill,
            _ => n == StopNext::Done(r),
        },
{
    match r {
        Err(Error::Interrupted(_)) => StopNext::Kill,
        _ => StopNext::Done(r),
    }
}

/// Where provisioning stands.
#[derive(Debug, PartialEq, Eq, Structural, Clone, Copy)]
pub enum Provision {
    /// Nothing exists yet.
    Unallocated,
    /// The address block is reserved by the descriptor file.
    DescriptorWritten,
    /// The profile and root directories and the configuration exist.
    FilesystemPopulated,
    /// The builder made the runnable profile: the sandbox can start.
    Ready,
    /// A step failed after this run created something; it is being torn down.
    Failed,
    /// The first step failed before it created anything; nothing is touched.
    Abandoned,
}

/// What the caller does next while provisioning.
#[derive(Debug, PartialEq, Eq, Structural, Clone, Copy)]
pub enum ProvisionAction {
    /// Under the allocation lock, choose a free block and create the
    /// descriptor file (never overwriting one).
    WriteDescriptor,
    /// Create the profile and root directories and write the configuration.
    Populate,
    /// Run the builder on the configuration.
    Build,
    /// Provisioning succeeded.
    Finish,
    /// Stop the sandbox and run every teardown step.
    TearDown,
    /// Report the failure; stop nothing and remove nothing, since what
    /// carries this name (if anything) belongs to another sandbox.
    Abandon,
}

/// How a provisioning step went.
#[derive(Debug, PartialEq, Eq, Structural, Clone, Copy)]
pub enum StepOutcome {
    /// It succeeded.
    Done,
    /// It failed after creating something (or after an earlier step did).
    Failed,
    /// It failed and created nothing: for the descriptor step, no descriptor
    /// file was created, as when the name is already taken.
    FailedUntouched,
}

/// The first step of provisioning.
pub fn provision_start() -> (r: (Provision, ProvisionAction))
    ensures
        r == (Provision::Unallocated, ProvisionAction::WriteDescriptor),
{
    (Provision::Unallocated, ProvisionAction::WriteDescriptor)
}

/// The state and action that follow the step taken in `state`, which went as
/// `outcome`: each success moves one state on. A failure of the descriptor
/// step that created nothing abandons provisioning untouched; any other
/// failure ends in `Failed` with a teardown, since the descriptor is then this
/// run's own. `Ready`, `Failed` and `Abandoned` are final.
pub open spec fn provision_next_spec(state: Provision, outcome: StepOutcome) -> (Provision, ProvisionAction) {
    match state {
        Provision::Unallocated => match outcome {
            StepOutcome::Done => (Provision::DescriptorWritten, ProvisionAction::Populate),
            StepOutcome::Failed => (Provision::Failed, ProvisionAction::TearDown),
            StepOutcome::FailedUntouched => (Provision::Abandoned, ProvisionAction::Abandon),
        },
        Provision::DescriptorWritten => if outcome == StepOutcome::Done {
            (Provision::FilesystemPopulated, ProvisionAction::Build)
        } else {
            (Provision::Failed, ProvisionAction::TearDown)
        },
        Provision::FilesystemPopulated => if outcome == StepOutcome::Done {
            (Provision::Ready, ProvisionAction::Finish)
        } else {
            (Provision::Failed, ProvisionAction::TearDown)
        },
        Provision::Ready => (Provision::Ready, ProvisionAction::Finish),
        Provision::Failed => (Provision::Failed, ProvisionAction::TearDown),
        Provision::Abandoned => (Provision::Abandoned, ProvisionAction::Abandon),
    }
}

/// One transition of provisioning (see `provision_next_spec`).
pub fn provision_next(state: Provision, outcome: StepOutcome) -> (r: (Provision, ProvisionAction))
    ensures
        r == provision_next_spec(state, outcome),
{
    match state {
        Provision::Unallocated => match outcome {
            StepOutcome::Done => (Provision::DescriptorWritten, ProvisionAction::Populate),
            StepOutcome::Failed => (Provision::Failed, ProvisionAction::TearDown),
            StepOutcome::FailedUntouched => (Provision::Abandoned, ProvisionAction::Abandon),
        },
        Provision::DescriptorWritten => match outcome {
            StepOutcome::Done => (Provision::FilesystemPopulated, ProvisionAction::Build),
            _ => (Provision::Failed, ProvisionAction::TearDown),
        },
        Provision::FilesystemPopulated => match outcome {
            StepOutcome::Done => (Provision::Ready, ProvisionAction::Finish),
            _ => (Provision::Failed, ProvisionAction::TearDown),
        },
        Provision::Ready => (Provision::Ready, ProvisionAction::Finish),
        Provision::Failed => (Provision::Failed, ProvisionAction::TearDown),
        Provision::Abandoned => (Provision::Abandoned, ProvisionAction::Abandon),
    }
}

/// The kind of one teardown step.
#[derive(Debug, PartialEq, Eq, Structural, Clone, Copy)]
pub enum CleanupKind {
    /// Unmount what is mounted below the path, then remove the tree.
    RemoveTree,
    /// Clear the immutable attribute of the directory, if it exists.
    ClearImmutable,
    /// Remove the descriptor file; its absence is no failure.
    RemoveDescriptor,
}

/// One teardown step and the path it works on.
#[derive(Debug)]
pub struct Cleanup {
    pub kind: CleanupKind,
    pub path: String,
}

impl View for Cleanup {
    type V = (CleanupKind, Seq<char>);

    open spec fn view(&self) -> (CleanupKind, Seq<char>) {
        (self.kind, self.path@)
    }
}

/// The teardown of sandbox `name`, in order: its profile, its builder
/// roots, the immutable `var/empty` of its root, its root, its descriptor.
pub open spec fn destroy_plan_spec(name: Seq<char>) -> Seq<(CleanupKind, Seq<char>)> {
    seq![
        (CleanupKind::RemoveTree, profile_dir_spec(name)),
        (CleanupKind::RemoveTree, gcroots_dir_spec(name)),
        (CleanupKind::ClearImmutable, container_root_spec(name) + "/var/empty"@),
        (CleanupKind::RemoveTree, container_root_spec(name)),
        (CleanupKind::RemoveDescriptor, conf_file_spec(name)),
    ]
}

/// The teardown steps of sandbox `name` (see `destroy_plan_spec`). Every
/// step is run whatever the earlier ones did.
pub fn destroy_plan(name: &str) -> (r: Vec<Cleanup>)
    ensures
        r@.map_values(|c: Cleanup| c@) == destroy_plan_spec(name@),
{
    let root = container_root(name);
    let mut r: Vec<Cleanup> = Vec::new();
    r.push(Cleanup { kind: CleanupKind::RemoveTree, path: profile_dir(name) });
    r.push(Cleanup { kind: CleanupKind::RemoveTree, path: gcroots_dir(name) });
    r.push(Cleanup { kind: CleanupKind::ClearImmutable, path: concat(root.as_str(), "/var/empty") });
    r.push(Cleanup { kind: CleanupKind::RemoveTree, path: root });
    r.push(Cleanup { kind: CleanupKind::RemoveDescriptor, path: conf_file(name) });
    proof {
        assert(r@.map_values(|c: Cleanup| c@) =~= destroy_plan_spec(name@));
    }
    r
}

/// The commands that remove the tree at `path`: none when it is not a
/// directory, else the unmounting and then the removal. The first that fails
/// ends the step.
pub fn tree_removal(path: &str, is_dir: bool) -> (r: Vec<crate::commands::CommandSpec>)
    ensures
        !is_dir ==> r@.len() == 0,
        is_dir ==> r@.len() == 2 && r@[0].program@ == "find"@ && r@[0].args_view()
            == crate::commands::unmount_args(path@) && r@[1].program@ == "rm"@ && r@[1].args_view() == seq!["--one-file-system"@, "-rf"@, path@],
{
    let mut r: Vec<crate::commands::CommandSpec> = Vec::new();
    if is_dir {
        r.push(crate::commands::unmount_command(path));
        r.push(crate::commands::remove_tree_command(path));
    }
    r
}

/// How removing the descriptor file went.
#[derive(Debug)]
pub enum Removal {
    /// The file was removed.
    Removed,
    /// There was no such file.
    Absent,
    /// Another failure, as its message.
    Failed(String),
}

/// The line to log for a teardown's descriptor step: the failure's message
/// when the removal failed, none otherwise.
pub open spec fn teardown_log_spec(r: Removal) -> Option<Seq<char>> {
    match r {
        Removal::Failed(m) => Some(m@),
        _ => None,
    }
}

/// The result of a teardown and the line it leaves to log, from how its
/// descriptor step went. A teardown never fails: like every other step's
/// failure, a failed removal is only logged.
pub fn teardown_result(r: Removal) -> (out: (Result<(), Error>, Option<String>))
    ensures
        out.0 is Ok,
        match teardown_log_spec(r) {
            Some(m) => out.1 matches Some(l) && l@ == m,
            None => out.1 is None,
        },
{
    match r {
        Removal::Failed(m) => (Ok(()), Some(m)),
        _ => (Ok(()), None),
    }
}

/// How a removal can go when the descriptor is `present` or not.
pub open spec fn removal_possible(present: bool, r: Removal) -> bool {
    if present {
        !(r is Absent)
    } else {
        r is Absent
    }
}

/// Whether the descriptor exists after a removal that went as `r`.
pub open spec fn present_after(present: bool, r: Removal) -> bool {
    present && r is Failed
}

/// Tearing down twice is harmless. Neither teardown fails (see
/// `teardown_result`), whatever its steps did. After the second one no
/// descriptor remains unless that one's own removal failed too; and once
/// either removal succeeded or found nothing, the second finds nothing and
/// has nothing to log.
pub proof fn lemma_teardown_idempotent(present: bool, first: Removal, second: Removal)
    requires
        removal_possible(present, first),
        removal_possible(present_after(present, first), second),
    ensures
        !(second is Failed) ==> !present_after(present_after(present, first), second),
        !(first is Failed) ==> second is Absent && teardown_log_spec(second) is None
            && !present_after(present_after(present, first), second),
{
}

/// A provisioning step that fails before the sandbox is ready tears down
/// exactly when this run has created something. A descriptor step that
/// created nothing abandons provisioning with no stop and no teardown, so a
/// name that is already taken leaves the other sandbox untouched. Every
/// other failure ends in `Failed` with a teardown, which removes the
/// descriptor and the sandbox root.
pub proof fn lemma_failure_tears_down(state: Provision, outcome: StepOutcome, name: Seq<char>)
    requires
        state == Provision::Unallocated || state == Provision::DescriptorWritten || state
            == Provision::FilesystemPopulated,
        outcome != StepOutcome::Done,
    ensures
        provision_next_spec(state, outcome) == if state == Provision::Unallocated && outcome
            == StepOutcome::FailedUntouched {
            (Provision::Abandoned, ProvisionAction::Abandon)
        } else {
            (Provision::Failed, ProvisionAction::TearDown)
        },
        destroy_plan_spec(name).contains((CleanupKind::RemoveDescriptor, conf_file_spec(name))),
        destroy_plan_spec(name).contains((CleanupKind::RemoveTree, container_root_spec(name))),
{
    assert(destroy_plan_spec(name)[4] == (CleanupKind::RemoveDescriptor, conf_file_spec(name)));
    assert(destroy_plan_spec(name)[3] == (CleanupKind::RemoveTree, container_root_spec(name)));
}

} // verus!
