//! The collaborator commands that the harness runs, as program and
//! arguments, and the shell line that carries the caller's command.
use vstd::prelude::*;
use crate::naming::{container_root_spec, profile_dir_spec};
use crate::text::{concat, push_all, push_char, views};

verus! {

/// A program and its arguments.
#[derive(Debug)]
pub struct CommandSpec {
    pub program: String,
    pub args: Vec<String>,
}

impl CommandSpec {
    pub open spec fn program_view(&self) -> Seq<char> {
        self.program@
    }

    pub open spec fn args_view(&self) -> Seq<Seq<char>> {
        views(self.args@)
    }
}

fn owned(s: &str) -> (r: String)
    ensures
        r@ == s@,
{
    String::from_str(s)
}

fn push_arg(v: &mut Vec<String>, s: String)
    ensures
        views(final(v)@) == views(old(v)@).push(s@),
{
    v.push(s);
    proof {
        assert(views(v@) =~= views(old(v)@).push(s@));
    }
}

/// The systemd unit of a sandbox.
pub open spec fn unit_spec(name: Seq<char>) -> Seq<char> {
    "container@"@ + name
}

/// `systemctl <verb> container@<name>`.
fn unit_command(verb: &str, name: &str) -> (r: CommandSpec)
    ensures
        r.program@ == "systemctl"@,
        r.args_view() == seq![verb@, unit_spec(name@)],
{
    let mut args: Vec<String> = Vec::new();
    push_arg(&mut args, owned(verb));
    push_arg(&mut args, concat("container@", name));
    proof {
        assert(views(args@) =~= seq![verb@, unit_spec(name@)]);
    }
    CommandSpec { program: owned("systemctl"), args }
}

/// Starts the sandbox.
pub fn start_command(name: &str) -> (r: CommandSpec)
    ensures
        r.program@ == "systemctl"@,
        r.args_view() == seq!["start"@, unit_spec(name@)],
{
    unit_command("start", name)
}

/// Asks the sandbox to stop.
pub fn stop_command(name: &str) -> (r: CommandSpec)
    ensures
        r.program@ == "systemctl"@,
        r.args_view() == seq!["stop"@, unit_spec(name@)],
{
    unit_command("stop", name)
}

/// Kills the sandbox.
pub fn kill_command(name: &str) -> (r: CommandSpec)
    ensures
        r.program@ == "systemctl"@,
        r.args_view() == seq!["kill"@, unit_spec(name@)],
{
    unit_command("kill", name)
}

/// Asks for the sandbox's leading process: `machinectl show <name> -p Leader`.
pub fn status_command(name: &str) -> (r: CommandSpec)
    ensures
        r.program@ == "machinectl"@,
        r.args_view() == seq!["show"@, name@, "-p"@, "Leader"@],
{
    let mut args: Vec<String> = Vec::new();
    push_arg(&mut args, owned("show"));
    push_arg(&mut args, owned(name));
    push_arg(&mut args, owned("-p"));
    push_arg(&mut args, owned("Leader"));
    proof {
        assert(views(args@) =~= seq!["show"@, name@, "-p"@, "Leader"@]);
    }
    CommandSpec { program: owned("machinectl"), args }
}

/// The path of the configuration written into a sandbox's root.
pub open spec fn configuration_nix_spec(name: Seq<char>) -> Seq<char> {
    container_root_spec(name) + "/etc/nixos/configuration.nix"@
}

/// Builds the sandbox's runnable profile from the configuration in its root.
pub fn build_command(name: &str) -> (r: CommandSpec)
    ensures
        r.program@ == "nix-env"@,
        r.args_view() == seq![
            "-p"@,
            profile_dir_spec(name@) + "/system"@,
            "-I"@,
            "nixos-config="@ + configuration_nix_spec(name@),
            "-f"@,
            "<nixpkgs/nixos>"@,
            "--set"@,
            "-A"@,
            "system"@,
            "--show-trace"@,
        ],
{
    let profile = crate::naming::profile_dir(name);
    let root = crate::naming::container_root(name);
    let conf = concat(root.as_str(), "/etc/nixos/configuration.nix");
    let mut args: Vec<String> = Vec::new();
    push_arg(&mut args, owned("-p"));
    push_arg(&mut args, concat(profile.as_str(), "/system"));
    push_arg(&mut args, owned("-I"));
    push_arg(&mut args, concat("nixos-config=", conf.as_str()));
    push_arg(&mut args, owned("-f"));
    push_arg(&mut args, owned("<nixpkgs/nixos>"));
    push_arg(&mut args, owned("--set"));
    push_arg(&mut args, owned("-A"));
    push_arg(&mut args, owned("system"));
    push_arg(&mut args, owned("--show-trace"));
    proof {
        assert(views(args@) =~= seq![
            "-p"@,
            profile_dir_spec(name@) + "/system"@,
            "-I"@,
            "nixos-config="@ + configuration_nix_spec(name@),
            "-f"@,
            "<nixpkgs/nixos>"@,
            "--set"@,
            "-A"@,
            "system"@,
            "--show-trace"@,
        ]);
    }
    CommandSpec { program: owned("nix-env"), args }
}

/// The arguments of `unmount_command`.
pub open spec fn unmount_args(path: Seq<char>) -> Seq<Seq<char>> {
    seq![
        path,
        "-mindepth"@,
        "1"@,
        "-xdev"@,
        "("@,
        "-type"@,
        "d"@,
        "-exec"@,
        "mountpoint"@,
        "-q"@,
        "{}"@,
        ";"@,
        ")"@,
        "-exec"@,
        "umount"@,
        "-fR"@,
        "{}"@,
        "+"@,
    ]
}

/// Unmounts every mountpoint below `path` on its filesystem.
pub fn unmount_command(path: &str) -> (r: CommandSpec)
    ensures
        r.program@ == "find"@,
        r.args_view() == unmount_args(path@),
{
    let mut args: Vec<String> = Vec::new();
    push_arg(&mut args, owned(path));
    push_arg(&mut args, owned("-mindepth"));
    push_arg(&mut args, owned("1"));
    push_arg(&mut args, owned("-xdev"));
    push_arg(&mut args, owned("("));
    push_arg(&mut args, owned("-type"));
    push_arg(&mut args, owned("d"));
    push_arg(&mut args, owned("-exec"));
    push_arg(&mut args, owned("mountpoint"));
    push_arg(&mut args, owned("-q"));
    push_arg(&mut args, owned("{}"));
    push_arg(&mut args, owned(";"));
    push_arg(&mut args, owned(")"));
    push_arg(&mut args, owned("-exec"));
    push_arg(&mut args, owned("umount"));
    push_arg(&mut args, owned("-fR"));
    push_arg(&mut args, owned("{}"));
    push_arg(&mut args, owned("+"));
    proof {
        assert(views(args@) =~= seq![
            path@,
            "-mindepth"@,
            "1"@,
            "-xdev"@,
            "("@,
            "-type"@,
            "d"@,
            "-exec"@,
            "mountpoint"@,
            "-q"@,
            "{}"@,
            ";"@,
            ")"@,
            "-exec"@,
            "umount"@,
            "-fR"@,
            "{}"@,
            "+"@,
        ]);
    }
    CommandSpec { program: owned("find"), args }
}

/// Removes the tree at `path` without leaving its filesystem.
pub fn remove_tree_command(path: &str) -> (r: CommandSpec)
    ensures
        r.program@ == "rm"@,
        r.args_view() == seq!["--one-file-system"@, "-rf"@, path@],
{
    let mut args: Vec<String> = Vec::new();
    push_arg(&mut args, owned("--one-file-system"));
    push_arg(&mut args, owned("-rf"));
    push_arg(&mut args, owned(path));
    proof {
        assert(views(args@) =~= seq!["--one-file-system"@, "-rf"@, path@]);
    }
    CommandSpec { program: owned("rm"), args }
}

/// `s` with each single quote written as `'\''`.
pub open spec fn escape(s: Seq<char>) -> Seq<char>
    decreases s.len(),
{
    if s.len() == 0 {
        seq![]
    } else {
        escape(s.drop_last()) + if s.last() == '\'' {
            seq!['\'', '\\', '\'', '\'']
        } else {
            seq![s.last()]
        }
    }
}

/// `s` as one shell word: in single quotes, its own quotes escaped.
pub open spec fn quote(s: Seq<char>) -> Seq<char> {
    seq!['\''] + escape(s) + seq!['\'']
}

/// The quoted words, separated by single spaces.
pub open spec fn joined(words: Seq<Seq<char>>) -> Seq<char>
    decreases words.len(),
{
    if words.len() == 0 {
        seq![]
    } else if words.len() == 1 {
        quote(words[0])
    } else {
        joined(words.drop_last()) + seq![' '] + quote(words.last())
    }
}

/// The shell line that replaces the shell with the command `words`.
pub open spec fn shell_line_spec(words: Seq<Seq<char>>) -> Seq<char> {
    "exec "@ + joined(words)
}

/// Appends `s` as one quoted shell word.
fn push_quoted(r: &mut String, s: &str)
    ensures
        final(r)@ == old(r)@ + quote(s@),
{
    push_char(r, '\'');
    let n = s.unicode_len();
    let mut i: usize = 0;
    while i < n
        invariant
            n == s@.len(),
            i <= n,
            r@ == old(r)@ + seq!['\''] + escape(s@.take(i as int)),
        decreases n - i,
    {
        let c = s.get_char(i);
        if c == '\'' {
            push_char(r, '\'');
            push_char(r, '\\');
            push_char(r, '\'');
            push_char(r, '\'');
        } else {
            push_char(r, c);
        }
        proof {
            assert(s@.take(i + 1).drop_last() =~= s@.take(i as int));
            assert(r@ =~= old(r)@ + seq!['\''] + escape(s@.take(i + 1)));
        }
        i = i + 1;
    }
    push_char(r, '\'');
    proof {
        assert(s@.take(n as int) =~= s@);
        assert(r@ =~= old(r)@ + quote(s@));
    }
}

/// The shell line `exec '<word>' '<word>' ...` that runs the command `words`.
pub fn shell_line(words: &Vec<String>) -> (r: String)
    ensures
        r@ == shell_line_spec(views(words@)),
{
    let mut r = owned("exec ");
    let ghost ws = views(words@);
    let mut i: usize = 0;
    while i < words.len()
        invariant
            i <= words@.len(),
            ws == views(words@),
            r@ == "exec "@ + joined(ws.take(i as int)),
        decreases words@.len() - i,
    {
        if i > 0 {
            push_char(&mut r, ' ');
        }
        push_quoted(&mut r, words[i].as_str());
        proof {
            let t = ws.take(i + 1);
            assert(t.drop_last() =~= ws.take(i as int));
            assert(t.last() == words@[i as int]@);
            if i == 0 {
                assert(joined(ws.take(0)) =~= Seq::<char>::empty());
            }
            assert(r@ =~= "exec "@ + joined(t));
        }
        i = i + 1;
    }
    proof {
        assert(ws.take(i as int) =~= ws);
    }
    r
}

/// Runs the command `words` inside the sandbox whose leading process is
/// `leader`: enters its mount, UTS, IPC, network and PID namespaces and hands
/// the shell line to `su` (or the helper at `su_path`) as root.
pub fn enter_command(leader: &str, su_path: Option<String>, words: &Vec<String>) -> (r: CommandSpec)
    ensures
        r.program@ == "nsenter"@,
        r.args_view() == seq![
            "-t"@,
            leader@,
            "-m"@,
            "-u"@,
            "-i"@,
            "-n"@,
            "-p"@,
            "--"@,
            match su_path {
                Some(p) => p@,
                None => "su"@,
            },
            "root"@,
            "-l"@,
            "-c"@,
            shell_line_spec(views(words@)),
        ],
{
    let su = match su_path {
        Some(p) => p,
        None => owned("su"),
    };
    let mut args: Vec<String> = Vec::new();
    push_arg(&mut args, owned("-t"));
    push_arg(&mut args, owned(leader));
    push_arg(&mut args, owned("-m"));
    push_arg(&mut args, owned("-u"));
    push_arg(&mut args, owned("-i"));
    push_arg(&mut args, owned("-n"));
    push_arg(&mut args, owned("-p"));
    push_arg(&mut args, owned("--"));
    let ghost su_view = su@;
    push_arg(&mut args, su);
    push_arg(&mut args, owned("root"));
    push_arg(&mut args, owned("-l"));
    push_arg(&mut args, owned("-c"));
    push_arg(&mut args, shell_line(words));
    proof {
        assert(views(args@) =~= seq![
            "-t"@,
            leader@,
            "-m"@,
            "-u"@,
            "-i"@,
            "-n"@,
            "-p"@,
            "--"@,
            su_view,
            "root"@,
            "-l"@,
            "-c"@,
            shell_line_spec(views(words@)),
        ]);
    }
    CommandSpec { program: owned("nsenter"), args }
}

} // verus!
