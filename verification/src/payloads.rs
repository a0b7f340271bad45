//! The JSON payloads that describe each platform operation to the host's
//! unsupported-operation callback.
use vstd::prelude::*;

use crate::json::{fields_view, payload_spec, string_payload};
use crate::text::{decimal_spec, join_spaced, join_with_spaces, push_char, push_decimal, push_str, strings_view};

verus! {

fn payload_of(fields: Vec<(&str, String)>, Ghost(members): Ghost<Seq<(Seq<char>, Seq<char>)>>) -> (p: String)
    requires
        fields_view(fields@) == members,
    ensures
        p@ == payload_spec(members),
{
    string_payload(fields.as_slice())
}

/// The payload of a shell snapshot request.
pub fn shell_snapshot_payload(shell: &str, script: &str, cwd: &str) -> (p: String)
    ensures
        p@ == payload_spec(seq![("shell"@, shell@), ("script"@, script@), ("cwd"@, cwd@)]),
{
    let fields = vec![("shell", shell.to_owned()), ("script", script.to_owned()), ("cwd", cwd.to_owned())];
    let ghost members = seq![("shell"@, shell@), ("script"@, script@), ("cwd"@, cwd@)];
    assert(fields_view(fields@) =~= members);
    payload_of(fields, Ghost(members))
}

/// The command line `program arg1 arg2 ...` shown for a git run.
pub open spec fn command_line(program: Seq<char>, args: Seq<Seq<char>>) -> Seq<char> {
    program + seq![' '] + join_spaced(args)
}

/// The payload of a git command request.
pub fn git_run_payload(cwd: &str, program: &str, args: &[String]) -> (p: String)
    ensures
        p@ == payload_spec(
            seq![("command"@, command_line(program@, strings_view(args@))), ("cwd"@, cwd@)],
        ),
{
    let mut command = program.to_owned();
    push_char(&mut command, ' ');
    let joined = join_with_spaces(args);
    push_str(&mut command, joined.as_str());
    assert(command@ =~= command_line(program@, strings_view(args@)));
    let fields = vec![("command", command), ("cwd", cwd.to_owned())];
    let ghost members = seq![("command"@, command_line(program@, strings_view(args@))), ("cwd"@, cwd@)];
    assert(fields_view(fields@) =~= members);
    payload_of(fields, Ghost(members))
}

/// The payload of a git apply request: the command is `git` and its arguments.
pub fn git_apply_payload(cwd: &str, args: &[String]) -> (p: String)
    ensures
        p@ == payload_spec(
            seq![("command"@, command_line("git"@, strings_view(args@))), ("cwd"@, cwd@)],
        ),
{
    let mut command = "git".to_owned();
    push_char(&mut command, ' ');
    let joined = join_with_spaces(args);
    push_str(&mut command, joined.as_str());
    assert(command@ =~= command_line("git"@, strings_view(args@)));
    let fields = vec![("command", command), ("cwd", cwd.to_owned())];
    let ghost members = seq![("command"@, command_line("git"@, strings_view(args@))), ("cwd"@, cwd@)];
    assert(fields_view(fields@) =~= members);
    payload_of(fields, Ghost(members))
}

/// Law: the command line of a git request keeps every argument, in order:
/// with no arguments it is the program and a space, with one it is the
/// program, a space and that argument, and one more argument adds a space
/// and that argument at the end.
pub proof fn law_command_line_keeps_arguments(program: Seq<char>, args: Seq<Seq<char>>, arg: Seq<char>)
    ensures
        command_line(program, Seq::<Seq<char>>::empty()) == program.push(' '),
        command_line(program, seq![arg]) == program + seq![' '] + arg,
        args.len() >= 1 ==> command_line(program, args.push(arg)) == command_line(program, args) + seq![' '] + arg,
{
    assert(command_line(program, Seq::<Seq<char>>::empty()) =~= program.push(' '));
    assert(seq![arg][0] == arg);
    if args.len() >= 1 {
        let more = args.push(arg);
        assert(more.drop_last() =~= args);
        assert(more.last() == arg);
        assert(join_spaced(more) == join_spaced(args) + seq![' '] + arg);
        assert(command_line(program, more) =~= command_line(program, args) + seq![' '] + arg);
    }
}

/// The payload of a git staging request: the root and the diff's size in bytes.
pub fn git_stage_payload(git_root: &str, diff: &str) -> (p: String)
    ensures
        p@ == payload_spec(
            seq![("gitRoot"@, git_root@), ("diffBytes"@, decimal_spec(diff.len() as nat))],
        ),
{
    let mut size = String::new();
    push_decimal(&mut size, diff.len() as u64);
    let fields = vec![("gitRoot", git_root.to_owned()), ("diffBytes", size)];
    let ghost members = seq![("gitRoot"@, git_root@), ("diffBytes"@, decimal_spec(diff.len() as nat))];
    assert(fields_view(fields@) =~= members);
    payload_of(fields, Ghost(members))
}

/// The payload of a stdio MCP server launch request.
pub fn mcp_stdio_payload(program: &str, args: &[String], cwd: &str) -> (p: String)
    ensures
        p@ == payload_spec(
            seq![("program"@, program@), ("args"@, join_spaced(strings_view(args@))), ("cwd"@, cwd@)],
        ),
{
    let joined = join_with_spaces(args);
    let fields = vec![("program", program.to_owned()), ("args", joined), ("cwd", cwd.to_owned())];
    let ghost members = seq![("program"@, program@), ("args"@, join_spaced(strings_view(args@))), ("cwd"@, cwd@)];
    assert(fields_view(fields@) =~= members);
    payload_of(fields, Ghost(members))
}

/// The payload of a doctor report request.
pub fn doctor_report_payload(codex_home: &str) -> (p: String)
    ensures
        p@ == payload_spec(seq![("codexHome"@, codex_home@)]),
{
    let fields = vec![("codexHome", codex_home.to_owned())];
    let ghost members = seq![("codexHome"@, codex_home@)];
    assert(fields_view(fields@) =~= members);
    payload_of(fields, Ghost(members))
}

} // verus!
