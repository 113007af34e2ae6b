//! The oracle's pure half: building the shell command for a candidate and
//! classifying the combined output of a finished run.
//!
//! Writing the candidate, spawning the command and collecting its raw
//! output are the caller's job; everything here is a function of plain
//! values.
use vstd::prelude::*;
use vstd::string::StringExecFns;

use crate::settings::Settings;
use crate::text::{
    bytes_to_string_lossy, contains_str, lossy_decode, push_decimal, replace_string,
    spec_contains_sub, spec_decimal, spec_replace_all,
};

verus! {

/// One command string with the file symbol substituted: the bare path, or
/// the path wrapped in double quotes.
pub open spec fn spec_single_command(
    cmd: Seq<char>,
    sym: Seq<char>,
    file: Seq<char>,
    escape_disabled: bool,
) -> Seq<char> {
    if escape_disabled {
        spec_replace_all(cmd, sym, file)
    } else {
        spec_replace_all(cmd, sym, seq!['"'] + file + seq!['"'])
    }
}

/// The full oracle command: the configured command, and the additional one
/// joined with `; ` when present, each with the file symbol substituted.
pub open spec fn spec_create_command(settings: Settings, temp_file: Seq<char>) -> Seq<char> {
    let base = spec_single_command(
        settings.command@,
        settings.file_symbol@,
        temp_file,
        settings.disable_file_name_escaping,
    );
    match settings.additional_command {
        Some(ac) => base + seq![';', ' '] + spec_single_command(
            ac@,
            settings.file_symbol@,
            temp_file,
            settings.disable_file_name_escaping,
        ),
        None => base,
    }
}

fn create_single_command_str(settings: &Settings, file_name: &str, input_command: &str) -> (r:
    String)
    ensures
        r@ == spec_single_command(
            input_command@,
            settings.file_symbol@,
            file_name@,
            settings.disable_file_name_escaping,
        ),
{
    if settings.disable_file_name_escaping {
        replace_string(input_command, settings.file_symbol.as_str(), file_name)
    } else {
        let mut quoted = String::new();
        quoted.append("\"");
        quoted.append(file_name);
        quoted.append("\"");
        proof {
            reveal_strlit("\"");
            assert(quoted@ =~= seq!['"'] + file_name@ + seq!['"']);
        }
        replace_string(input_command, settings.file_symbol.as_str(), quoted.as_str())
    }
}

/// The shell command the oracle runs for a candidate at `temp_file`.
pub fn create_command(settings: &Settings, temp_file: &str) -> (r: String)
    ensures
        r@ == spec_create_command(*settings, temp_file@),
{
    let base = create_single_command_str(settings, temp_file, settings.command.as_str());
    match &settings.additional_command {
        Some(additional_command) => {
            let second = create_single_command_str(settings, temp_file, additional_command.as_str());
            let mut r = base;
            r.append("; ");
            r.append(second.as_str());
            proof {
                reveal_strlit("; ");
                assert("; "@ =~= seq![';', ' ']);
                assert(r@ =~= spec_create_command(*settings, temp_file@));
            }
            r
        },
        None => base,
    }
}

/// The decimal notation of a signed number.
pub open spec fn spec_i32(v: int) -> Seq<char> {
    if v < 0 {
        seq!['-'] + spec_decimal((-v) as nat)
    } else {
        spec_decimal(v as nat)
    }
}

/// `Some(v)` or `None`, the way the status line shows it.
pub open spec fn spec_opt_i32(o: Option<i32>) -> Seq<char> {
    match o {
        Some(v) => "Some("@ + spec_i32(v as int) + ")"@,
        None => "None"@,
    }
}

/// The trailing line of the combined output, naming exit code and signal.
pub open spec fn spec_status_line(code: Option<i32>, signal: Option<i32>) -> Seq<char> {
    "====== Status "@ + spec_opt_i32(code) + ", Signal "@ + spec_opt_i32(signal)
}

/// The combined output that classification looks at: stdout, then stderr,
/// each lossily decoded, then the status line.
pub open spec fn spec_collect_output(
    stdout: Seq<u8>,
    stderr: Seq<u8>,
    code: Option<i32>,
    signal: Option<i32>,
) -> Seq<char> {
    lossy_decode(stdout) + seq!['\n'] + lossy_decode(stderr) + seq!['\n', '\n'] + spec_status_line(
        code,
        signal,
    )
}

fn push_i32(v: i32, out: &mut String)
    ensures
        final(out)@ == old(out)@ + spec_i32(v as int),
{
    if v >= 0 {
        push_decimal(v as u32, out);
    } else {
        out.append("-");
        let magnitude: u32 = (-(v as i64)) as u32;
        push_decimal(magnitude, out);
        proof {
            reveal_strlit("-");
            assert("-"@ =~= seq!['-']);
            assert(out@ =~= old(out)@ + spec_i32(v as int));
        }
    }
}

fn push_opt_i32(o: &Option<i32>, out: &mut String)
    ensures
        final(out)@ == old(out)@ + spec_opt_i32(*o),
{
    match o {
        Some(v) => {
            out.append("Some(");
            push_i32(*v, out);
            out.append(")");
        },
        None => {
            out.append("None");
        },
    }
}

/// Builds the combined output for classification from the raw pieces of a
/// finished subprocess: stdout bytes, stderr bytes, exit code and signal.
pub fn collect_output(
    stdout: &Vec<u8>,
    stderr: &Vec<u8>,
    code: Option<i32>,
    signal: Option<i32>,
) -> (r: String)
    ensures
        r@ == spec_collect_output(stdout@, stderr@, code, signal),
{
    let mut r = bytes_to_string_lossy(stdout);
    r.append("\n");
    let err = bytes_to_string_lossy(stderr);
    r.append(err.as_str());
    r.append("\n\n");
    r.append("====== Status ");
    push_opt_i32(&code, &mut r);
    r.append(", Signal ");
    push_opt_i32(&signal, &mut r);
    proof {
        reveal_strlit("\n");
        reveal_strlit("\n\n");
        assert("\n"@ =~= seq!['\n']);
        assert("\n\n"@ =~= seq!['\n', '\n']);
        assert(r@ =~= spec_collect_output(stdout@, stderr@, code, signal));
    }
    r
}

/// Some entry of `infos` occurs in `all`.
pub open spec fn spec_any_contained(infos: Seq<Seq<char>>, all: Seq<char>) -> bool {
    exists|i: int| 0 <= i < infos.len() && spec_contains_sub(all, #[trigger] infos[i])
}

/// The classification law of the oracle: an output is broken exactly when
/// at least one broken-info string occurs in it and no ignored-info string
/// does.
pub open spec fn spec_is_broken(
    all: Seq<char>,
    broken: Seq<Seq<char>>,
    ignored: Option<Seq<Seq<char>>>,
) -> bool {
    spec_any_contained(broken, all) && !(ignored matches Some(ig) && spec_any_contained(ig, all))
}

fn any_contained(infos: &Vec<String>, all: &str) -> (r: bool)
    ensures
        r == spec_any_contained(infos.deep_view(), all@),
{
    let n = infos.len();
    for i in 0..n
        invariant
            n == infos@.len(),
            forall|k: int| 0 <= k < i ==> !spec_contains_sub(all@, #[trigger] infos.deep_view()[k]),
    {
        let hit = contains_str(all, infos[i].as_str());
        proof {
            assert(infos.deep_view()[i as int] == infos@[i as int]@);
        }
        if hit {
            return true;
        }
    }
    false
}

/// Classifies a combined oracle output against the configured markers.
pub fn is_output_broken(
    all: &str,
    broken_info: &Vec<String>,
    ignored_info: &Option<Vec<String>>,
) -> (r: bool)
    ensures
        r == spec_is_broken(all@, broken_info.deep_view(), ignored_info.deep_view()),
{
    let contains_broken = any_contained(broken_info, all);
    let contains_ignored = match ignored_info {
        Some(ignored) => any_contained(ignored, all),
        None => false,
    };
    contains_broken && !contains_ignored
}

} // verus!
