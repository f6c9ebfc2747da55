//! Reading the admin console's answer to the identity query: the node's
//! name stands on the first output line that opens with `- `.

use vstd::prelude::*;
use vstd::string::StrSliceExecFns;
use vstd::string::StringExecFns;
use crate::text::{lemma_lines_split, lemma_lines_whole, spec_lines};

verus! {

/// The administrative query that asks a node for its own reported name; the
/// answer carries the name on a `- ` line.
pub fn identity_query() -> (r: &'static str)
    ensures
        r@ == "\\lua\npico.instance_info().name\n"@,
{
    "\\lua\npico.instance_info().name\n"
}

/// The name on the first line opening with `- `, with that prefix removed;
/// `None` when no line opens so.
pub open spec fn spec_name_line(lines: Seq<Seq<char>>) -> Option<Seq<char>>
    decreases lines.len(),
{
    if lines.len() == 0 {
        None
    } else if lines[0].len() >= 2 && lines[0][0] == '-' && lines[0][1] == ' ' {
        Some(lines[0].skip(2))
    } else {
        spec_name_line(lines.drop_first())
    }
}

/// Extracts the instance name from the console's output: the remainder of
/// the first line that opens with `- `.
pub fn parse_instance_name(stdout: &str) -> (r: Option<String>)
    ensures
        r is Some <==> spec_name_line(spec_lines(stdout@)) is Some,
        r matches Some(name) ==> spec_name_line(spec_lines(stdout@)) == Some(name@),
{
    let len = stdout.unicode_len();
    let mut start: usize = 0;
    proof {
        assert(stdout@.skip(0) =~= stdout@);
    }
    loop
        invariant
            0 <= start <= len,
            len == stdout@.len(),
            spec_name_line(spec_lines(stdout@)) == spec_name_line(
                spec_lines(stdout@.skip(start as int)),
            ),
        decreases len - start,
    {
        let ghost t = stdout@.skip(start as int);
        let mut i: usize = start;
        while i < len && stdout.get_char(i) != '\n'
            invariant
                start <= i <= len,
                len == stdout@.len(),
                forall|m: int| start <= m < i ==> stdout@[m] != '\n',
            decreases len - i,
        {
            i += 1;
        }
        let ghost line = stdout@.subrange(start as int, i as int);
        proof {
            assert(forall|m: int| 0 <= m < i - start ==> t[m] == stdout@[m + start]);
            assert(t.subrange(0, i as int - start as int) =~= line);
            if i < len {
                lemma_lines_split(t, i as int - start as int);
                assert(t.skip(i as int - start as int + 1) =~= stdout@.skip(i as int + 1));
            } else {
                lemma_lines_whole(t);
                assert(t =~= line);
            }
            assert(spec_lines(t)[0] == line);
        }
        let matched = i - start >= 2 && stdout.get_char(start) == '-' && stdout.get_char(start + 1)
            == ' ';
        proof {
            if i < len {
                let rest = spec_lines(stdout@.skip(i as int + 1));
                assert(spec_lines(t) == seq![line] + rest);
                assert((seq![line] + rest)[0] == line);
                assert((seq![line] + rest).drop_first() =~= rest);
            } else {
                assert(seq![line].drop_first() =~= Seq::<Seq<char>>::empty());
            }
            assert(line.len() == i - start);
            if line.len() >= 2 {
                assert(line[0] == stdout@[start as int]);
                assert(line[1] == stdout@[start as int + 1]);
            }
            if matched {
                assert(line.skip(2) =~= stdout@.subrange(start as int + 2, i as int));
                assert(spec_name_line(spec_lines(t)) == Some(line.skip(2)));
            }
        }
        if matched {
            let name = stdout.substring_char(start + 2, i);
            return Some(name.to_owned());
        }
        if i == len {
            proof {
                assert(spec_name_line(spec_lines(t)) == spec_name_line(
                    Seq::<Seq<char>>::empty(),
                ));
            }
            return None;
        }
        start = i + 1;
    }
}

/// How a query to the admin console failed.
#[derive(Clone, Copy, Debug, PartialEq, Eq, Structural)]
pub enum ConsoleError {
    /// The console process did not exit cleanly.
    ConsoleFailed,
    /// The console wrote to its error stream: on a query that expects clean
    /// data this is an operational error even with a clean exit.
    StderrOutput,
    /// The console answered cleanly, but no output line carried a name.
    NoNameReported,
}

/// Reads the identity query's result: the console must have exited cleanly
/// with nothing on its error stream, and some output line must carry the
/// name.
pub fn instance_name_from_console(exit_success: bool, stdout: &str, stderr: &str) -> (r: Result<
    String,
    ConsoleError,
>)
    ensures
        !exit_success ==> r == Err::<String, ConsoleError>(ConsoleError::ConsoleFailed),
        exit_success && stderr@.len() > 0 ==> r == Err::<String, ConsoleError>(
            ConsoleError::StderrOutput,
        ),
        exit_success && stderr@.len() == 0 ==> {
            &&& (r is Ok <==> spec_name_line(spec_lines(stdout@)) is Some)
            &&& (r matches Ok(name) ==> spec_name_line(spec_lines(stdout@)) == Some(name@))
            &&& (r is Err ==> r == Err::<String, ConsoleError>(ConsoleError::NoNameReported))
        },
{
    if !exit_success {
        return Err(ConsoleError::ConsoleFailed);
    }
    if !stderr.is_empty() {
        return Err(ConsoleError::StderrOutput);
    }
    match parse_instance_name(stdout) {
        Some(name) => Ok(name),
        None => Err(ConsoleError::NoNameReported),
    }
}

} // verus!
