use vstd::prelude::*;
use vstd::string::StringExecFns;

use crate::cache::path_exists;
use crate::errors::TerraError;

verus! {

/// The single ordered record merged from a child's output lines: every line
/// in arrival order, each terminated by a newline.
pub open spec fn merged_of(lines: Seq<Seq<char>>) -> Seq<char>
    decreases lines.len(),
{
    if lines.len() == 0 {
        Seq::<char>::empty()
    } else {
        merged_of(lines.drop_last()) + lines.last() + seq!['\n']
    }
}

/// Collects the lines that the two stream listeners deliver, in arrival
/// order, into one merged text record.
///
/// The collector guarantees no line loss and order preservation: its buffer
/// is always exactly the concatenation of every line pushed so far, each
/// with a trailing newline.
pub struct OutputCollector {
    output: String,
    lines: Ghost<Seq<Seq<char>>>,
}

impl OutputCollector {
    /// The lines delivered so far, in arrival order.
    pub closed spec fn lines(&self) -> Seq<Seq<char>> {
        self.lines@
    }

    /// The collector's invariant: the buffer is the merge of the delivered
    /// lines.
    pub closed spec fn wf(&self) -> bool {
        self.output@ == merged_of(self.lines@)
    }

    pub fn new() -> (r: OutputCollector)
        ensures
            r.wf(),
            r.lines() == Seq::<Seq<char>>::empty(),
    {
        OutputCollector { output: String::new(), lines: Ghost(Seq::empty()) }
    }

    /// Appends one delivered line, and its terminating newline, to the
    /// record.
    pub fn push_line(&mut self, line: &str)
        requires
            old(self).wf(),
        ensures
            final(self).wf(),
            final(self).lines() == old(self).lines().push(line@),
    {
        self.output.append(line);
        self.output.append("\n");
        proof {
            self.lines@ = self.lines@.push(line@);
            reveal_strlit("\n");
            assert("\n"@ =~= seq!['\n']);
            assert(self.lines@.drop_last() =~= old(self).lines@);
            assert(self.output@ == merged_of(self.lines@));
        }
    }

    /// Hands the merged record out.
    pub fn into_output(self) -> (r: String)
        requires
            self.wf(),
        ensures
            r@ == merged_of(self.lines()),
    {
        self.output
    }
}

/// The exit-status decision of an execution: a zero exit status succeeds
/// with the merged output as the result; any other exit carries the same
/// merged output as the failure payload, so the caller can read what the
/// child printed.
pub fn finish_execution(output: String, exit_success: bool) -> (r: Result<String, TerraError>)
    ensures
        exit_success ==> (r matches Ok(o) && o@ == output@),
        !exit_success ==> (r matches Err(e) && e matches TerraError::CommandFailed(o) && o@
            == output@),
{
    if exit_success {
        Ok(output)
    } else {
        Err(TerraError::CommandFailed(output))
    }
}

/// Runs the provisioned binary.  Construction validates the binary path;
/// execution itself spawns the child and merges its two output streams.
#[derive(Debug)]
pub struct TerraExecutor {
    terra_path: String,
}

impl TerraExecutor {
    /// The validated binary path.
    pub closed spec fn path(&self) -> Seq<char> {
        self.terra_path@
    }

    /// Validates that something exists on disk at `terra_path`; a missing
    /// file is an immediate `InvalidPath` and no executor is built.
    pub fn new(terra_path: String) -> (r: Result<TerraExecutor, TerraError>)
        ensures
            match r {
                Ok(ex) => ex.path() == terra_path@,
                Err(e) => e matches TerraError::InvalidPath(p) && p@ == terra_path@,
            },
    {
        if path_exists(terra_path.as_str()) {
            Ok(TerraExecutor { terra_path })
        } else {
            Err(TerraError::InvalidPath(terra_path))
        }
    }

    /// The validated binary path, for the process that is to be spawned.
    pub fn terra_path(&self) -> (r: &String)
        ensures
            r@ == self.path(),
    {
        &self.terra_path
    }

    /// The check in front of every execution: an empty argument list is
    /// rejected with `InvalidArgs` before any process is spawned, and only
    /// a non-empty one may proceed.
    pub fn validate_args(&self, args: &Vec<String>) -> (r: Result<(), TerraError>)
        ensures
            args@.len() == 0 <==> r == Err::<(), TerraError>(TerraError::InvalidArgs),
            args@.len() > 0 <==> r == Ok::<(), TerraError>(()),
    {
        if args.len() == 0 {
            Err(TerraError::InvalidArgs)
        } else {
            Ok(())
        }
    }
}

} // verus!
