//! Typed output collection for one external-tool invocation.
//!
//! The transport hands over a single ordered sequence of chunks, each
//! tagged with the stream it came from. The collector appends every chunk
//! to its stream's accumulator in arrival order and decides, per chunk,
//! whether the caller should echo it live. The caller drives the transport
//! loop and, once both streams are closed, finishes with the exit code.

use vstd::prelude::*;

verus! {

/// One line of child output, tagged with its origin stream.
#[derive(Debug, Clone)]
pub enum OutputChunk {
    Stdout(String),
    Stderr(String),
}

/// The line carried by a chunk.
pub open spec fn chunk_message(c: OutputChunk) -> Seq<char> {
    match c {
        OutputChunk::Stdout(m) => m@,
        OutputChunk::Stderr(m) => m@,
    }
}

/// The stdout lines among a chunk sequence, in arrival order.
pub open spec fn stdout_lines(chunks: Seq<OutputChunk>) -> Seq<Seq<char>>
    decreases chunks.len(),
{
    if chunks.len() == 0 {
        Seq::empty()
    } else {
        stdout_lines(chunks.drop_last()) + (if chunks.last() is Stdout {
            seq![chunk_message(chunks.last())]
        } else {
            Seq::empty()
        })
    }
}

/// The stderr lines among a chunk sequence, in arrival order.
pub open spec fn stderr_lines(chunks: Seq<OutputChunk>) -> Seq<Seq<char>>
    decreases chunks.len(),
{
    if chunks.len() == 0 {
        Seq::empty()
    } else {
        stderr_lines(chunks.drop_last()) + (if chunks.last() is Stderr {
            seq![chunk_message(chunks.last())]
        } else {
            Seq::empty()
        })
    }
}

/// Law: the collected lines of each stream are exactly the messages of
/// that stream's chunks, kept in arrival order.
pub proof fn lemma_lines_are_filtered(chunks: Seq<OutputChunk>)
    ensures
        stdout_lines(chunks) == chunks.filter(|c: OutputChunk| c is Stdout).map_values(
            |c: OutputChunk| chunk_message(c),
        ),
        stderr_lines(chunks) == chunks.filter(|c: OutputChunk| c is Stderr).map_values(
            |c: OutputChunk| chunk_message(c),
        ),
    decreases chunks.len(),
{
    reveal(Seq::filter);
    if chunks.len() == 0 {
        assert(stdout_lines(chunks) =~= chunks.filter(|c: OutputChunk| c is Stdout).map_values(
            |c: OutputChunk| chunk_message(c),
        ));
        assert(stderr_lines(chunks) =~= chunks.filter(|c: OutputChunk| c is Stderr).map_values(
            |c: OutputChunk| chunk_message(c),
        ));
    } else {
        lemma_lines_are_filtered(chunks.drop_last());
        assert(stdout_lines(chunks) =~= chunks.filter(|c: OutputChunk| c is Stdout).map_values(
            |c: OutputChunk| chunk_message(c),
        ));
        assert(stderr_lines(chunks) =~= chunks.filter(|c: OutputChunk| c is Stderr).map_values(
            |c: OutputChunk| chunk_message(c),
        ));
    }
}

/// What one external-tool invocation produced: both streams' lines in
/// arrival order, and the exit code.
#[derive(Debug)]
pub struct ProcessResult {
    pub stdout: Vec<String>,
    pub stderr: Vec<String>,
    pub code: i32,
}

/// Accumulates typed output chunks in arrival order and decides which are
/// echoed live.
pub struct Collector {
    print_stdout: bool,
    print_stderr: bool,
    stdout: Vec<String>,
    stderr: Vec<String>,
    history: Ghost<Seq<OutputChunk>>,
}

impl Collector {
    /// The chunks pushed so far, in arrival order.
    pub closed spec fn history(&self) -> Seq<OutputChunk> {
        self.history@
    }

    /// Whether stdout chunks are echoed live.
    pub closed spec fn echoes_stdout(&self) -> bool {
        self.print_stdout
    }

    /// Whether stderr chunks are echoed live.
    pub closed spec fn echoes_stderr(&self) -> bool {
        self.print_stderr
    }

    /// The accumulators hold exactly the same-origin lines of the history,
    /// in arrival order: nothing is dropped and nothing is reordered.
    pub closed spec fn wf(&self) -> bool {
        &&& self.stdout.deep_view() == stdout_lines(self.history@)
        &&& self.stderr.deep_view() == stderr_lines(self.history@)
    }

    /// A fresh collector with the two live-echo flags.
    pub fn new(print_stdout: bool, print_stderr: bool) -> (r: Collector)
        ensures
            r.wf(),
            r.history() == Seq::<OutputChunk>::empty(),
            r.echoes_stdout() == print_stdout,
            r.echoes_stderr() == print_stderr,
    {
        let r = Collector {
            print_stdout,
            print_stderr,
            stdout: Vec::new(),
            stderr: Vec::new(),
            history: Ghost(Seq::empty()),
        };
        proof {
            assert(r.stdout.deep_view() =~= stdout_lines(r.history@));
            assert(r.stderr.deep_view() =~= stderr_lines(r.history@));
        }
        r
    }

    /// Record one chunk in arrival order; the result says whether the
    /// caller should echo it live, by the flag of the chunk's stream.
    pub fn push(&mut self, chunk: OutputChunk) -> (echo: bool)
        requires
            old(self).wf(),
        ensures
            final(self).wf(),
            final(self).history() == old(self).history().push(chunk),
            final(self).echoes_stdout() == old(self).echoes_stdout(),
            final(self).echoes_stderr() == old(self).echoes_stderr(),
            echo == (if chunk is Stdout {
                old(self).echoes_stdout()
            } else {
                old(self).echoes_stderr()
            }),
    {
        let ghost c = chunk;
        let echo: bool;
        match chunk {
            OutputChunk::Stdout(m) => {
                echo = self.print_stdout;
                self.stdout.push(m);
            },
            OutputChunk::Stderr(m) => {
                echo = self.print_stderr;
                self.stderr.push(m);
            },
        }
        proof {
            self.history@ = self.history@.push(c);
            assert(self.history@.drop_last() =~= old(self).history@);
            assert(self.stdout.deep_view() =~= stdout_lines(self.history@));
            assert(self.stderr.deep_view() =~= stderr_lines(self.history@));
        }
        echo
    }

    /// Package the accumulated streams with the child's exit code.
    pub fn finish(self, code: i32) -> (r: ProcessResult)
        requires
            self.wf(),
        ensures
            r.stdout.deep_view() == stdout_lines(self.history()),
            r.stderr.deep_view() == stderr_lines(self.history()),
            r.code == code,
    {
        ProcessResult { stdout: self.stdout, stderr: self.stderr, code }
    }
}

} // verus!
