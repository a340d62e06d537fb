use vstd::prelude::*;

verus! {

/// Index of the first newline byte, or -1.
pub open spec fn newline_index(b: Seq<u8>) -> int
    decreases b.len(),
{
    if b.len() == 0 {
        -1
    } else if newline_index(b.drop_last()) >= 0 {
        newline_index(b.drop_last())
    } else if b.last() == 10 {
        b.len() - 1
    } else {
        -1
    }
}

/// The next line a buffer yields, and what stays: up to and including the
/// first newline; at end of stream, whatever is left.
pub open spec fn split_line(b: Seq<u8>, eof: bool) -> Option<(Seq<u8>, Seq<u8>)> {
    let k = newline_index(b);
    if k >= 0 {
        Some((b.subrange(0, k + 1), b.subrange(k + 1, b.len() as int)))
    } else if b.len() > 0 && eof {
        Some((b, Seq::empty()))
    } else {
        None
    }
}

/// What reading a line from a command's output comes to.
pub enum LineStep {
    /// A line, and the stream it came from (1 for standard output, 2 for
    /// standard error).
    Line(i32, Vec<u8>),
    /// Both streams that are read have ended.
    Done,
    /// No whole line yet: more output must be fed in.
    Wait,
}

/// The output of a running command: per-stream buffers of bytes not yet
/// handed out, and whether each stream has ended. Which streams are read
/// is fixed when it is made.
pub struct CommandGenerator {
    pub stdout_buffer: Vec<u8>,
    pub stderr_buffer: Vec<u8>,
    pub stdout_eof: bool,
    pub stderr_eof: bool,
    pub get_stdout: bool,
    pub get_stderr: bool,
    pub get_combined: bool,
}

proof fn lemma_newline_index(b: Seq<u8>)
    ensures
        -1 <= newline_index(b) < b.len(),
        newline_index(b) >= 0 ==> b[newline_index(b)] == 10,
        forall|j: int| 0 <= j < b.len() && (newline_index(b) == -1 || j < newline_index(b)) ==> #[trigger] b[j] != 10,
    decreases b.len(),
{
    if b.len() > 0 {
        let p = b.drop_last();
        lemma_newline_index(p);
        assert forall|j: int| 0 <= j < b.len() && (newline_index(b) == -1 || j < newline_index(b)) implies #[trigger] b[j] != 10 by {
            if j < b.len() - 1 {
                assert(b[j] == p[j]);
            }
        }
    }
}

/// Takes the next line out of a buffer.
fn take_line(buf: &mut Vec<u8>, eof: bool) -> (r: Option<Vec<u8>>)
    ensures
        match split_line(old(buf)@, eof) {
            Some((line, rest)) => r is Some && r->Some_0@ == line && final(buf)@ == rest,
            None => r is None && final(buf)@ == old(buf)@,
        },
{
    let n = buf.len();
    let mut k: usize = 0;
    while k < n && buf[k] != 10
        invariant
            k <= n,
            n == buf@.len(),
            forall|j: int| 0 <= j < k ==> buf@[j] != 10,
        decreases n - k,
    {
        k = k + 1;
    }
    proof {
        lemma_newline_index(buf@);
        if k < n {
            let m = newline_index(buf@);
            if m == -1 {
                assert(buf@[k as int] != 10);
            } else {
                assert(!(m < k)) by {
                    if m < k {
                        assert(buf@[m] != 10);
                    }
                }
                assert(!(k < m));
            }
        } else {
            let m = newline_index(buf@);
            if m >= 0 {
                assert(buf@[m] != 10);
            }
        }
    }
    if k < n {
        let rest = buf.split_off(k + 1);
        let line = buf.split_off(0);
        *buf = rest;
        Some(line)
    } else if n > 0 && eof {
        let line = buf.split_off(0);
        Some(line)
    } else {
        None
    }
}

impl CommandGenerator {
    pub fn new(get_stdout: bool, get_stderr: bool, get_combined: bool) -> (r: CommandGenerator)
        ensures
            r.stdout_buffer@.len() == 0,
            r.stderr_buffer@.len() == 0,
            !r.stdout_eof,
            !r.stderr_eof,
            r.get_stdout == get_stdout,
            r.get_stderr == get_stderr,
            r.get_combined == get_combined,
    {
        CommandGenerator {
            stdout_buffer: Vec::new(),
            stderr_buffer: Vec::new(),
            stdout_eof: false,
            stderr_eof: false,
            get_stdout,
            get_stderr,
            get_combined,
        }
    }

    /// Adds bytes read from standard output; an ended stream stays ended.
    pub fn feed_stdout(&mut self, bytes: &[u8], eof: bool)
        ensures
            final(self).stdout_buffer@ == old(self).stdout_buffer@ + bytes@,
            final(self).stdout_eof == (old(self).stdout_eof || eof),
            final(self).stderr_buffer == old(self).stderr_buffer,
            final(self).stderr_eof == old(self).stderr_eof,
            final(self).get_stdout == old(self).get_stdout,
            final(self).get_stderr == old(self).get_stderr,
            final(self).get_combined == old(self).get_combined,
    {
        self.stdout_buffer.extend_from_slice(bytes);
        self.stdout_eof = self.stdout_eof || eof;
    }

    /// Adds bytes read from standard error; an ended stream stays ended.
    pub fn feed_stderr(&mut self, bytes: &[u8], eof: bool)
        ensures
            final(self).stderr_buffer@ == old(self).stderr_buffer@ + bytes@,
            final(self).stderr_eof == (old(self).stderr_eof || eof),
            final(self).stdout_buffer == old(self).stdout_buffer,
            final(self).stdout_eof == old(self).stdout_eof,
            final(self).get_stdout == old(self).get_stdout,
            final(self).get_stderr == old(self).get_stderr,
            final(self).get_combined == old(self).get_combined,
    {
        self.stderr_buffer.extend_from_slice(bytes);
        self.stderr_eof = self.stderr_eof || eof;
    }

    /// The next line of standard output, if a whole one is buffered.
    pub fn stdout_read_line_nb(&mut self) -> (r: Option<Vec<u8>>)
        ensures
            match split_line(old(self).stdout_buffer@, old(self).stdout_eof) {
                Some((line, rest)) => r is Some && r->Some_0@ == line && final(self).stdout_buffer@ == rest,
                None => r is None && final(self).stdout_buffer@ == old(self).stdout_buffer@,
            },
            final(self).stderr_buffer == old(self).stderr_buffer,
            final(self).stdout_eof == old(self).stdout_eof,
            final(self).stderr_eof == old(self).stderr_eof,
            final(self).get_stdout == old(self).get_stdout,
            final(self).get_stderr == old(self).get_stderr,
            final(self).get_combined == old(self).get_combined,
    {
        take_line(&mut self.stdout_buffer, self.stdout_eof)
    }

    /// The next line of standard error, if a whole one is buffered.
    pub fn stderr_read_line_nb(&mut self) -> (r: Option<Vec<u8>>)
        ensures
            match split_line(old(self).stderr_buffer@, old(self).stderr_eof) {
                Some((line, rest)) => r is Some && r->Some_0@ == line && final(self).stderr_buffer@ == rest,
                None => r is None && final(self).stderr_buffer@ == old(self).stderr_buffer@,
            },
            final(self).stdout_buffer == old(self).stdout_buffer,
            final(self).stdout_eof == old(self).stdout_eof,
            final(self).stderr_eof == old(self).stderr_eof,
            final(self).get_stdout == old(self).get_stdout,
            final(self).get_stderr == old(self).get_stderr,
            final(self).get_combined == old(self).get_combined,
    {
        take_line(&mut self.stderr_buffer, self.stderr_eof)
    }

    /// One step of reading a line from the streams that are read, standard
    /// output first: a line where one is buffered; done where every stream
    /// read has ended with nothing left; else wait for more output.
    pub fn read_line(&mut self) -> (r: LineStep)
        ensures
            final(self).stdout_eof == old(self).stdout_eof,
            final(self).stderr_eof == old(self).stderr_eof,
            step_of(*old(self), *final(self), r, old(self).get_stdout, old(self).get_stderr),
    {
        self.step(self.get_stdout, self.get_stderr)
    }

    /// One step of reading from both streams, standard output first, each
    /// line tagged with its stream: done once both have ended with nothing
    /// left.
    pub fn read_line_combined(&mut self) -> (r: LineStep)
        ensures
            final(self).stdout_eof == old(self).stdout_eof,
            final(self).stderr_eof == old(self).stderr_eof,
            step_of(*old(self), *final(self), r, true, true),
    {
        self.step(true, true)
    }

    fn step(&mut self, want_out: bool, want_err: bool) -> (r: LineStep)
        ensures
            final(self).stdout_eof == old(self).stdout_eof,
            final(self).stderr_eof == old(self).stderr_eof,
            step_of(*old(self), *final(self), r, want_out, want_err),
    {
        if want_out {
            match self.stdout_read_line_nb() {
                Some(l) => return LineStep::Line(1, l),
                None => {},
            }
        }
        if want_err {
            match self.stderr_read_line_nb() {
                Some(l) => return LineStep::Line(2, l),
                None => {},
            }
        }
        if (!want_out || self.stdout_eof) && (!want_err || self.stderr_eof) {
            LineStep::Done
        } else {
            LineStep::Wait
        }
    }
}

/// One reading step over the chosen streams: a line from standard output
/// where one is buffered, else from standard error; else done where each
/// chosen stream has ended (its buffer then being empty); else wait.
pub open spec fn step_of(pre: CommandGenerator, post: CommandGenerator, r: LineStep, want_out: bool, want_err: bool) -> bool {
    let out = split_line(pre.stdout_buffer@, pre.stdout_eof);
    let err = split_line(pre.stderr_buffer@, pre.stderr_eof);
    if want_out && out.is_some() {
        r is Line && r->Line_0 == 1 && r->Line_1@ == out.unwrap().0 && post.stdout_buffer@ == out.unwrap().1
            && post.stderr_buffer@ == pre.stderr_buffer@
    } else if want_err && err.is_some() {
        r is Line && r->Line_0 == 2 && r->Line_1@ == err.unwrap().0 && post.stderr_buffer@ == err.unwrap().1
            && post.stdout_buffer@ == pre.stdout_buffer@
    } else if (!want_out || pre.stdout_eof) && (!want_err || pre.stderr_eof) {
        r is Done && post.stdout_buffer@ == pre.stdout_buffer@ && post.stderr_buffer@ == pre.stderr_buffer@
    } else {
        r is Wait && post.stdout_buffer@ == pre.stdout_buffer@ && post.stderr_buffer@ == pre.stderr_buffer@
    }
}

} // verus!
