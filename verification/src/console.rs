//! The shell as it meets the console: bytes typed come in one at a time, and
//! for each the shell says what to print.
//!
//! A byte that is not the end of a line edits the line. The end of a line has
//! the line read as a command and run.

use vstd::prelude::*;
use vstd::string::{StringExecFns, StringSliceAdditionalSpecFns};
use vstd::utf8::{decode_utf8, valid_utf8};
use crate::device::BlockDevice;
use crate::fat::Geometry;
use crate::fs::FileSystem;
use crate::shell::{
    is_word, process_says, spec_parse, spec_process, Command, Error, ShellState,
};
use crate::text::utf8_text;

verus! {

/// Number of bytes that a line can hold.
pub const LINE_CAPACITY: usize = 512;

/// Number of words that a command can have.
pub const MAX_ARGS: usize = 64;

/// A shell that is fed the bytes typed at the console.
pub struct Shell {
    /// The working directory.
    state: ShellState,
    /// The bytes of the line typed so far.
    line: Vec<u8>,
    /// Whether the command `exit` ends the shell.
    debug: bool,
}

/// What the shell does with a byte.
pub struct Reaction {
    /// The text to print.
    pub output: String,
    /// Whether the byte ended a line.
    pub done: bool,
    /// Whether the shell has ended.
    pub exit: bool,
}

/// The line and the text printed after the byte `byte` is typed on the line
/// `line`, where `byte` does not end the line.
///
/// A full line takes nothing more and stays as it is. Backspace and delete
/// take the last byte off a line that is not empty, and print the byte, a
/// space and the byte again. Any other byte is added to the line and printed.
pub open spec fn spec_edit(line: Seq<u8>, byte: u8) -> (Seq<u8>, Seq<char>) {
    if line.len() >= LINE_CAPACITY {
        (line, Seq::empty())
    } else if byte == 8 || byte == 127 {
        if line.len() > 0 {
            (line.drop_last(), seq![byte as char, ' ', byte as char])
        } else {
            (line, Seq::empty())
        }
    } else {
        (line.push(byte), seq![byte as char])
    }
}

/// What the line `line` leads to when it is ended, on a device that does not
/// fail: the text printed, whether the shell ends, and the working directory
/// left.
///
/// A line that is no valid UTF-8 prints `7`. A line without a word prints
/// nothing, and one with more than `MAX_ARGS` words prints a complaint. In a
/// shell that can be left, the command `exit` ends it. Any other command is
/// run.
pub open spec fn spec_submit(
    line: Seq<u8>,
    debug: bool,
    cwd: Seq<Seq<char>>,
    volume: Seq<u8>,
    geometry: Geometry,
) -> (Seq<char>, bool, Seq<Seq<char>>) {
    if !valid_utf8(line) {
        (seq!['\n', '7'], false, cwd)
    } else {
        match spec_parse(decode_utf8(line), MAX_ARGS as nat) {
            Err(Error::Empty) => (seq!['\n'], false, cwd),
            Err(Error::TooManyArgs) => (seq!['\n'] + "error: too many arguments\n"@, false, cwd),
            Ok(args) => if debug && args[0] == "exit"@ {
                (seq!['\n'], true, cwd)
            } else {
                let (said, left) = spec_process(args, cwd, volume, geometry);
                (seq!['\n'] + said, false, left)
            },
        }
    }
}

/// Whether `out`, `exit` and `left` are what the line `line` may lead to when
/// it is ended: the text printed, whether the shell ends, and the working
/// directory left.
///
/// They are what the line leads to on a device that does not fail; or the
/// line is a command that is run, and on a device that may fail they are the
/// end of the line typed and what the command may say and leave.
pub open spec fn submit_says(
    line: Seq<u8>,
    debug: bool,
    cwd: Seq<Seq<char>>,
    volume: Seq<u8>,
    geometry: Geometry,
    reliable: bool,
    out: Seq<char>,
    exit: bool,
    left: Seq<Seq<char>>,
) -> bool {
    ||| (out, exit, left) == spec_submit(line, debug, cwd, volume, geometry)
    ||| {
        &&& valid_utf8(line)
        &&& spec_parse(decode_utf8(line), MAX_ARGS as nat) matches Ok(args) && !(debug && args[0]
            == "exit"@) && process_says(args, cwd, volume, geometry, reliable, out.skip(1), left)
        &&& !exit
        &&& out.len() > 0
        &&& out[0] == '\n'
    }
}

/// The bytes `bytes` as a serial line wants them: a carriage return before
/// every line feed.
pub open spec fn spec_line_bytes(bytes: Seq<u8>) -> Seq<u8>
    decreases bytes.len(),
{
    if bytes.len() == 0 {
        Seq::empty()
    } else if bytes.last() == 10 {
        spec_line_bytes(bytes.drop_last()) + seq![13u8, 10u8]
    } else {
        spec_line_bytes(bytes.drop_last()).push(bytes.last())
    }
}

/// The bytes to write to a serial line for the text `s`: its bytes in UTF-8,
/// with a carriage return written before any line feed.
pub fn write_str(s: &str) -> (out: Vec<u8>)
    ensures
        out@ == spec_line_bytes(s.spec_bytes()),
{
    let bytes = s.as_bytes();
    let mut out: Vec<u8> = Vec::new();
    let mut i: usize = 0;
    assert(bytes@.take(0) =~= Seq::<u8>::empty());
    while i < bytes.len()
        invariant
            i <= bytes.len(),
            out@ == spec_line_bytes(bytes@.take(i as int)),
        decreases bytes.len() - i,
    {
        let c = bytes[i];
        proof {
            let upto = bytes@.take(i + 1);
            assert(upto.drop_last() =~= bytes@.take(i as int));
            assert(upto.last() == c);
            assert(out@.push(13u8).push(10u8) =~= out@ + seq![13u8, 10u8]);
        }
        if c == 10 {
            out.push(13);
        }
        out.push(c);
        i += 1;
    }
    assert(bytes@.take(bytes.len() as int) =~= bytes@);
    out
}

impl Shell {
    /// The components of the path of the working directory.
    pub closed spec fn cwd(&self) -> Seq<Seq<char>> {
        self.state@
    }

    /// The bytes of the line typed so far.
    pub closed spec fn line(&self) -> Seq<u8> {
        self.line@
    }

    /// Whether the command `exit` ends the shell.
    pub closed spec fn debug(&self) -> bool {
        self.debug
    }

    /// The line is no longer than a line can be.
    pub closed spec fn wf(&self) -> bool {
        self.line@.len() <= LINE_CAPACITY
    }

    /// A shell in the root directory with an empty line. In a shell made with
    /// `debug` set, the command `exit` ends the shell.
    pub fn new(debug: bool) -> (shell: Shell)
        ensures
            shell.wf(),
            shell.line() == Seq::<u8>::empty(),
            shell.debug() == debug,
            shell.cwd() == Seq::<Seq<char>>::empty(),
    {
        Shell { state: ShellState::new(), line: Vec::new(), debug }
    }

    /// The state of the shell: its working directory.
    pub fn state(&self) -> (state: &ShellState)
        ensures
            state@ == self.cwd(),
    {
        &self.state
    }

    /// Takes the byte `byte`, which does not end a line, into the line, and
    /// returns the text to print.
    pub fn edit(&mut self, byte: u8) -> (output: String)
        requires
            old(self).wf(),
        ensures
            final(self).wf(),
            final(self).debug() == old(self).debug(),
            final(self).cwd() == old(self).cwd(),
            (final(self).line(), output@) == spec_edit(old(self).line(), byte),
    {
        let mut output = String::new();
        if self.line.len() >= LINE_CAPACITY {
            return output;
        }
        if byte == 8 || byte == 127 {
            if self.line.len() > 0 {
                self.line.pop();
                output.push(byte as char);
                output.push(' ');
                output.push(byte as char);
                assert(output@ =~= seq![byte as char, ' ', byte as char]);
            }
        } else {
            self.line.push(byte);
            output.push(byte as char);
            assert(output@ =~= seq![byte as char]);
        }
        output
    }

    /// Ends the line: reads it as a command, runs the command, and empties
    /// the line.
    pub fn submit<D: BlockDevice>(&mut self, fs: &mut FileSystem<D>) -> (reaction: Reaction)
        requires
            old(self).wf(),
            old(fs).inv(),
            old(fs).mounted(),
        ensures
            final(self).wf(),
            final(self).debug() == old(self).debug(),
            final(self).line() == Seq::<u8>::empty(),
            final(fs).inv(),
            final(fs).mounted(),
            final(fs).volume().same_volume(&old(fs).volume()),
            reaction.done,
            submit_says(
                old(self).line(),
                old(self).debug(),
                old(self).cwd(),
                old(fs).volume().volume(),
                old(fs).volume().geometry(),
                old(fs).volume().reliable(),
                reaction.output@,
                reaction.exit,
                final(self).cwd(),
            ),
            old(fs).volume().reliable() ==> (reaction.output@, reaction.exit, final(self).cwd())
                == spec_submit(
                old(self).line(),
                old(self).debug(),
                old(self).cwd(),
                old(fs).volume().volume(),
                old(fs).volume().geometry(),
            ),
    {
        let mut output = String::new();
        output.push('\n');
        assert(output@ =~= seq!['\n']);
        let text = utf8_text(self.line.as_slice());
        self.line.clear();
        let text = match text {
            Some(text) => text,
            None => {
                output.push('7');
                assert(output@ =~= seq!['\n', '7']);
                return Reaction { output, done: true, exit: false };
            },
        };
        match Command::parse(text.as_str(), MAX_ARGS) {
            Err(Error::Empty) => Reaction { output, done: true, exit: false },
            Err(Error::TooManyArgs) => {
                output.append("error: too many arguments\n");
                Reaction { output, done: true, exit: false }
            },
            Ok(command) => {
                assert(command@[0] == command.args@[0]@);
                if self.debug && is_word(command.path(), "exit") {
                    Reaction { output, done: true, exit: true }
                } else {
                    let said = command.process(&mut self.state, fs);
                    output.append(said.as_str());
                    assert(output@.skip(1) =~= said@);
                    Reaction { output, done: true, exit: false }
                }
            },
        }
    }

    /// Takes the byte `byte` typed at the console and returns what the shell
    /// does with it: a line feed or a carriage return ends the line, any
    /// other byte edits it.
    pub fn feed<D: BlockDevice>(&mut self, byte: u8, fs: &mut FileSystem<D>) -> (reaction: Reaction)
        requires
            old(self).wf(),
            old(fs).inv(),
            old(fs).mounted(),
        ensures
            final(self).wf(),
            final(self).debug() == old(self).debug(),
            final(fs).inv(),
            final(fs).mounted(),
            final(fs).volume().same_volume(&old(fs).volume()),
            reaction.done == (byte == 10 || byte == 13),
            !reaction.done ==> {
                &&& !reaction.exit
                &&& final(self).cwd() == old(self).cwd()
                &&& (final(self).line(), reaction.output@) == spec_edit(old(self).line(), byte)
            },
            reaction.done ==> final(self).line() == Seq::<u8>::empty(),
            reaction.done ==> submit_says(
                old(self).line(),
                old(self).debug(),
                old(self).cwd(),
                old(fs).volume().volume(),
                old(fs).volume().geometry(),
                old(fs).volume().reliable(),
                reaction.output@,
                reaction.exit,
                final(self).cwd(),
            ),
            reaction.done && old(fs).volume().reliable() ==> (
                reaction.output@,
                reaction.exit,
                final(self).cwd(),
            ) == spec_submit(
                old(self).line(),
                old(self).debug(),
                old(self).cwd(),
                old(fs).volume().volume(),
                old(fs).volume().geometry(),
            ),
    {
        if byte == 10 || byte == 13 {
            self.submit(fs)
        } else {
            let output = self.edit(byte);
            Reaction { output, done: false, exit: false }
        }
    }
}

} // verus!
