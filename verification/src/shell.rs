//! The commands of a shell over the file system: `echo`, `ls`, `pwd`, `cd`
//! and `cat`.
//!
//! A command does not print. It returns the text that it has to say, and
//! changes the working directory of the shell where it is `cd`.
//!
//! What a command says is stated for a device that does not fail. On a device
//! that may fail, a command says that or what it says of a device failure.

use vstd::prelude::*;
use vstd::string::StringExecFns;
use vstd::utf8::{decode_utf8, valid_utf8};
use crate::device::BlockDevice;
use crate::dir::{Entry, EntryView};
use crate::error::Error as FsError;
use crate::file::{
    entries_read, lemma_opened_has_root, open_reads, read_reads, spec_dir_entries,
    spec_open_parts, spec_read_all,
};
use crate::fs::FileSystem;
use crate::metadata::Timestamp;
use crate::path::{chars_of, deep, spec_components, spec_words, split, split_chars};
use crate::text::{push_chars, push_decimal, push_padded, spec_decimal, spec_padded, utf8_text};

verus! {

/// Error type for `Command` parse failures.
#[derive(Clone, Copy, Debug, PartialEq, Eq, Structural)]
pub enum Error {
    Empty,
    TooManyArgs,
}

/// Contains all of the state related to the current shell: the components of
/// the path of the working directory.
#[derive(Debug)]
pub struct ShellState {
    pub path: Vec<Vec<char>>,
}

/// A structure representing a single shell command: its words, the name of
/// the command first.
#[derive(Debug)]
pub struct Command {
    pub args: Vec<Vec<char>>,
}

impl View for ShellState {
    type V = Seq<Seq<char>>;

    open spec fn view(&self) -> Seq<Seq<char>> {
        deep(self.path@)
    }
}

impl View for Command {
    type V = Seq<Seq<char>>;

    open spec fn view(&self) -> Seq<Seq<char>> {
        deep(self.args@)
    }
}

/// What parsing the line `s` gives where a command may have at most
/// `capacity` words: the words of `s` between its spaces, `TooManyArgs` if
/// they are more than `capacity`, and `Empty` if there is none.
pub open spec fn spec_parse(s: Seq<char>, capacity: nat) -> Result<Seq<Seq<char>>, Error> {
    let words = spec_words(s, ' ');
    if words.len() > capacity {
        Err(Error::TooManyArgs)
    } else if words.len() == 0 {
        Err(Error::Empty)
    } else {
        Ok(words)
    }
}

/// The character `c` for a flag that is set, a dash for one that is not.
pub open spec fn spec_flag(b: bool, c: char) -> Seq<char> {
    if b {
        seq![c]
    } else {
        seq!['-']
    }
}

/// A timestamp as a listing shows it: month, day and year, then hour, minute
/// and second, then a space. A timestamp that a record does not hold is shown
/// in dashes.
pub open spec fn spec_timestamp_text(timestamp: Option<Timestamp>) -> Seq<char> {
    match timestamp {
        Some(t) => spec_padded(t.month as nat, 2, '0') + seq!['/'] + spec_padded(
            t.day as nat,
            2,
            '0',
        ) + seq!['/'] + spec_decimal(t.year as nat) + seq![' '] + spec_padded(t.hour as nat, 2, '0')
            + seq![':'] + spec_padded(t.minute as nat, 2, '0') + seq![':'] + spec_padded(
            t.second as nat,
            2,
            '0',
        ) + seq![' '],
        None => "--/--/---- --:--:-- "@,
    }
}

/// What the shell says of a failure of the file system, without the end of
/// the line.
pub open spec fn spec_error_text(e: FsError) -> Seq<char> {
    match e {
        FsError::NotFound => "error: not found"@,
        FsError::NotADirectory => "error: not a directory"@,
        FsError::BadSignature => "error: invalid data"@,
        FsError::UnknownBootIndicator(_) => "error: invalid data"@,
        FsError::InvalidGeometry => "error: invalid data"@,
        FsError::CorruptChain => "error: invalid data"@,
        FsError::ChainTooLong => "error: invalid data"@,
        FsError::Io(_) => "unknown error"@,
        FsError::ReadOnlyFilesystem => "unknown error"@,
    }
}

/// The line that the shell prints for a failure of the file system.
pub open spec fn spec_error_line(e: FsError) -> Seq<char> {
    spec_error_text(e) + seq!['\n']
}

/// The line of a listing for `entry`: four flags (directory, file, read-only,
/// hidden), the time of the last change, the size in eight columns, and the
/// name, with tabs in between.
pub open spec fn spec_entry_line(entry: EntryView) -> Seq<char> {
    let metadata = entry.metadata();
    spec_flag(entry is Dir, 'd') + spec_flag(entry is File, 'f') + spec_flag(
        metadata.attributes.read_only(),
        'r',
    ) + spec_flag(metadata.attributes.hidden(), 'h') + seq!['\t'] + spec_timestamp_text(
        metadata.modified,
    ) + seq!['\t'] + spec_padded(metadata.size as nat, 8, ' ') + seq!['\t'] + metadata.name
        + seq!['\n']
}

/// The lines of a listing for the first `n` of `entries`: hidden entries are
/// left out unless `list_all` is set.
pub open spec fn spec_listing(entries: Seq<EntryView>, list_all: bool, n: nat) -> Seq<char>
    decreases n,
{
    if n == 0 {
        Seq::empty()
    } else {
        let entry = entries[n - 1];
        let before = spec_listing(entries, list_all, (n - 1) as nat);
        if list_all || !entry.metadata().attributes.hidden() {
            before + spec_entry_line(entry)
        } else {
            before
        }
    }
}

/// The components of the path that the argument `arg` names in the working
/// directory `cwd`: those of `arg` alone if it starts with a slash, and those
/// of `cwd` followed by those of `arg` if not.
pub open spec fn spec_target(cwd: Seq<Seq<char>>, arg: Seq<char>) -> Seq<Seq<char>> {
    if arg.len() > 0 && arg[0] == '/' {
        spec_components(arg)
    } else {
        cwd + spec_components(arg)
    }
}

/// The path with the components `parts`, as text: a slash before each
/// component, and a single slash for no component.
pub open spec fn spec_path_text(parts: Seq<Seq<char>>, n: nat) -> Seq<char>
    decreases n,
{
    if parts.len() == 0 {
        seq!['/']
    } else if n == 0 {
        Seq::empty()
    } else {
        spec_path_text(parts, (n - 1) as nat) + seq!['/'] + parts[n - 1]
    }
}

/// What `echo` says for the first `n` words of a command: each word after the
/// first, followed by a space.
pub open spec fn spec_echo(args: Seq<Seq<char>>, n: nat) -> Seq<char>
    decreases n,
{
    if n <= 1 {
        Seq::empty()
    } else {
        spec_echo(args, (n - 1) as nat) + args[n - 1] + seq![' ']
    }
}

/// What `ls` says on a device that does not fail.
///
/// `-a` as the first argument lists hidden entries too. The directory listed
/// is the one that the only argument names if that does not start with a
/// dash, the one that the second argument names if there is one, and the
/// working directory otherwise.
pub open spec fn spec_ls(
    args: Seq<Seq<char>>,
    cwd: Seq<Seq<char>>,
    volume: Seq<u8>,
    geometry: crate::fat::Geometry,
) -> Seq<char> {
    let list_all = args.len() > 1 && args[1] == "-a"@;
    let parts = if args.len() == 2 && !(args[1].len() > 0 && args[1][0] == '-') {
        spec_target(cwd, args[1])
    } else if args.len() > 2 {
        spec_target(cwd, args[2])
    } else {
        cwd
    };
    match spec_open_parts(volume, geometry, parts) {
        Err(e) => spec_error_line(e),
        Ok(EntryView::File(_)) => spec_error_line(FsError::NotADirectory),
        Ok(EntryView::Dir(dir)) => match spec_dir_entries(
            volume,
            geometry,
            dir.metadata.first_cluster,
        ) {
            Err(e) => spec_error_line(e),
            Ok(entries) => spec_listing(entries, list_all, entries.len()),
        },
    }
}

/// What `cd` says, and the working directory that it leaves, on a device
/// that does not fail.
///
/// `.` changes nothing and `..` drops the last component of the working
/// directory. Any other argument names a path in the working directory, which
/// becomes the working directory if a directory can be opened there.
pub open spec fn spec_cd(
    args: Seq<Seq<char>>,
    cwd: Seq<Seq<char>>,
    volume: Seq<u8>,
    geometry: crate::fat::Geometry,
) -> (Seq<char>, Seq<Seq<char>>) {
    if args.len() < 2 {
        ("expected argument\n"@, cwd)
    } else if args[1] == "."@ {
        (Seq::empty(), cwd)
    } else if args[1] == ".."@ {
        if cwd.len() > 0 {
            (Seq::empty(), cwd.drop_last())
        } else {
            (Seq::empty(), cwd)
        }
    } else {
        let parts = spec_target(cwd, args[1]);
        match spec_open_parts(volume, geometry, parts) {
            Err(e) => (spec_error_line(e), cwd),
            Ok(EntryView::File(_)) => (spec_error_line(FsError::NotADirectory), cwd),
            Ok(EntryView::Dir(_)) => (Seq::empty(), parts),
        }
    }
}

/// What `cat` says of a file that was read with the result `read`: its
/// contents and the end of a line, if it was read to its end and holds valid
/// UTF-8, and a complaint if not.
pub open spec fn spec_file_text(read: Result<Seq<u8>, FsError>) -> Seq<char> {
    match read {
        Err(_) => "error printing file\n"@,
        Ok(bytes) => if valid_utf8(bytes) {
            decode_utf8(bytes) + seq!['\n']
        } else {
            "error printing file\n"@
        },
    }
}

/// What `cat` says of the file that `arg` names, on a device that does not
/// fail: the line of the failure to open it, or what it says of the file
/// read to its end.
#[verifier::opaque]
pub open spec fn spec_cat_one(
    arg: Seq<char>,
    cwd: Seq<Seq<char>>,
    volume: Seq<u8>,
    geometry: crate::fat::Geometry,
) -> Seq<char> {
    match spec_open_parts(volume, geometry, spec_target(cwd, arg)) {
        Err(e) => spec_error_line(e),
        Ok(EntryView::Dir(_)) => spec_error_line(FsError::NotADirectory),
        Ok(EntryView::File(file)) => spec_file_text(spec_read_all(volume, geometry, file, 512)),
    }
}

/// What `cat` says for the first `n` words of a command: what it says of
/// each file that a word after the first names, in order.
pub open spec fn spec_cat(
    args: Seq<Seq<char>>,
    n: nat,
    cwd: Seq<Seq<char>>,
    volume: Seq<u8>,
    geometry: crate::fat::Geometry,
) -> Seq<char>
    decreases n,
{
    if n <= 1 {
        Seq::empty()
    } else {
        spec_cat(args, (n - 1) as nat, cwd, volume, geometry) + spec_cat_one(
            args[n - 1],
            cwd,
            volume,
            geometry,
        )
    }
}

/// What the command with the words `args` says, and the working directory
/// that it leaves, in the working directory `cwd` and on a device that does
/// not fail.
#[verifier::opaque]
pub open spec fn spec_process(
    args: Seq<Seq<char>>,
    cwd: Seq<Seq<char>>,
    volume: Seq<u8>,
    geometry: crate::fat::Geometry,
) -> (Seq<char>, Seq<Seq<char>>) {
    if args[0] == "echo"@ {
        (spec_echo(args, args.len()) + seq!['\n'], cwd)
    } else if args[0] == "ls"@ {
        (spec_ls(args, cwd, volume, geometry), cwd)
    } else if args[0] == "pwd"@ {
        (seq!['"'] + spec_path_text(cwd, cwd.len()) + seq!['"', '\n'], cwd)
    } else if args[0] == "cd"@ {
        spec_cd(args, cwd, volume, geometry)
    } else if args[0] == "cat"@ {
        (spec_cat(args, args.len(), cwd, volume, geometry), cwd)
    } else {
        ("unknown command: "@ + args[0] + seq!['\n'], cwd)
    }
}

/// The line that the shell prints when the device fails.
pub open spec fn spec_io_line() -> Seq<char> {
    spec_error_line(FsError::Io(crate::device::IoError::Other))
}

/// Whether `ls` reads the device: it does where the root directory starts at
/// a data cluster of the volume, whatever directory it lists.
pub open spec fn ls_reads(geometry: crate::fat::Geometry) -> bool {
    entries_read(geometry, geometry.root)
}

/// Whether `cd` reads the device: it does where its argument is there and is
/// neither `.` nor `..`, and opening the path that it names reads the device.
/// `cd` without an argument, `cd .` and `cd ..` never do.
pub open spec fn cd_reads(
    args: Seq<Seq<char>>,
    cwd: Seq<Seq<char>>,
    geometry: crate::fat::Geometry,
) -> bool {
    args.len() >= 2 && args[1] != "."@ && args[1] != ".."@ && open_reads(
        geometry,
        spec_target(cwd, args[1]),
    )
}

/// Whether `out` is what `ls` may say: what it says on a device that does not
/// fail, or, where it reads a device that may fail, the line of a device
/// failure.
pub open spec fn ls_says(
    args: Seq<Seq<char>>,
    cwd: Seq<Seq<char>>,
    volume: Seq<u8>,
    geometry: crate::fat::Geometry,
    reliable: bool,
    out: Seq<char>,
) -> bool {
    out == spec_ls(args, cwd, volume, geometry) || (!reliable && ls_reads(geometry) && out
        == spec_io_line())
}

/// Whether `out` and `left` are what `cd` may say and the working directory
/// that it may leave: what it says and leaves on a device that does not fail,
/// or, where it reads a device that may fail, the line of a device failure
/// and the working directory as it was.
pub open spec fn cd_says(
    args: Seq<Seq<char>>,
    cwd: Seq<Seq<char>>,
    volume: Seq<u8>,
    geometry: crate::fat::Geometry,
    reliable: bool,
    out: Seq<char>,
    left: Seq<Seq<char>>,
) -> bool {
    (out, left) == spec_cd(args, cwd, volume, geometry) || (!reliable && cd_reads(
        args,
        cwd,
        geometry,
    ) && out == spec_io_line() && left == cwd)
}

/// Whether `piece` is what `cat` may say of the file that `arg` names: what
/// it says on a device that does not fail; or, where opening the file reads a
/// device that may fail, the line of a device failure; or, where the file is
/// opened and reading it reads a device that may fail, the complaint that the
/// file cannot be printed.
pub open spec fn cat_one_says(
    arg: Seq<char>,
    cwd: Seq<Seq<char>>,
    volume: Seq<u8>,
    geometry: crate::fat::Geometry,
    reliable: bool,
    piece: Seq<char>,
) -> bool {
    ||| piece == spec_cat_one(arg, cwd, volume, geometry)
    ||| !reliable && open_reads(geometry, spec_target(cwd, arg)) && piece == spec_io_line()
    ||| {
        &&& !reliable
        &&& spec_open_parts(volume, geometry, spec_target(cwd, arg)) matches Ok(
            EntryView::File(file),
        ) && read_reads(geometry, file, 512)
        &&& piece == "error printing file\n"@
    }
}

/// Whether `out` is what `cat` may say for the first `n` words of a command:
/// for each file that a word after the first names, in order, what it may
/// say of that file.
pub open spec fn cat_says(
    args: Seq<Seq<char>>,
    n: nat,
    cwd: Seq<Seq<char>>,
    volume: Seq<u8>,
    geometry: crate::fat::Geometry,
    reliable: bool,
    out: Seq<char>,
) -> bool
    decreases n,
{
    if n <= 1 {
        out == Seq::<char>::empty()
    } else {
        exists|before: Seq<char>, piece: Seq<char>|
            #![trigger before + piece]
            cat_says(args, (n - 1) as nat, cwd, volume, geometry, reliable, before)
                && cat_one_says(args[n - 1], cwd, volume, geometry, reliable, piece) && out
                == before + piece
    }
}

/// Whether `out` and `left` are what the command with the words `args` may
/// say and the working directory that it may leave.
///
/// `echo`, `pwd` and an unknown command do not reach the device: they say
/// and leave what they do on any device. `ls`, `cd` and `cat` say and leave
/// what they do on a device that does not fail, or, on a device that may
/// fail, what they say of a device failure.
pub open spec fn process_says(
    args: Seq<Seq<char>>,
    cwd: Seq<Seq<char>>,
    volume: Seq<u8>,
    geometry: crate::fat::Geometry,
    reliable: bool,
    out: Seq<char>,
    left: Seq<Seq<char>>,
) -> bool {
    if args[0] == "echo"@ {
        (out, left) == spec_process(args, cwd, volume, geometry)
    } else if args[0] == "ls"@ {
        left == cwd && ls_says(args, cwd, volume, geometry, reliable, out)
    } else if args[0] == "pwd"@ {
        (out, left) == spec_process(args, cwd, volume, geometry)
    } else if args[0] == "cd"@ {
        cd_says(args, cwd, volume, geometry, reliable, out, left)
    } else if args[0] == "cat"@ {
        left == cwd && cat_says(args, args.len(), cwd, volume, geometry, reliable, out)
    } else {
        (out, left) == spec_process(args, cwd, volume, geometry)
    }
}

/// The names of the commands differ from each other, and `.` differs from
/// `..`.
pub proof fn lemma_names_differ()
    ensures
        "cd"@ != "echo"@,
        "cd"@ != "ls"@,
        "cd"@ != "pwd"@,
        "cd"@ != "cat"@,
        "ls"@ != "echo"@,
        "pwd"@ != "echo"@,
        "pwd"@ != "ls"@,
        "cat"@ != "echo"@,
        "cat"@ != "ls"@,
        "cat"@ != "pwd"@,
        "."@ != ".."@,
{
    reveal_strlit("cd");
    reveal_strlit("echo");
    reveal_strlit("ls");
    reveal_strlit("pwd");
    reveal_strlit("cat");
    reveal_strlit(".");
    reveal_strlit("..");
    assert("cd"@.len() == 2 && "ls"@.len() == 2 && "pwd"@.len() == 3 && "cat"@.len() == 3
        && "echo"@.len() == 4 && "."@.len() == 1 && ".."@.len() == 2);
    assert("cd"@[0] == 'c' && "ls"@[0] == 'l' && "pwd"@[0] == 'p' && "cat"@[0] == 'c');
}

/// `cd` without an argument says that it expects one and leaves the working
/// directory as it was, on every device.
pub proof fn lemma_cd_without_argument(
    args: Seq<Seq<char>>,
    cwd: Seq<Seq<char>>,
    volume: Seq<u8>,
    geometry: crate::fat::Geometry,
    reliable: bool,
    out: Seq<char>,
    left: Seq<Seq<char>>,
)
    requires
        args.len() == 1,
        args[0] == "cd"@,
        process_says(args, cwd, volume, geometry, reliable, out, left),
    ensures
        out == "expected argument\n"@,
        left == cwd,
{
    lemma_names_differ();
}

/// `cd .` says nothing and leaves the working directory as it was, on every
/// device.
pub proof fn lemma_cd_here(
    args: Seq<Seq<char>>,
    cwd: Seq<Seq<char>>,
    volume: Seq<u8>,
    geometry: crate::fat::Geometry,
    reliable: bool,
    out: Seq<char>,
    left: Seq<Seq<char>>,
)
    requires
        args.len() >= 2,
        args[0] == "cd"@,
        args[1] == "."@,
        process_says(args, cwd, volume, geometry, reliable, out, left),
    ensures
        out == Seq::<char>::empty(),
        left == cwd,
{
    lemma_names_differ();
}

/// `cd ..` says nothing and leaves the working directory without its last
/// component, or as it was if it is the root directory, on every device.
pub proof fn lemma_cd_up(
    args: Seq<Seq<char>>,
    cwd: Seq<Seq<char>>,
    volume: Seq<u8>,
    geometry: crate::fat::Geometry,
    reliable: bool,
    out: Seq<char>,
    left: Seq<Seq<char>>,
)
    requires
        args.len() >= 2,
        args[0] == "cd"@,
        args[1] == ".."@,
        process_says(args, cwd, volume, geometry, reliable, out, left),
    ensures
        out == Seq::<char>::empty(),
        left == (if cwd.len() > 0 {
            cwd.drop_last()
        } else {
            cwd
        }),
{
    lemma_names_differ();
}

/// A command other than `cd` leaves the working directory as it was, on
/// every device.
pub proof fn lemma_only_cd_moves(
    args: Seq<Seq<char>>,
    cwd: Seq<Seq<char>>,
    volume: Seq<u8>,
    geometry: crate::fat::Geometry,
    reliable: bool,
    out: Seq<char>,
    left: Seq<Seq<char>>,
)
    requires
        args.len() >= 1,
        args[0] != "cd"@,
        process_says(args, cwd, volume, geometry, reliable, out, left),
    ensures
        left == cwd,
{
    reveal(spec_process);
}

/// Whether `arg` is the word `word`.
pub fn is_word(arg: &Vec<char>, word: &str) -> (r: bool)
    ensures
        r == (arg@ == word@),
{
    let wanted = chars_of(word);
    if arg.len() != wanted.len() {
        return false;
    }
    let mut i: usize = 0;
    while i < arg.len()
        invariant
            i <= arg.len() == wanted.len(),
            wanted@ == word@,
            forall|j: int| 0 <= j < i ==> arg@[j] == wanted@[j],
        decreases arg.len() - i,
    {
        if arg[i] != wanted[i] {
            assert(arg@[i as int] != wanted@[i as int]);
            return false;
        }
        i += 1;
    }
    assert(arg@ =~= wanted@);
    true
}

/// A copy of `chars`.
pub fn copy_chars(chars: &Vec<char>) -> (copy: Vec<char>)
    ensures
        copy@ == chars@,
{
    let mut copy: Vec<char> = Vec::new();
    let mut i: usize = 0;
    while i < chars.len()
        invariant
            i <= chars.len(),
            copy@ == chars@.take(i as int),
        decreases chars.len() - i,
    {
        copy.push(chars[i]);
        assert(chars@.take(i + 1) =~= chars@.take(i as int).push(chars@[i as int]));
        i += 1;
    }
    assert(chars@.take(chars.len() as int) =~= chars@);
    copy
}

/// A copy of `parts`.
pub fn copy_parts(parts: &Vec<Vec<char>>) -> (copy: Vec<Vec<char>>)
    ensures
        deep(copy@) == deep(parts@),
{
    let mut copy: Vec<Vec<char>> = Vec::new();
    let mut i: usize = 0;
    while i < parts.len()
        invariant
            i <= parts.len(),
            deep(copy@) == deep(parts@).take(i as int),
        decreases parts.len() - i,
    {
        let part = copy_chars(&parts[i]);
        proof {
            let more = deep(copy@.push(part));
            let wanted = deep(parts@).take(i + 1);
            assert(deep(copy@).len() == copy@.len());
            assert(deep(parts@).len() == parts@.len());
            assert(deep(parts@).take(i as int).len() == i);
            assert(more.len() == wanted.len());
            assert forall|j: int| 0 <= j < more.len() implies more[j] == wanted[j] by {
                if j < i {
                    assert(more[j] == deep(copy@)[j]);
                    assert(deep(parts@).take(i as int)[j] == wanted[j]);
                }
            }
            assert(more =~= wanted);
        }
        copy.push(part);
        i += 1;
    }
    assert(deep(parts@).take(parts.len() as int) =~= deep(parts@));
    copy
}

/// The components of the path that the argument `arg` names in the working
/// directory `cwd`.
pub fn target(cwd: &Vec<Vec<char>>, arg: &Vec<char>) -> (parts: Vec<Vec<char>>)
    ensures
        deep(parts@) == spec_target(deep(cwd@), arg@),
{
    let mut parts = if arg.len() > 0 && arg[0] == '/' {
        Vec::new()
    } else {
        copy_parts(cwd)
    };
    let ghost before = parts@;
    let mut more = split_chars(arg, '/');
    let ghost added = more@;
    parts.append(&mut more);
    assert(deep(before + added) =~= deep(before) + deep(added));
    assert(Seq::<Seq<char>>::empty() + deep(added) =~= deep(added));
    assert(deep(Seq::<Vec<char>>::empty()) =~= Seq::<Seq<char>>::empty());
    parts
}

/// Appends to `out` the character `c` if `b` is set, and a dash if not.
pub fn write_bool(out: &mut String, b: bool, c: char)
    ensures
        final(out)@ == old(out)@ + spec_flag(b, c),
{
    if b {
        out.push(c);
        assert(old(out)@.push(c) =~= old(out)@ + seq![c]);
    } else {
        out.push('-');
        assert(old(out)@.push('-') =~= old(out)@ + seq!['-']);
    }
}

/// Appends to `out` the timestamp `timestamp` as a listing shows it.
pub fn write_timestamp(out: &mut String, timestamp: Option<Timestamp>)
    ensures
        final(out)@ == old(out)@ + spec_timestamp_text(timestamp),
{
    match timestamp {
        Some(t) => {
            push_padded(out, t.month as u64, 2, '0');
            out.push('/');
            push_padded(out, t.day as u64, 2, '0');
            out.push('/');
            push_decimal(out, t.year as u64);
            out.push(' ');
            push_padded(out, t.hour as u64, 2, '0');
            out.push(':');
            push_padded(out, t.minute as u64, 2, '0');
            out.push(':');
            push_padded(out, t.second as u64, 2, '0');
            out.push(' ');
            assert(out@ =~= old(out)@ + spec_timestamp_text(timestamp));
        },
        None => {
            out.append("--/--/---- --:--:-- ");
        },
    }
}

/// Appends to `out` the line that the shell prints for the failure `e` of
/// the file system: "not found", "not a directory", "invalid data" for a
/// volume that is not as it should be, and "unknown error" for anything
/// else.
pub fn print_io_error(out: &mut String, e: FsError)
    ensures
        final(out)@ == old(out)@ + spec_error_line(e),
{
    match e {
        FsError::NotFound => {
            out.append("error: not found");
        },
        FsError::NotADirectory => {
            out.append("error: not a directory");
        },
        FsError::BadSignature => {
            out.append("error: invalid data");
        },
        FsError::UnknownBootIndicator(_) => {
            out.append("error: invalid data");
        },
        FsError::InvalidGeometry => {
            out.append("error: invalid data");
        },
        FsError::CorruptChain => {
            out.append("error: invalid data");
        },
        FsError::ChainTooLong => {
            out.append("error: invalid data");
        },
        FsError::Io(_) => {
            out.append("unknown error");
        },
        FsError::ReadOnlyFilesystem => {
            out.append("unknown error");
        },
    }
    out.push('\n');
    assert(out@ =~= old(out)@ + spec_error_line(e));
}

/// Appends to `out` what `cat` says of a file that was read with the result
/// `read`.
pub fn print_file(out: &mut String, read: &Result<Vec<u8>, FsError>)
    ensures
        final(out)@ == old(out)@ + spec_file_text(crate::vfat::seq_of(*read)),
{
    match read {
        Err(_) => {
            out.append("error printing file\n");
        },
        Ok(bytes) => {
            match utf8_text(bytes.as_slice()) {
                None => {
                    out.append("error printing file\n");
                },
                Some(text) => {
                    out.append(text.as_str());
                    out.push('\n');
                    assert(out@ =~= old(out)@ + (text@ + seq!['\n']));
                },
            }
        },
    }
}

/// Appends to `out` the line of a listing for `entry`.
pub fn write_entry(out: &mut String, entry: &Entry)
    ensures
        final(out)@ == old(out)@ + spec_entry_line(entry@),
{
    let metadata = entry.metadata();
    write_bool(out, entry.is_dir(), 'd');
    write_bool(out, entry.is_file(), 'f');
    write_bool(out, metadata.read_only(), 'r');
    write_bool(out, metadata.hidden(), 'h');
    out.push('\t');
    write_timestamp(out, metadata.modified());
    out.push('\t');
    push_padded(out, metadata.size(), 8, ' ');
    out.push('\t');
    out.append(metadata.name());
    out.push('\n');
    assert(out@ =~= old(out)@ + spec_entry_line(entry@));
}

/// Appends to `out` the lines of a listing for `entries`: hidden entries are
/// left out unless `list_all` is set.
pub fn write_listing(out: &mut String, entries: &Vec<Entry>, list_all: bool)
    ensures
        final(out)@ == old(out)@ + spec_listing(
            crate::dir::views(entries@),
            list_all,
            entries@.len(),
        ),
{
    let ghost all = crate::dir::views(entries@);
    let mut i: usize = 0;
    assert(out@ + spec_listing(all, list_all, 0) =~= out@);
    while i < entries.len()
        invariant
            i <= entries.len(),
            all == crate::dir::views(entries@),
            out@ == old(out)@ + spec_listing(all, list_all, i as nat),
        decreases entries.len() - i,
    {
        let entry = &entries[i];
        assert(all[i as int] == entry@);
        if list_all || !entry.metadata().hidden() {
            write_entry(out, entry);
            assert(out@ =~= old(out)@ + (spec_listing(all, list_all, i as nat) + spec_entry_line(
                entry@,
            )));
        }
        i += 1;
    }
}

/// Appends to `out` the path with the components `parts`.
pub fn write_path(out: &mut String, parts: &Vec<Vec<char>>)
    ensures
        final(out)@ == old(out)@ + spec_path_text(deep(parts@), parts@.len()),
{
    if parts.len() == 0 {
        out.push('/');
        assert(old(out)@.push('/') =~= old(out)@ + seq!['/']);
        return ;
    }
    let mut i: usize = 0;
    assert(out@ + spec_path_text(deep(parts@), 0) =~= out@);
    while i < parts.len()
        invariant
            i <= parts.len(),
            parts.len() > 0,
            out@ == old(out)@ + spec_path_text(deep(parts@), i as nat),
        decreases parts.len() - i,
    {
        let ghost before = out@;
        out.push('/');
        push_chars(out, &parts[i]);
        assert(out@ =~= old(out)@ + (spec_path_text(deep(parts@), i as nat) + seq!['/'] + deep(
            parts@,
        )[i as int]));
        i += 1;
    }
}

impl ShellState {
    /// The state of a shell whose working directory is the root directory.
    pub fn new() -> (state: ShellState)
        ensures
            state@ == Seq::<Seq<char>>::empty(),
    {
        let state = ShellState { path: Vec::new() };
        assert(state@ =~= Seq::<Seq<char>>::empty());
        state
    }
}

impl Command {
    /// Parse a command from a string `s`: its words are the runs of
    /// characters of `s` between spaces.
    ///
    /// # Errors
    ///
    /// If `s` contains no arguments, returns `Error::Empty`. If there are
    /// more arguments than `capacity`, returns `Error::TooManyArgs`.
    pub fn parse(s: &str, capacity: usize) -> (r: Result<Command, Error>)
        ensures
            match r {
                Ok(command) => spec_parse(s@, capacity as nat) == Ok::<Seq<Seq<char>>, Error>(
                    command@,
                ),
                Err(e) => spec_parse(s@, capacity as nat) == Err::<Seq<Seq<char>>, Error>(e),
            },
    {
        let args = split(s, ' ');
        if args.len() > capacity {
            return Err(Error::TooManyArgs);
        }
        if args.len() == 0 {
            return Err(Error::Empty);
        }
        Ok(Command { args })
    }

    /// Returns this command's path. This is equivalent to the first argument.
    pub fn path(&self) -> (path: &Vec<char>)
        requires
            self@.len() > 0,
        ensures
            path@ == self@[0],
    {
        &self.args[0]
    }

    /// What `echo` says: the words after the first, each followed by a space,
    /// and the end of the line.
    pub fn echo(&self) -> (out: String)
        ensures
            out@ == spec_echo(self@, self@.len()) + seq!['\n'],
    {
        let mut out = String::new();
        assert(self@.len() == self.args@.len());
        let mut i: usize = 1;
        assert(out@ =~= spec_echo(self@, 1));
        while i < self.args.len()
            invariant
                1 <= i,
                i <= self.args.len() || (i == 1 && self.args.len() == 0),
                out@ == spec_echo(self@, i as nat),
            decreases self.args.len() - i,
        {
            push_chars(&mut out, &self.args[i]);
            out.push(' ');
            assert(self@[i as int] == self.args@[i as int]@);
            assert(out@ =~= spec_echo(self@, i as nat) + self@[i as int] + seq![' ']);
            i += 1;
        }
        let ghost said = out@;
        assert(said == spec_echo(self@, self@.len()));
        out.push('\n');
        assert(out@ =~= said + seq!['\n']);
        out
    }

    /// What `pwd` says: the path of the working directory between double
    /// quotes.
    pub fn pwd(state: &ShellState) -> (out: String)
        ensures
            out@ == seq!['"'] + spec_path_text(state@, state@.len()) + seq!['"', '\n'],
    {
        let mut out = String::new();
        out.push('"');
        write_path(&mut out, &state.path);
        out.push('"');
        out.push('\n');
        assert(out@ =~= seq!['"'] + spec_path_text(state@, state@.len()) + seq!['"', '\n']);
        out
    }

    /// What `ls` says: a line for each entry of the directory listed, or the
    /// line of the failure to open or read it.
    pub fn ls<D: BlockDevice>(&self, state: &ShellState, fs: &mut FileSystem<D>) -> (out: String)
        requires
            old(fs).inv(),
            old(fs).mounted(),
        ensures
            final(fs).inv(),
            final(fs).mounted(),
            final(fs).volume().same_volume(&old(fs).volume()),
            ls_says(
                self@,
                state@,
                old(fs).volume().volume(),
                old(fs).volume().geometry(),
                old(fs).volume().reliable(),
                out@,
            ),
    {
        let mut out = String::new();
        let list_all = self.args.len() > 1 && is_word(&self.args[1], "-a");
        let parts = if self.args.len() == 2 && !(self.args[1].len() > 0 && self.args[1][0] == '-') {
            target(&state.path, &self.args[1])
        } else if self.args.len() > 2 {
            target(&state.path, &self.args[2])
        } else {
            copy_parts(&state.path)
        };
        proof {
            if self.args.len() > 1 {
                assert(self@[1] == self.args@[1]@);
            }
            if self.args.len() > 2 {
                assert(self@[2] == self.args@[2]@);
            }
        }
        match fs.open_parts(&parts) {
            Err(e) => {
                print_io_error(&mut out, e);
            },
            Ok(Entry::File(_)) => {
                print_io_error(&mut out, FsError::NotADirectory);
            },
            Ok(Entry::Dir(dir)) => {
                proof {
                    // A directory that was opened or is the root itself is
                    // read where the root directory can be read.
                    if parts@.len() > 0 {
                        lemma_opened_has_root(
                            old(fs).volume().volume(),
                            old(fs).volume().geometry(),
                            deep(parts@),
                        );
                    }
                }
                match fs.entries(&dir) {
                    Err(e) => {
                        print_io_error(&mut out, e);
                    },
                    Ok(entries) => {
                        write_listing(&mut out, &entries, list_all);
                    },
                }
            },
        }
        proof {
            let said = spec_ls(
                self@,
                state@,
                old(fs).volume().volume(),
                old(fs).volume().geometry(),
            );
            assert(Seq::<char>::empty() + said =~= said);
            assert(Seq::<char>::empty() + spec_io_line() =~= spec_io_line());
        }
        out
    }

    /// What `cd` says, having changed the working directory of `state` where
    /// the argument names a directory that can be opened.
    pub fn cd<D: BlockDevice>(&self, state: &mut ShellState, fs: &mut FileSystem<D>) -> (out: String)
        requires
            old(fs).inv(),
            old(fs).mounted(),
        ensures
            final(fs).inv(),
            final(fs).mounted(),
            final(fs).volume().same_volume(&old(fs).volume()),
            cd_says(
                self@,
                old(state)@,
                old(fs).volume().volume(),
                old(fs).volume().geometry(),
                old(fs).volume().reliable(),
                out@,
                final(state)@,
            ),
    {
        let mut out = String::new();
        if self.args.len() < 2 {
            out.append("expected argument\n");
            assert(out@ =~= "expected argument\n"@);
            return out;
        }
        assert(self@[1] == self.args@[1]@);
        if is_word(&self.args[1], ".") {
            return out;
        }
        if is_word(&self.args[1], "..") {
            if state.path.len() > 0 {
                state.path.pop();
                assert(state@ =~= old(state)@.drop_last());
            }
            return out;
        }
        let parts = target(&state.path, &self.args[1]);
        match fs.open_parts(&parts) {
            Err(e) => {
                print_io_error(&mut out, e);
            },
            Ok(Entry::File(_)) => {
                print_io_error(&mut out, FsError::NotADirectory);
            },
            Ok(Entry::Dir(_)) => {
                state.path = parts;
            },
        }
        proof {
            let said = spec_cd(
                self@,
                old(state)@,
                old(fs).volume().volume(),
                old(fs).volume().geometry(),
            ).0;
            assert(Seq::<char>::empty() + said =~= said);
            assert(Seq::<char>::empty() + spec_io_line() =~= spec_io_line());
        }
        out
    }

    /// Appends to `out` what `cat` says of the file that `arg` names.
    pub fn cat_one<D: BlockDevice>(
        out: &mut String,
        arg: &Vec<char>,
        state: &ShellState,
        fs: &mut FileSystem<D>,
    )
        requires
            old(fs).inv(),
            old(fs).mounted(),
        ensures
            final(fs).inv(),
            final(fs).mounted(),
            final(fs).volume().same_volume(&old(fs).volume()),
            old(out)@.is_prefix_of(final(out)@),
            cat_one_says(
                arg@,
                state@,
                old(fs).volume().volume(),
                old(fs).volume().geometry(),
                old(fs).volume().reliable(),
                final(out)@.skip(old(out)@.len() as int),
            ),
    {
        reveal(spec_cat_one);
        let parts = target(&state.path, arg);
        let ghost piece: Seq<char>;
        match fs.open_parts(&parts) {
            Err(e) => {
                print_io_error(out, e);
                proof {
                    piece = spec_error_line(e);
                }
            },
            Ok(Entry::Dir(_)) => {
                print_io_error(out, FsError::NotADirectory);
                proof {
                    piece = spec_error_line(FsError::NotADirectory);
                }
            },
            Ok(Entry::File(file)) => {
                let mut file = file;
                let read = fs.read_to_end(&mut file);
                print_file(out, &read);
                proof {
                    piece = spec_file_text(crate::vfat::seq_of(read));
                }
            },
        }
        proof {
            assert(out@ == old(out)@ + piece);
            assert(out@.skip(old(out)@.len() as int) =~= piece);
        }
    }

    /// What `cat` says: the contents of each file named, in order.
    pub fn cat<D: BlockDevice>(&self, state: &ShellState, fs: &mut FileSystem<D>) -> (out: String)
        requires
            old(fs).inv(),
            old(fs).mounted(),
        ensures
            final(fs).inv(),
            final(fs).mounted(),
            final(fs).volume().same_volume(&old(fs).volume()),
            cat_says(
                self@,
                self@.len(),
                state@,
                old(fs).volume().volume(),
                old(fs).volume().geometry(),
                old(fs).volume().reliable(),
                out@,
            ),
            old(fs).volume().reliable() ==> out@ == spec_cat(
                self@,
                self@.len(),
                state@,
                old(fs).volume().volume(),
                old(fs).volume().geometry(),
            ),
    {
        let mut out = String::new();
        let ghost volume = fs.volume().volume();
        let ghost geometry = fs.volume().geometry();
        let ghost reliable = fs.volume().reliable();
        let ghost args = self@;
        let ghost cwd = state@;
        assert(args.len() == self.args@.len());
        if self.args.len() < 2 {
            assert(out@ =~= spec_cat(args, args.len(), cwd, volume, geometry));
            return out;
        }
        let mut i: usize = 1;
        assert(out@ =~= spec_cat(args, 1, cwd, volume, geometry));
        while i < self.args.len()
            invariant
                1 <= i <= self.args.len(),
                args == self@,
                cwd == state@,
                fs.inv(),
                fs.mounted(),
                fs.volume().same_volume(&old(fs).volume()),
                volume == old(fs).volume().volume(),
                geometry == old(fs).volume().geometry(),
                reliable == old(fs).volume().reliable(),
                cat_says(args, i as nat, cwd, volume, geometry, reliable, out@),
                reliable ==> out@ == spec_cat(args, i as nat, cwd, volume, geometry),
            decreases self.args.len() - i,
        {
            assert(args[i as int] == self.args@[i as int]@);
            let ghost before = out@;
            Self::cat_one(&mut out, &self.args[i], state, fs);
            proof {
                let piece = out@.skip(before.len() as int);
                assert(out@ =~= before + piece);
                assert(cat_one_says(args[i as int], cwd, volume, geometry, reliable, piece));
                assert(cat_says(args, i as nat, cwd, volume, geometry, reliable, before));
                assert(cat_says(args, (i + 1) as nat, cwd, volume, geometry, reliable, out@));
                if reliable {
                    assert(spec_cat(args, (i + 1) as nat, cwd, volume, geometry) == spec_cat(
                        args,
                        i as nat,
                        cwd,
                        volume,
                        geometry,
                    ) + spec_cat_one(args[i as int], cwd, volume, geometry));
                }
            }
            i += 1;
        }
        out
    }

    /// Processes this command: returns what it says, and updates the shell
    /// state where the command is `cd`.
    pub fn process<D: BlockDevice>(&self, state: &mut ShellState, fs: &mut FileSystem<D>) -> (out:
        String)
        requires
            self@.len() > 0,
            old(fs).inv(),
            old(fs).mounted(),
        ensures
            final(fs).inv(),
            final(fs).mounted(),
            final(fs).volume().same_volume(&old(fs).volume()),
            process_says(
                self@,
                old(state)@,
                old(fs).volume().volume(),
                old(fs).volume().geometry(),
                old(fs).volume().reliable(),
                out@,
                final(state)@,
            ),
            old(fs).volume().reliable() ==> (out@, final(state)@) == spec_process(
                self@,
                old(state)@,
                old(fs).volume().volume(),
                old(fs).volume().geometry(),
            ),
    {
        reveal(spec_process);
        assert(self@[0] == self.args@[0]@);
        let name = self.path();
        if is_word(name, "echo") {
            self.echo()
        } else if is_word(name, "ls") {
            self.ls(state, fs)
        } else if is_word(name, "pwd") {
            Self::pwd(state)
        } else if is_word(name, "cd") {
            self.cd(state, fs)
        } else if is_word(name, "cat") {
            self.cat(state, fs)
        } else {
            let mut out = String::new();
            out.append("unknown command: ");
            push_chars(&mut out, name);
            out.push('\n');
            assert(out@ =~= "unknown command: "@ + self@[0] + seq!['\n']);
            out
        }
    }
}

} // verus!
