use fat32::console::{Reaction, Shell, LINE_CAPACITY, MAX_ARGS};
use fat32::device::{BlockDevice, IoError, RamDisk};
use fat32::dir::Entry;
use fat32::error::Error as FsError;
use fat32::fs::FileSystem;
use fat32::metadata::Timestamp;
use fat32::shell::{
    copy_chars, copy_parts, is_word, print_io_error, target, write_bool, write_entry,
    write_listing, write_path, write_timestamp, Command, Error, ShellState,
};
use fat32::text::{decimal, push_chars, push_decimal, push_pad_left, push_padded};

const FIRST: usize = 1;
const DATA: usize = FIRST + 2;

fn put_record(bytes: &mut [u8], dir: u32, index: usize, name: &[u8; 11], attr: u8, first: u32, size: u32) {
    let at = (DATA + dir as usize - 2) * 512 + 32 * index;
    bytes[at..at + 11].copy_from_slice(name);
    bytes[at + 11] = attr;
    bytes[at + 22..at + 24].copy_from_slice(&(13u16 << 11 | 37 << 5 | 4).to_le_bytes());
    bytes[at + 24..at + 26].copy_from_slice(&((2018u16 - 1980) << 9 | 3 << 5 | 9).to_le_bytes());
    bytes[at + 26..at + 28].copy_from_slice(&(first as u16).to_le_bytes());
    bytes[at + 28..at + 32].copy_from_slice(&size.to_le_bytes());
}

fn put_link(bytes: &mut [u8], cluster: u32, value: u32) {
    let at = (FIRST + 1) * 512 + 4 * cluster as usize;
    bytes[at..at + 4].copy_from_slice(&value.to_le_bytes());
}

fn put_data(bytes: &mut [u8], cluster: u32, data: &[u8]) {
    let at = (DATA + cluster as usize - 2) * 512;
    bytes[at..at + data.len()].copy_from_slice(data);
}

/// A disk with the partition at sector 1: one reserved sector, one table of
/// one sector, and eight clusters of one sector.
fn shell_disk() -> Vec<u8> {
    let mut bytes = vec![0u8; (DATA + 8) * 512];
    bytes[510] = 0x55;
    bytes[511] = 0xAA;
    bytes[446 + 4] = 0x0B;
    bytes[446 + 8] = FIRST as u8;
    let block = FIRST * 512;
    bytes[block + 11..block + 13].copy_from_slice(&512u16.to_le_bytes());
    bytes[block + 13] = 1;
    bytes[block + 14] = 1;
    bytes[block + 16] = 1;
    bytes[block + 19] = 10;
    bytes[block + 36] = 1;
    bytes[block + 44] = 2;
    bytes[block + 510] = 0x55;
    bytes[block + 511] = 0xAA;
    for c in 2..10 {
        put_link(&mut bytes, c, 0x0FFF_FFFF);
    }
    put_record(&mut bytes, 2, 0, b"HELLO   TXT", 0x20, 3, 13);
    put_record(&mut bytes, 2, 1, b"SECRET     ", 0x23, 4, 3);
    put_record(&mut bytes, 2, 2, b"SUB        ", 0x10, 5, 0);
    put_record(&mut bytes, 2, 3, b"BINARY  DAT", 0x20, 6, 2);
    put_record(&mut bytes, 2, 4, b"LONG    TXT", 0x20, 7, 700);
    put_data(&mut bytes, 3, b"Hello, world!garbage");
    put_data(&mut bytes, 4, b"shh");
    put_record(&mut bytes, 5, 0, b".          ", 0x10, 5, 0);
    put_record(&mut bytes, 5, 1, b"..         ", 0x10, 0, 0);
    put_record(&mut bytes, 5, 2, b"INNER   TXT", 0x20, 9, 2);
    put_data(&mut bytes, 6, &[0xFF, 0xFE]);
    put_link(&mut bytes, 7, 8);
    put_data(&mut bytes, 7, &[b'a'; 512]);
    put_data(&mut bytes, 8, &[b'b'; 512]);
    put_data(&mut bytes, 9, b"in");
    bytes
}

/// A device that fails every read after the first `.1` reads.
struct Failing(RamDisk, u32);

impl BlockDevice for Failing {
    fn read_sector(&mut self, n: u64) -> Result<[u8; 512], IoError> {
        if self.1 == 0 {
            return Err(IoError::Other);
        }
        self.1 -= 1;
        self.0.read_sector(n)
    }

    fn write_sector(&mut self, _n: u64, _buf: &[u8]) -> Result<usize, IoError> {
        Err(IoError::Unsupported)
    }
}

fn mounted() -> FileSystem<RamDisk> {
    let mut fs = FileSystem::uninitialized();
    fs.initialize(RamDisk::new(shell_disk()));
    assert!(fs.is_mounted());
    fs
}

fn run(line: &str, state: &mut ShellState, fs: &mut FileSystem<RamDisk>) -> String {
    Command::parse(line, 64).unwrap().process(state, fs)
}

fn run_on(fs: &mut FileSystem<Failing>, line: &str, state: &mut ShellState) -> String {
    Command::parse(line, 64).unwrap().process(state, fs)
}

fn chars(s: &str) -> Vec<char> {
    s.chars().collect()
}

fn words(parts: &[Vec<char>]) -> Vec<String> {
    parts.iter().map(|p| p.iter().collect()).collect()
}

fn type_line(shell: &mut Shell, fs: &mut FileSystem<RamDisk>, line: &str) -> (String, Reaction) {
    let mut printed = String::new();
    for b in line.bytes() {
        let reaction = shell.feed(b, fs);
        assert!(!reaction.done);
        assert!(!reaction.exit);
        printed.push_str(&reaction.output);
    }
    (printed, shell.feed(b'\n', fs))
}

// Numbers and text.

#[test]
fn decimal_digits() {
    let text = |n: u64| -> String { decimal(n).iter().collect() };
    assert_eq!(text(0), "0");
    assert_eq!(text(7), "7");
    assert_eq!(text(10), "10");
    assert_eq!(text(254), "254");
    assert_eq!(text(1_000_000), "1000000");
    assert_eq!(text(u64::MAX), "18446744073709551615");
}

#[test]
fn numbers_are_padded_on_the_left() {
    let mut out = String::from("x");
    push_padded(&mut out, 7, 2, '0');
    push_padded(&mut out, 12, 2, '0');
    push_padded(&mut out, 345, 2, '0');
    assert_eq!(out, "x0712345");
    let mut out = String::new();
    push_padded(&mut out, 1234, 8, ' ');
    assert_eq!(out, "    1234");
    let mut out = String::new();
    push_padded(&mut out, 0, 0, ' ');
    push_decimal(&mut out, 42);
    assert_eq!(out, "042");
    let mut out = String::new();
    push_pad_left(&mut out, &chars("ab"), 5, '*');
    push_pad_left(&mut out, &chars("abcdef"), 5, '*');
    push_chars(&mut out, &chars("!"));
    assert_eq!(out, "***ababcdef!");
}

// Pieces of a listing.

#[test]
fn flags_are_letters_or_dashes() {
    let mut out = String::new();
    write_bool(&mut out, true, 'd');
    write_bool(&mut out, false, 'f');
    write_bool(&mut out, true, 'r');
    assert_eq!(out, "d-r");
}

#[test]
fn timestamp_text() {
    let mut out = String::new();
    let stamp = Timestamp { year: 2018, month: 3, day: 9, hour: 13, minute: 7, second: 4 };
    write_timestamp(&mut out, Some(stamp));
    assert_eq!(out, "03/09/2018 13:07:04 ");
    let mut out = String::new();
    write_timestamp(&mut out, None);
    assert_eq!(out, "--/--/---- --:--:-- ");
}

#[test]
fn failures_are_put_in_categories() {
    let line = |e: FsError| -> String {
        let mut out = String::new();
        print_io_error(&mut out, e);
        out
    };
    assert_eq!(line(FsError::NotFound), "error: not found\n");
    assert_eq!(line(FsError::NotADirectory), "error: not a directory\n");
    assert_eq!(line(FsError::BadSignature), "error: invalid data\n");
    assert_eq!(line(FsError::UnknownBootIndicator(1)), "error: invalid data\n");
    assert_eq!(line(FsError::InvalidGeometry), "error: invalid data\n");
    assert_eq!(line(FsError::CorruptChain), "error: invalid data\n");
    assert_eq!(line(FsError::ChainTooLong), "error: invalid data\n");
    assert_eq!(line(FsError::Io(IoError::TimedOut)), "unknown error\n");
    assert_eq!(line(FsError::ReadOnlyFilesystem), "unknown error\n");
}

#[test]
fn entry_line() {
    let mut raw = [0u8; 64];
    raw[..11].copy_from_slice(b"NOTES   TXT");
    raw[11] = 0x03;
    raw[22..24].copy_from_slice(&(13u16 << 11 | 37 << 5 | 4).to_le_bytes());
    raw[24..26].copy_from_slice(&((2018u16 - 1980) << 9 | 3 << 5 | 9).to_le_bytes());
    raw[28..32].copy_from_slice(&1234u32.to_le_bytes());
    raw[32..43].copy_from_slice(b"DIR        ");
    raw[32 + 11] = 0x10;
    let entries = Entry::decode_all(&raw);
    let mut out = String::new();
    write_entry(&mut out, &entries[0]);
    assert_eq!(out, "-frh\t03/09/2018 13:37:08 \t    1234\tNOTES.TXT\n");
    let mut out = String::new();
    write_entry(&mut out, &entries[1]);
    assert_eq!(out, "d---\t--/--/---- --:--:-- \t       0\tDIR\n");
    let mut all = String::new();
    write_listing(&mut all, &entries, true);
    assert_eq!(
        all,
        "-frh\t03/09/2018 13:37:08 \t    1234\tNOTES.TXT\nd---\t--/--/---- --:--:-- \t       0\tDIR\n"
    );
    let mut shown = String::new();
    write_listing(&mut shown, &entries, false);
    assert_eq!(shown, "d---\t--/--/---- --:--:-- \t       0\tDIR\n");
}

// Paths of the shell.

#[test]
fn targets_are_joined_to_the_working_directory() {
    let cwd = vec![chars("a"), chars("b")];
    assert_eq!(words(&target(&cwd, &chars("c/d"))), vec!["a", "b", "c", "d"]);
    assert_eq!(words(&target(&cwd, &chars("/c"))), vec!["c"]);
    assert_eq!(words(&target(&cwd, &chars(""))), vec!["a", "b"]);
    assert_eq!(words(&target(&cwd, &chars("/"))), Vec::<String>::new());
    assert_eq!(words(&target(&Vec::new(), &chars("x//y/"))), vec!["x", "y"]);
    assert_eq!(words(&copy_parts(&cwd)), vec!["a", "b"]);
    assert_eq!(copy_chars(&chars("xyz")), chars("xyz"));
    let mut out = String::new();
    write_path(&mut out, &cwd);
    write_path(&mut out, &Vec::new());
    assert_eq!(out, "/a/b/");
}

#[test]
fn words_are_compared_exactly() {
    assert!(is_word(&chars("ls"), "ls"));
    assert!(!is_word(&chars("LS"), "ls"));
    assert!(!is_word(&chars("l"), "ls"));
    assert!(!is_word(&chars("lss"), "ls"));
    assert!(is_word(&chars(""), ""));
}

// Parsing.

#[test]
fn command_words_are_split_at_spaces() {
    let command = Command::parse("  cat  a.txt   b.txt ", 64).unwrap();
    assert_eq!(words(&command.args), vec!["cat", "a.txt", "b.txt"]);
    assert_eq!(command.path(), &chars("cat"));
    let command = Command::parse("pwd", 1).unwrap();
    assert_eq!(words(&command.args), vec!["pwd"]);
}

#[test]
fn empty_line_is_no_command() {
    assert_eq!(Command::parse("", 64).err(), Some(Error::Empty));
    assert_eq!(Command::parse("     ", 64).err(), Some(Error::Empty));
    assert_eq!(Command::parse("", 0).err(), Some(Error::Empty));
}

#[test]
fn too_many_words_are_refused() {
    assert_eq!(Command::parse("a b c", 2).err(), Some(Error::TooManyArgs));
    assert_eq!(Command::parse("a", 0).err(), Some(Error::TooManyArgs));
    assert!(Command::parse("a b c", 3).is_ok());
    let line = vec!["w"; 65].join(" ");
    assert_eq!(Command::parse(&line, MAX_ARGS).err(), Some(Error::TooManyArgs));
    let line = vec!["w"; 64].join(" ");
    assert_eq!(Command::parse(&line, MAX_ARGS).unwrap().args.len(), 64);
}

// Commands.

#[test]
fn echo_repeats_its_arguments() {
    let mut fs = mounted();
    let mut state = ShellState::new();
    assert_eq!(run("echo hello   world", &mut state, &mut fs), "hello world \n");
    assert_eq!(run("echo", &mut state, &mut fs), "\n");
    assert_eq!(Command::parse("echo a", 4).unwrap().echo(), "a \n");
}

#[test]
fn unknown_command_is_named() {
    let mut fs = mounted();
    let mut state = ShellState::new();
    assert_eq!(run("frobnicate now", &mut state, &mut fs), "unknown command: frobnicate\n");
    assert_eq!(run("LS", &mut state, &mut fs), "unknown command: LS\n");
}

#[test]
fn ls_lists_the_working_directory() {
    let mut fs = mounted();
    let mut state = ShellState::new();
    let expected = "-f--\t03/09/2018 13:37:08 \t      13\tHELLO.TXT\n\
                    d---\t03/09/2018 13:37:08 \t       0\tSUB\n\
                    -f--\t03/09/2018 13:37:08 \t       2\tBINARY.DAT\n\
                    -f--\t03/09/2018 13:37:08 \t     700\tLONG.TXT\n";
    assert_eq!(run("ls", &mut state, &mut fs), expected);
    assert_eq!(run("ls /", &mut state, &mut fs), expected);
    assert_eq!(run("ls -x", &mut state, &mut fs), expected);
}

#[test]
fn ls_with_a_shows_hidden_entries() {
    let mut fs = mounted();
    let mut state = ShellState::new();
    let out = run("ls -a", &mut state, &mut fs);
    assert_eq!(out.lines().count(), 5);
    assert!(out.contains("-frh\t03/09/2018 13:37:08 \t       3\tSECRET\n"));
    let inner = "d---\t03/09/2018 13:37:08 \t       0\t.\n\
                 d---\t03/09/2018 13:37:08 \t       0\t..\n\
                 -f--\t03/09/2018 13:37:08 \t       2\tINNER.TXT\n";
    assert_eq!(run("ls -a sub", &mut state, &mut fs), inner);
    assert_eq!(run("ls sub", &mut state, &mut fs), inner);
    assert_eq!(run("ls x sub", &mut state, &mut fs), inner);
}

#[test]
fn ls_reports_what_it_cannot_list() {
    let mut fs = mounted();
    let mut state = ShellState::new();
    assert_eq!(run("ls nothing", &mut state, &mut fs), "error: not found\n");
    assert_eq!(run("ls hello.txt", &mut state, &mut fs), "error: not a directory\n");
    assert_eq!(run("ls hello.txt/x", &mut state, &mut fs), "error: not a directory\n");
}

#[test]
fn pwd_prints_the_working_directory() {
    let mut fs = mounted();
    let mut state = ShellState::new();
    assert_eq!(run("pwd", &mut state, &mut fs), "\"/\"\n");
    assert_eq!(run("cd sub", &mut state, &mut fs), "");
    assert_eq!(run("pwd", &mut state, &mut fs), "\"/sub\"\n");
    assert_eq!(Command::pwd(&state), "\"/sub\"\n");
}

#[test]
fn cd_changes_the_working_directory() {
    let mut fs = mounted();
    let mut state = ShellState::new();
    assert_eq!(run("cd", &mut state, &mut fs), "expected argument\n");
    assert_eq!(run("cd .", &mut state, &mut fs), "");
    assert_eq!(words(&state.path), Vec::<String>::new());
    assert_eq!(run("cd ..", &mut state, &mut fs), "");
    assert_eq!(words(&state.path), Vec::<String>::new());
    assert_eq!(run("cd SUB", &mut state, &mut fs), "");
    assert_eq!(words(&state.path), vec!["SUB"]);
    assert_eq!(run("ls", &mut state, &mut fs).lines().count(), 3);
    assert_eq!(run("cd nothing", &mut state, &mut fs), "error: not found\n");
    assert_eq!(run("cd inner.txt", &mut state, &mut fs), "error: not a directory\n");
    assert_eq!(words(&state.path), vec!["SUB"]);
    assert_eq!(run("cd ..", &mut state, &mut fs), "");
    assert_eq!(words(&state.path), Vec::<String>::new());
    assert_eq!(run("cd sub", &mut state, &mut fs), "");
    assert_eq!(run("cd /", &mut state, &mut fs), "");
    assert_eq!(words(&state.path), Vec::<String>::new());
}

#[test]
fn cat_prints_files() {
    let mut fs = mounted();
    let mut state = ShellState::new();
    assert_eq!(run("cat hello.txt", &mut state, &mut fs), "Hello, world!\n");
    assert_eq!(run("cat secret sub/inner.txt", &mut state, &mut fs), "shh\nin\n");
    assert_eq!(run("cat", &mut state, &mut fs), "");
    let long = run("cat long.txt", &mut state, &mut fs);
    assert_eq!(long.len(), 701);
    assert_eq!(&long[..512], "a".repeat(512));
    assert_eq!(&long[512..700], "b".repeat(188));
    run("cd sub", &mut state, &mut fs);
    assert_eq!(run("cat inner.txt /hello.txt", &mut state, &mut fs), "in\nHello, world!\n");
}

#[test]
fn cat_reports_what_it_cannot_print() {
    let mut fs = mounted();
    let mut state = ShellState::new();
    assert_eq!(run("cat nothing", &mut state, &mut fs), "error: not found\n");
    assert_eq!(run("cat sub", &mut state, &mut fs), "error: not a directory\n");
    assert_eq!(run("cat binary.dat", &mut state, &mut fs), "error printing file\n");
    assert_eq!(
        run("cat nothing hello.txt binary.dat", &mut state, &mut fs),
        "error: not found\nHello, world!\nerror printing file\n"
    );
    let mut bytes = shell_disk();
    put_link(&mut bytes, 7, 0x0FFF_FFF7);
    let mut fs = FileSystem::uninitialized();
    fs.initialize(RamDisk::new(bytes));
    assert_eq!(run("cat long.txt", &mut state, &mut fs), "error printing file\n");
}

#[test]
fn file_is_read_to_its_end_through_the_file_system() {
    let mut fs = mounted();
    let mut file = fs.open("/LONG.TXT").unwrap().into_file().unwrap();
    let mut buf = [0u8; 100];
    assert_eq!(fs.read(&mut file, &mut buf), Ok(100));
    assert_eq!(buf, [b'a'; 100]);
    let rest = fs.read_to_end(&mut file).unwrap();
    assert_eq!(rest.len(), 600);
    assert_eq!(&rest[..412], &[b'a'; 412][..]);
    assert_eq!(&rest[412..], &[b'b'; 188][..]);
    assert_eq!(file.position(), 700);
    assert_eq!(fs.read_to_end(&mut file), Ok(Vec::new()));
    let root = fs.open("/").unwrap().into_dir().unwrap();
    assert_eq!(fs.entries(&root).unwrap().len(), 5);
    let parts = vec![chars("sub"), chars("inner.txt")];
    assert_eq!(fs.open_parts(&parts).unwrap().name(), "INNER.TXT");
}

// The console.

#[test]
fn typed_bytes_are_echoed() {
    let mut fs = mounted();
    let mut shell = Shell::new(false);
    let (printed, reaction) = type_line(&mut shell, &mut fs, "echo hi");
    assert_eq!(printed, "echo hi");
    assert!(reaction.done);
    assert!(!reaction.exit);
    assert_eq!(reaction.output, "\nhi \n");
}

#[test]
fn backspace_takes_a_byte_back() {
    let mut fs = mounted();
    let mut shell = Shell::new(false);
    assert_eq!(shell.feed(8, &mut fs).output, "");
    assert_eq!(shell.feed(127, &mut fs).output, "");
    let (printed, reaction) = type_line(&mut shell, &mut fs, "echo hix\u{8} yo\u{7f}u");
    assert_eq!(printed, "echo hix\u{8} \u{8} yo\u{7f} \u{7f}u");
    assert_eq!(reaction.output, "\nhi yu \n");
    assert_eq!(shell.edit(b'a'), "a");
    assert_eq!(shell.edit(8), "\u{8} \u{8}");
    assert_eq!(shell.edit(8), "");
}

#[test]
fn carriage_return_ends_a_line_too() {
    let mut fs = mounted();
    let mut shell = Shell::new(false);
    for b in b"pwd" {
        shell.feed(*b, &mut fs);
    }
    let reaction = shell.feed(b'\r', &mut fs);
    assert!(reaction.done);
    assert_eq!(reaction.output, "\n\"/\"\n");
    let again = shell.feed(b'\n', &mut fs);
    assert!(again.done);
    assert_eq!(again.output, "\n");
}

#[test]
fn full_line_takes_no_more() {
    let mut fs = mounted();
    let mut shell = Shell::new(false);
    for b in b"echo " {
        shell.feed(*b, &mut fs);
    }
    for _ in 5..LINE_CAPACITY {
        assert_eq!(shell.feed(b'x', &mut fs).output, "x");
    }
    assert_eq!(shell.feed(b'y', &mut fs).output, "");
    assert_eq!(shell.feed(8, &mut fs).output, "");
    let reaction = shell.feed(b'\n', &mut fs);
    assert_eq!(reaction.output, format!("\n{} \n", "x".repeat(LINE_CAPACITY - 5)));
    assert_eq!(shell.feed(b'z', &mut fs).output, "z");
}

#[test]
fn line_that_is_no_text_rings() {
    let mut fs = mounted();
    let mut shell = Shell::new(false);
    assert_eq!(shell.feed(0xFF, &mut fs).output, "\u{FF}");
    let reaction = shell.feed(b'\n', &mut fs);
    assert_eq!(reaction.output, "\n7");
    assert!(!reaction.exit);
    let (_, next) = type_line(&mut shell, &mut fs, "echo ok");
    assert_eq!(next.output, "\nok \n");
}

#[test]
fn line_of_text_in_utf8_is_a_command() {
    let mut fs = mounted();
    let mut shell = Shell::new(false);
    let (printed, reaction) = type_line(&mut shell, &mut fs, "echo caf\u{e9}");
    assert_eq!(printed, "echo caf\u{c3}\u{a9}");
    assert_eq!(reaction.output, "\ncaf\u{e9} \n");
}

#[test]
fn too_many_words_on_a_line() {
    let mut fs = mounted();
    let mut shell = Shell::new(false);
    let line = vec!["w"; 65].join(" ");
    let (_, reaction) = type_line(&mut shell, &mut fs, &line);
    assert_eq!(reaction.output, "\nerror: too many arguments\n");
}

#[test]
fn exit_ends_a_shell_that_can_be_left() {
    let mut fs = mounted();
    let mut shell = Shell::new(true);
    let (_, reaction) = type_line(&mut shell, &mut fs, "exit");
    assert!(reaction.done);
    assert!(reaction.exit);
    assert_eq!(reaction.output, "\n");
    let mut shell = Shell::new(false);
    let (_, reaction) = type_line(&mut shell, &mut fs, "exit");
    assert!(!reaction.exit);
    assert_eq!(reaction.output, "\nunknown command: exit\n");
}

#[test]
fn shell_keeps_its_working_directory() {
    let mut fs = mounted();
    let mut shell = Shell::new(false);
    assert_eq!(type_line(&mut shell, &mut fs, "cd sub").1.output, "\n");
    assert_eq!(words(&shell.state().path), vec!["sub"]);
    assert_eq!(type_line(&mut shell, &mut fs, "cat inner.txt").1.output, "\nin\n");
    assert_eq!(type_line(&mut shell, &mut fs, "pwd").1.output, "\n\"/sub\"\n");
}

#[test]
fn shell_on_a_failing_device_reports_unknown_errors() {
    let mut fs = FileSystem::uninitialized();
    fs.initialize(Failing(RamDisk::new(shell_disk()), 2));
    assert!(fs.is_mounted());
    let mut state = ShellState::new();
    let out = Command::parse("ls", 64).unwrap().process(&mut state, &mut fs);
    assert_eq!(out, "unknown error\n");
    let out = Command::parse("cd sub", 64).unwrap().process(&mut state, &mut fs);
    assert_eq!(out, "unknown error\n");
    assert!(state.path.is_empty());
    let out = Command::parse("cat hello.txt", 64).unwrap().process(&mut state, &mut fs);
    assert_eq!(out, "unknown error\n");
    let out = Command::parse("echo still here", 64).unwrap().process(&mut state, &mut fs);
    assert_eq!(out, "still here \n");
    let out = Command::parse("pwd", 64).unwrap().process(&mut state, &mut fs);
    assert_eq!(out, "\"/\"\n");
}

#[test]
fn cat_on_a_device_that_fails_while_reading() {
    let mut fs = FileSystem::uninitialized();
    // Mounting takes two reads; opening the file takes one read of the table
    // and one of the root directory. The read of the file is the fifth.
    fs.initialize(Failing(RamDisk::new(shell_disk()), 4));
    assert!(fs.is_mounted());
    let mut state = ShellState::new();
    let out = Command::parse("cat hello.txt", 64).unwrap().process(&mut state, &mut fs);
    assert_eq!(out, "error printing file\n");
}

#[test]
fn cd_without_a_path_to_open_does_not_reach_the_device() {
    let mut fs = FileSystem::uninitialized();
    fs.initialize(Failing(RamDisk::new(shell_disk()), 2));
    assert!(fs.is_mounted());
    let mut state = ShellState::new();
    state.path = vec![chars("a"), chars("b")];
    assert_eq!(run_on(&mut fs, "cd", &mut state), "expected argument\n");
    assert_eq!(words(&state.path), vec!["a", "b"]);
    assert_eq!(run_on(&mut fs, "cd .", &mut state), "");
    assert_eq!(words(&state.path), vec!["a", "b"]);
    assert_eq!(run_on(&mut fs, "cd ..", &mut state), "");
    assert_eq!(words(&state.path), vec!["a"]);
    assert_eq!(run_on(&mut fs, "cd .. x", &mut state), "");
    assert_eq!(words(&state.path), Vec::<String>::new());
    assert_eq!(run_on(&mut fs, "cd ..", &mut state), "");
    assert_eq!(words(&state.path), Vec::<String>::new());
    assert_eq!(run_on(&mut fs, "cd /", &mut state), "");
    assert_eq!(run_on(&mut fs, "cat /", &mut state), "error: not a directory\n");
    assert_eq!(run_on(&mut fs, "cd sub", &mut state), "unknown error\n");
    assert_eq!(words(&state.path), Vec::<String>::new());
}
