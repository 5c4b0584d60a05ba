//! The shell: the command line being typed, and what each command prints.

use vstd::prelude::*;
use vstd::string::StringSliceAdditionalSpecFns;
use vstd::utf8::*;
use crate::drivers::vga::{actions, clear_step, paint, say, say_bytes, Color, ConsoleAction, ConsoleOp};
use crate::fmt::truncated;
use crate::sysinfo::{features_text, format_size, format_uptime, size_text, uptime_text, SystemInfo};
use crate::util::{chars_of, push_chars, push_str};
use crate::drivers::rtc::{date_bytes, time_bytes, DateTime};
use crate::fmt::{decimal_bytes, push_decimal};
use crate::fs::{create_post, delete_post, truncated_name, SimpleFS, MAX_FILES};
use crate::stats::{ExceptionStats, IrqStats};

verus! {

/// Capacity of the command line.
pub const CMD_BUF_SIZE: usize = 256;

/// The command line being typed.
pub struct CommandBuffer {
    pub buffer: [u8; 256],
    pub length: usize,
}

impl CommandBuffer {
    /// The bytes typed so far.
    pub open spec fn contents(&self) -> Seq<u8> {
        self.buffer@.take(self.length as int)
    }

    /// The buffer's invariant.
    pub open spec fn wf(&self) -> bool {
        self.length <= CMD_BUF_SIZE
    }

    /// An empty command line.
    pub fn new() -> (b: CommandBuffer)
        ensures
            b.wf(),
            b.contents() == Seq::<u8>::empty(),
            b.length == 0,
            b.buffer@ == Seq::new(256, |i: int| 0u8),
    {
        let b = CommandBuffer { buffer: [0u8; 256], length: 0 };
        assert(b.contents() =~= Seq::<u8>::empty());
        assert(b.buffer@ =~= Seq::new(256, |i: int| 0u8));
        b
    }

    /// Add a byte; ignored when the line is full.
    pub fn push(&mut self, c: u8)
        requires
            old(self).wf(),
        ensures
            final(self).wf(),
            old(self).length < CMD_BUF_SIZE ==> final(self).contents() == old(self).contents().push(c),
            old(self).length >= CMD_BUF_SIZE ==> final(self).contents() == old(self).contents(),
    {
        if self.length < CMD_BUF_SIZE {
            let ghost before = self.contents();
            self.buffer[self.length] = c;
            self.length = self.length + 1;
            assert(self.contents() =~= before.push(c));
        }
    }

    /// Remove and return the last byte, if any.
    pub fn pop(&mut self) -> (r: Option<u8>)
        requires
            old(self).wf(),
        ensures
            final(self).wf(),
            old(self).length == 0 ==> r is None && final(self).contents() == old(self).contents(),
            old(self).length > 0 ==> r == Some(old(self).contents().last())
                && final(self).contents() == old(self).contents().drop_last(),
    {
        if self.length > 0 {
            self.length = self.length - 1;
            assert(self.contents() =~= old(self).contents().drop_last());
            Some(self.buffer[self.length])
        } else {
            None
        }
    }

    /// The command line as text; the bytes typed must be UTF-8.
    pub fn as_str(&self) -> (s: &str)
        requires
            self.wf(),
            valid_utf8(self.contents()),
        ensures
            s.spec_bytes() == self.contents(),
    {
        let bytes = self.buffer.as_slice();
        assert(bytes@.subrange(0, self.length as int) == self.contents());
        crate::util::utf8_str(&bytes[0..self.length])
    }

    /// Empty the line.
    pub fn clear(&mut self)
        ensures
            final(self).wf(),
            final(self).contents() == Seq::<u8>::empty(),
    {
        self.length = 0;
        assert(self.contents() =~= Seq::<u8>::empty());
    }

    /// Whether nothing has been typed.
    pub fn is_empty(&self) -> (b: bool)
        ensures
            b == (self.length == 0),
    {
        self.length == 0
    }
}

/// A text step with the bytes of `s`.
pub open spec fn txt(s: &str) -> ConsoleAction {
    ConsoleAction::Text(s.spec_bytes())
}

/// A colour step.
pub open spec fn col(f: Color, b: Color) -> ConsoleAction {
    ConsoleAction::SetColor(f, b)
}

/// Unicode white space, as `char::is_whitespace` defines it.
pub open spec fn is_ws(c: char) -> bool {
    ('\u{9}' <= c && c <= '\u{d}') || c == ' ' || c == '\u{85}' || c == '\u{a0}' || c == '\u{1680}'
        || ('\u{2000}' <= c && c <= '\u{200a}') || c == '\u{2028}' || c == '\u{2029}' || c == '\u{202f}'
        || c == '\u{205f}' || c == '\u{3000}'
}

/// `cs` without its leading white space.
pub open spec fn skip_ws(cs: Seq<char>) -> Seq<char>
    decreases cs.len(),
{
    if cs.len() > 0 && is_ws(cs[0]) { skip_ws(cs.drop_first()) } else { cs }
}

/// The characters of `cs` up to its first white space.
pub open spec fn take_word(cs: Seq<char>) -> Seq<char>
    decreases cs.len(),
{
    if cs.len() > 0 && !is_ws(cs[0]) { seq![cs[0]] + take_word(cs.drop_first()) } else { Seq::empty() }
}

/// The first white-space separated word of `cs`.
pub open spec fn first_word(cs: Seq<char>) -> Seq<char> {
    take_word(skip_ws(cs))
}

/// The logo at the top of `fetch`.
#[verifier::opaque]
pub open spec fn logo_actions() -> Seq<ConsoleAction> {
    seq![
        txt("\n"),
        col(Color::LightCyan, Color::Black),
        txt("    __  ___      ____  ____  _____\n"),
        txt("   /  |/  /___  / __ \\/ __ \\/ ___/\n"),
        txt("  / /|_/ / __ \\/ /_/ / / / /\\__ \\ \n"),
        txt(" / /  / / /_/ / _, _/ /_/ /___/ / \n"),
        txt("/_/  /_/\\____/_/ |_|\\____//____/  \n"),
        col(Color::White, Color::Black),
        txt("\n"),
    ]
}

/// A label of `fetch`: green, then back to white.
pub open spec fn label_actions(name: &str) -> Seq<ConsoleAction> {
    seq![col(Color::LightGreen, Color::Black), txt(name), col(Color::White, Color::Black)]
}

/// The system lines of `fetch`: OS, kernel and uptime.
#[verifier::opaque]
pub open spec fn fetch_system_actions(info: SystemInfo) -> Seq<ConsoleAction> {
    label_actions("OS:           ") + seq![txt(info.os_name), txt(" "), txt(info.os_version), txt("\n")]
        + label_actions("Kernel:       ") + seq![txt(info.kernel_version), txt("\n")]
        + label_actions("Uptime:       ")
        + seq![ConsoleAction::Text(truncated(uptime_text(info.uptime_seconds), 32)), txt("\n")]
}

/// The CPU lines of `fetch`: vendor and features.
#[verifier::opaque]
pub open spec fn fetch_cpu_actions(info: SystemInfo) -> Seq<ConsoleAction> {
    label_actions("CPU:          ") + seq![txt(info.cpu_vendor), txt("\n")]
        + label_actions("CPU Features: ")
        + seq![ConsoleAction::Text(truncated(features_text(info.cpu_features), 128)), txt("\n")]
}

/// The memory lines of `fetch`: allocated of total, and free.
#[verifier::opaque]
pub open spec fn fetch_memory_actions(info: SystemInfo) -> Seq<ConsoleAction> {
    label_actions("Memory:       ")
        + seq![
            ConsoleAction::Text(truncated(size_text(info.memory_allocated), 32)),
            txt(" / "),
            ConsoleAction::Text(truncated(size_text(info.memory_total), 32)),
            txt("\n"),
        ]
        + label_actions("Memory Free:  ")
        + seq![ConsoleAction::Text(truncated(size_text(info.memory_free), 32)), txt("\n")]
}

/// The hardware lines of `fetch`: CPU, its features and memory.
pub open spec fn fetch_hardware_actions(info: SystemInfo) -> Seq<ConsoleAction> {
    fetch_cpu_actions(info) + fetch_memory_actions(info)
}

/// The colour bar at the bottom of `fetch`.
#[verifier::opaque]
pub open spec fn color_bar_actions() -> Seq<ConsoleAction> {
    seq![
        txt("\n"),
        col(Color::Black, Color::Black), txt("   "),
        col(Color::Red, Color::Red), txt("   "),
        col(Color::Green, Color::Green), txt("   "),
        col(Color::Yellow, Color::Yellow), txt("   "),
        col(Color::Blue, Color::Blue), txt("   "),
        col(Color::Magenta, Color::Magenta), txt("   "),
        col(Color::Cyan, Color::Cyan), txt("   "),
        col(Color::White, Color::White), txt("   "),
        col(Color::White, Color::Black),
        txt("\n\n"),
    ]
}

/// What `fetch` prints.
pub open spec fn fetch_actions(info: SystemInfo) -> Seq<ConsoleAction> {
    logo_actions() + fetch_system_actions(info) + fetch_hardware_actions(info) + color_bar_actions()
}

/// The commands of one group of `help`.
pub const HELP_SYSTEM: &'static str = "  fetch    - Display system information\n  help     - Display this help message\n  about    - About m5rOS\n  version  - Display the version\n  uptime   - Display system uptime\n";

/// The commands of one group of `help`.
pub const HELP_HARDWARE: &'static str = "  cpuinfo  - Display CPU information\n  meminfo  - Display memory information\n  stats    - Display interrupt and exception counts\n  heap     - Display heap usage\n";

/// The commands of one group of `help`.
pub const HELP_TIME: &'static str = "  date     - Display the date\n  time     - Display the time\n";

/// The commands of one group of `help`.
pub const HELP_FILES: &'static str = "  ls       - List files\n  cat      - Display a file\n  mkdir    - Create a directory\n  touch    - Create a file\n  rm       - Remove a file\n  edit     - Edit a file\n";

/// The commands of one group of `help`.
pub const HELP_UTILITIES: &'static str = "  clear    - Clear the screen\n  echo     - Display a line of text\n";

/// The commands of one group of `help`.
pub const HELP_POWER: &'static str = "  reboot   - Restart the machine\n  shutdown - Power off the machine\n";

/// The commands of one group of `help`.
pub const HELP_INSTALL: &'static str = "  install-m5ros - Install m5rOS to disk\n";

/// One group of `help`: its title in light cyan, its commands in white.
pub open spec fn help_group(title: &str, body: &str) -> Seq<ConsoleAction> {
    seq![col(Color::LightCyan, Color::Black), txt(title), col(Color::White, Color::Black), txt(body)]
}

/// What `help` prints: the commands in colour-coded groups.
pub open spec fn help_actions() -> Seq<ConsoleAction> {
    seq![txt("\nAvailable commands:\n")]
        + help_group("System info:\n", HELP_SYSTEM)
        + help_group("Hardware:\n", HELP_HARDWARE)
        + help_group("Time:\n", HELP_TIME)
        + help_group("File operations:\n", HELP_FILES)
        + help_group("Utilities:\n", HELP_UTILITIES)
        + help_group("Power:\n", HELP_POWER)
        + help_group("Installation:\n", HELP_INSTALL)
        + seq![txt("\n")]
}

/// What `uptime` prints.
pub open spec fn uptime_actions(info: SystemInfo) -> Seq<ConsoleAction> {
    seq![txt("Uptime: "), ConsoleAction::Text(truncated(uptime_text(info.uptime_seconds), 32)), txt("\n")]
}

/// What `meminfo` prints.
pub open spec fn meminfo_actions(info: SystemInfo) -> Seq<ConsoleAction> {
    seq![
        txt("\nMemory Information:\n"),
        txt("  Total:     "),
        ConsoleAction::Text(truncated(size_text(info.memory_total), 32)),
        txt("\n"),
        txt("  Allocated: "),
        ConsoleAction::Text(truncated(size_text(info.memory_allocated), 32)),
        txt("\n"),
        txt("  Free:      "),
        ConsoleAction::Text(truncated(size_text(info.memory_free), 32)),
        txt("\n\n"),
    ]
}

/// What `cpuinfo` prints.
pub open spec fn cpuinfo_actions(info: SystemInfo) -> Seq<ConsoleAction> {
    seq![
        txt("\nCPU Information:\n"),
        txt("  Vendor:   "),
        txt(info.cpu_vendor),
        txt("\n"),
        txt("  Features: "),
        ConsoleAction::Text(truncated(features_text(info.cpu_features), 128)),
        txt("\n\n"),
    ]
}

/// What the shell's commands read besides the command line: the system information,
/// the date and time, the interrupt and exception counts, and the heap's bytes in use
/// and free.
pub struct ShellContext {
    pub info: SystemInfo,
    pub now: DateTime,
    pub irq: IrqStats,
    pub exceptions: ExceptionStats,
    pub heap_used: usize,
    pub heap_free: usize,
}

/// What the caller does after a command besides showing its output: nothing, open the
/// editor on a file name (empty for none), restart, or power off.
pub enum ShellRequest {
    Nothing,
    Edit(Vec<u8>),
    Reboot,
    Shutdown,
}

/// The characters of `cs` after its leading non-white-space characters.
pub open spec fn after_word(cs: Seq<char>) -> Seq<char>
    decreases cs.len(),
{
    if cs.len() > 0 && !is_ws(cs[0]) { after_word(cs.drop_first()) } else { cs }
}

/// The arguments of a command line: what follows the command word, without the white
/// space before it.
pub open spec fn args_of(cmd: Seq<char>) -> Seq<char> {
    skip_ws(after_word(skip_ws(cmd)))
}

/// The first argument, as UTF-8 bytes.
pub open spec fn arg_name(args: Seq<char>) -> Seq<u8> {
    encode_utf8(first_word(args))
}

/// What `create_file` / `create_dir` answer.
pub open spec fn create_result(pre: SimpleFS, name: Seq<u8>, exists_msg: &'static str) -> Result<usize, &'static str> {
    let slot = pre.free_slot();
    if slot >= MAX_FILES {
        Err("Maximum file limit reached")
    } else if pre.lookup(truncated_name(name)) is Some {
        Err(exists_msg)
    } else {
        Ok(slot as usize)
    }
}

/// What `delete_file` answers.
pub open spec fn delete_result(pre: SimpleFS, idx: int) -> Result<(), &'static str> {
    if idx >= pre.file_count || !pre.files@[idx].in_use || idx == 0 {
        Err("Invalid file index or cannot delete root")
    } else {
        Ok(())
    }
}

/// The message for an error.
pub open spec fn error_actions(e: &str) -> Seq<ConsoleAction> {
    seq![txt("Error: "), txt(e), txt("\n")]
}

/// One line of `ls`: the entry's name, with "/" after a directory.
pub open spec fn ls_line(e: crate::fs::FileEntry) -> Seq<u8> {
    if e.in_use {
        crate::fs::entry_name(e) + (if e.is_directory { seq![47u8] } else { Seq::empty() }) + seq![10u8]
    } else {
        Seq::empty()
    }
}

/// The lines of `ls` for the first `n` slots.
pub open spec fn ls_text(fs: SimpleFS, n: int) -> Seq<u8>
    decreases n,
{
    if n <= 0 { Seq::empty() } else { ls_text(fs, n - 1) + ls_line(fs.files@[n - 1]) }
}

/// What `touch` and `mkdir` print.
pub open spec fn create_actions(fs: SimpleFS, args: Seq<char>, exists_msg: &'static str, usage: &str) -> Seq<ConsoleAction> {
    if first_word(args).len() == 0 {
        seq![txt(usage)]
    } else {
        match create_result(fs, arg_name(args), exists_msg) {
            Ok(_) => seq![txt("Created: "), ConsoleAction::Text(arg_name(args)), txt("\n")],
            Err(e) => error_actions(e),
        }
    }
}

/// What `rm` prints.
pub open spec fn rm_actions(fs: SimpleFS, args: Seq<char>) -> Seq<ConsoleAction> {
    if first_word(args).len() == 0 {
        seq![txt("Usage: rm <name>\n")]
    } else {
        match fs.lookup(arg_name(args)) {
            None => error_actions("File not found"),
            Some(i) => match delete_result(fs, i as int) {
                Ok(_) => seq![txt("Removed: "), ConsoleAction::Text(arg_name(args)), txt("\n")],
                Err(e) => error_actions(e),
            },
        }
    }
}

/// What `cat` prints.
pub open spec fn cat_actions(fs: SimpleFS, args: Seq<char>) -> Seq<ConsoleAction> {
    if first_word(args).len() == 0 {
        seq![txt("Usage: cat <name>\n")]
    } else {
        match fs.lookup(arg_name(args)) {
            None => error_actions("File not found"),
            Some(i) => match fs.contents(i as int) {
                Some(d) => seq![ConsoleAction::Text(d), txt("\n")],
                None => error_actions("Is a directory"),
            },
        }
    }
}

/// What `stats` prints.
pub open spec fn stats_actions(ctx: ShellContext) -> Seq<ConsoleAction> {
    seq![
        txt("\nInterrupts:\n  Timer:      "),
        ConsoleAction::Text(decimal_bytes(ctx.irq.timer as nat)),
        txt("\n  Keyboard:   "),
        ConsoleAction::Text(decimal_bytes(ctx.irq.keyboard as nat)),
        txt("\n  Total:      "),
        ConsoleAction::Text(decimal_bytes(ctx.irq.total as nat)),
        txt("\nExceptions:   "),
        ConsoleAction::Text(decimal_bytes(ctx.exceptions.total as nat)),
        txt("\n\n"),
    ]
}

/// The installer's outline.
pub const INSTALL_TEXT: &'static str = "\nm5rOS Installer\n  1. Detect the ATA disk\n  2. Partition the disk\n  3. Format partitions (EFI + m5fs)\n  4. Install the bootloader (UEFI)\n  5. Copy the kernel and system files\n  6. Configure the system\nInstallation is not available yet: the bootloader is pending.\n\n";

/// The text about the system.
pub const ABOUT_TEXT: &'static str = "\nm5rOS - an operating system built from first principles in Rust,\ninspired by early UNIX and Linux.\n\n";

/// The file commands.
pub open spec fn is_file_word(word: Seq<char>) -> bool {
    word == "ls"@ || word == "cat"@ || word == "touch"@ || word == "mkdir"@ || word == "rm"@
}

/// What the file commands print.
pub open spec fn file_actions(word: Seq<char>, args: Seq<char>, fs: SimpleFS) -> Seq<ConsoleAction> {
    if word == "ls"@ {
        seq![ConsoleAction::Text(ls_text(fs, fs.file_count as int))]
    } else if word == "cat"@ {
        cat_actions(fs, args)
    } else if word == "touch"@ {
        create_actions(fs, args, "File already exists", "Usage: touch <name>\n")
    } else if word == "mkdir"@ {
        create_actions(fs, args, "Directory already exists", "Usage: mkdir <name>\n")
    } else {
        rm_actions(fs, args)
    }
}

/// The commands that report something.
pub open spec fn is_report_word(word: Seq<char>) -> bool {
    word == "echo"@ || word == "about"@ || word == "version"@ || word == "date"@ || word == "time"@
        || word == "stats"@ || word == "heap"@
}

/// What the other commands beyond the system-information ones print, by command word;
/// an error for an unknown word.
pub open spec fn plain_actions(word: Seq<char>, args: Seq<char>, ctx: ShellContext) -> Seq<ConsoleAction> {
    if is_report_word(word) { report_actions(word, args, ctx) } else { control_actions(word) }
}

/// What the reporting commands print.
pub open spec fn report_actions(word: Seq<char>, args: Seq<char>, ctx: ShellContext) -> Seq<ConsoleAction> {
    if word == "echo"@ {
        seq![ConsoleAction::Text(encode_utf8(args)), txt("\n")]
    } else if word == "about"@ {
        seq![txt(ABOUT_TEXT)]
    } else if word == "version"@ {
        seq![txt("m5rOS "), txt(ctx.info.os_version), txt(" (kernel "), txt(ctx.info.kernel_version), txt(")\n")]
    } else if word == "date"@ {
        seq![txt("Date: "), ConsoleAction::Text(date_bytes(ctx.now)), txt("\n")]
    } else if word == "time"@ {
        seq![txt("Time: "), ConsoleAction::Text(time_bytes(ctx.now)), txt("\n")]
    } else if word == "stats"@ {
        stats_actions(ctx)
    } else {
        seq![
            txt("\nHeap:\n  Used: "),
            ConsoleAction::Text(truncated(size_text(ctx.heap_used), 32)),
            txt("\n  Free: "),
            ConsoleAction::Text(truncated(size_text(ctx.heap_free), 32)),
            txt("\n\n"),
        ]
    }
}

/// What the editor, power and installer commands print, and an unknown word.
pub open spec fn control_actions(word: Seq<char>) -> Seq<ConsoleAction> {
    if word == "edit"@ {
        Seq::empty()
    } else if word == "reboot"@ {
        seq![txt("Rebooting...\n")]
    } else if word == "shutdown"@ {
        seq![txt("Shutting down...\n")]
    } else if word == "install-m5ros"@ {
        seq![txt(INSTALL_TEXT)]
    } else {
        seq![
            txt("Unknown command: "),
            ConsoleAction::Text(encode_utf8(word)),
            txt("\nType 'help' for available commands.\n"),
        ]
    }
}

/// What the commands beyond the system-information ones print, by command word.
pub open spec fn extra_actions(word: Seq<char>, args: Seq<char>, ctx: ShellContext, fs: SimpleFS) -> Seq<ConsoleAction> {
    if is_file_word(word) { file_actions(word, args, fs) } else { plain_actions(word, args, ctx) }
}

/// What a command asks of its caller.
pub open spec fn request_matches(r: ShellRequest, word: Seq<char>, args: Seq<char>) -> bool {
    if word == "edit"@ {
        r matches ShellRequest::Edit(v) && v@ == arg_name(args)
    } else if word == "reboot"@ {
        r is Reboot
    } else if word == "shutdown"@ {
        r is Shutdown
    } else {
        r is Nothing
    }
}

/// How a command changes the file system: `touch` and `mkdir` create, `rm` deletes the
/// file it names; nothing else changes it.
pub open spec fn fs_effect(word: Seq<char>, args: Seq<char>, pre: SimpleFS, post: SimpleFS) -> bool {
    let name = arg_name(args);
    if word == "touch"@ && first_word(args).len() > 0 {
        create_post(pre, post, name, false, "File already exists", create_result(pre, name, "File already exists"))
    } else if word == "mkdir"@ && first_word(args).len() > 0 {
        create_post(pre, post, name, true, "Directory already exists", create_result(pre, name, "Directory already exists"))
    } else if word == "rm"@ && first_word(args).len() > 0 && pre.lookup(name) is Some {
        delete_post(pre, post, pre.lookup(name)->0 as int, delete_result(pre, pre.lookup(name)->0 as int))
    } else {
        post == pre
    }
}

/// What a command line prints: nothing for a blank line; otherwise by its first word,
/// with "clear" and "cls" clearing the screen, and an error for an unknown word.
pub open spec fn command_actions(cmd: Seq<char>, ctx: ShellContext, fs: SimpleFS) -> Seq<ConsoleAction> {
    let word = first_word(cmd);
    let info = ctx.info;
    if skip_ws(cmd).len() == 0 {
        Seq::empty()
    } else if word == "fetch"@ {
        fetch_actions(info)
    } else if word == "help"@ {
        help_actions()
    } else if word == "clear"@ || word == "cls"@ {
        seq![ConsoleAction::Clear]
    } else if word == "uptime"@ {
        uptime_actions(info)
    } else if word == "meminfo"@ {
        meminfo_actions(info)
    } else if word == "cpuinfo"@ {
        cpuinfo_actions(info)
    } else {
        extra_actions(word, args_of(cmd), ctx, fs)
    }
}

fn say_label(ops: &mut Vec<ConsoleOp>, name: &str)
    ensures
        actions(final(ops)@) == actions(old(ops)@) + label_actions(name),
{
    paint(ops, Color::LightGreen, Color::Black);
    say(ops, name);
    paint(ops, Color::White, Color::Black);
    assert(actions(ops@) =~= actions(old(ops)@) + label_actions(name));
}

fn fetch_logo(ops: &mut Vec<ConsoleOp>)
    ensures
        actions(final(ops)@) == actions(old(ops)@) + logo_actions(),
{
    reveal(logo_actions);
    say(ops, "\n");
    paint(ops, Color::LightCyan, Color::Black);
    say(ops, "    __  ___      ____  ____  _____\n");
    say(ops, "   /  |/  /___  / __ \\/ __ \\/ ___/\n");
    say(ops, "  / /|_/ / __ \\/ /_/ / / / /\\__ \\ \n");
    say(ops, " / /  / / /_/ / _, _/ /_/ /___/ / \n");
    say(ops, "/_/  /_/\\____/_/ |_|\\____//____/  \n");
    paint(ops, Color::White, Color::Black);
    say(ops, "\n");
    assert(actions(ops@) =~= actions(old(ops)@) + logo_actions());
}

fn say_uptime(ops: &mut Vec<ConsoleOp>, seconds: u64)
    ensures
        actions(final(ops)@) == actions(old(ops)@).push(ConsoleAction::Text(truncated(uptime_text(seconds), 32))),
{
    let mut buf = [0u8; 32];
    let s = format_uptime(seconds, &mut buf);
    say(ops, s);
}

fn say_size(ops: &mut Vec<ConsoleOp>, bytes: usize)
    ensures
        actions(final(ops)@) == actions(old(ops)@).push(ConsoleAction::Text(truncated(size_text(bytes), 32))),
{
    let mut buf = [0u8; 32];
    let s = format_size(bytes, &mut buf);
    say(ops, s);
}

fn say_features(ops: &mut Vec<ConsoleOp>, info: &SystemInfo)
    ensures
        actions(final(ops)@) == actions(old(ops)@).push(
            ConsoleAction::Text(truncated(features_text(info.cpu_features), 128)),
        ),
{
    let mut buf = [0u8; 128];
    let s = info.cpu_features.as_string(&mut buf);
    say(ops, s);
}

fn fetch_system_lines(ops: &mut Vec<ConsoleOp>, info: &SystemInfo)
    ensures
        actions(final(ops)@) == actions(old(ops)@) + fetch_system_actions(*info),
{
    reveal(fetch_system_actions);
    let ghost a0 = actions(ops@);
    say_label(ops, "OS:           ");
    say(ops, info.os_name);
    say(ops, " ");
    say(ops, info.os_version);
    say(ops, "\n");
    let ghost a1 = actions(ops@);
    assert(a1 =~= a0 + label_actions("OS:           ") + seq![txt(info.os_name), txt(" "), txt(info.os_version), txt("\n")]);
    say_label(ops, "Kernel:       ");
    say(ops, info.kernel_version);
    say(ops, "\n");
    let ghost a2 = actions(ops@);
    assert(a2 =~= a1 + label_actions("Kernel:       ") + seq![txt(info.kernel_version), txt("\n")]);
    say_label(ops, "Uptime:       ");
    say_uptime(ops, info.uptime_seconds);
    say(ops, "\n");
    assert(actions(ops@) =~= a2 + label_actions("Uptime:       ")
        + seq![ConsoleAction::Text(truncated(uptime_text(info.uptime_seconds), 32)), txt("\n")]);
    assert(actions(ops@) =~= a0 + fetch_system_actions(*info));
}

fn fetch_cpu_lines(ops: &mut Vec<ConsoleOp>, info: &SystemInfo)
    ensures
        actions(final(ops)@) == actions(old(ops)@) + fetch_cpu_actions(*info),
{
    reveal(fetch_cpu_actions);
    let ghost a0 = actions(ops@);
    say_label(ops, "CPU:          ");
    say(ops, info.cpu_vendor);
    say(ops, "\n");
    let ghost a1 = actions(ops@);
    assert(a1 =~= a0 + label_actions("CPU:          ") + seq![txt(info.cpu_vendor), txt("\n")]);
    say_label(ops, "CPU Features: ");
    say_features(ops, info);
    say(ops, "\n");
    assert(actions(ops@) =~= a1 + label_actions("CPU Features: ")
        + seq![ConsoleAction::Text(truncated(features_text(info.cpu_features), 128)), txt("\n")]);
    assert(actions(ops@) =~= a0 + fetch_cpu_actions(*info));
}

fn fetch_memory_lines(ops: &mut Vec<ConsoleOp>, info: &SystemInfo)
    ensures
        actions(final(ops)@) == actions(old(ops)@) + fetch_memory_actions(*info),
{
    reveal(fetch_memory_actions);
    let ghost a0 = actions(ops@);
    say_label(ops, "Memory:       ");
    say_size(ops, info.memory_allocated);
    say(ops, " / ");
    say_size(ops, info.memory_total);
    say(ops, "\n");
    let ghost a1 = actions(ops@);
    assert(a1 =~= a0 + label_actions("Memory:       ") + seq![
        ConsoleAction::Text(truncated(size_text(info.memory_allocated), 32)),
        txt(" / "),
        ConsoleAction::Text(truncated(size_text(info.memory_total), 32)),
        txt("\n"),
    ]);
    say_label(ops, "Memory Free:  ");
    say_size(ops, info.memory_free);
    say(ops, "\n");
    assert(actions(ops@) =~= a1 + label_actions("Memory Free:  ")
        + seq![ConsoleAction::Text(truncated(size_text(info.memory_free), 32)), txt("\n")]);
    assert(actions(ops@) =~= a0 + fetch_memory_actions(*info));
}

fn fetch_hardware_lines(ops: &mut Vec<ConsoleOp>, info: &SystemInfo)
    ensures
        actions(final(ops)@) == actions(old(ops)@) + fetch_hardware_actions(*info),
{
    let ghost a0 = actions(ops@);
    fetch_cpu_lines(ops, info);
    fetch_memory_lines(ops, info);
    assert(actions(ops@) =~= a0 + fetch_hardware_actions(*info));
}

fn fetch_color_bar(ops: &mut Vec<ConsoleOp>)
    ensures
        actions(final(ops)@) == actions(old(ops)@) + color_bar_actions(),
{
    reveal(color_bar_actions);
    say(ops, "\n");
    paint(ops, Color::Black, Color::Black);
    say(ops, "   ");
    paint(ops, Color::Red, Color::Red);
    say(ops, "   ");
    paint(ops, Color::Green, Color::Green);
    say(ops, "   ");
    paint(ops, Color::Yellow, Color::Yellow);
    say(ops, "   ");
    paint(ops, Color::Blue, Color::Blue);
    say(ops, "   ");
    paint(ops, Color::Magenta, Color::Magenta);
    say(ops, "   ");
    paint(ops, Color::Cyan, Color::Cyan);
    say(ops, "   ");
    paint(ops, Color::White, Color::White);
    say(ops, "   ");
    paint(ops, Color::White, Color::Black);
    say(ops, "\n\n");
    assert(actions(ops@) =~= actions(old(ops)@) + color_bar_actions());
}

/// Show the system information, fastfetch style: logo, labelled lines, colour bar.
fn cmd_fetch(ops: &mut Vec<ConsoleOp>, info: &SystemInfo)
    ensures
        actions(final(ops)@) == actions(old(ops)@) + fetch_actions(*info),
{
    let ghost a0 = actions(ops@);
    fetch_logo(ops);
    let ghost a1 = actions(ops@);
    fetch_system_lines(ops, info);
    let ghost a2 = actions(ops@);
    fetch_hardware_lines(ops, info);
    let ghost a3 = actions(ops@);
    fetch_color_bar(ops);
    let ghost l = logo_actions();
    let ghost sy = fetch_system_actions(*info);
    let ghost hw = fetch_hardware_actions(*info);
    let ghost cb = color_bar_actions();
    assert(actions(ops@) == a0 + l + sy + hw + cb);
    assert(a0 + l + sy + hw + cb =~= a0 + (l + sy + hw + cb));
}

/// List the commands.
fn cmd_help(ops: &mut Vec<ConsoleOp>)
    ensures
        actions(final(ops)@) == actions(old(ops)@) + help_actions(),
{
    let ghost a0 = actions(ops@);
    say(ops, "\nAvailable commands:\n");
    say_group(ops, "System info:\n", HELP_SYSTEM);
    say_group(ops, "Hardware:\n", HELP_HARDWARE);
    say_group(ops, "Time:\n", HELP_TIME);
    say_group(ops, "File operations:\n", HELP_FILES);
    say_group(ops, "Utilities:\n", HELP_UTILITIES);
    say_group(ops, "Power:\n", HELP_POWER);
    say_group(ops, "Installation:\n", HELP_INSTALL);
    say(ops, "\n");
    assert(actions(ops@) =~= a0 + help_actions());
}

/// Show one group of `help`.
fn say_group(ops: &mut Vec<ConsoleOp>, title: &str, body: &str)
    ensures
        actions(final(ops)@) == actions(old(ops)@) + help_group(title, body),
{
    paint(ops, Color::LightCyan, Color::Black);
    say(ops, title);
    paint(ops, Color::White, Color::Black);
    say(ops, body);
    assert(actions(ops@) =~= actions(old(ops)@) + help_group(title, body));
}

/// Clear the screen.
fn cmd_clear(ops: &mut Vec<ConsoleOp>)
    ensures
        actions(final(ops)@) == actions(old(ops)@).push(ConsoleAction::Clear),
{
    clear_step(ops);
}

/// Show the uptime.
fn cmd_uptime(ops: &mut Vec<ConsoleOp>, info: &SystemInfo)
    ensures
        actions(final(ops)@) == actions(old(ops)@) + uptime_actions(*info),
{
    say(ops, "Uptime: ");
    say_uptime(ops, info.uptime_seconds);
    say(ops, "\n");
    assert(actions(ops@) =~= actions(old(ops)@) + uptime_actions(*info));
}

/// Show the memory counts.
fn cmd_meminfo(ops: &mut Vec<ConsoleOp>, info: &SystemInfo)
    ensures
        actions(final(ops)@) == actions(old(ops)@) + meminfo_actions(*info),
{
    say(ops, "\nMemory Information:\n");
    say(ops, "  Total:     ");
    say_size(ops, info.memory_total);
    say(ops, "\n");
    say(ops, "  Allocated: ");
    say_size(ops, info.memory_allocated);
    say(ops, "\n");
    say(ops, "  Free:      ");
    say_size(ops, info.memory_free);
    say(ops, "\n\n");
    assert(actions(ops@) =~= actions(old(ops)@) + meminfo_actions(*info));
}

/// Show the CPU vendor and features.
fn cmd_cpuinfo(ops: &mut Vec<ConsoleOp>, info: &SystemInfo)
    ensures
        actions(final(ops)@) == actions(old(ops)@) + cpuinfo_actions(*info),
{
    say(ops, "\nCPU Information:\n");
    say(ops, "  Vendor:   ");
    say(ops, info.cpu_vendor);
    say(ops, "\n");
    say(ops, "  Features: ");
    say_features(ops, info);
    say(ops, "\n\n");
    assert(actions(ops@) =~= actions(old(ops)@) + cpuinfo_actions(*info));
}

/// The first word of `cs`, and whether `cs` holds anything but white space.
fn first_word_of(cs: &Vec<char>) -> (r: (Vec<char>, bool))
    ensures
        r.0@ == first_word(cs@),
        r.1 == (skip_ws(cs@).len() > 0),
{
    let mut i: usize = 0;
    assert(cs@.skip(0) =~= cs@);
    while i < cs.len() && is_whitespace(cs[i])
        invariant
            i <= cs@.len(),
            skip_ws(cs@) == skip_ws(cs@.skip(i as int)),
        decreases cs@.len() - i,
    {
        proof {
            assert(cs@.skip(i as int).drop_first() =~= cs@.skip(i + 1));
        }
        i = i + 1;
    }
    proof {
        if i < cs@.len() {
            assert(cs@.skip(i as int)[0] == cs@[i as int]);
        }
    }
    assert(skip_ws(cs@) == cs@.skip(i as int));
    let start = i;
    let mut word: Vec<char> = Vec::new();
    while i < cs.len() && !is_whitespace(cs[i])
        invariant
            start <= i <= cs@.len(),
            skip_ws(cs@) == cs@.skip(start as int),
            word@ + take_word(cs@.skip(i as int)) == first_word(cs@),
        decreases cs@.len() - i,
    {
        proof {
            let rest = cs@.skip(i as int);
            assert(rest[0] == cs@[i as int]);
            assert(rest.drop_first() =~= cs@.skip(i + 1));
            assert(take_word(rest) == seq![rest[0]] + take_word(rest.drop_first()));
            assert(word@.push(cs@[i as int]) + take_word(cs@.skip(i + 1)) =~= word@ + take_word(rest));
        }
        word.push(cs[i]);
        i = i + 1;
    }
    proof {
        if i < cs@.len() {
            assert(cs@.skip(i as int)[0] == cs@[i as int]);
        }
        assert(word@ + Seq::<char>::empty() =~= word@);
    }
    (word, start < cs.len())
}

/// `char::is_whitespace`.
fn is_whitespace(c: char) -> (b: bool)
    ensures
        b == is_ws(c),
{
    (c >= '\u{9}' && c <= '\u{d}') || c == ' ' || c == '\u{85}' || c == '\u{a0}' || c == '\u{1680}'
        || (c >= '\u{2000}' && c <= '\u{200a}') || c == '\u{2028}' || c == '\u{2029}' || c == '\u{202f}'
        || c == '\u{205f}' || c == '\u{3000}'
}

fn word_is(word: &Vec<char>, name: &str) -> (b: bool)
    ensures
        b == (word@ == name@),
{
    let n = chars_of(name);
    if word.len() != n.len() {
        return false;
    }
    let mut i: usize = 0;
    while i < word.len()
        invariant
            word@.len() == n@.len(),
            n@ == name@,
            i <= word@.len(),
            forall|j: int| 0 <= j < i ==> word@[j] == n@[j],
        decreases word@.len() - i,
    {
        if word[i] != n[i] {
            return false;
        }
        i = i + 1;
    }
    assert(word@ =~= n@);
    true
}

/// The command words that change state differ from every other command word.
proof fn lemma_words_differ()
    ensures
        "fetch"@ != "touch"@,
        "help"@ != "touch"@,
        "clear"@ != "touch"@,
        "cls"@ != "touch"@,
        "uptime"@ != "touch"@,
        "meminfo"@ != "touch"@,
        "cpuinfo"@ != "touch"@,
        "echo"@ != "touch"@,
        "about"@ != "touch"@,
        "version"@ != "touch"@,
        "date"@ != "touch"@,
        "time"@ != "touch"@,
        "stats"@ != "touch"@,
        "heap"@ != "touch"@,
        "ls"@ != "touch"@,
        "cat"@ != "touch"@,
        "mkdir"@ != "touch"@,
        "rm"@ != "touch"@,
        "edit"@ != "touch"@,
        "reboot"@ != "touch"@,
        "shutdown"@ != "touch"@,
        "install-m5ros"@ != "touch"@,
        "fetch"@ != "mkdir"@,
        "help"@ != "mkdir"@,
        "clear"@ != "mkdir"@,
        "cls"@ != "mkdir"@,
        "uptime"@ != "mkdir"@,
        "meminfo"@ != "mkdir"@,
        "cpuinfo"@ != "mkdir"@,
        "echo"@ != "mkdir"@,
        "about"@ != "mkdir"@,
        "version"@ != "mkdir"@,
        "date"@ != "mkdir"@,
        "time"@ != "mkdir"@,
        "stats"@ != "mkdir"@,
        "heap"@ != "mkdir"@,
        "ls"@ != "mkdir"@,
        "cat"@ != "mkdir"@,
        "touch"@ != "mkdir"@,
        "rm"@ != "mkdir"@,
        "edit"@ != "mkdir"@,
        "reboot"@ != "mkdir"@,
        "shutdown"@ != "mkdir"@,
        "install-m5ros"@ != "mkdir"@,
        "fetch"@ != "rm"@,
        "help"@ != "rm"@,
        "clear"@ != "rm"@,
        "cls"@ != "rm"@,
        "uptime"@ != "rm"@,
        "meminfo"@ != "rm"@,
        "cpuinfo"@ != "rm"@,
        "echo"@ != "rm"@,
        "about"@ != "rm"@,
        "version"@ != "rm"@,
        "date"@ != "rm"@,
        "time"@ != "rm"@,
        "stats"@ != "rm"@,
        "heap"@ != "rm"@,
        "ls"@ != "rm"@,
        "cat"@ != "rm"@,
        "touch"@ != "rm"@,
        "mkdir"@ != "rm"@,
        "edit"@ != "rm"@,
        "reboot"@ != "rm"@,
        "shutdown"@ != "rm"@,
        "install-m5ros"@ != "rm"@,
        "fetch"@ != "edit"@,
        "help"@ != "edit"@,
        "clear"@ != "edit"@,
        "cls"@ != "edit"@,
        "uptime"@ != "edit"@,
        "meminfo"@ != "edit"@,
        "cpuinfo"@ != "edit"@,
        "echo"@ != "edit"@,
        "about"@ != "edit"@,
        "version"@ != "edit"@,
        "date"@ != "edit"@,
        "time"@ != "edit"@,
        "stats"@ != "edit"@,
        "heap"@ != "edit"@,
        "ls"@ != "edit"@,
        "cat"@ != "edit"@,
        "touch"@ != "edit"@,
        "mkdir"@ != "edit"@,
        "rm"@ != "edit"@,
        "reboot"@ != "edit"@,
        "shutdown"@ != "edit"@,
        "install-m5ros"@ != "edit"@,
        "fetch"@ != "reboot"@,
        "help"@ != "reboot"@,
        "clear"@ != "reboot"@,
        "cls"@ != "reboot"@,
        "uptime"@ != "reboot"@,
        "meminfo"@ != "reboot"@,
        "cpuinfo"@ != "reboot"@,
        "echo"@ != "reboot"@,
        "about"@ != "reboot"@,
        "version"@ != "reboot"@,
        "date"@ != "reboot"@,
        "time"@ != "reboot"@,
        "stats"@ != "reboot"@,
        "heap"@ != "reboot"@,
        "ls"@ != "reboot"@,
        "cat"@ != "reboot"@,
        "touch"@ != "reboot"@,
        "mkdir"@ != "reboot"@,
        "rm"@ != "reboot"@,
        "edit"@ != "reboot"@,
        "shutdown"@ != "reboot"@,
        "install-m5ros"@ != "reboot"@,
        "fetch"@ != "shutdown"@,
        "help"@ != "shutdown"@,
        "clear"@ != "shutdown"@,
        "cls"@ != "shutdown"@,
        "uptime"@ != "shutdown"@,
        "meminfo"@ != "shutdown"@,
        "cpuinfo"@ != "shutdown"@,
        "echo"@ != "shutdown"@,
        "about"@ != "shutdown"@,
        "version"@ != "shutdown"@,
        "date"@ != "shutdown"@,
        "time"@ != "shutdown"@,
        "stats"@ != "shutdown"@,
        "heap"@ != "shutdown"@,
        "ls"@ != "shutdown"@,
        "cat"@ != "shutdown"@,
        "touch"@ != "shutdown"@,
        "mkdir"@ != "shutdown"@,
        "rm"@ != "shutdown"@,
        "edit"@ != "shutdown"@,
        "reboot"@ != "shutdown"@,
        "install-m5ros"@ != "shutdown"@,
{
    reveal_strlit("fetch");
    reveal_strlit("help");
    reveal_strlit("clear");
    reveal_strlit("cls");
    reveal_strlit("uptime");
    reveal_strlit("meminfo");
    reveal_strlit("cpuinfo");
    reveal_strlit("echo");
    reveal_strlit("about");
    reveal_strlit("version");
    reveal_strlit("date");
    reveal_strlit("time");
    reveal_strlit("stats");
    reveal_strlit("heap");
    reveal_strlit("ls");
    reveal_strlit("cat");
    reveal_strlit("touch");
    reveal_strlit("mkdir");
    reveal_strlit("rm");
    reveal_strlit("edit");
    reveal_strlit("reboot");
    reveal_strlit("shutdown");
    reveal_strlit("install-m5ros");
    assert("fetch"@[0] != "touch"@[0]);
    assert("clear"@[0] != "touch"@[0]);
    assert("about"@[0] != "touch"@[0]);
    assert("stats"@[0] != "touch"@[0]);
    assert("mkdir"@[0] != "touch"@[0]);
    assert("fetch"@[0] != "mkdir"@[0]);
    assert("clear"@[0] != "mkdir"@[0]);
    assert("about"@[0] != "mkdir"@[0]);
    assert("stats"@[0] != "mkdir"@[0]);
    assert("touch"@[0] != "mkdir"@[0]);
    assert("ls"@[0] != "rm"@[0]);
    assert("help"@[0] != "edit"@[0]);
    assert("echo"@[1] != "edit"@[1]);
    assert("date"@[0] != "edit"@[0]);
    assert("time"@[0] != "edit"@[0]);
    assert("heap"@[0] != "edit"@[0]);
    assert("uptime"@[0] != "reboot"@[0]);
    assert("help"@.len() != "touch"@.len());
    assert("cls"@.len() != "touch"@.len());
    assert("uptime"@.len() != "touch"@.len());
    assert("meminfo"@.len() != "touch"@.len());
    assert("cpuinfo"@.len() != "touch"@.len());
    assert("echo"@.len() != "touch"@.len());
    assert("version"@.len() != "touch"@.len());
    assert("date"@.len() != "touch"@.len());
    assert("time"@.len() != "touch"@.len());
    assert("heap"@.len() != "touch"@.len());
    assert("ls"@.len() != "touch"@.len());
    assert("cat"@.len() != "touch"@.len());
    assert("rm"@.len() != "touch"@.len());
    assert("edit"@.len() != "touch"@.len());
    assert("reboot"@.len() != "touch"@.len());
    assert("shutdown"@.len() != "touch"@.len());
    assert("install-m5ros"@.len() != "touch"@.len());
    assert("help"@.len() != "mkdir"@.len());
    assert("cls"@.len() != "mkdir"@.len());
    assert("uptime"@.len() != "mkdir"@.len());
    assert("meminfo"@.len() != "mkdir"@.len());
    assert("cpuinfo"@.len() != "mkdir"@.len());
    assert("echo"@.len() != "mkdir"@.len());
    assert("version"@.len() != "mkdir"@.len());
    assert("date"@.len() != "mkdir"@.len());
    assert("time"@.len() != "mkdir"@.len());
    assert("heap"@.len() != "mkdir"@.len());
    assert("ls"@.len() != "mkdir"@.len());
    assert("cat"@.len() != "mkdir"@.len());
    assert("rm"@.len() != "mkdir"@.len());
    assert("edit"@.len() != "mkdir"@.len());
    assert("reboot"@.len() != "mkdir"@.len());
    assert("shutdown"@.len() != "mkdir"@.len());
    assert("install-m5ros"@.len() != "mkdir"@.len());
    assert("fetch"@.len() != "rm"@.len());
    assert("help"@.len() != "rm"@.len());
    assert("clear"@.len() != "rm"@.len());
    assert("cls"@.len() != "rm"@.len());
    assert("uptime"@.len() != "rm"@.len());
    assert("meminfo"@.len() != "rm"@.len());
    assert("cpuinfo"@.len() != "rm"@.len());
    assert("echo"@.len() != "rm"@.len());
    assert("about"@.len() != "rm"@.len());
    assert("version"@.len() != "rm"@.len());
    assert("date"@.len() != "rm"@.len());
    assert("time"@.len() != "rm"@.len());
    assert("stats"@.len() != "rm"@.len());
    assert("heap"@.len() != "rm"@.len());
    assert("cat"@.len() != "rm"@.len());
    assert("touch"@.len() != "rm"@.len());
    assert("mkdir"@.len() != "rm"@.len());
    assert("edit"@.len() != "rm"@.len());
    assert("reboot"@.len() != "rm"@.len());
    assert("shutdown"@.len() != "rm"@.len());
    assert("install-m5ros"@.len() != "rm"@.len());
    assert("fetch"@.len() != "edit"@.len());
    assert("clear"@.len() != "edit"@.len());
    assert("cls"@.len() != "edit"@.len());
    assert("uptime"@.len() != "edit"@.len());
    assert("meminfo"@.len() != "edit"@.len());
    assert("cpuinfo"@.len() != "edit"@.len());
    assert("about"@.len() != "edit"@.len());
    assert("version"@.len() != "edit"@.len());
    assert("stats"@.len() != "edit"@.len());
    assert("ls"@.len() != "edit"@.len());
    assert("cat"@.len() != "edit"@.len());
    assert("touch"@.len() != "edit"@.len());
    assert("mkdir"@.len() != "edit"@.len());
    assert("rm"@.len() != "edit"@.len());
    assert("reboot"@.len() != "edit"@.len());
    assert("shutdown"@.len() != "edit"@.len());
    assert("install-m5ros"@.len() != "edit"@.len());
    assert("fetch"@.len() != "reboot"@.len());
    assert("help"@.len() != "reboot"@.len());
    assert("clear"@.len() != "reboot"@.len());
    assert("cls"@.len() != "reboot"@.len());
    assert("meminfo"@.len() != "reboot"@.len());
    assert("cpuinfo"@.len() != "reboot"@.len());
    assert("echo"@.len() != "reboot"@.len());
    assert("about"@.len() != "reboot"@.len());
    assert("version"@.len() != "reboot"@.len());
    assert("date"@.len() != "reboot"@.len());
    assert("time"@.len() != "reboot"@.len());
    assert("stats"@.len() != "reboot"@.len());
    assert("heap"@.len() != "reboot"@.len());
    assert("ls"@.len() != "reboot"@.len());
    assert("cat"@.len() != "reboot"@.len());
    assert("touch"@.len() != "reboot"@.len());
    assert("mkdir"@.len() != "reboot"@.len());
    assert("rm"@.len() != "reboot"@.len());
    assert("edit"@.len() != "reboot"@.len());
    assert("shutdown"@.len() != "reboot"@.len());
    assert("install-m5ros"@.len() != "reboot"@.len());
    assert("fetch"@.len() != "shutdown"@.len());
    assert("help"@.len() != "shutdown"@.len());
    assert("clear"@.len() != "shutdown"@.len());
    assert("cls"@.len() != "shutdown"@.len());
    assert("uptime"@.len() != "shutdown"@.len());
    assert("meminfo"@.len() != "shutdown"@.len());
    assert("cpuinfo"@.len() != "shutdown"@.len());
    assert("echo"@.len() != "shutdown"@.len());
    assert("about"@.len() != "shutdown"@.len());
    assert("version"@.len() != "shutdown"@.len());
    assert("date"@.len() != "shutdown"@.len());
    assert("time"@.len() != "shutdown"@.len());
    assert("stats"@.len() != "shutdown"@.len());
    assert("heap"@.len() != "shutdown"@.len());
    assert("ls"@.len() != "shutdown"@.len());
    assert("cat"@.len() != "shutdown"@.len());
    assert("touch"@.len() != "shutdown"@.len());
    assert("mkdir"@.len() != "shutdown"@.len());
    assert("rm"@.len() != "shutdown"@.len());
    assert("edit"@.len() != "shutdown"@.len());
    assert("reboot"@.len() != "shutdown"@.len());
    assert("install-m5ros"@.len() != "shutdown"@.len());
}

/// The arguments of a command line.
fn args_of_exec(cs: &Vec<char>) -> (r: Vec<char>)
    ensures
        r@ == args_of(cs@),
{
    let mut i: usize = 0;
    assert(cs@.skip(0) =~= cs@);
    while i < cs.len() && is_whitespace(cs[i])
        invariant
            i <= cs@.len(),
            skip_ws(cs@) == skip_ws(cs@.skip(i as int)),
        decreases cs@.len() - i,
    {
        proof {
            assert(cs@.skip(i as int).drop_first() =~= cs@.skip(i + 1));
        }
        i = i + 1;
    }
    proof {
        if i < cs@.len() {
            assert(cs@.skip(i as int)[0] == cs@[i as int]);
        }
    }
    assert(skip_ws(cs@) == cs@.skip(i as int));
    let start = i;
    while i < cs.len() && !is_whitespace(cs[i])
        invariant
            start <= i <= cs@.len(),
            skip_ws(cs@) == cs@.skip(start as int),
            after_word(cs@.skip(start as int)) == after_word(cs@.skip(i as int)),
        decreases cs@.len() - i,
    {
        proof {
            assert(cs@.skip(i as int)[0] == cs@[i as int]);
            assert(cs@.skip(i as int).drop_first() =~= cs@.skip(i + 1));
        }
        i = i + 1;
    }
    proof {
        if i < cs@.len() {
            assert(cs@.skip(i as int)[0] == cs@[i as int]);
        }
    }
    assert(after_word(skip_ws(cs@)) == cs@.skip(i as int));
    while i < cs.len() && is_whitespace(cs[i])
        invariant
            i <= cs@.len(),
            args_of(cs@) == skip_ws(cs@.skip(i as int)),
        decreases cs@.len() - i,
    {
        proof {
            assert(cs@.skip(i as int)[0] == cs@[i as int]);
            assert(cs@.skip(i as int).drop_first() =~= cs@.skip(i + 1));
        }
        i = i + 1;
    }
    proof {
        if i < cs@.len() {
            assert(cs@.skip(i as int)[0] == cs@[i as int]);
        }
    }
    assert(args_of(cs@) == cs@.skip(i as int));
    let mut r: Vec<char> = Vec::new();
    let ghost from = i;
    while i < cs.len()
        invariant
            from <= i <= cs@.len(),
            r@ == cs@.subrange(from as int, i as int),
        decreases cs@.len() - i,
    {
        r.push(cs[i]);
        assert(r@ =~= cs@.subrange(from as int, i + 1));
        i = i + 1;
    }
    assert(r@ =~= cs@.skip(from as int));
    r
}

/// The UTF-8 bytes of `cs`, and the same as text.
fn utf8_of(cs: &Vec<char>) -> (r: Vec<u8>)
    ensures
        r@ == encode_utf8(cs@),
        valid_utf8(r@),
{
    let mut v: Vec<u8> = Vec::new();
    push_chars(&mut v, cs);
    assert(v@ =~= encode_utf8(cs@));
    proof {
        encode_utf8_valid_utf8(cs@);
    }
    v
}

/// Show a decimal number.
fn say_decimal(ops: &mut Vec<ConsoleOp>, v: u64)
    ensures
        actions(final(ops)@) == actions(old(ops)@).push(ConsoleAction::Text(decimal_bytes(v as nat))),
{
    let mut b: Vec<u8> = Vec::new();
    push_decimal(&mut b, v);
    assert(b@ =~= decimal_bytes(v as nat));
    say_bytes(ops, b);
}

/// Show an error message.
fn say_error(ops: &mut Vec<ConsoleOp>, e: &str)
    ensures
        actions(final(ops)@) == actions(old(ops)@) + error_actions(e),
{
    say(ops, "Error: ");
    say(ops, e);
    say(ops, "\n");
    assert(actions(ops@) =~= actions(old(ops)@) + error_actions(e));
}

/// `touch`: create what the first argument names.
fn cmd_touch(ops: &mut Vec<ConsoleOp>, fs: &mut SimpleFS, args: &Vec<char>)
    requires
        old(fs).wf(),
    ensures
        final(fs).wf(),
        actions(final(ops)@) == actions(old(ops)@) + create_actions(*old(fs), args@, "File already exists", "Usage: touch <name>\n"),
        fs_effect("touch"@, args@, *old(fs), *final(fs)),
{
    let (word, _) = first_word_of(args);
    if word.len() == 0 {
        say(ops, "Usage: touch <name>\n");
        assert(actions(ops@) =~= actions(old(ops)@) + create_actions(*old(fs), args@, "File already exists", "Usage: touch <name>\n"));
        return;
    }
    let bytes = utf8_of(&word);
    let name = crate::util::utf8_str(bytes.as_slice());
    let r = fs.create_file(name);
    match r {
        Ok(_) => {
            say(ops, "Created: ");
            say_bytes(ops, bytes);
            say(ops, "\n");
        },
        Err(e) => {
            say_error(ops, e);
        },
    }
    assert(actions(ops@) =~= actions(old(ops)@) + create_actions(*old(fs), args@, "File already exists", "Usage: touch <name>\n"));
}

/// `mkdir`: create what the first argument names.
fn cmd_mkdir(ops: &mut Vec<ConsoleOp>, fs: &mut SimpleFS, args: &Vec<char>)
    requires
        old(fs).wf(),
    ensures
        final(fs).wf(),
        actions(final(ops)@) == actions(old(ops)@) + create_actions(*old(fs), args@, "Directory already exists", "Usage: mkdir <name>\n"),
        fs_effect("mkdir"@, args@, *old(fs), *final(fs)),
{
    proof {
        lemma_words_differ();
    }
    let (word, _) = first_word_of(args);
    if word.len() == 0 {
        say(ops, "Usage: mkdir <name>\n");
        assert(actions(ops@) =~= actions(old(ops)@) + create_actions(*old(fs), args@, "Directory already exists", "Usage: mkdir <name>\n"));
        return;
    }
    let bytes = utf8_of(&word);
    let name = crate::util::utf8_str(bytes.as_slice());
    let r = fs.create_dir(name);
    match r {
        Ok(_) => {
            say(ops, "Created: ");
            say_bytes(ops, bytes);
            say(ops, "\n");
        },
        Err(e) => {
            say_error(ops, e);
        },
    }
    assert(actions(ops@) =~= actions(old(ops)@) + create_actions(*old(fs), args@, "Directory already exists", "Usage: mkdir <name>\n"));
}

/// `rm`: delete the file the first argument names.
fn cmd_rm(ops: &mut Vec<ConsoleOp>, fs: &mut SimpleFS, args: &Vec<char>)
    requires
        old(fs).wf(),
    ensures
        final(fs).wf(),
        actions(final(ops)@) == actions(old(ops)@) + rm_actions(*old(fs), args@),
        fs_effect("rm"@, args@, *old(fs), *final(fs)),
{
    proof {
        lemma_words_differ();
    }
    let (word, _) = first_word_of(args);
    if word.len() == 0 {
        say(ops, "Usage: rm <name>\n");
        assert(actions(ops@) =~= actions(old(ops)@) + rm_actions(*old(fs), args@));
        return;
    }
    let bytes = utf8_of(&word);
    let name = crate::util::utf8_str(bytes.as_slice());
    match fs.find_file(name) {
        None => {
            say_error(ops, "File not found");
        },
        Some(i) => {
            match fs.delete_file(i) {
                Ok(_) => {
                    say(ops, "Removed: ");
                    say_bytes(ops, bytes);
                    say(ops, "\n");
                },
                Err(e) => {
                    say_error(ops, e);
                },
            }
        },
    }
    assert(actions(ops@) =~= actions(old(ops)@) + rm_actions(*old(fs), args@));
}

/// `cat`: show the file the first argument names.
fn cmd_cat(ops: &mut Vec<ConsoleOp>, fs: &SimpleFS, args: &Vec<char>)
    requires
        fs.wf(),
    ensures
        actions(final(ops)@) == actions(old(ops)@) + cat_actions(*fs, args@),
{
    let (word, _) = first_word_of(args);
    if word.len() == 0 {
        say(ops, "Usage: cat <name>\n");
        assert(actions(ops@) =~= actions(old(ops)@) + cat_actions(*fs, args@));
        return;
    }
    let bytes = utf8_of(&word);
    let name = crate::util::utf8_str(bytes.as_slice());
    match fs.find_file(name) {
        None => {
            say_error(ops, "File not found");
        },
        Some(i) => {
            match fs.read_file(i) {
                Some(d) => {
                    say_bytes(ops, vstd::slice::slice_to_vec(d));
                    say(ops, "\n");
                },
                None => {
                    say_error(ops, "Is a directory");
                },
            }
        },
    }
    assert(actions(ops@) =~= actions(old(ops)@) + cat_actions(*fs, args@));
}

/// `ls`: the names of the entries in use, a directory's followed by "/".
fn cmd_ls(ops: &mut Vec<ConsoleOp>, fs: &SimpleFS)
    requires
        fs.wf(),
    ensures
        actions(final(ops)@) == actions(old(ops)@).push(ConsoleAction::Text(ls_text(*fs, fs.file_count as int))),
{
    let mut out: Vec<u8> = Vec::new();
    let mut i: usize = 0;
    while i < fs.file_count
        invariant
            fs.wf(),
            i <= fs.file_count,
            out@ == ls_text(*fs, i as int),
        decreases fs.file_count - i,
    {
        let e = fs.files[i];
        if e.in_use {
            let ghost before = out@;
            let mut k: usize = 0;
            assert(e.name_len <= 32);
            while k < e.name_len
                invariant
                    e == fs.files@[i as int],
                    e.name_len <= 32,
                    k <= e.name_len,
                    out@ == before + e.name@.subrange(0, k as int),
                decreases e.name_len - k,
            {
                out.push(e.name[k]);
                assert(out@ =~= before + e.name@.subrange(0, k + 1));
                k = k + 1;
            }
            if e.is_directory {
                out.push(47);
            }
            out.push(10);
        }
        assert(out@ =~= ls_text(*fs, i + 1));
        i = i + 1;
    }
    say_bytes(ops, out);
}

/// Run a file command.
fn run_files(ops: &mut Vec<ConsoleOp>, word: &Vec<char>, args: &Vec<char>, fs: &mut SimpleFS)
    requires
        old(fs).wf(),
        is_file_word(word@),
    ensures
        final(fs).wf(),
        actions(final(ops)@) == actions(old(ops)@) + file_actions(word@, args@, *old(fs)),
        fs_effect(word@, args@, *old(fs), *final(fs)),
{
    proof {
        lemma_words_differ();
    }
    let ghost a0 = actions(ops@);
    if word_is(word, "ls") {
        cmd_ls(ops, fs);
    } else if word_is(word, "cat") {
        cmd_cat(ops, fs, args);
    } else if word_is(word, "touch") {
        cmd_touch(ops, fs, args);
    } else if word_is(word, "mkdir") {
        cmd_mkdir(ops, fs, args);
    } else {
        cmd_rm(ops, fs, args);
    }
    assert(actions(ops@) =~= a0 + file_actions(word@, args@, *old(fs)));
}

/// Run a reporting command.
fn run_report(ops: &mut Vec<ConsoleOp>, word: &Vec<char>, args: &Vec<char>, ctx: &ShellContext)
    requires
        is_report_word(word@),
    ensures
        actions(final(ops)@) == actions(old(ops)@) + report_actions(word@, args@, *ctx),
{
    let ghost a0 = actions(ops@);
    if word_is(word, "echo") {
        let b = utf8_of(args);
        say_bytes(ops, b);
        say(ops, "\n");
    } else if word_is(word, "about") {
        say(ops, ABOUT_TEXT);
    } else if word_is(word, "version") {
        say(ops, "m5rOS ");
        say(ops, ctx.info.os_version);
        say(ops, " (kernel ");
        say(ops, ctx.info.kernel_version);
        say(ops, ")\n");
    } else if word_is(word, "date") {
        say(ops, "Date: ");
        let d = ctx.now.format_date();
        say_bytes(ops, vstd::slice::slice_to_vec(d.as_slice()));
        say(ops, "\n");
    } else if word_is(word, "time") {
        say(ops, "Time: ");
        let t = ctx.now.format_time();
        say_bytes(ops, vstd::slice::slice_to_vec(t.as_slice()));
        say(ops, "\n");
    } else if word_is(word, "stats") {
        say(ops, "\nInterrupts:\n  Timer:      ");
        say_decimal(ops, ctx.irq.timer);
        say(ops, "\n  Keyboard:   ");
        say_decimal(ops, ctx.irq.keyboard);
        say(ops, "\n  Total:      ");
        say_decimal(ops, ctx.irq.total);
        say(ops, "\nExceptions:   ");
        say_decimal(ops, ctx.exceptions.total);
        say(ops, "\n\n");
    } else {
        say(ops, "\nHeap:\n  Used: ");
        say_size(ops, ctx.heap_used);
        say(ops, "\n  Free: ");
        say_size(ops, ctx.heap_free);
        say(ops, "\n\n");
    }
    assert(actions(ops@) =~= a0 + report_actions(word@, args@, *ctx));
}

/// Run the editor, power or installer command, or report an unknown word.
fn run_control(ops: &mut Vec<ConsoleOp>, word: &Vec<char>, args: &Vec<char>) -> (req: ShellRequest)
    requires
        !is_file_word(word@),
        !is_report_word(word@),
    ensures
        actions(final(ops)@) == actions(old(ops)@) + control_actions(word@),
        request_matches(req, word@, args@),
{
    let ghost a0 = actions(ops@);
    if word_is(word, "edit") {
        let (name, _) = first_word_of(args);
        let b = utf8_of(&name);
        assert(actions(ops@) =~= a0 + control_actions(word@));
        return ShellRequest::Edit(b);
    } else if word_is(word, "reboot") {
        say(ops, "Rebooting...\n");
        assert(actions(ops@) =~= a0 + control_actions(word@));
        return ShellRequest::Reboot;
    } else if word_is(word, "shutdown") {
        say(ops, "Shutting down...\n");
        assert(actions(ops@) =~= a0 + control_actions(word@));
        return ShellRequest::Shutdown;
    } else if word_is(word, "install-m5ros") {
        say(ops, INSTALL_TEXT);
    } else {
        say(ops, "Unknown command: ");
        let b = utf8_of(word);
        say_bytes(ops, b);
        say(ops, "\nType 'help' for available commands.\n");
    }
    assert(actions(ops@) =~= a0 + control_actions(word@));
    ShellRequest::Nothing
}

/// Run a command that is neither a system-information nor a file command.
fn run_plain(ops: &mut Vec<ConsoleOp>, word: &Vec<char>, args: &Vec<char>, ctx: &ShellContext) -> (req: ShellRequest)
    requires
        !is_file_word(word@),
    ensures
        actions(final(ops)@) == actions(old(ops)@) + plain_actions(word@, args@, *ctx),
        request_matches(req, word@, args@),
{
    if word_is(word, "echo") || word_is(word, "about") || word_is(word, "version") || word_is(word, "date")
        || word_is(word, "time") || word_is(word, "stats") || word_is(word, "heap") {
        proof {
            lemma_words_differ();
        }
        run_report(ops, word, args, ctx);
        ShellRequest::Nothing
    } else {
        run_control(ops, word, args)
    }
}

/// Run a command beyond the system-information ones.
fn run_extra(ops: &mut Vec<ConsoleOp>, word: &Vec<char>, args: &Vec<char>, ctx: &ShellContext, fs: &mut SimpleFS)
    -> (req: ShellRequest)
    requires
        old(fs).wf(),
    ensures
        final(fs).wf(),
        actions(final(ops)@) == actions(old(ops)@) + extra_actions(word@, args@, *ctx, *old(fs)),
        request_matches(req, word@, args@),
        fs_effect(word@, args@, *old(fs), *final(fs)),
{
    proof {
        lemma_words_differ();
    }
    if word_is(word, "ls") || word_is(word, "cat") || word_is(word, "touch") || word_is(word, "mkdir")
        || word_is(word, "rm") {
        run_files(ops, word, args, fs);
        ShellRequest::Nothing
    } else {
        run_plain(ops, word, args, ctx)
    }
}

/// Run a command line: what it prints, as console steps, and what the caller must do
/// next; `touch`, `mkdir` and `rm` change the file system.
pub fn execute_command(cmd: &str, ctx: &ShellContext, fs: &mut SimpleFS) -> (r: (Vec<ConsoleOp>, ShellRequest))
    requires
        old(fs).wf(),
    ensures
        final(fs).wf(),
        actions(r.0@) == command_actions(cmd@, *ctx, *old(fs)),
        skip_ws(cmd@).len() == 0 ==> r.1 is Nothing && *final(fs) == *old(fs),
        skip_ws(cmd@).len() > 0 ==> request_matches(r.1, first_word(cmd@), args_of(cmd@))
            && fs_effect(first_word(cmd@), args_of(cmd@), *old(fs), *final(fs)),
{
    proof {
        lemma_words_differ();
    }
    let cs = chars_of(cmd);
    let (command, nonblank) = first_word_of(&cs);
    let mut ops: Vec<ConsoleOp> = Vec::new();
    assert(actions(ops@) =~= Seq::<ConsoleAction>::empty());
    if !nonblank {
        return (ops, ShellRequest::Nothing);
    }
    let info = &ctx.info;
    let mut req = ShellRequest::Nothing;
    if word_is(&command, "fetch") {
        cmd_fetch(&mut ops, info);
    } else if word_is(&command, "help") {
        cmd_help(&mut ops);
    } else if word_is(&command, "clear") || word_is(&command, "cls") {
        cmd_clear(&mut ops);
    } else if word_is(&command, "uptime") {
        cmd_uptime(&mut ops, info);
    } else if word_is(&command, "meminfo") {
        cmd_meminfo(&mut ops, info);
    } else if word_is(&command, "cpuinfo") {
        cmd_cpuinfo(&mut ops, info);
    } else {
        let args = args_of_exec(&cs);
        req = run_extra(&mut ops, &command, &args, ctx, fs);
    }
    assert(actions(ops@) =~= command_actions(cmd@, *ctx, *old(fs)));
    (ops, req)
}

} // verus!
