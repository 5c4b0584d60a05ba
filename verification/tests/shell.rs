use m5ros::arch::cpuid::CpuidResult;
use m5ros::arch::pit::Timer;
use m5ros::boot_animation::display_boot_animation;
use m5ros::command::{execute_command, CommandBuffer, ShellContext, ShellRequest};
use m5ros::drivers::rtc::DateTime;
use m5ros::fs::SimpleFS;
use m5ros::stats::{ExceptionStats, IrqStats};
use m5ros::drivers::vga::{run_console, ConsoleOp, ScreenChar, Writer};
use m5ros::mem::frame_allocator::{self, FrameAllocator, FRAME_SIZE};
use m5ros::sysinfo::{format_size, format_uptime, get_system_info, CpuFeatures, SystemInfo};

fn text_of(ops: &[ConsoleOp]) -> String {
    let mut s = Vec::new();
    for op in ops {
        if let ConsoleOp::Text(t) = op {
            s.extend_from_slice(t);
        }
    }
    String::from_utf8(s).unwrap()
}

fn ctx() -> ShellContext {
    ShellContext {
        info: info(),
        now: DateTime { second: 5, minute: 4, hour: 13, day: 19, month: 3, year: 2000 },
        irq: IrqStats { timer: 120, keyboard: 7, total: 127 },
        exceptions: ExceptionStats { divide_error: 0, page_fault: 1, general_protection: 0, total: 1 },
        heap_used: 2048,
        heap_free: 3 * 1024 * 1024,
    }
}

fn run(cmd: &str) -> Vec<ConsoleOp> {
    let mut fs = SimpleFS::new();
    fs.init();
    execute_command(cmd, &ctx(), &mut fs).0
}

fn info() -> SystemInfo {
    SystemInfo {
        os_name: "m5rOS",
        os_version: "0.2.0",
        kernel_version: "0.2.0-dev",
        uptime_seconds: 3725,
        cpu_vendor: "GenuineIntel",
        cpu_features: CpuFeatures {
            fpu: true,
            tsc: true,
            sse: true,
            sse2: false,
            sse3: false,
            sse4_1: true,
            sse4_2: false,
            avx: false,
            avx2: false,
        },
        memory_total: 4 * 1024 * 1024,
        memory_allocated: 1536,
        memory_free: 4 * 1024 * 1024 - 1536,
    }
}

#[test]
fn size_formatting() {
    let mut buf = [0u8; 32];
    assert_eq!(format_size(0, &mut buf), "0 B");
    assert_eq!(format_size(1023, &mut buf), "1023 B");
    assert_eq!(format_size(1536, &mut buf), "1 KB");
    assert_eq!(format_size(5 * 1024 * 1024, &mut buf), "5 MB");
    assert_eq!(format_size(3 * 1024 * 1024 * 1024, &mut buf), "3 GB");
    let mut tiny = [0u8; 3];
    assert_eq!(format_size(123456, &mut tiny), "120");
}

#[test]
fn uptime_formatting() {
    let mut buf = [0u8; 32];
    assert_eq!(format_uptime(59, &mut buf), "00:00:59");
    assert_eq!(format_uptime(3725, &mut buf), "01:02:05");
    assert_eq!(format_uptime(360000 + 61, &mut buf), "100:01:01");
    assert_eq!(format_uptime(u64::MAX, &mut buf), "5124095576030431:00:15");
    let mut short = [0u8; 5];
    assert_eq!(format_uptime(3725, &mut short), "01:02");
}

#[test]
fn features_text() {
    let mut buf = [0u8; 128];
    assert_eq!(info().cpu_features.as_string(&mut buf), "FPU TSC SSE SSE4.1");
    let mut small = [0u8; 9];
    assert_eq!(info().cpu_features.as_string(&mut small), "FPU TSC S");
    let none = CpuFeatures {
        fpu: false, tsc: false, sse: false, sse2: false, sse3: false, sse4_1: false, sse4_2: false, avx: false, avx2: false,
    };
    assert_eq!(none.as_string(&mut buf), "");
}

#[test]
fn system_info_from_sources() {
    let mut frames = FrameAllocator::new();
    frame_allocator::init(&mut frames, 0x10_0000, 0x10_0000 + 16 * FRAME_SIZE);
    frame_allocator::allocate_frame(&mut frames).unwrap();
    let timer = Timer { ticks: 12345 };
    let leaf1 = CpuidResult { eax: 0, ebx: 0, ecx: 1 << 20, edx: (1 << 0) | (1 << 26) };
    let i = get_system_info("AuthenticAMD", leaf1, &frames, &timer);
    assert_eq!(i.os_name, "m5rOS");
    assert_eq!(i.uptime_seconds, 123);
    assert_eq!(i.memory_total, 16 * FRAME_SIZE);
    assert_eq!(i.memory_allocated, FRAME_SIZE);
    assert_eq!(i.memory_free, 15 * FRAME_SIZE);
    assert!(i.cpu_features.fpu && i.cpu_features.sse2 && i.cpu_features.sse4_2 && !i.cpu_features.avx2);
}

#[test]
fn commands_print_their_text() {
    let i = info();
    assert!(run("   ").is_empty());
    assert_eq!(text_of(&run(" uptime now")), "Uptime: 01:02:05\n");
    assert_eq!(
        text_of(&run("meminfo")),
        "\nMemory Information:\n  Total:     4 MB\n  Allocated: 1 KB\n  Free:      3 MB\n\n"
    );
    assert_eq!(
        text_of(&run("cpuinfo")),
        "\nCPU Information:\n  Vendor:   GenuineIntel\n  Features: FPU TSC SSE SSE4.1\n\n"
    );
    assert_eq!(
        text_of(&run("frob x")),
        "Unknown command: frob\nType 'help' for available commands.\n"
    );
    let clear = run("cls");
    assert_eq!(clear.len(), 1);
    assert!(matches!(clear[0], ConsoleOp::Clear));
    assert!(text_of(&run("help")).starts_with("\nAvailable commands:\nSystem info:\n  fetch"));
    let fetch = text_of(&run("fetch"));
    assert!(fetch.contains("OS:           m5rOS 0.2.0\n"));
    assert!(fetch.contains("Memory:       1 KB / 4 MB\n"));
    assert!(fetch.contains("Uptime:       01:02:05\n"));
}

#[test]
fn console_ops_reach_the_screen() {
    let mut w = Some(Writer::new(vec![ScreenChar { ascii_character: b' ', color_code: 0x0F }; 2000]));
    let ops = run("uptime");
    run_console(&mut w, &ops);
    let wr = w.as_ref().unwrap();
    assert_eq!(wr.cell(23, 0).ascii_character, b'U');
    assert_eq!(wr.column_position, 0);
}

#[test]
fn command_line_buffer() {
    let mut b = CommandBuffer::new();
    assert!(b.is_empty());
    for c in b"help" {
        b.push(*c);
    }
    assert_eq!(b.as_str(), "help");
    assert_eq!(b.pop(), Some(b'p'));
    assert_eq!(b.as_str(), "hel");
    b.clear();
    assert_eq!(b.pop(), None);
    for _ in 0..300 {
        b.push(b'x');
    }
    assert_eq!(b.as_str().len(), 256);
}

#[test]
fn boot_screen_lists_services() {
    let ops = display_boot_animation();
    assert!(matches!(ops[0], ConsoleOp::Clear));
    let text = text_of(&ops);
    assert!(text.contains("  [ STARTING ] GDT Initialization\r  [    OK    ] GDT Initialization\n"));
    assert!(text.contains("All Services Running"));
    let pauses = ops.iter().filter(|o| matches!(o, ConsoleOp::Pause(_))).count();
    assert_eq!(pauses, 3 + 2 * 10);
}

#[test]
fn boot_screen_overwrites_starting_with_ok() {
    let ops = display_boot_animation();
    let mut w = Some(Writer::new(vec![ScreenChar { ascii_character: b' ', color_code: 0x0F }; 2000]));
    run_console(&mut w, &ops);
    let wr = w.as_ref().unwrap();
    let mut screen = String::new();
    for row in 0..25 {
        for col in 0..80 {
            screen.push(wr.cell(row, col).ascii_character as char);
        }
        screen.push('\n');
    }
    assert!(!screen.contains("STARTING"));
    assert!(screen.contains("  [    OK    ] Virtual Memory"));
    assert!(screen.contains("  [    OK    ] GDT Initialization"));
}

#[test]
fn documented_commands() {
    assert_eq!(text_of(&run("echo hello  world")), "hello  world\n");
    assert_eq!(text_of(&run("echo")), "\n");
    assert_eq!(text_of(&run("version")), "m5rOS 0.2.0 (kernel 0.2.0-dev)\n");
    assert_eq!(text_of(&run("date")), "Date: 2000-03-19\n");
    assert_eq!(text_of(&run("time")), "Time: 13:04:05\n");
    assert_eq!(
        text_of(&run("stats")),
        "\nInterrupts:\n  Timer:      120\n  Keyboard:   7\n  Total:      127\nExceptions:   1\n\n"
    );
    assert_eq!(text_of(&run("heap")), "\nHeap:\n  Used: 2 KB\n  Free: 3 MB\n\n");
    assert!(text_of(&run("about")).contains("m5rOS"));
    assert!(text_of(&run("install-m5ros")).contains("Installer"));
    let help = text_of(&run("help"));
    for w in ["about", "version", "stats", "heap", "date", "time", "ls", "cat", "mkdir", "touch", "rm", "edit",
        "echo", "reboot", "shutdown", "install-m5ros"] {
        assert!(help.contains(&format!("  {}", w)));
    }
}

#[test]
fn file_commands() {
    let c = ctx();
    let mut fs = SimpleFS::new();
    fs.init();
    assert_eq!(text_of(&execute_command("touch notes", &c, &mut fs).0), "Created: notes\n");
    assert_eq!(text_of(&execute_command("mkdir docs", &c, &mut fs).0), "Created: docs\n");
    assert_eq!(text_of(&execute_command("touch notes", &c, &mut fs).0), "Error: File already exists\n");
    assert_eq!(text_of(&execute_command("ls", &c, &mut fs).0), "//\nnotes\ndocs/\n");
    let idx = fs.find_file("notes").unwrap();
    fs.write_file(idx, b"hi there").unwrap();
    assert_eq!(text_of(&execute_command("cat notes", &c, &mut fs).0), "hi there\n");
    assert_eq!(text_of(&execute_command("cat docs", &c, &mut fs).0), "Error: Is a directory\n");
    assert_eq!(text_of(&execute_command("cat nope", &c, &mut fs).0), "Error: File not found\n");
    assert_eq!(text_of(&execute_command("rm notes", &c, &mut fs).0), "Removed: notes\n");
    assert_eq!(fs.find_file("notes"), None);
    assert_eq!(text_of(&execute_command("rm /", &c, &mut fs).0), "Error: Invalid file index or cannot delete root\n");
    assert_eq!(text_of(&execute_command("touch", &c, &mut fs).0), "Usage: touch <name>\n");
}

#[test]
fn command_requests() {
    let c = ctx();
    let mut fs = SimpleFS::new();
    fs.init();
    match execute_command("edit notes.txt", &c, &mut fs).1 {
        ShellRequest::Edit(name) => assert_eq!(name, b"notes.txt".to_vec()),
        _ => panic!("edit asks for the editor"),
    }
    let (ops, req) = execute_command("reboot", &c, &mut fs);
    assert_eq!(text_of(&ops), "Rebooting...\n");
    assert!(matches!(req, ShellRequest::Reboot));
    assert!(matches!(execute_command("shutdown", &c, &mut fs).1, ShellRequest::Shutdown));
    assert!(matches!(execute_command("help", &c, &mut fs).1, ShellRequest::Nothing));
}

#[test]
fn help_groups_are_colour_coded() {
    let ops = run("help");
    let titles = ["System info:\n", "Hardware:\n", "Time:\n", "File operations:\n", "Utilities:\n", "Power:\n",
        "Installation:\n"];
    let mut seen = 0;
    for (k, op) in ops.iter().enumerate() {
        if let ConsoleOp::Text(t) = op {
            if titles.iter().any(|x| x.as_bytes() == &t[..]) {
                assert!(matches!(ops[k - 1], ConsoleOp::SetColor(m5ros::drivers::vga::Color::LightCyan, _)));
                assert!(matches!(ops[k + 1], ConsoleOp::SetColor(m5ros::drivers::vga::Color::White, _)));
                seen += 1;
            }
        }
    }
    assert_eq!(seen, 7);
}
