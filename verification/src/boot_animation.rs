//! The boot screen: logo, then each system service shown starting and then running.

use vstd::prelude::*;
use crate::command::{col, txt};
use crate::drivers::vga::{actions, clear_step, pause_step, paint, say, Color, ConsoleAction, ConsoleOp};

verus! {

/// Timer ticks of the short pause (about 100 ms at 100 Hz).
pub const SMALL_DELAY_TICKS: u64 = 10;

/// Timer ticks of the very short pause (about 30 ms at 100 Hz).
pub const TINY_DELAY_TICKS: u64 = 3;

/// The logo and title, after clearing the screen.
#[verifier::opaque]
pub open spec fn boot_logo_actions() -> Seq<ConsoleAction> {
    seq![
        ConsoleAction::Clear,
        col(Color::LightCyan, Color::Black),
        txt("\n"),
        txt("    ███╗   ███╗███████╗██████╗  ██████╗ ███████╗\n"),
        txt("    ████╗ ████║██╔════╝██╔══██╗██╔═══██╗██╔════╝\n"),
        txt("    ██╔████╔██║███████╗██████╔╝██║   ██║███████╗\n"),
        txt("    ██║╚██╔╝██║╚════██║██╔══██╗██║   ██║╚════██║\n"),
        txt("    ██║ ╚═╝ ██║███████║██║  ██║╚██████╔╝███████║\n"),
        txt("    ╚═╝     ╚═╝╚══════╝╚═╝  ╚═╝ ╚═════╝ ╚══════╝\n"),
        col(Color::White, Color::Black),
        txt("\n"),
        txt("              Custom Operating System v0.2.0\n"),
        txt("              Built from First Principles\n\n"),
        ConsoleAction::Pause(SMALL_DELAY_TICKS),
    ]
}

/// A banner line between two green rules.
#[verifier::opaque]
pub open spec fn banner_actions(title: &str) -> Seq<ConsoleAction> {
    seq![
        col(Color::LightGreen, Color::Black),
        txt("=======================================================\n"),
        col(Color::White, Color::Black),
        txt(title),
        col(Color::LightGreen, Color::Black),
        txt("=======================================================\n\n"),
        col(Color::White, Color::Black),
    ]
}

/// One service: "[ STARTING ]" (or "[ PENDING  ]"), a pause, then a carriage return and
/// "[   OK   ]" (or "[ FAILED ]"), each followed by the name.
#[verifier::opaque]
pub open spec fn service_actions(name: &str, success: bool) -> Seq<ConsoleAction> {
    seq![
        txt("  [ "),
        if success { col(Color::LightBlue, Color::Black) } else { col(Color::Yellow, Color::Black) },
        if success { txt("STARTING") } else { txt("PENDING ") },
        col(Color::White, Color::Black),
        txt(" ] "),
        txt(name),
        ConsoleAction::Pause(SMALL_DELAY_TICKS),
        ConsoleAction::Pause(TINY_DELAY_TICKS),
        txt("\r  [ "),
        if success { col(Color::LightGreen, Color::Black) } else { col(Color::LightRed, Color::Black) },
        if success { txt("   OK   ") } else { txt(" FAILED ") },
        col(Color::White, Color::Black),
        txt(" ] "),
        txt(name),
        txt("\n"),
    ]
}

/// The ten services, all started successfully, in boot order.
pub open spec fn services_actions() -> Seq<ConsoleAction> {
    service_actions("GDT Initialization", true)
        + service_actions("IDT Setup", true)
        + service_actions("PIC Configuration", true)
        + service_actions("PIT Timer (100 Hz)", true)
        + service_actions("PS/2 Keyboard Driver", true)
        + service_actions("Serial Port (COM1)", true)
        + service_actions("RTC Driver", true)
        + service_actions("ATA Disk Driver", true)
        + service_actions("Memory Manager", true)
        + service_actions("Virtual Memory", true)
}

/// The whole boot screen.
pub open spec fn boot_actions() -> Seq<ConsoleAction> {
    boot_logo_actions()
        + banner_actions("              Starting System Services\n")
        + seq![ConsoleAction::Pause(SMALL_DELAY_TICKS)]
        + services_actions()
        + seq![txt("\n")]
        + banner_actions("              All Services Running\n")
        + seq![ConsoleAction::Pause(SMALL_DELAY_TICKS)]
}

fn boot_logo(ops: &mut Vec<ConsoleOp>)
    ensures
        actions(final(ops)@) == actions(old(ops)@) + boot_logo_actions(),
{
    reveal(boot_logo_actions);
    clear_step(ops);
    paint(ops, Color::LightCyan, Color::Black);
    say(ops, "\n");
    say(ops, "    ███╗   ███╗███████╗██████╗  ██████╗ ███████╗\n");
    say(ops, "    ████╗ ████║██╔════╝██╔══██╗██╔═══██╗██╔════╝\n");
    say(ops, "    ██╔████╔██║███████╗██████╔╝██║   ██║███████╗\n");
    say(ops, "    ██║╚██╔╝██║╚════██║██╔══██╗██║   ██║╚════██║\n");
    say(ops, "    ██║ ╚═╝ ██║███████║██║  ██║╚██████╔╝███████║\n");
    say(ops, "    ╚═╝     ╚═╝╚══════╝╚═╝  ╚═╝ ╚═════╝ ╚══════╝\n");
    paint(ops, Color::White, Color::Black);
    say(ops, "\n");
    say(ops, "              Custom Operating System v0.2.0\n");
    say(ops, "              Built from First Principles\n\n");
    small_delay(ops);
    assert(actions(ops@) =~= actions(old(ops)@) + boot_logo_actions());
}

fn banner(ops: &mut Vec<ConsoleOp>, title: &str)
    ensures
        actions(final(ops)@) == actions(old(ops)@) + banner_actions(title),
{
    reveal(banner_actions);
    paint(ops, Color::LightGreen, Color::Black);
    say(ops, "=======================================================\n");
    paint(ops, Color::White, Color::Black);
    say(ops, title);
    paint(ops, Color::LightGreen, Color::Black);
    say(ops, "=======================================================\n\n");
    paint(ops, Color::White, Color::Black);
    assert(actions(ops@) =~= actions(old(ops)@) + banner_actions(title));
}

/// Show a service starting, then its outcome.
fn start_service(ops: &mut Vec<ConsoleOp>, name: &str, success: bool)
    ensures
        actions(final(ops)@) == actions(old(ops)@) + service_actions(name, success),
{
    reveal(service_actions);
    say(ops, "  [ ");
    if success {
        paint(ops, Color::LightBlue, Color::Black);
        say(ops, "STARTING");
    } else {
        paint(ops, Color::Yellow, Color::Black);
        say(ops, "PENDING ");
    }
    paint(ops, Color::White, Color::Black);
    say(ops, " ] ");
    say(ops, name);
    small_delay(ops);
    tiny_delay(ops);
    say(ops, "\r  [ ");
    if success {
        paint(ops, Color::LightGreen, Color::Black);
        say(ops, "   OK   ");
    } else {
        paint(ops, Color::LightRed, Color::Black);
        say(ops, " FAILED ");
    }
    paint(ops, Color::White, Color::Black);
    say(ops, " ] ");
    say(ops, name);
    say(ops, "\n");
    assert(actions(ops@) =~= actions(old(ops)@) + service_actions(name, success));
}

/// Pause about 100 ms.
fn small_delay(ops: &mut Vec<ConsoleOp>)
    ensures
        actions(final(ops)@) == actions(old(ops)@).push(ConsoleAction::Pause(SMALL_DELAY_TICKS)),
{
    pause_step(ops, SMALL_DELAY_TICKS);
}

/// Pause about 30 ms.
fn tiny_delay(ops: &mut Vec<ConsoleOp>)
    ensures
        actions(final(ops)@) == actions(old(ops)@).push(ConsoleAction::Pause(TINY_DELAY_TICKS)),
{
    pause_step(ops, TINY_DELAY_TICKS);
}

fn start_services(ops: &mut Vec<ConsoleOp>)
    ensures
        actions(final(ops)@) == actions(old(ops)@) + services_actions(),
{
    let ghost a0 = actions(ops@);
    start_service(ops, "GDT Initialization", true);
    start_service(ops, "IDT Setup", true);
    start_service(ops, "PIC Configuration", true);
    start_service(ops, "PIT Timer (100 Hz)", true);
    start_service(ops, "PS/2 Keyboard Driver", true);
    let ghost a5 = actions(ops@);
    assert(a5 =~= a0 + (service_actions("GDT Initialization", true)
        + service_actions("IDT Setup", true)
        + service_actions("PIC Configuration", true)
        + service_actions("PIT Timer (100 Hz)", true)
        + service_actions("PS/2 Keyboard Driver", true)));
    start_service(ops, "Serial Port (COM1)", true);
    start_service(ops, "RTC Driver", true);
    start_service(ops, "ATA Disk Driver", true);
    start_service(ops, "Memory Manager", true);
    start_service(ops, "Virtual Memory", true);
    assert(actions(ops@) =~= a5 + (service_actions("Serial Port (COM1)", true)
        + service_actions("RTC Driver", true)
        + service_actions("ATA Disk Driver", true)
        + service_actions("Memory Manager", true)
        + service_actions("Virtual Memory", true)));
    assert(actions(ops@) =~= a0 + services_actions());
}

/// The boot screen, as console steps: logo, the services starting, and a closing
/// banner, with pauses between.
pub fn display_boot_animation() -> (ops: Vec<ConsoleOp>)
    ensures
        actions(ops@) == boot_actions(),
{
    let mut ops: Vec<ConsoleOp> = Vec::new();
    let ghost a0 = actions(ops@);
    boot_logo(&mut ops);
    banner(&mut ops, "              Starting System Services\n");
    small_delay(&mut ops);
    let ghost a1 = actions(ops@);
    start_services(&mut ops);
    let ghost a2 = actions(ops@);
    say(&mut ops, "\n");
    banner(&mut ops, "              All Services Running\n");
    small_delay(&mut ops);
    assert(a0 =~= Seq::<ConsoleAction>::empty());
    assert(a1 =~= boot_logo_actions() + banner_actions("              Starting System Services\n")
        + seq![ConsoleAction::Pause(SMALL_DELAY_TICKS)]);
    assert(actions(ops@) =~= boot_actions());
    ops
}

} // verus!
