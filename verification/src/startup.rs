//! Start-up: launching at log-on (scheduled task or `Run` registry value), the
//! elevated helper that configures it, the single-instance handshake, and the
//! window styles that keep the ball on top without taking the focus.

use vstd::prelude::*;
use crate::command::{opt_view, slice_chars};
use crate::text::{chars_of, has_prefix, starts_with, string_of, trim, trim_chars, views};

verus! {

/// Argument that asks a helper process to configure start-up (`enable` or `disable`).
pub const CONFIGURE_STARTUP_ARG: &'static str = "--cyrene-configure-startup=";

/// Argument that selects the start-up mode for the helper.
pub const STARTUP_MODE_ARG: &'static str = "--cyrene-startup-mode=";

/// The remainder of the first argument that starts with `prefix`.
pub open spec fn first_with_prefix(args: Seq<Seq<char>>, prefix: Seq<char>) -> Option<Seq<char>>
    decreases args.len(),
{
    if args.len() == 0 {
        None
    } else if has_prefix(args[0], prefix) {
        Some(args[0].skip(prefix.len() as int))
    } else {
        first_with_prefix(args.drop_first(), prefix)
    }
}

fn first_with_prefix_exec(args: &Vec<String>, prefix: &str) -> (r: Option<String>)
    ensures
        opt_view(r) == first_with_prefix(views(args@), prefix@),
{
    let p = chars_of(prefix);
    let ghost av = views(args@);
    let mut i: usize = 0;
    assert(av.skip(0) =~= av);
    while i < args.len()
        invariant
            i <= args@.len(),
            av == views(args@),
            p@ == prefix@,
            first_with_prefix(av, prefix@) == first_with_prefix(av.skip(i as int), prefix@),
        decreases args.len() - i,
    {
        proof {
            assert(av.skip(i as int).drop_first() =~= av.skip(i + 1));
            assert(av.skip(i as int)[0] == args@[i as int]@);
        }
        let a = chars_of(args[i].as_str());
        if starts_with(&a, &p) {
            let rest = slice_chars(&a, p.len(), a.len());
            assert(rest@ =~= a@.skip(p@.len() as int));
            return Some(string_of(&rest));
        }
        i = i + 1;
    }
    None
}

/// The start-up change requested on the command line, if this process is the
/// elevated helper: `(enable, mode)`; the mode defaults to `scheduled`.
pub open spec fn startup_request_spec(args: Seq<Seq<char>>) -> Option<(bool, Seq<char>)> {
    match first_with_prefix(args, CONFIGURE_STARTUP_ARG@) {
        None => None,
        Some(value) => Some(
            (
                value == "enable"@,
                match first_with_prefix(args, STARTUP_MODE_ARG@) {
                    Some(m) => m,
                    None => "scheduled"@,
                },
            ),
        ),
    }
}

/// Reads the helper arguments: whether to enable start-up, and in which mode.
pub fn startup_request(args: &Vec<String>) -> (r: Option<(bool, String)>)
    ensures
        match (r, startup_request_spec(views(args@))) {
            (Some((e, m)), Some((se, sm))) => e == se && m@ == sm,
            (None, None) => true,
            _ => false,
        },
{
    match first_with_prefix_exec(args, CONFIGURE_STARTUP_ARG) {
        None => None,
        Some(value) => {
            let enable = crate::text::str_eq(value.as_str(), "enable");
            let mode = match first_with_prefix_exec(args, STARTUP_MODE_ARG) {
                Some(m) => m,
                None => String::from_str("scheduled"),
            };
            Some((enable, mode))
        },
    }
}

/// The command line that start-up runs: the quoted program followed by `--cyrene-autostart`.
pub open spec fn autostart_action(exe: Seq<char>) -> Seq<char> {
    "\""@ + exe + "\" --cyrene-autostart"@
}

/// The program and arguments that switch start-up on or off: a scheduled task with
/// the highest run level in `scheduled` mode, otherwise the `Run` registry value.
pub open spec fn startup_command_spec(enabled: bool, mode: Seq<char>, exe: Seq<char>) -> (Seq<char>, Seq<Seq<char>>) {
    let action = autostart_action(exe);
    if mode == "scheduled"@ {
        if enabled {
            (
                "schtasks"@,
                seq![
                    "/Create"@,
                    "/TN"@,
                    "CyreneCompassAutoStart"@,
                    "/TR"@,
                    action,
                    "/SC"@,
                    "ONLOGON"@,
                    "/RL"@,
                    "HIGHEST"@,
                    "/F"@,
                ],
            )
        } else {
            ("schtasks"@, seq!["/Delete"@, "/TN"@, "CyreneCompassAutoStart"@, "/F"@])
        }
    } else if enabled {
        (
            "reg"@,
            seq![
                "add"@,
                "HKCU\\Software\\Microsoft\\Windows\\CurrentVersion\\Run"@,
                "/v"@,
                "CyreneCompass"@,
                "/t"@,
                "REG_SZ"@,
                "/d"@,
                action,
                "/f"@,
            ],
        )
    } else {
        (
            "reg"@,
            seq![
                "delete"@,
                "HKCU\\Software\\Microsoft\\Windows\\CurrentVersion\\Run"@,
                "/v"@,
                "CyreneCompass"@,
                "/f"@,
            ],
        )
    }
}

/// The command that switches start-up on or off for the program at `exe`.
pub fn startup_command(enabled: bool, mode: &str, exe: &str) -> (r: (String, Vec<String>))
    ensures
        r.0@ == startup_command_spec(enabled, mode@, exe@).0,
        views(r.1@) == startup_command_spec(enabled, mode@, exe@).1,
{
    let mut action = String::from_str("\"");
    action.append(exe);
    action.append("\" --cyrene-autostart");
    let mut args: Vec<String> = Vec::new();
    if crate::text::str_eq(mode, "scheduled") {
        if enabled {
            args.push(String::from_str("/Create"));
            args.push(String::from_str("/TN"));
            args.push(String::from_str("CyreneCompassAutoStart"));
            args.push(String::from_str("/TR"));
            args.push(action);
            args.push(String::from_str("/SC"));
            args.push(String::from_str("ONLOGON"));
            args.push(String::from_str("/RL"));
            args.push(String::from_str("HIGHEST"));
            args.push(String::from_str("/F"));
        } else {
            args.push(String::from_str("/Delete"));
            args.push(String::from_str("/TN"));
            args.push(String::from_str("CyreneCompassAutoStart"));
            args.push(String::from_str("/F"));
        }
        assert(views(args@) =~= startup_command_spec(enabled, mode@, exe@).1);
        (String::from_str("schtasks"), args)
    } else {
        if enabled {
            args.push(String::from_str("add"));
            args.push(String::from_str("HKCU\\Software\\Microsoft\\Windows\\CurrentVersion\\Run"));
            args.push(String::from_str("/v"));
            args.push(String::from_str("CyreneCompass"));
            args.push(String::from_str("/t"));
            args.push(String::from_str("REG_SZ"));
            args.push(String::from_str("/d"));
            args.push(action);
            args.push(String::from_str("/f"));
        } else {
            args.push(String::from_str("delete"));
            args.push(String::from_str("HKCU\\Software\\Microsoft\\Windows\\CurrentVersion\\Run"));
            args.push(String::from_str("/v"));
            args.push(String::from_str("CyreneCompass"));
            args.push(String::from_str("/f"));
        }
        assert(views(args@) =~= startup_command_spec(enabled, mode@, exe@).1);
        (String::from_str("reg"), args)
    }
}

/// A scheduled task needs administrator rights: without them a helper is started elevated.
pub fn startup_needs_helper(mode: &str, is_admin: bool) -> (r: bool)
    ensures
        r == (mode@ == "scheduled"@ && !is_admin),
{
    crate::text::str_eq(mode, "scheduled") && !is_admin
}

/// The arguments of the elevated helper that configures start-up.
pub fn startup_helper_params(enabled: bool, mode: &str) -> (r: String)
    ensures
        r@ == CONFIGURE_STARTUP_ARG@ + (if enabled { "enable"@ } else { "disable"@ }) + " "@
            + STARTUP_MODE_ARG@ + mode@,
{
    let mut r = String::from_str(CONFIGURE_STARTUP_ARG);
    r.append(if enabled { "enable" } else { "disable" });
    r.append(" ");
    r.append(STARTUP_MODE_ARG);
    r.append(mode);
    r
}

/// The error text of a failed start-up command: its error output, or its normal
/// output when the error output is empty, trimmed.
pub fn command_failure_text(stdout: &str, stderr: &str) -> (r: String)
    ensures
        r@ == trim(if stderr@.len() == 0 { stdout@ } else { stderr@ }),
{
    let source = if stderr.unicode_len() == 0 { stdout } else { stderr };
    string_of(&trim_chars(&chars_of(source)))
}

/// The message another instance sends to ask the running one to show itself.
pub open spec fn instance_ping() -> Seq<u8> {
    seq![0x43u8, 0x59u8, 0x52u8, 0x45u8, 0x4eu8, 0x45u8, 0x5fu8, 0x43u8, 0x4fu8, 0x4du8, 0x50u8, 0x41u8, 0x53u8, 0x53u8, 0x5fu8, 0x53u8, 0x48u8, 0x4fu8, 0x57u8, 0x0au8]
}

/// The running instance's answer.
pub open spec fn instance_ack() -> Seq<u8> {
    seq![0x43u8, 0x59u8, 0x52u8, 0x45u8, 0x4eu8, 0x45u8, 0x5fu8, 0x43u8, 0x4fu8, 0x4du8, 0x50u8, 0x41u8, 0x53u8, 0x53u8, 0x5fu8, 0x41u8, 0x43u8, 0x4bu8, 0x0au8]
}

/// The bytes of the show request (`CYRENE_COMPASS_SHOW\n`).
pub fn instance_ping_bytes() -> (r: Vec<u8>)
    ensures
        r@ == instance_ping(),
{
    let r: Vec<u8> = vec![0x43u8, 0x59u8, 0x52u8, 0x45u8, 0x4eu8, 0x45u8, 0x5fu8, 0x43u8, 0x4fu8, 0x4du8, 0x50u8, 0x41u8, 0x53u8, 0x53u8, 0x5fu8, 0x53u8, 0x48u8, 0x4fu8, 0x57u8, 0x0au8];
    assert(r@ =~= instance_ping());
    r
}

/// The bytes of the answer (`CYRENE_COMPASS_ACK\n`).
pub fn instance_ack_bytes() -> (r: Vec<u8>)
    ensures
        r@ == instance_ack(),
{
    let r: Vec<u8> = vec![0x43u8, 0x59u8, 0x52u8, 0x45u8, 0x4eu8, 0x45u8, 0x5fu8, 0x43u8, 0x4fu8, 0x4du8, 0x50u8, 0x41u8, 0x53u8, 0x53u8, 0x5fu8, 0x41u8, 0x43u8, 0x4bu8, 0x0au8];
    assert(r@ =~= instance_ack());
    r
}

/// The bytes read by the running instance start with a show request.
pub fn is_instance_ping(buf: &[u8]) -> (r: bool)
    ensures
        r == (buf@.len() >= instance_ping().len() && buf@.take(instance_ping().len() as int)
            == instance_ping()),
{
    let ping = instance_ping_bytes();
    if buf.len() < ping.len() {
        return false;
    }
    let mut i: usize = 0;
    while i < ping.len()
        invariant
            i <= ping@.len() <= buf@.len(),
            ping@ == instance_ping(),
            forall|k: int| 0 <= k < i ==> buf@[k] == ping@[k],
        decreases ping.len() - i,
    {
        if buf[i] != ping[i] {
            assert(buf@.take(ping@.len() as int)[i as int] != ping@[i as int]);
            return false;
        }
        i = i + 1;
    }
    assert(buf@.take(ping@.len() as int) =~= ping@);
    true
}

/// The bytes answered to a show request are exactly the acknowledgement.
pub fn is_instance_ack(buf: &[u8]) -> (r: bool)
    ensures
        r == (buf@ == instance_ack()),
{
    let ack = instance_ack_bytes();
    if buf.len() != ack.len() {
        return false;
    }
    let mut i: usize = 0;
    while i < ack.len()
        invariant
            i <= ack@.len() == buf@.len(),
            ack@ == instance_ack(),
            forall|k: int| 0 <= k < i ==> buf@[k] == ack@[k],
        decreases ack.len() - i,
    {
        if buf[i] != ack[i] {
            return false;
        }
        i = i + 1;
    }
    assert(buf@ =~= ack@);
    true
}

/// Extended window style: does not take the focus.
pub const WS_EX_NOACTIVATE: u32 = 0x0800_0000;

/// Extended window style: tool window (no taskbar button).
pub const WS_EX_TOOLWINDOW: u32 = 0x0000_0080;

/// Extended window style: taskbar button.
pub const WS_EX_APPWINDOW: u32 = 0x0004_0000;

/// The extended style of the main window: always a tool window without a taskbar
/// button, and not taking the focus exactly when `enabled`; other bits are kept.
pub open spec fn no_activate_style_spec(style: u32, enabled: bool) -> u32 {
    let base: u32 = if enabled { style | WS_EX_NOACTIVATE } else { style & !WS_EX_NOACTIVATE };
    (base | WS_EX_TOOLWINDOW) & !WS_EX_APPWINDOW
}

/// The new extended style (as the `i32` that `GetWindowLongW` returns).
pub fn no_activate_style(style: i32, enabled: bool) -> (r: i32)
    ensures
        #[verifier::truncate] (r as u32) == no_activate_style_spec(#[verifier::truncate] (style as u32), enabled),
{
    let s: u32 = #[verifier::truncate] (style as u32);
    let base: u32 = if enabled { s | WS_EX_NOACTIVATE } else { s & !WS_EX_NOACTIVATE };
    let next: u32 = (base | WS_EX_TOOLWINDOW) & !WS_EX_APPWINDOW;
    let r: i32 = #[verifier::truncate] (next as i32);
    assert(#[verifier::truncate] ((#[verifier::truncate] (next as i32)) as u32) == next) by (bit_vector);
    r
}

/// `SetWindowPos` flags for re-applying the style: keep position and size, refresh
/// the frame, show the window, and do not activate it when `enabled`.
pub open spec fn no_activate_flags_spec(enabled: bool) -> u32 {
    // SWP_NOMOVE | SWP_NOSIZE | SWP_FRAMECHANGED | SWP_SHOWWINDOW [| SWP_NOACTIVATE]
    0x0002u32 | 0x0001u32 | 0x0020u32 | 0x0040u32 | (if enabled { 0x0010u32 } else { 0u32 })
}

pub fn no_activate_flags(enabled: bool) -> (r: u32)
    ensures
        r == no_activate_flags_spec(enabled),
{
    0x0002u32 | 0x0001u32 | 0x0020u32 | 0x0040u32 | (if enabled { 0x0010u32 } else { 0u32 })
}

/// The new style is a tool window without a taskbar button, takes no focus exactly
/// when asked, and keeps every other style bit.
pub proof fn law_no_activate_style_bits(style: u32, enabled: bool)
    ensures
        no_activate_style_spec(style, enabled) & WS_EX_TOOLWINDOW == WS_EX_TOOLWINDOW,
        no_activate_style_spec(style, enabled) & WS_EX_APPWINDOW == 0,
        (no_activate_style_spec(style, enabled) & WS_EX_NOACTIVATE != 0) == enabled,
        no_activate_style_spec(style, enabled) & !(WS_EX_TOOLWINDOW | WS_EX_APPWINDOW | WS_EX_NOACTIVATE)
            == style & !(WS_EX_TOOLWINDOW | WS_EX_APPWINDOW | WS_EX_NOACTIVATE),
{
    let r = no_activate_style_spec(style, enabled);
    if enabled {
        assert(((style | 0x0800_0000u32) | 0x80u32) & !0x0004_0000u32 & 0x80u32 == 0x80u32) by (bit_vector);
        assert(((style | 0x0800_0000u32) | 0x80u32) & !0x0004_0000u32 & 0x0004_0000u32 == 0u32) by (bit_vector);
        assert(((style | 0x0800_0000u32) | 0x80u32) & !0x0004_0000u32 & 0x0800_0000u32 != 0u32) by (bit_vector);
        assert(((style | 0x0800_0000u32) | 0x80u32) & !0x0004_0000u32 & !(0x80u32 | 0x0004_0000u32 | 0x0800_0000u32)
            == style & !(0x80u32 | 0x0004_0000u32 | 0x0800_0000u32)) by (bit_vector);
    } else {
        assert(((style & !0x0800_0000u32) | 0x80u32) & !0x0004_0000u32 & 0x80u32 == 0x80u32) by (bit_vector);
        assert(((style & !0x0800_0000u32) | 0x80u32) & !0x0004_0000u32 & 0x0004_0000u32 == 0u32) by (bit_vector);
        assert(((style & !0x0800_0000u32) | 0x80u32) & !0x0004_0000u32 & 0x0800_0000u32 == 0u32) by (bit_vector);
        assert(((style & !0x0800_0000u32) | 0x80u32) & !0x0004_0000u32 & !(0x80u32 | 0x0004_0000u32 | 0x0800_0000u32)
            == style & !(0x80u32 | 0x0004_0000u32 | 0x0800_0000u32)) by (bit_vector);
    }
}

} // verus!
