//! Presentation rules shared by the front ends that do not depend on the
//! widget toolkit: the status chips shown for connection and server states.

use vstd::prelude::*;

use crate::theme::{self, status_bad, status_idle, status_ok, status_warn, Rgb, ThemeSwitch};

verus! {

/// Id of the root folder of the server's address-space tree.
pub const OBJECTS_ROOT_ID: &'static str = "Objects";

/// Icon, colour and label of the chip for a client connection state.
pub fn connection_state_chip(switch: &ThemeSwitch, state: &str) -> (r: (
    &'static str,
    Rgb,
    &'static str,
))
    ensures
        state@ == "Connected"@ ==> r.0@ == "●"@ && r.1 == theme::status_ok_of(switch.mode()) && r.2@
            == "在线"@,
        state@ == "Connecting"@ ==> r.0@ == "◐"@ && r.1 == theme::status_warn_of(switch.mode()) && r.2@
            == "连接中"@,
        state@ == "Disconnected"@ ==> r.0@ == "○"@ && r.1 == theme::status_bad_of(switch.mode())
            && r.2@ == "离线"@,
        state@ != "Connected"@ && state@ != "Connecting"@ && state@ != "Disconnected"@ ==> r.0@
            == "·"@ && r.1 == theme::status_idle_of(switch.mode()) && r.2@ == "未知"@,
{
    proof {
        reveal_strlit("Connected");
        reveal_strlit("Connecting");
        reveal_strlit("Disconnected");
        assert("Connected"@.len() == 9);
        assert("Connecting"@.len() == 10);
        assert("Disconnected"@.len() == 12);
    }
    if crate::text::str_eq(state, "Connected") {
        ("●", status_ok(switch), "在线")
    } else if crate::text::str_eq(state, "Connecting") {
        ("◐", status_warn(switch), "连接中")
    } else if crate::text::str_eq(state, "Disconnected") {
        ("○", status_bad(switch), "离线")
    } else {
        ("·", status_idle(switch), "未知")
    }
}

/// Icon, colour and label of the server-state chip in the server toolbar;
/// an unknown state is shown under its own name.
pub fn server_toolbar_chip<'a>(switch: &ThemeSwitch, state: &'a str) -> (r: (&'a str, Rgb, &'a str))
    ensures
        state@ == "Running"@ ==> r.0@ == "●"@ && r.1 == theme::status_ok_of(switch.mode()) && r.2@
            == "运行中"@,
        state@ == "Starting"@ ==> r.0@ == "◐"@ && r.1 == theme::status_warn_of(switch.mode()) && r.2@
            == "启动中"@,
        state@ == "Stopping"@ ==> r.0@ == "◑"@ && r.1 == theme::status_warn_of(switch.mode()) && r.2@
            == "停止中"@,
        state@ == "Stopped"@ ==> r.0@ == "○"@ && r.1 == theme::status_bad_of(switch.mode()) && r.2@
            == "已停止"@,
        state@ != "Running"@ && state@ != "Starting"@ && state@ != "Stopping"@ && state@
            != "Stopped"@ ==> r.0@ == "·"@ && r.1 == theme::status_idle_of(switch.mode()) && r.2@
            == state@,
{
    proof {
        reveal_strlit("Running");
        reveal_strlit("Starting");
        reveal_strlit("Stopping");
        reveal_strlit("Stopped");
        assert("Running"@.len() == 7 && "Running"@[0] == 'R');
        assert("Stopped"@.len() == 7 && "Stopped"@[0] == 'S');
        assert("Starting"@.len() == 8 && "Starting"@[2] == 'a');
        assert("Stopping"@.len() == 8 && "Stopping"@[2] == 'o');
    }
    if crate::text::str_eq(state, "Running") {
        ("●", status_ok(switch), "运行中")
    } else if crate::text::str_eq(state, "Starting") {
        ("◐", status_warn(switch), "启动中")
    } else if crate::text::str_eq(state, "Stopping") {
        ("◑", status_warn(switch), "停止中")
    } else if crate::text::str_eq(state, "Stopped") {
        ("○", status_bad(switch), "已停止")
    } else {
        ("·", status_idle(switch), state)
    }
}

/// Icon, colour and label of the server-state chip in the status bar; known
/// states keep their English name and an unknown state is shown as is.
pub fn server_status_bar_chip<'a>(switch: &ThemeSwitch, state: &'a str) -> (r: (
    &'a str,
    Rgb,
    &'a str,
))
    ensures
        state@ == "Running"@ ==> r.0@ == "●"@ && r.1 == theme::status_ok_of(switch.mode()) && r.2@
            == "Running"@,
        state@ == "Starting"@ ==> r.0@ == "◐"@ && r.1 == theme::status_warn_of(switch.mode()) && r.2@
            == "Starting"@,
        state@ == "Stopping"@ ==> r.0@ == "◑"@ && r.1 == theme::status_warn_of(switch.mode()) && r.2@
            == "Stopping"@,
        state@ == "Stopped"@ ==> r.0@ == "○"@ && r.1 == theme::status_bad_of(switch.mode()) && r.2@
            == "Stopped"@,
        state@ != "Running"@ && state@ != "Starting"@ && state@ != "Stopping"@ && state@
            != "Stopped"@ ==> r.0@ == "·"@ && r.1 == theme::status_idle_of(switch.mode()) && r.2@
            == state@,
{
    proof {
        reveal_strlit("Running");
        reveal_strlit("Starting");
        reveal_strlit("Stopping");
        reveal_strlit("Stopped");
        assert("Running"@.len() == 7 && "Running"@[0] == 'R');
        assert("Stopped"@.len() == 7 && "Stopped"@[0] == 'S');
        assert("Starting"@.len() == 8 && "Starting"@[2] == 'a');
        assert("Stopping"@.len() == 8 && "Stopping"@[2] == 'o');
    }
    if crate::text::str_eq(state, "Running") {
        ("●", status_ok(switch), "Running")
    } else if crate::text::str_eq(state, "Starting") {
        ("◐", status_warn(switch), "Starting")
    } else if crate::text::str_eq(state, "Stopping") {
        ("◑", status_warn(switch), "Stopping")
    } else if crate::text::str_eq(state, "Stopped") {
        ("○", status_bad(switch), "Stopped")
    } else {
        ("·", status_idle(switch), state)
    }
}

} // verus!
