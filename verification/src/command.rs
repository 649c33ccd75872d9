//! The commands of the chat: what each does and what is answered.
use vstd::prelude::*;

use crate::{flow, schedule, session, state, text, time};
use crate::flow::{FlowSensor, Reading};
use crate::schedule::parse_schedule;
use crate::session::{close_valve, open_valve};
use crate::state::AppState;
use crate::text::{parse_number, push_decimal, trim};
use crate::time::{Timestamp, UtcOffset};
use crate::valve::Valve;

verus! {

/// A command of the chat; the text is what follows the command's name.
#[derive(Debug)]
pub enum Command {
    On(String),
    Off,
    Status,
    Schedule,
    SetSchedule(String),
    Enable,
    Disable,
    Help,
    Start,
}

/// What surrounds a command: the sensor and the clocks at the time, the offset of
/// the local clock now and at the time of the last watering, and the help text.
#[derive(Debug)]
pub struct Surroundings {
    pub reading: Reading,
    pub now: Timestamp,
    pub offset: UtcOffset,
    pub last_offset: UtcOffset,
    pub help: String,
}

/// The minutes that the text behind the command to open asks for: ten where it is
/// no number.
pub open spec fn asked_minutes(args: Seq<char>) -> u32 {
    match text::number(text::trimmed(args)) {
        Some(n) => n,
        None => 10,
    }
}

/// The minutes for which a command opens the valve.
pub open spec fn opening(cmd: Command, max_on_minutes: u32) -> Option<u32> {
    match cmd {
        Command::On(args) => if 0 < asked_minutes(args@) <= max_on_minutes {
            Some(asked_minutes(args@))
        } else {
            None
        },
        _ => None,
    }
}

/// Whether the calendar covers the time at which a session would end.
pub open spec fn end_is_covered(now: int, minutes: Option<u32>) -> bool {
    match minutes {
        Some(m) => time::covered(now + m * time::minute()),
        None => true,
    }
}

/// What a command makes of the world, and what is answered.
pub open spec fn commanded(
    before: session::World,
    cmd: Command,
    at: Surroundings,
) -> (session::World, Seq<char>) {
    match cmd {
        Command::On(args) => {
            let minutes = asked_minutes(args@);
            if minutes == 0 {
                (before, "Duration must be > 0."@)
            } else if minutes > before.state.max_on_minutes {
                (
                    before,
                    "Max duration is "@ + text::decimal(before.state.max_on_minutes as nat)
                        + " minutes."@,
                )
            } else {
                (
                    before.opened(at.reading, at.now@, minutes, "telegram"@),
                    "Valve OPENED for "@ + text::decimal(minutes as nat) + " minutes."@,
                )
            }
        },
        Command::Off => {
            if before.state.valve_open {
                (
                    before.closed(at.reading),
                    if before.volume(at.reading).pulses > 0 {
                        "Valve CLOSED. Total: "@ + flow::liters_text(
                            before.volume(at.reading).pulses as nat,
                        ) + "L."@
                    } else {
                        "Valve CLOSED."@
                    },
                )
            } else {
                (
                    session::World {
                        state: before.state.idle().to_save(),
                        valve_open: false,
                        ..before
                    },
                    "Valve CLOSED."@,
                )
            }
        },
        Command::Status => {
            let status = before.state.status(at.now@, at.offset@, at.last_offset@);
            (
                before,
                if before.state.valve_open {
                    status + "\nFlow: "@ + flow::liters_text(
                        before.volume(at.reading).pulses as nat,
                    ) + "L"@
                } else {
                    status
                },
            )
        },
        Command::Schedule => (before, before.state.schedule_listing()),
        Command::SetSchedule(args) => match schedule::read_schedule(args@) {
            Ok(slots) => (
                session::World {
                    state: state::StateView { slots, ..before.state }.to_save(),
                    ..before
                },
                "Schedule updated with "@ + text::decimal(slots.len()) + " slot(s)."@,
            ),
            Err(message) => (
                before,
                "Parse error: "@ + message + "\nFormat: /set 06:00,8 10:00,8 14:00,8"@,
            ),
        },
        Command::Enable => (
            session::World { state: before.state.switched(true), ..before },
            "Schedule enabled."@,
        ),
        Command::Disable => (
            session::World { state: before.state.switched(false), ..before },
            "Schedule disabled."@,
        ),
        Command::Help | Command::Start => (before, at.help@),
    }
}

/// Follows a command, and answers it.
pub fn handle_command(
    cmd: Command,
    state: &mut AppState,
    valve: &mut Valve,
    flow: &mut FlowSensor,
    at: Surroundings,
) -> (reply: String)
    requires
        end_is_covered(at.now@, opening(cmd, old(state).max_on_minutes)),
    ensures
        (session::world(*final(state), *final(valve), *final(flow)), reply@) == commanded(
            session::world(*old(state), *old(valve), *old(flow)),
            cmd,
            at,
        ),
{
    match cmd {
        Command::On(args) => {
            let minutes: u32 = match parse_number(trim(args.as_str())) {
                Some(n) => n,
                None => 10,
            };
            if minutes == 0 {
                return "Duration must be > 0.".to_string();
            }
            if minutes > state.max_on_minutes {
                let mut reply = "Max duration is ".to_string();
                push_decimal(&mut reply, state.max_on_minutes as u64);
                reply.append(" minutes.");
                return reply;
            }
            open_valve(state, valve, flow, at.reading, at.now, minutes, "telegram");
            let mut reply = "Valve OPENED for ".to_string();
            push_decimal(&mut reply, minutes as u64);
            reply.append(" minutes.");
            reply
        },
        Command::Off => {
            if state.valve_open {
                let liters = close_valve(state, valve, flow, at.reading);
                if liters.pulses > 0 {
                    let mut reply = "Valve CLOSED. Total: ".to_string();
                    let shown = liters.text();
                    reply.append(shown.as_str());
                    reply.append("L.");
                    return reply;
                }
            } else {
                valve.close();
                state.valve_open = false;
                state.auto_off_at = None;
                state.save();
            }
            "Valve CLOSED.".to_string()
        },
        Command::Status => {
            let mut reply = state.status_text(at.now, at.offset, at.last_offset);
            if state.valve_open {
                let shown = flow.session_liters(at.reading).text();
                reply.append("\nFlow: ");
                reply.append(shown.as_str());
                reply.append("L");
            }
            reply
        },
        Command::Schedule => state.schedule_text(),
        Command::SetSchedule(args) => match parse_schedule(args.as_str()) {
            Ok(slots) => {
                let count: usize = slots.len();
                state.schedule.slots = slots;
                state.save();
                let mut reply = "Schedule updated with ".to_string();
                push_decimal(&mut reply, count as u64);
                reply.append(" slot(s).");
                reply
            },
            Err(message) => {
                let mut reply = "Parse error: ".to_string();
                reply.append(message.as_str());
                reply.append("\nFormat: /set 06:00,8 10:00,8 14:00,8");
                reply
            },
        },
        Command::Enable => {
            state.schedule.enabled = true;
            state.save();
            "Schedule enabled.".to_string()
        },
        Command::Disable => {
            state.schedule.enabled = false;
            state.save();
            "Schedule disabled.".to_string()
        },
        Command::Help | Command::Start => at.help,
    }
}

/// What a message of the chat makes of the world, and what is answered.
pub open spec fn answered(
    before: session::World,
    chat_id: i64,
    allowed_chat: i64,
    text: Option<Option<Command>>,
    at: Surroundings,
) -> (session::World, Option<Seq<char>>) {
    match text {
        Some(read) if chat_id == allowed_chat => match read {
            Some(cmd) => {
                let (after, reply) = commanded(before, cmd, at);
                (after, Some(reply))
            },
            None => (before, Some("Unknown command. Send /help for available commands."@)),
        },
        _ => (before, None),
    }
}

/// Answers a message of the chat: those of other chats, and those without text,
/// are passed over; a text that is no command is answered with a hint.
///
/// `text` is what was read: nothing where the message has no text, and no command
/// where the text is none.
pub fn handle_message(
    chat_id: i64,
    allowed_chat: i64,
    text: Option<Option<Command>>,
    state: &mut AppState,
    valve: &mut Valve,
    flow: &mut FlowSensor,
    at: Surroundings,
) -> (reply: Option<String>)
    requires
        match text {
            Some(Some(cmd)) => chat_id == allowed_chat ==> end_is_covered(
                at.now@,
                opening(cmd, old(state).max_on_minutes),
            ),
            _ => true,
        },
    ensures
        ({
            let before = session::world(*old(state), *old(valve), *old(flow));
            let after = session::world(*final(state), *final(valve), *final(flow));
            let said = match reply {
                Some(r) => Some(r@),
                None => None,
            };
            (after, said) == answered(before, chat_id, allowed_chat, text, at)
        }),
{
    if chat_id != allowed_chat {
        return None;
    }
    match text {
        None => None,
        Some(None) => Some("Unknown command. Send /help for available commands.".to_string()),
        Some(Some(cmd)) => Some(handle_command(cmd, state, valve, flow, at)),
    }
}

/// The seconds to wait before the chat is tried again for the first time.
pub const FIRST_BACKOFF: u64 = 2;

/// The most seconds to wait before the chat is tried again.
pub const MAX_BACKOFF: u64 = 120;

/// The wait that follows one of `secs` seconds: twice as long, up to the most.
pub open spec fn doubled(secs: int) -> int {
    if 2 * secs < MAX_BACKOFF {
        2 * secs
    } else {
        MAX_BACKOFF as int
    }
}

/// The seconds to wait after the chat has broken down for the `k`-th time.
pub open spec fn backoff(k: nat) -> int
    decreases k,
{
    if k <= 1 {
        FIRST_BACKOFF as int
    } else {
        doubled(backoff((k - 1) as nat))
    }
}

/// The seconds to wait before the chat is tried again, after a wait of `secs`.
pub fn next_backoff(secs: u64) -> (next: u64)
    ensures
        next == doubled(secs as int),
{
    if secs < MAX_BACKOFF / 2 {
        secs * 2
    } else {
        MAX_BACKOFF
    }
}

} // verus!
