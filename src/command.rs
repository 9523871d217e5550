use vstd::prelude::*;
use vstd::string::StringExecFns;
use crate::frame::CHANNELS;
use crate::text::{decimal, digit_char};

verus! {

/// An instruction for the device.
pub enum Command {
    Arm,
    Disarm,
    /// Drive solenoid `channel` (1 to 16) to `state` (0 or 1).
    Solenoid { channel: u8, state: u8 },
}

pub open spec fn valid_solenoid(channel: u8, state: u8) -> bool {
    1 <= channel <= CHANNELS && state <= 1
}

/// The wire token of a command: `a`, `d`, or `s`, the channel and the state.
pub open spec fn token_of(c: Command) -> Seq<char> {
    match c {
        Command::Arm => seq!['a'],
        Command::Disarm => seq!['d'],
        Command::Solenoid { channel, state } => seq!['s'] + decimal(channel as nat) + decimal(
            state as nat,
        ),
    }
}

/// The one-character text of a decimal digit.
fn digit_text(d: u8) -> (r: &'static str)
    requires
        d < 10,
    ensures
        r@ == seq![digit_char(d as nat)],
{
    match d {
        0 => {
            proof { reveal_strlit("0"); }
            "0"
        },
        1 => {
            proof { reveal_strlit("1"); }
            "1"
        },
        2 => {
            proof { reveal_strlit("2"); }
            "2"
        },
        3 => {
            proof { reveal_strlit("3"); }
            "3"
        },
        4 => {
            proof { reveal_strlit("4"); }
            "4"
        },
        5 => {
            proof { reveal_strlit("5"); }
            "5"
        },
        6 => {
            proof { reveal_strlit("6"); }
            "6"
        },
        7 => {
            proof { reveal_strlit("7"); }
            "7"
        },
        8 => {
            proof { reveal_strlit("8"); }
            "8"
        },
        _ => {
            proof { reveal_strlit("9"); }
            "9"
        },
    }
}

impl Command {
    pub open spec fn wf(self) -> bool {
        match self {
            Command::Solenoid { channel, state } => valid_solenoid(channel, state),
            _ => true,
        }
    }

    /// The solenoid command for `channel` and `state`, if both are in range.
    pub fn solenoid(channel: u8, state: u8) -> (r: Option<Command>)
        ensures
            r is Some <==> valid_solenoid(channel, state),
            r matches Some(c) ==> c == (Command::Solenoid { channel, state }),
    {
        if 1 <= channel && channel <= 16 && state <= 1 {
            Some(Command::Solenoid { channel, state })
        } else {
            None
        }
    }

    /// The token that the device reads for this command.
    pub fn token(&self) -> (r: String)
        requires
            self.wf(),
        ensures
            r@ == token_of(*self),
    {
        match self {
            Command::Arm => {
                proof { reveal_strlit("a"); }
                "a".to_owned()
            },
            Command::Disarm => {
                proof { reveal_strlit("d"); }
                "d".to_owned()
            },
            Command::Solenoid { channel, state } => {
                proof { reveal_strlit("s"); }
                let mut t = "s".to_owned();
                if *channel >= 10 {
                    t.append(digit_text(*channel / 10));
                    t.append(digit_text(*channel % 10));
                    assert(decimal(*channel as nat) =~= decimal(*channel as nat / 10) + seq![
                        digit_char(*channel as nat % 10),
                    ]);
                } else {
                    t.append(digit_text(*channel));
                }
                t.append(digit_text(*state));
                assert(t@ =~= token_of(*self));
                t
            },
        }
    }
}

pub open spec fn texts(v: Seq<String>) -> Seq<Seq<char>> {
    v.map_values(|s: String| s@)
}

/// The outbound commands not yet handed to the device, oldest first.
pub struct CommandQueue {
    pending: Vec<String>,
}

impl View for CommandQueue {
    type V = Seq<Seq<char>>;

    closed spec fn view(&self) -> Seq<Seq<char>> {
        texts(self.pending@)
    }
}

impl CommandQueue {
    pub fn new() -> (r: CommandQueue)
        ensures
            r@ == Seq::<Seq<char>>::empty(),
    {
        let r = CommandQueue { pending: Vec::new() };
        assert(r@ =~= Seq::<Seq<char>>::empty());
        r
    }

    /// Adds a command at the back. The queue takes any text.
    pub fn submit(&mut self, command: String)
        ensures
            final(self)@ == old(self)@.push(command@),
    {
        let ghost before = self.pending@;
        self.pending.push(command);
        assert(texts(self.pending@) =~= texts(before).push(command@));
    }

    /// Takes out every queued command, oldest first, leaving the queue empty.
    pub fn drain_available(&mut self) -> (r: Vec<String>)
        ensures
            texts(r@) == old(self)@,
            final(self)@ == Seq::<Seq<char>>::empty(),
    {
        let mut out: Vec<String> = Vec::new();
        core::mem::swap(&mut out, &mut self.pending);
        assert(texts(self.pending@) =~= Seq::<Seq<char>>::empty());
        out
    }

    pub fn len(&self) -> (r: usize)
        ensures
            r == self@.len(),
    {
        self.pending.len()
    }
}

/// Queues the arm command.
pub fn request_arm(queue: &mut CommandQueue)
    ensures
        final(queue)@ == old(queue)@.push(token_of(Command::Arm)),
{
    queue.submit(Command::Arm.token());
}

/// Queues the disarm command.
pub fn request_disarm(queue: &mut CommandQueue)
    ensures
        final(queue)@ == old(queue)@.push(token_of(Command::Disarm)),
{
    queue.submit(Command::Disarm.token());
}

/// Queues the command that drives `channel` to `state`, if both are in range;
/// otherwise the queue is left alone. The result says whether it was queued.
pub fn request_solenoid(queue: &mut CommandQueue, channel: u8, state: u8) -> (accepted: bool)
    ensures
        accepted == valid_solenoid(channel, state),
        accepted ==> final(queue)@ == old(queue)@.push(
            token_of(Command::Solenoid { channel, state }),
        ),
        !accepted ==> final(queue)@ == old(queue)@,
{
    match Command::solenoid(channel, state) {
        Some(c) => {
            queue.submit(c.token());
            true
        },
        None => false,
    }
}

} // verus!
