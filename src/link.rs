use vstd::prelude::*;
use vstd::string::StringExecFns;
use crate::command::{texts, CommandQueue};
use crate::telemetry::{StateStore, Telemetry};

verus! {

/// Where the serial loop stands.
#[derive(PartialEq, Eq, Structural, Clone, Copy, Debug)]
pub enum LinkState {
    /// The device has not been opened yet.
    Connecting,
    /// The device is open; the loop runs for good.
    Running,
    /// Opening the device failed; nothing more is done.
    Stopped,
}

/// The decisions of the serial loop. The loop itself (opening the device, reading,
/// writing, sleeping) runs outside and reports each outcome here.
pub struct SerialLink {
    state: LinkState,
}

/// The bytes that go on the wire for a command: its token and a newline.
pub open spec fn wire_line(token: Seq<char>) -> Seq<char> {
    token + seq!['\n']
}

/// `command` terminated by a newline.
pub fn terminated(command: String) -> (r: String)
    ensures
        r@ == wire_line(command@),
{
    proof { reveal_strlit("\n"); }
    command.concat("\n")
}

impl View for SerialLink {
    type V = LinkState;

    closed spec fn view(&self) -> LinkState {
        self.state
    }
}

impl SerialLink {
    pub fn new() -> (r: SerialLink)
        ensures
            r@ == LinkState::Connecting,
    {
        SerialLink { state: LinkState::Connecting }
    }

    pub fn state(&self) -> (r: LinkState)
        ensures
            r == self@,
    {
        self.state
    }

    /// Records the outcome of the one attempt to open the device. Once the link
    /// has left `Connecting` nothing moves it.
    pub fn opened(&mut self, ok: bool)
        ensures
            old(self)@ == LinkState::Connecting ==> final(self)@ == (if ok {
                LinkState::Running
            } else {
                LinkState::Stopped
            }),
            old(self)@ != LinkState::Connecting ==> final(self)@ == old(self)@,
    {
        if self.state == LinkState::Connecting {
            self.state = if ok {
                LinkState::Running
            } else {
                LinkState::Stopped
            };
        }
    }

    /// The first step of an iteration: every queued command, oldest first, as the
    /// line to write. Only a running link drains the queue.
    pub fn outgoing(&self, queue: &mut CommandQueue) -> (lines: Vec<String>)
        ensures
            self@ == LinkState::Running ==> final(queue)@ == Seq::<Seq<char>>::empty()
                && texts(lines@) == old(queue)@.map_values(|t: Seq<char>| wire_line(t)),
            self@ != LinkState::Running ==> final(queue)@ == old(queue)@ && lines@.len() == 0,
    {
        let mut lines: Vec<String> = Vec::new();
        if self.state != LinkState::Running {
            return lines;
        }
        let ghost queued = queue@;
        let commands = queue.drain_available();
        let n = commands.len();
        let mut k: usize = 0;
        while k < n
            invariant
                k <= n == commands@.len(),
                texts(commands@) == queued,
                texts(lines@) == queued.subrange(0, k as int).map_values(
                    |t: Seq<char>| wire_line(t),
                ),
            decreases n - k,
        {
            let c = commands[k].clone();
            assert(queued[k as int] == c@);
            let ghost before = lines@;
            let line = terminated(c);
            lines.push(line);
            assert(texts(lines@) =~= texts(before).push(line@));
            assert(queued.subrange(0, k + 1).map_values(|t: Seq<char>| wire_line(t))
                =~= queued.subrange(0, k as int).map_values(|t: Seq<char>| wire_line(t)).push(
                wire_line(queued[k as int]),
            ));
            k = k + 1;
            assert(texts(lines@) =~= queued.subrange(0, k as int).map_values(
                |t: Seq<char>| wire_line(t),
            ));
        }
        assert(queued.subrange(0, n as int) =~= queued);
        lines
    }

    /// The second step: the outcome of reading and decoding one line. A record
    /// replaces the stored one on a running link; nothing else changes the store.
    pub fn received(&self, store: &mut StateStore, parsed: Option<Telemetry>)
        requires
            parsed matches Some(t) ==> t.wf(),
        ensures
            (self@ == LinkState::Running && parsed is Some) ==> final(store)@ == parsed->0@,
            !(self@ == LinkState::Running && parsed is Some) ==> final(store)@ == old(store)@,
    {
        if self.state == LinkState::Running {
            store.publish(parsed);
        }
    }
}

} // verus!
