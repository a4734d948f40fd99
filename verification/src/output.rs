//! The thread that owns the output device.
//!
//! The thread opens a device, publishes its mixer, and then waits for commands to open
//! another one. [`OutputThread::step`] takes what has happened and says what to do next.

use vstd::prelude::*;

verus! {

/// Where the thread stands.
#[derive(Debug)]
pub enum OutputThread {
    /// The first device is being opened.
    Starting,
    /// A device is open; the thread waits for a command.
    Idle,
    /// A command is carried out: another device is being opened.
    Switching,
    /// The device of the command could not be opened, for this reason, and the default
    /// one is being opened in its place.
    FallingBack(String),
    /// The thread has come to its end.
    Stopped,
}

/// What has happened to the thread.
#[derive(Debug)]
pub enum OutputEvent {
    /// The device is open.
    Opened,
    /// The device could not be opened, for this reason.
    OpenFailed(String),
    /// A command to open the device of this name, or the default one.
    Command(Option<String>),
    /// There will be no more commands.
    Disconnected,
}

/// What the thread has to do.
#[derive(Debug)]
pub enum OutputAction {
    /// Make the mixer of the device known to the player.
    PublishMixer,
    /// Close the device, if one is open, and open the one of this name, or the default
    /// one.
    Open(Option<String>),
    /// Answer the command with the mixer of the device.
    ReplyMixer,
    /// Answer the command with the reason why its device could not be opened.
    ReplyError(String),
    /// End without a device. There is no sound to be had.
    Abort,
    Exit,
}

impl OutputThread {
    /// Whether an event can come at this point.
    pub open spec fn expects_spec(self, event: OutputEvent) -> bool {
        match self {
            OutputThread::Starting => event is Opened || event is OpenFailed,
            OutputThread::Idle => event is Command || event is Disconnected,
            OutputThread::Switching => event is Opened || event is OpenFailed,
            OutputThread::FallingBack(_) => event is Opened || event is OpenFailed,
            OutputThread::Stopped => false,
        }
    }

    /// Where the thread stands after an event that it expects.
    pub open spec fn next_state(self, event: OutputEvent) -> OutputThread {
        match (self, event) {
            (_, OutputEvent::Opened) => OutputThread::Idle,
            (_, OutputEvent::Command(_)) => OutputThread::Switching,
            (OutputThread::Switching, OutputEvent::OpenFailed(cause)) => OutputThread::FallingBack(
                cause,
            ),
            (_, OutputEvent::OpenFailed(_)) => OutputThread::Stopped,
            (_, OutputEvent::Disconnected) => OutputThread::Stopped,
        }
    }

    /// What the thread does upon an event that it expects.
    pub open spec fn next_action(self, event: OutputEvent) -> OutputAction {
        match (self, event) {
            (OutputThread::FallingBack(cause), OutputEvent::Opened) => OutputAction::ReplyError(
                cause,
            ),
            (OutputThread::Switching, OutputEvent::Opened) => OutputAction::ReplyMixer,
            (_, OutputEvent::Opened) => OutputAction::PublishMixer,
            (_, OutputEvent::Command(name)) => OutputAction::Open(name),
            (OutputThread::Switching, OutputEvent::OpenFailed(_)) => OutputAction::Open(None),
            (_, OutputEvent::OpenFailed(_)) => OutputAction::Abort,
            (_, OutputEvent::Disconnected) => OutputAction::Exit,
        }
    }

    /// The start of the thread, with the first thing to do: open the default device.
    pub fn start() -> (r: (OutputThread, OutputAction))
        ensures
            r.0 == OutputThread::Starting,
            r.1 == OutputAction::Open(None),
    {
        (OutputThread::Starting, OutputAction::Open(None))
    }

    /// Takes an event in, and says what to do.
    pub fn step(self, event: OutputEvent) -> (r: (OutputThread, OutputAction))
        requires
            self.expects_spec(event),
        ensures
            r.0 == self.next_state(event),
            r.1 == self.next_action(event),
            event is Opened ==> {
                &&& r.0 is Idle
                &&& self is Starting ==> r.1 is PublishMixer
                &&& self is Switching ==> r.1 is ReplyMixer
                &&& self matches OutputThread::FallingBack(cause) ==> r.1
                    == OutputAction::ReplyError(cause)
            },
            event matches OutputEvent::OpenFailed(cause) ==> {
                &&& self is Switching ==> r.0 == OutputThread::FallingBack(cause) && r.1
                    == OutputAction::Open(None)
                &&& self !is Switching ==> r.0 is Stopped && r.1 is Abort
            },
            event matches OutputEvent::Command(name) ==> r.0 is Switching && r.1
                == OutputAction::Open(name),
            event is Disconnected ==> r.0 is Stopped && r.1 is Exit,
    {
        match (self, event) {
            (OutputThread::FallingBack(cause), OutputEvent::Opened) => (
                OutputThread::Idle,
                OutputAction::ReplyError(cause),
            ),
            (OutputThread::Switching, OutputEvent::Opened) => (
                OutputThread::Idle,
                OutputAction::ReplyMixer,
            ),
            (_, OutputEvent::Opened) => (OutputThread::Idle, OutputAction::PublishMixer),
            (OutputThread::Switching, OutputEvent::OpenFailed(cause)) => (
                OutputThread::FallingBack(cause),
                OutputAction::Open(None),
            ),
            (_, OutputEvent::OpenFailed(_)) => (OutputThread::Stopped, OutputAction::Abort),
            (_, OutputEvent::Command(name)) => (OutputThread::Switching, OutputAction::Open(name)),
            (_, OutputEvent::Disconnected) => (OutputThread::Stopped, OutputAction::Exit),
        }
    }

    /// Whether the thread expects the events of a run, each in its turn.
    pub open spec fn expects_all(self, events: Seq<OutputEvent>) -> bool
        decreases events.len(),
    {
        events.len() == 0 || (self.expects_all(events.drop_last()) && self.after_all(
            events.drop_last(),
        ).expects_spec(events.last()))
    }

    /// Where the thread stands after a run of events.
    pub open spec fn after_all(self, events: Seq<OutputEvent>) -> OutputThread
        decreases events.len(),
    {
        if events.len() == 0 {
            self
        } else {
            self.after_all(events.drop_last()).next_state(events.last())
        }
    }

    /// How many commands the thread answers in a run of events.
    pub open spec fn replies(self, events: Seq<OutputEvent>) -> nat
        decreases events.len(),
    {
        if events.len() == 0 {
            0
        } else {
            let action = self.after_all(events.drop_last()).next_action(events.last());
            let one: nat = if action is ReplyMixer || action is ReplyError {
                1
            } else {
                0
            };
            self.replies(events.drop_last()) + one
        }
    }
}

/// How many commands there are in a run of events.
pub open spec fn commands(events: Seq<OutputEvent>) -> nat
    decreases events.len(),
{
    if events.len() == 0 {
        0
    } else {
        let one: nat = if events.last() is Command {
            1
        } else {
            0
        };
        commands(events.drop_last()) + one
    }
}

/// While a command is carried out it is the only one without an answer, and otherwise
/// there is none.
proof fn lemma_one_command_at_a_time(events: Seq<OutputEvent>)
    requires
        OutputThread::Starting.expects_all(events),
    ensures
        ({
            let state = OutputThread::Starting.after_all(events);
            let replies = OutputThread::Starting.replies(events);
            &&& state is Starting || state is Idle ==> replies == commands(events)
            &&& state is Switching || state is FallingBack ==> replies + 1 == commands(events)
        }),
    decreases events.len(),
{
    if events.len() > 0 {
        lemma_one_command_at_a_time(events.drop_last());
    }
}

/// Every command is answered, once: whenever the thread waits for the next one, it has
/// answered as many as there were.
pub proof fn lemma_commands_are_answered(events: Seq<OutputEvent>)
    requires
        OutputThread::Starting.expects_all(events),
        OutputThread::Starting.after_all(events) is Idle,
    ensures
        OutputThread::Starting.replies(events) == commands(events),
{
    lemma_one_command_at_a_time(events);
}

/// The answer to a command: the mixer of its device, or the reason why that could not be
/// opened, once the default device is open in its place.
pub proof fn lemma_answer_to_a_command(name: Option<String>, cause: String)
    ensures
        OutputThread::Idle.next_action(OutputEvent::Command(name)) == OutputAction::Open(name),
        OutputThread::Idle.next_state(OutputEvent::Command(name)).next_action(OutputEvent::Opened)
            == OutputAction::ReplyMixer,
        OutputThread::Idle.next_state(OutputEvent::Command(name)).next_action(
            OutputEvent::OpenFailed(cause),
        ) == OutputAction::Open(None),
        OutputThread::Idle.next_state(OutputEvent::Command(name)).next_state(
            OutputEvent::OpenFailed(cause),
        ).next_action(OutputEvent::Opened) == OutputAction::ReplyError(cause),
        OutputThread::Idle.next_state(OutputEvent::Command(name)).next_state(
            OutputEvent::OpenFailed(cause),
        ).next_state(OutputEvent::Opened) is Idle,
{
}

/// The mixer of the first device is made known, and without a first device the thread gives
/// up; it gives up too where not even the default device can be opened in place of another.
/// It ends when there will be no more commands.
pub proof fn lemma_start_and_end(cause: String, why: String)
    ensures
        OutputThread::Starting.expects_spec(OutputEvent::Opened),
        OutputThread::Starting.expects_spec(OutputEvent::OpenFailed(cause)),
        OutputThread::Switching.expects_spec(OutputEvent::Opened),
        OutputThread::Switching.expects_spec(OutputEvent::OpenFailed(cause)),
        OutputThread::FallingBack(why).expects_spec(OutputEvent::Opened),
        OutputThread::FallingBack(why).expects_spec(OutputEvent::OpenFailed(cause)),
        OutputThread::Idle.expects_spec(OutputEvent::Disconnected),
        OutputThread::Starting.next_action(OutputEvent::Opened) is PublishMixer,
        OutputThread::Starting.next_state(OutputEvent::Opened) is Idle,
        OutputThread::Starting.next_action(OutputEvent::OpenFailed(cause)) is Abort,
        OutputThread::Starting.next_state(OutputEvent::OpenFailed(cause)) is Stopped,
        OutputThread::FallingBack(why).next_action(OutputEvent::OpenFailed(cause)) is Abort,
        OutputThread::FallingBack(why).next_state(OutputEvent::OpenFailed(cause)) is Stopped,
        OutputThread::Idle.next_action(OutputEvent::Disconnected) is Exit,
        OutputThread::Idle.next_state(OutputEvent::Disconnected) is Stopped,
{
}

/// Whenever a device is open the thread is ready for the next command, whatever came before,
/// and carries it out by opening the device that the command names.
pub proof fn lemma_ready_for_the_next_command(events: Seq<OutputEvent>, name: Option<String>)
    requires
        OutputThread::Starting.expects_all(events),
        events.len() > 0,
        events.last() is Opened,
    ensures
        OutputThread::Starting.after_all(events) is Idle,
        OutputThread::Starting.after_all(events).expects_spec(OutputEvent::Command(name)),
        OutputThread::Starting.after_all(events).next_action(OutputEvent::Command(name))
            == OutputAction::Open(name),
{
}

} // verus!
