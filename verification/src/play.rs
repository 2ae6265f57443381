//! The order of things from a plugin's request to a player in a mixer.
use crate::ffmpeg::{decoder_args, FFmpegModel};
use crate::handle::{found_args, lists_headers, PlayTask};
use crate::json::parsed_json;
use crate::source::{is_remote, lookup_texts, output_is_playable, texts};
use vstd::prelude::*;

verus! {

/// One thing that has to be done to play a source.
pub enum PlayAction {
    /// Run the helper program with these arguments.
    LookUp(Vec<String>),
    /// Start the decoder with these arguments.
    Start(Vec<String>),
    /// Add a player of what the decoder gives to the mixer of this slot.
    Attach(usize),
    /// Report an error.
    Report(String),
    /// Nothing is left to do.
    Done,
}

/// What came of a `PlayAction`.
#[derive(Debug)]
pub enum PlayEvent {
    /// The task has begun.
    Begun,
    /// The output of the helper program, if it could be run.
    LookedUp(Option<Vec<u8>>),
    /// The decoder runs.
    Started,
    /// The decoder could not be started, for this reason.
    StartFailed(String),
    /// The mixer has the player.
    Attached,
    /// No mixer took the player, as this message says.
    AttachFailed(String),
    /// The error was reported.
    Reported,
}

/// What a `PlayAction` asks for.
#[verifier::ext_equal]
pub enum PlayStep {
    LookUp(Seq<Seq<char>>),
    Start(Seq<Seq<char>>),
    Attach(usize),
    Report(Seq<char>),
    Done,
}

impl View for PlayAction {
    type V = PlayStep;

    open spec fn view(&self) -> PlayStep {
        match *self {
            PlayAction::LookUp(args) => PlayStep::LookUp(texts(args@)),
            PlayAction::Start(args) => PlayStep::Start(texts(args@)),
            PlayAction::Attach(slot) => PlayStep::Attach(slot),
            PlayAction::Report(message) => PlayStep::Report(message@),
            PlayAction::Done => PlayStep::Done,
        }
    }
}

/// What the playing of a source waits for.
#[derive(Clone, Copy, Debug, PartialEq, Eq, Structural)]
pub enum PlayPhase {
    Beginning,
    LookingUp,
    Starting,
    Attaching,
    Reporting,
    Ended,
}

/// What is to be played: the settings of the decoder, if the task has it, and
/// the source as it was given.
#[verifier::ext_equal]
pub struct TaskModel {
    pub settings: Option<FFmpegModel>,
    pub url: Seq<char>,
}

/// The state of playing a source.
#[verifier::ext_equal]
pub struct PlayModel {
    /// What is to be played, until the decoder is started.
    pub task: Option<TaskModel>,
    /// The slot to play in.
    pub slot: usize,
    pub phase: PlayPhase,
}

/// Whether a state can be reached: what to play is known until the decoder is
/// started.
pub open spec fn play_inv(m: PlayModel) -> bool {
    m.task is Some <==> m.phase is Beginning || m.phase is LookingUp
}

/// Whether an event is one that is waited for.
pub open spec fn awaited(m: PlayModel, event: PlayEvent) -> bool {
    match m.phase {
        PlayPhase::Beginning => event is Begun,
        PlayPhase::LookingUp => event is LookedUp,
        PlayPhase::Starting => event is Started || event is StartFailed,
        PlayPhase::Attaching => event is Attached || event is AttachFailed,
        PlayPhase::Reporting => event is Reported,
        PlayPhase::Ended => false,
    }
}

/// How the decoder is started, given the output of the helper program where it
/// was run. It is not without settings, nor when the output describes nothing
/// to play.
pub open spec fn start_with(task: TaskModel, output: Option<Seq<u8>>) -> PlayStep {
    match (task.settings, output) {
        (None, _) => PlayStep::Done,
        (Some(settings), None) => PlayStep::Start(decoder_args(settings, task.url)),
        (Some(settings), Some(output)) => if output_is_playable(output) {
            PlayStep::Start(found_args(settings, parsed_json(output)->0))
        } else {
            PlayStep::Done
        },
    }
}

/// What is done on an event that is waited for.
pub open spec fn step_on(m: PlayModel, event: PlayEvent) -> PlayStep {
    match event {
        PlayEvent::Begun => if is_remote(m.task->0.url) {
            PlayStep::LookUp(lookup_texts(m.task->0.url))
        } else {
            start_with(m.task->0, None)
        },
        PlayEvent::LookedUp(output) => match output {
            Some(output) => start_with(m.task->0, Some(output@)),
            None => start_with(m.task->0, None),
        },
        PlayEvent::Started => PlayStep::Attach(m.slot),
        PlayEvent::StartFailed(reason) => PlayStep::Report("Play error: "@ + reason@),
        PlayEvent::Attached => PlayStep::Done,
        PlayEvent::AttachFailed(message) => PlayStep::Report(message@),
        PlayEvent::Reported => PlayStep::Done,
    }
}

/// What is waited for after a step.
pub open spec fn phase_after(step: PlayStep) -> PlayPhase {
    match step {
        PlayStep::LookUp(_) => PlayPhase::LookingUp,
        PlayStep::Start(_) => PlayPhase::Starting,
        PlayStep::Attach(_) => PlayPhase::Attaching,
        PlayStep::Report(_) => PlayPhase::Reporting,
        PlayStep::Done => PlayPhase::Ended,
    }
}

/// The state after an event that is waited for.
pub open spec fn play_after(m: PlayModel, event: PlayEvent) -> PlayModel {
    PlayModel {
        task: if step_on(m, event) is LookUp {
            m.task
        } else {
            None
        },
        slot: m.slot,
        phase: phase_after(step_on(m, event)),
    }
}

/// Walks through the playing of a source.
pub struct PlayPlan {
    task: Option<PlayTask>,
    slot: usize,
    phase: PlayPhase,
}

impl View for PlayPlan {
    type V = PlayModel;

    closed spec fn view(&self) -> PlayModel {
        PlayModel {
            task: match self.task {
                Some(task) => Some(TaskModel { settings: task.settings(), url: task.url() }),
                None => None,
            },
            slot: self.slot,
            phase: self.phase,
        }
    }
}

impl PlayPlan {
    /// The playing of a source, from its beginning.
    pub fn new(task: PlayTask) -> (plan: PlayPlan)
        ensures
            plan@ == (PlayModel {
                task: Some(TaskModel { settings: task.settings(), url: task.url() }),
                slot: task.spec_slot(),
                phase: PlayPhase::Beginning,
            }),
            play_inv(plan@),
    {
        let slot: usize = task.slot();
        PlayPlan { task: Some(task), slot, phase: PlayPhase::Beginning }
    }

    /// Takes in what came of the last action, and returns the next one.
    pub fn next(&mut self, event: PlayEvent) -> (action: PlayAction)
        requires
            awaited(old(self)@, event),
            play_inv(old(self)@),
        ensures
            action@ == step_on(old(self)@, event),
            final(self)@ == play_after(old(self)@, event),
            play_inv(final(self)@),
            event matches PlayEvent::LookedUp(Some(output)) ==> output_is_playable(output@)
                ==> lists_headers(output@),
    {
        match event {
            PlayEvent::Begun => {
                if let Some(task) = self.task.as_ref() {
                    if let Some(args) = task.lookup() {
                        self.phase = PlayPhase::LookingUp;
                        return PlayAction::LookUp(args);
                    }
                }
                self.start(None)
            },
            PlayEvent::LookedUp(output) => match output {
                Some(output) => self.start(Some(output.as_slice())),
                None => self.start(None),
            },
            PlayEvent::Started => {
                self.phase = PlayPhase::Attaching;
                PlayAction::Attach(self.slot)
            },
            PlayEvent::StartFailed(reason) => {
                self.phase = PlayPhase::Reporting;
                PlayAction::Report(crate::codec::play_error(reason.as_str()))
            },
            PlayEvent::AttachFailed(message) => {
                self.phase = PlayPhase::Reporting;
                PlayAction::Report(message)
            },
            PlayEvent::Attached | PlayEvent::Reported => {
                self.phase = PlayPhase::Ended;
                PlayAction::Done
            },
        }
    }

    fn start(&mut self, output: Option<&[u8]>) -> (action: PlayAction)
        requires
            old(self)@.task is Some,
        ensures
            action@ == start_with(
                old(self)@.task->0,
                match output {
                    Some(output) => Some(output@),
                    None => None,
                },
            ),
            final(self)@ == (PlayModel {
                task: None,
                slot: old(self)@.slot,
                phase: phase_after(action@),
            }),
            output matches Some(output) ==> output_is_playable(output@) ==> lists_headers(output@),
    {
        if let Some(task) = self.task.take() {
            if let Some(args) = task.command(output) {
                self.phase = PlayPhase::Starting;
                return PlayAction::Start(args);
            }
        }
        self.phase = PlayPhase::Ended;
        PlayAction::Done
    }
}

/// The state after the first `n` events of a run.
pub open spec fn play_at(m: PlayModel, events: Seq<PlayEvent>, n: nat) -> PlayModel
    decreases n,
{
    if n == 0 {
        m
    } else {
        play_after(play_at(m, events, (n - 1) as nat), events[n - 1])
    }
}

/// The step on the event at position `i` of a run.
pub open spec fn step_at(m: PlayModel, events: Seq<PlayEvent>, i: nat) -> PlayStep {
    step_on(play_at(m, events, i), events[i as int])
}

/// Whether each event of a run is waited for when it comes.
pub open spec fn all_awaited(m: PlayModel, events: Seq<PlayEvent>) -> bool {
    forall|i: nat| i < events.len() ==> awaited(#[trigger] play_at(m, events, i), events[i as int])
}

spec fn rank(phase: PlayPhase) -> nat {
    match phase {
        PlayPhase::Beginning => 0,
        PlayPhase::LookingUp => 1,
        PlayPhase::Starting => 2,
        PlayPhase::Attaching => 3,
        PlayPhase::Reporting => 4,
        PlayPhase::Ended => 5,
    }
}

proof fn lemma_forward(m: PlayModel, events: Seq<PlayEvent>, i: nat, j: nat)
    requires
        all_awaited(m, events),
        i <= j <= events.len(),
    ensures
        rank(play_at(m, events, j).phase) >= rank(play_at(m, events, i).phase) + (j - i),
    decreases j,
{
    if i < j {
        let before = play_at(m, events, (j - 1) as nat);
        lemma_forward(m, events, i, (j - 1) as nat);
        assert(awaited(before, events[j - 1]));
    }
}

/// Whatever comes of the actions, a player is attached only after the decoder
/// was started, to the slot that was asked for, and once. At most one error is
/// reported. A decoder that could not be started is reported, with the reason,
/// and nothing is attached, before or after.
pub proof fn law_play_attaches_or_reports(
    m: PlayModel,
    events: Seq<PlayEvent>,
    i: nat,
    j: nat,
)
    requires
        all_awaited(m, events),
        i < events.len(),
        j < events.len(),
    ensures
        step_at(m, events, i) is Attach ==> events[i as int] is Started && step_at(m, events, i)
            == PlayStep::Attach(m.slot),
        step_at(m, events, i) is Attach && step_at(m, events, j) is Attach ==> i == j,
        step_at(m, events, i) is Report && step_at(m, events, j) is Report ==> i == j,
        events[i as int] matches PlayEvent::StartFailed(reason) ==> {
            &&& step_at(m, events, i) == PlayStep::Report("Play error: "@ + reason@)
            &&& step_at(m, events, j) !is Attach
        },
{
    lemma_slot(m, events, i);
    assert(awaited(play_at(m, events, i), events[i as int]));
    assert(awaited(play_at(m, events, j), events[j as int]));
    assert(play_at(m, events, i + 1) == play_after(play_at(m, events, i), events[i as int]));
    assert(play_at(m, events, j + 1) == play_after(play_at(m, events, j), events[j as int]));
    if i < j {
        lemma_forward(m, events, i + 1, j);
        lemma_forward(m, events, j, j + 1);
    } else if j < i {
        lemma_forward(m, events, j + 1, i);
        lemma_forward(m, events, i, i + 1);
    }
}

/// Playing a source ends: no run of events is longer than five.
pub proof fn law_play_ends(m: PlayModel, events: Seq<PlayEvent>)
    requires
        all_awaited(m, events),
    ensures
        events.len() <= 5,
{
    lemma_forward(m, events, 0, events.len());
}

proof fn lemma_slot(m: PlayModel, events: Seq<PlayEvent>, n: nat)
    ensures
        play_at(m, events, n).slot == m.slot,
    decreases n,
{
    if n > 0 {
        lemma_slot(m, events, (n - 1) as nat);
    }
}

/// A decoder that was started is always attached, in the slot that was asked
/// for, whichever that is, and nothing else is done about it.
pub proof fn law_started_decoder_is_attached(m: PlayModel)
    requires
        m.phase is Starting,
    ensures
        awaited(m, PlayEvent::Started),
        step_on(m, PlayEvent::Started) == PlayStep::Attach(m.slot),
        play_after(m, PlayEvent::Started).phase is Attaching,
        play_after(m, PlayEvent::Started).slot == m.slot,
{
}

/// A web address is looked up before anything is started, with or without a
/// decoder. Everything else is started as it was given, and without a decoder
/// nothing is.
pub proof fn law_play_begins(m: PlayModel, task: TaskModel)
    requires
        m.phase is Beginning,
        m.task == Some(task),
    ensures
        ({
            let step = step_on(m, PlayEvent::Begun);
            let after = play_after(m, PlayEvent::Begun);
            &&& awaited(m, PlayEvent::Begun)
            &&& after.slot == m.slot
            &&& is_remote(task.url) ==> {
                &&& step == PlayStep::LookUp(lookup_texts(task.url))
                &&& after.phase is LookingUp
                &&& after.task == m.task
            }
            &&& !is_remote(task.url) ==> after.task is None
            &&& !is_remote(task.url) && task.settings is None ==> step is Done && after.phase
                is Ended
            &&& !is_remote(task.url) ==> (task.settings matches Some(settings) ==> step
                == PlayStep::Start(decoder_args(settings, task.url)) && after.phase is Starting)
        }),
{
}

/// Once a page was looked up, what was found is started. A page is started as
/// it was given when the helper program could not be run, and nothing is when
/// there is nothing to play in its output, or no decoder.
pub proof fn law_play_goes_on_after_lookup(m: PlayModel, task: TaskModel, output: Vec<u8>)
    requires
        m.phase is LookingUp,
        m.task == Some(task),
    ensures
        ({
            let found = PlayEvent::LookedUp(Some(output));
            let missed = PlayEvent::LookedUp(None);
            &&& awaited(m, found) && awaited(m, missed)
            &&& play_after(m, found).task is None && play_after(m, missed).task is None
            &&& play_after(m, found).slot == m.slot && play_after(m, missed).slot == m.slot
            &&& task.settings is None ==> {
                &&& step_on(m, found) is Done && play_after(m, found).phase is Ended
                &&& step_on(m, missed) is Done && play_after(m, missed).phase is Ended
            }
            &&& !output_is_playable(output@) ==> step_on(m, found) is Done && play_after(
                m,
                found,
            ).phase is Ended
            &&& task.settings matches Some(settings) ==> {
                &&& step_on(m, missed) == PlayStep::Start(decoder_args(settings, task.url))
                &&& play_after(m, missed).phase is Starting
                &&& output_is_playable(output@) ==> step_on(m, found) == PlayStep::Start(
                    found_args(settings, parsed_json(output@)->0),
                ) && play_after(m, found).phase is Starting
            }
        }),
{
}

/// Every failure is reported in its own words, a decoder's behind what failed,
/// and then the playing is over. It is over at once when the mixer has the
/// player.
pub proof fn law_play_ends_in_words(m: PlayModel, text: String)
    ensures
        m.phase is Starting ==> {
            let failed = PlayEvent::StartFailed(text);
            &&& awaited(m, failed)
            &&& step_on(m, failed) == PlayStep::Report("Play error: "@ + text@)
            &&& play_after(m, failed).phase is Reporting
        },
        m.phase is Attaching ==> {
            let failed = PlayEvent::AttachFailed(text);
            &&& awaited(m, failed) && awaited(m, PlayEvent::Attached)
            &&& step_on(m, failed) == PlayStep::Report(text@)
            &&& play_after(m, failed).phase is Reporting
            &&& step_on(m, PlayEvent::Attached) is Done
            &&& play_after(m, PlayEvent::Attached).phase is Ended
        },
        m.phase is Reporting ==> {
            &&& awaited(m, PlayEvent::Reported)
            &&& step_on(m, PlayEvent::Reported) is Done
            &&& play_after(m, PlayEvent::Reported).phase is Ended
        },
{
}

/// Playing waits for the outcome of what was done last and for nothing else.
pub proof fn law_play_waits_for_one_thing(m: PlayModel, event: PlayEvent)
    ensures
        m.phase is Beginning ==> (awaited(m, event) <==> event is Begun),
        m.phase is LookingUp ==> (awaited(m, event) <==> event is LookedUp),
        m.phase is Starting ==> (awaited(m, event) <==> event is Started || event is StartFailed),
        m.phase is Attaching ==> (awaited(m, event) <==> event is Attached || event
            is AttachFailed),
        m.phase is Reporting ==> (awaited(m, event) <==> event is Reported),
        m.phase is Ended ==> !awaited(m, event),
        m.phase is Beginning || m.phase is LookingUp ==> (play_inv(m) <==> m.task is Some),
        !(m.phase is Beginning) && !(m.phase is LookingUp) ==> (play_inv(m) <==> m.task is None),
{
}

/// An action asks for what it holds, word for word.
pub proof fn law_actions_word_for_word(args: Vec<String>, slot: usize, message: String, i: int)
    ensures
        PlayAction::Attach(slot)@ == PlayStep::Attach(slot),
        PlayAction::Report(message)@ == PlayStep::Report(message@),
        PlayAction::Done@ is Done,
        PlayAction::LookUp(args)@ matches PlayStep::LookUp(words) ==> words.len() == args@.len()
            && (0 <= i < args@.len() ==> words[i] == args@[i]@),
        PlayAction::LookUp(args)@ is LookUp,
        PlayAction::Start(args)@ matches PlayStep::Start(words) ==> words.len() == args@.len()
            && (0 <= i < args@.len() ==> words[i] == args@[i]@),
        PlayAction::Start(args)@ is Start,
{
}

} // verus!
