use vstd::prelude::*;

use crate::message::{chat_text, joined_text, left_text, Message};

verus! {

/// The line sent to every new connection before it may join.
pub const USERNAME_PROMPT: &'static str = "Enter your username:";

/// Where one connection stands in its lifecycle.
pub enum Session {
    /// Connected; the username line has not arrived yet.
    AwaitingUsername,
    /// Joined under `username`; each line read is a chat message.
    Active { username: String },
    /// The read side has ended; nothing more happens.
    Terminated,
}

/// What reading the next line from the connection gave.
pub enum Input {
    /// A complete line of text.
    Line(String),
    /// The transport failed while reading.
    ReadError,
    /// The peer closed the stream.
    End,
}

/// What the session asks its driver to do after an input.
pub enum Step {
    /// Register the peer under `username`, then broadcast `announce` to the
    /// others.
    Join { username: String, announce: Message },
    /// Broadcast the message to the others.
    Broadcast(Message),
    /// Broadcast the farewell to the others, deregister, and stop.
    Leave(Message),
    /// Stop without announcing anything.
    Stop,
}

/// The mathematical state of a session.
pub enum SessionModel {
    AwaitingUsername,
    Active(Seq<char>),
    Terminated,
}

/// The mathematical form of an input.
pub enum InputModel {
    Line(Seq<char>),
    ReadError,
    End,
}

/// The mathematical form of a step: usernames and rendered message texts.
pub enum StepModel {
    Join(Seq<char>, Seq<char>),
    Broadcast(Seq<char>),
    Leave(Seq<char>),
    Stop,
}

impl View for Session {
    type V = SessionModel;

    open spec fn view(&self) -> SessionModel {
        match self {
            Session::AwaitingUsername => SessionModel::AwaitingUsername,
            Session::Active { username } => SessionModel::Active(username@),
            Session::Terminated => SessionModel::Terminated,
        }
    }
}

impl View for Input {
    type V = InputModel;

    open spec fn view(&self) -> InputModel {
        match self {
            Input::Line(l) => InputModel::Line(l@),
            Input::ReadError => InputModel::ReadError,
            Input::End => InputModel::End,
        }
    }
}

impl View for Step {
    type V = StepModel;

    open spec fn view(&self) -> StepModel {
        match self {
            Step::Join { username, announce } => StepModel::Join(username@, announce.text()),
            Step::Broadcast(m) => StepModel::Broadcast(m.text()),
            Step::Leave(m) => StepModel::Leave(m.text()),
            Step::Stop => StepModel::Stop,
        }
    }
}

/// One transition: the state after input `i` in state `s`, and the step asked
/// for. A connection that fails or closes before naming itself never joins,
/// so nothing is announced for it.
pub open spec fn transition(s: SessionModel, i: InputModel) -> (SessionModel, StepModel) {
    match s {
        SessionModel::AwaitingUsername => match i {
            InputModel::Line(name) => (
                SessionModel::Active(name),
                StepModel::Join(name, joined_text(name)),
            ),
            _ => (SessionModel::Terminated, StepModel::Stop),
        },
        SessionModel::Active(name) => match i {
            InputModel::Line(line) => (
                SessionModel::Active(name),
                StepModel::Broadcast(chat_text(name, line)),
            ),
            _ => (SessionModel::Terminated, StepModel::Leave(left_text(name))),
        },
        SessionModel::Terminated => (SessionModel::Terminated, StepModel::Stop),
    }
}

/// The final state and the steps asked for, in order, when `inputs` are fed
/// to a session in state `s`.
pub open spec fn run(s: SessionModel, inputs: Seq<InputModel>) -> (SessionModel, Seq<StepModel>)
    decreases inputs.len(),
{
    if inputs.len() == 0 {
        (s, seq![])
    } else {
        let (next, step) = transition(s, inputs[0]);
        let (last, steps) = run(next, inputs.drop_first());
        (last, seq![step] + steps)
    }
}

/// The inputs that deliver each of `lines` in turn.
pub open spec fn lines_in(lines: Seq<Seq<char>>) -> Seq<InputModel> {
    lines.map_values(|l: Seq<char>| InputModel::Line(l))
}

/// The chat broadcasts of `name` for each of `lines`, in the same order.
pub open spec fn chats_of(name: Seq<char>, lines: Seq<Seq<char>>) -> Seq<StepModel> {
    lines.map_values(|l: Seq<char>| StepModel::Broadcast(chat_text(name, l)))
}

/// An active session turns the lines it reads, in the order read, into chat
/// broadcasts in that same order, and stays active.
pub proof fn lemma_chats_keep_order(name: Seq<char>, lines: Seq<Seq<char>>)
    ensures
        run(SessionModel::Active(name), lines_in(lines)) == (
            SessionModel::Active(name),
            chats_of(name, lines),
        ),
    decreases lines.len(),
{
    if lines.len() > 0 {
        lemma_chats_keep_order(name, lines.drop_first());
        assert(lines_in(lines).drop_first() =~= lines_in(lines.drop_first()));
        assert(chats_of(name, lines) =~= seq![StepModel::Broadcast(chat_text(name, lines[0]))]
            + chats_of(name, lines.drop_first()));
    } else {
        assert(chats_of(name, lines) =~= seq![]);
    }
}

/// A terminated session asks for nothing but to stop, whatever it reads.
pub proof fn lemma_terminated_stays_silent(inputs: Seq<InputModel>)
    ensures
        run(SessionModel::Terminated, inputs) == (
            SessionModel::Terminated,
            Seq::new(inputs.len(), |j: int| StepModel::Stop),
        ),
    decreases inputs.len(),
{
    if inputs.len() > 0 {
        lemma_terminated_stays_silent(inputs.drop_first());
        assert(Seq::new(inputs.len(), |j: int| StepModel::Stop) =~= seq![StepModel::Stop]
            + Seq::new(inputs.drop_first().len(), |j: int| StepModel::Stop));
    } else {
        assert(Seq::new(inputs.len(), |j: int| StepModel::Stop) =~= seq![]);
    }
}

/// A connection that fails or closes before it names itself is never
/// announced: neither a join nor a leave, whatever follows.
pub proof fn lemma_no_announcement_before_join(first: InputModel, rest: Seq<InputModel>)
    requires
        !(first is Line),
    ensures
        run(SessionModel::AwaitingUsername, seq![first] + rest).1 == Seq::new(
            rest.len() + 1,
            |j: int| StepModel::Stop,
        ),
{
    let inputs = seq![first] + rest;
    assert(inputs.drop_first() =~= rest);
    lemma_terminated_stays_silent(rest);
    assert(Seq::new(rest.len() + 1, |j: int| StepModel::Stop) =~= seq![StepModel::Stop]
        + Seq::new(rest.len(), |j: int| StepModel::Stop));
}

/// A whole session: the username line, then chat lines, then a failed or
/// closed read. Its steps are the join announcement, one chat broadcast per
/// line in the order read, and the leave announcement, and it ends
/// terminated.
pub proof fn lemma_session_lifecycle(
    name: Seq<char>,
    lines: Seq<Seq<char>>,
    last: InputModel,
)
    requires
        !(last is Line),
    ensures
        run(
            SessionModel::AwaitingUsername,
            seq![InputModel::Line(name)] + lines_in(lines) + seq![last],
        ) == (
            SessionModel::Terminated,
            seq![StepModel::Join(name, joined_text(name))] + chats_of(name, lines) + seq![
                StepModel::Leave(left_text(name)),
            ],
        ),
{
    lemma_run_append(SessionModel::Active(name), lines_in(lines), seq![last]);
    lemma_chats_keep_order(name, lines);
    let ls = lines_in(lines) + seq![last];
    let inputs = seq![InputModel::Line(name)] + ls;
    assert(inputs.drop_first() =~= ls);
    assert(seq![InputModel::Line(name)] + lines_in(lines) + seq![last] =~= inputs);
    assert(seq![last].drop_first() =~= seq![]);
    let tail = run(SessionModel::Terminated, seq![last].drop_first());
    assert(tail == (SessionModel::Terminated, Seq::<StepModel>::empty()));
    assert(seq![StepModel::Leave(left_text(name))] + tail.1 =~= seq![
        StepModel::Leave(left_text(name)),
    ]);
    assert(run(SessionModel::Active(name), seq![last]) == (
        SessionModel::Terminated,
        seq![StepModel::Leave(left_text(name))],
    ));
    assert(run(SessionModel::Active(name), ls) == (
        SessionModel::Terminated,
        chats_of(name, lines) + seq![StepModel::Leave(left_text(name))],
    ));
    assert(run(SessionModel::AwaitingUsername, inputs).1 == seq![
        StepModel::Join(name, joined_text(name)),
    ] + run(SessionModel::Active(name), ls).1);
    assert(seq![StepModel::Join(name, joined_text(name))] + chats_of(name, lines) + seq![
        StepModel::Leave(left_text(name)),
    ] =~= seq![StepModel::Join(name, joined_text(name))] + (chats_of(name, lines) + seq![
        StepModel::Leave(left_text(name)),
    ]));
}

/// Feeding two runs of inputs one after the other is feeding them joined.
proof fn lemma_run_append(s: SessionModel, a: Seq<InputModel>, b: Seq<InputModel>)
    ensures
        run(s, a + b) == (run(run(s, a).0, b).0, run(s, a).1 + run(run(s, a).0, b).1),
    decreases a.len(),
{
    if a.len() == 0 {
        assert(a + b =~= b);
        assert(run(s, a).1 + run(s, b).1 =~= run(s, b).1);
    } else {
        let next = transition(s, a[0]).0;
        lemma_run_append(next, a.drop_first(), b);
        assert((a + b).drop_first() =~= a.drop_first() + b);
        assert((a + b)[0] == a[0]);
        let step = transition(s, a[0]).1;
        let t1 = run(next, a.drop_first()).1;
        let t2 = run(run(next, a.drop_first()).0, b).1;
        assert(seq![step] + (t1 + t2) =~= (seq![step] + t1) + t2);
    }
}

impl Session {
    pub fn new() -> (r: Session)
        ensures
            r@ == SessionModel::AwaitingUsername,
    {
        Session::AwaitingUsername
    }

    /// Advances the session by one input and says what the driver must do.
    pub fn step(&mut self, input: Input) -> (r: Step)
        ensures
            (final(self)@, r@) == transition(old(self)@, input@),
    {
        let mut current = Session::Terminated;
        std::mem::swap(self, &mut current);
        match current {
            Session::AwaitingUsername => match input {
                Input::Line(name) => {
                    let announce = Message::user_joined(name.as_str());
                    *self = Session::Active { username: name.clone() };
                    Step::Join { username: name, announce }
                },
                _ => Step::Stop,
            },
            Session::Active { username } => match input {
                Input::Line(line) => {
                    let m = Message::chat(username.as_str(), line.as_str());
                    *self = Session::Active { username };
                    Step::Broadcast(m)
                },
                _ => Step::Leave(Message::user_left(username.as_str())),
            },
            Session::Terminated => Step::Stop,
        }
    }
}

} // verus!
