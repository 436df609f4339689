//! The concurrent-subprocess status line: the command description a child is
//! spawned from, the closed set of text styles, and the state machine that
//! folds the child's interleaved output lines into one rendered line. The
//! driving loop (spawning the child and waiting on its two streams) lives
//! outside the library; it feeds every stream event through `step` and
//! performs the returned action, stopping exactly when `step` says to.

use vstd::prelude::*;

use crate::text::spec_contains_substr;

verus! {

/// A program name together with its arguments, ready to be turned into a
/// spawned child process.
pub struct CommandParts {
    pub program: String,
    pub args: Vec<String>,
}

impl Clone for CommandParts {
    fn clone(&self) -> (r: Self)
        ensures
            r.program@ == self.program@,
            r.args@.map_values(|s: String| s@) == self.args@.map_values(|s: String| s@),
    {
        CommandParts::new(&self.program, &self.args)
    }
}

impl CommandParts {
    /// The argument list.
    pub fn args(&self) -> (r: &Vec<String>)
        ensures
            r@ == self.args@,
    {
        &self.args
    }

    /// Copy a program name and argument list into a command description.
    pub fn new(program: &String, args: &Vec<String>) -> (r: Self)
        ensures
            r.program@ == program@,
            r.args@.map_values(|s: String| s@) == args@.map_values(|s: String| s@),
    {
        let mut copied: Vec<String> = Vec::new();
        let n = args.len();
        let mut i: usize = 0;
        while i < n
            invariant
                0 <= i <= n,
                n == args@.len(),
                copied@.len() == i,
                forall|j: int| 0 <= j < i ==> copied@[j]@ == args@[j]@,
            decreases n - i,
        {
            copied.push(args[i].clone());
            i = i + 1;
        }
        proof {
            assert(copied@.map_values(|s: String| s@) =~= args@.map_values(|s: String| s@));
        }
        CommandParts { program: program.clone(), args: copied }
    }

    /// The program name.
    pub fn program(&self) -> (r: String)
        ensures
            r@ == self.program@,
    {
        self.program.clone()
    }
}

/// The closed set of text styles a status line draws from; which concrete
/// escape codes each one maps to is presentation, not semantics.
#[derive(Clone, Copy, PartialEq, Eq, Structural)]
pub enum StyleKind {
    /// Text rendered as it is.
    Plain,
    /// The style for ordinary output lines.
    Highlighted,
    /// The style for error-stream lines.
    Error,
    /// The style for the final completion message.
    Emphasis,
}

/// How a status line looks: the spinner frames the tick counter cycles
/// through, one style per source of text, and an optional message to print
/// once when the child is done.
pub struct Style {
    pub spinner: Vec<String>,
    pub stdout_style: StyleKind,
    pub stderr_style: StyleKind,
    pub message_style: StyleKind,
    pub end_message: Option<String>,
}

impl Style {
    /// Assemble a style from its parts.
    pub fn new(
        spinner: Vec<String>,
        stdout_style: StyleKind,
        stderr_style: StyleKind,
        message_style: StyleKind,
        end_message: Option<String>,
    ) -> (r: Self)
        ensures
            r.spinner@ == spinner@,
            r.stdout_style == stdout_style,
            r.stderr_style == stderr_style,
            r.message_style == message_style,
            r.end_message == end_message,
    {
        Style { spinner, stdout_style, stderr_style, message_style, end_message }
    }

    /// The spinner frame the tick counter `k` selects: frames cycle.
    pub fn spinner_frame(&self, k: usize) -> (r: String)
        requires
            self.spinner@.len() > 0,
        ensures
            r@ == self.spinner@[k as int % self.spinner@.len() as int]@,
    {
        let n = self.spinner.len();
        let frame = k % n;
        self.spinner[frame].clone()
    }
}

/// The ANSI reset sequence; styling wraps text in escape codes only when the
/// text does not itself contain this sequence.
pub open spec fn ansi_reset() -> Seq<char> {
    seq!['\u{1b}', '[', '0', 'm']
}

/// Relies on colored::Colorize::blue for &str and the Display of
/// ColoredString: when colors are enabled the input is written between a
/// style prefix and the reset suffix, otherwise unchanged; either way, input
/// that does not itself contain the reset sequence appears contiguously
/// between some prefix and suffix.
#[verifier::external_body]
fn blue_text(s: &str) -> (r: String)
    ensures
        !spec_contains_substr(s@, ansi_reset()) ==> exists|pre: Seq<char>, suf: Seq<char>|
            r@ == pre + s@ + suf,
{
    colored::Colorize::blue(s).to_string()
}

/// Relies on colored::Colorize::yellow for &str and the Display of
/// ColoredString, exactly as `blue_text` relies on blue.
#[verifier::external_body]
fn yellow_text(s: &str) -> (r: String)
    ensures
        !spec_contains_substr(s@, ansi_reset()) ==> exists|pre: Seq<char>, suf: Seq<char>|
            r@ == pre + s@ + suf,
{
    colored::Colorize::yellow(s).to_string()
}

/// Relies on colored::Colorize::bold for &str, colored::Colorize::truecolor
/// for ColoredString (both keep the input text and only set style fields),
/// and the Display of ColoredString, exactly as `blue_text` relies on blue.
#[verifier::external_body]
fn emphasis_text(s: &str) -> (r: String)
    ensures
        !spec_contains_substr(s@, ansi_reset()) ==> exists|pre: Seq<char>, suf: Seq<char>|
            r@ == pre + s@ + suf,
{
    colored::Colorize::truecolor(colored::Colorize::bold(s), 127, 90, 182).to_string()
}

/// Render `s` in the given style: plain text is returned unchanged, and any
/// style keeps text free of the reset sequence contiguous in its result.
pub fn styled_text(kind: StyleKind, s: &str) -> (r: String)
    ensures
        !spec_contains_substr(s@, ansi_reset()) ==> exists|pre: Seq<char>, suf: Seq<char>|
            r@ == pre + s@ + suf,
        kind is Plain ==> r@ == s@,
{
    match kind {
        StyleKind::Plain => {
            let r = s.to_owned();
            proof {
                assert(r@ =~= Seq::<char>::empty() + s@ + Seq::<char>::empty());
            }
            r
        },
        StyleKind::Highlighted => blue_text(s),
        StyleKind::Error => yellow_text(s),
        StyleKind::Emphasis => emphasis_text(s),
    }
}

/// The most recent line the child produced, tagged by stream; `Idle` before
/// the first line arrives.
pub enum Message {
    StdOut(String),
    StdErr(String),
    Idle,
}

/// The text a message carries.
pub open spec fn spec_message_text(m: Message) -> Seq<char> {
    match m {
        Message::StdOut(s) => s@,
        Message::StdErr(s) => s@,
        Message::Idle => Seq::empty(),
    }
}

/// Two messages agree: same stream tag, same text.
pub open spec fn spec_message_like(a: Message, b: Message) -> bool {
    match (a, b) {
        (Message::StdOut(x), Message::StdOut(y)) => x@ == y@,
        (Message::StdErr(x), Message::StdErr(y)) => x@ == y@,
        (Message::Idle, Message::Idle) => true,
        _ => false,
    }
}

impl Clone for Message {
    fn clone(&self) -> (r: Self)
        ensures
            spec_message_like(r, *self),
    {
        match self {
            Message::StdOut(s) => Message::StdOut(s.clone()),
            Message::StdErr(s) => Message::StdErr(s.clone()),
            Message::Idle => Message::Idle,
        }
    }
}

/// What one supervision session shows: a monotonically advancing tick
/// counter selecting the animation frame, and the most recent message.
pub struct RenderState {
    pub message: Message,
    pub ticker: usize,
}

impl RenderState {
    /// A fresh session: idle, tick counter at zero.
    pub fn new() -> (r: RenderState)
        ensures
            r.message is Idle,
            r.ticker == 0,
    {
        RenderState { message: Message::Idle, ticker: 0 }
    }

    /// Advance the tick counter (wrapping at the machine limit) and return
    /// its previous value.
    pub fn tick(&mut self) -> (prev: usize)
        ensures
            prev == old(self).ticker,
            final(self).message == old(self).message,
            final(self).ticker == (if old(self).ticker == usize::MAX {
                0usize
            } else {
                (old(self).ticker + 1) as usize
            }),
    {
        let prev = self.ticker;
        if self.ticker == usize::MAX {
            self.ticker = 0;
        } else {
            self.ticker = self.ticker + 1;
        }
        prev
    }

    /// Replace the current message.
    pub fn update_message(&mut self, msg: &Message)
        ensures
            final(self).ticker == old(self).ticker,
            spec_message_like(final(self).message, *msg),
    {
        self.message = msg.clone();
    }

    /// The spinner frame the current tick selects.
    pub fn get_frame(&self, style: &Style) -> (r: String)
        requires
            style.spinner@.len() > 0,
        ensures
            r@ == style.spinner@[self.ticker as int % style.spinner@.len() as int]@,
    {
        style.spinner_frame(self.ticker)
    }

    /// The full status line: the current spinner frame, a space, and the
    /// current message in the style its stream calls for. An idle state
    /// renders the frame and blank text; a line that does not contain the
    /// ANSI reset sequence appears contiguously in the rendering.
    pub fn display(&self, style: &Style) -> (r: String)
        requires
            style.spinner@.len() > 0,
        ensures
            ({
                let frame = style.spinner@[self.ticker as int % style.spinner@.len() as int]@;
                match self.message {
                    Message::Idle => r@ == frame + " "@,
                    Message::StdOut(m) => {
                        &&& !spec_contains_substr(m@, ansi_reset())
                            ==> exists|pre: Seq<char>, suf: Seq<char>|
                            r@ == frame + " "@ + pre + m@ + suf
                        &&& style.stdout_style is Plain ==> r@ == frame + " "@ + m@
                    },
                    Message::StdErr(m) => {
                        &&& !spec_contains_substr(m@, ansi_reset())
                            ==> exists|pre: Seq<char>, suf: Seq<char>|
                            r@ == frame + " "@ + pre + m@ + suf
                        &&& style.stderr_style is Plain ==> r@ == frame + " "@ + m@
                    },
                }
            }),
    {
        let styled = match &self.message {
            Message::StdOut(m) => styled_text(style.stdout_style, m.as_str()),
            Message::StdErr(m) => styled_text(style.stderr_style, m.as_str()),
            Message::Idle => String::new(),
        };
        let mut out = self.get_frame(style);
        out.append(" ");
        out.append(styled.as_str());
        proof {
            match &self.message {
                Message::Idle => {
                    assert(out@ =~= style.spinner@[self.ticker as int % style.spinner@.len()
                        as int]@ + " "@);
                },
                Message::StdOut(m) => {
                    if !spec_contains_substr(m@, ansi_reset()) {
                        let (pre, suf) = choose|pre: Seq<char>, suf: Seq<char>|
                            styled@ == pre + m@ + suf;
                        assert(out@ =~= style.spinner@[self.ticker as int % style.spinner@.len()
                            as int]@ + " "@ + pre + m@ + suf);
                    }
                    if style.stdout_style is Plain {
                        assert(out@ =~= style.spinner@[self.ticker as int % style.spinner@.len()
                            as int]@ + " "@ + m@);
                    }
                },
                Message::StdErr(m) => {
                    if !spec_contains_substr(m@, ansi_reset()) {
                        let (pre, suf) = choose|pre: Seq<char>, suf: Seq<char>|
                            styled@ == pre + m@ + suf;
                        assert(out@ =~= style.spinner@[self.ticker as int % style.spinner@.len()
                            as int]@ + " "@ + pre + m@ + suf);
                    }
                    if style.stderr_style is Plain {
                        assert(out@ =~= style.spinner@[self.ticker as int % style.spinner@.len()
                            as int]@ + " "@ + m@);
                    }
                },
            }
        }
        out
    }

    /// The styled completion message, if the style configures one; printed
    /// once by the driving loop after the session ends.
    pub fn rendered_end_message(&self, style: &Style) -> (r: Option<String>)
        ensures
            r is Some <==> style.end_message is Some,
            match (r, style.end_message) {
                (Some(line), Some(m)) => {
                    &&& !spec_contains_substr(m@, ansi_reset())
                        ==> exists|pre: Seq<char>, suf: Seq<char>| line@ == pre + m@ + suf
                    &&& style.message_style is Plain ==> line@ == m@
                },
                _ => true,
            },
    {
        match &style.end_message {
            None => None,
            Some(m) => Some(styled_text(style.message_style, m.as_str())),
        }
    }
}

/// One thing the driving loop observed on the child's streams: a line, the
/// end of a stream, or a transient read error.
pub enum StreamEvent {
    /// A line arrived on standard output.
    OutLine(String),
    /// Standard output reached end of stream: the child is done producing
    /// output.
    OutEnd,
    /// A read error on standard output; swallowed.
    OutFail,
    /// A line arrived on standard error.
    ErrLine(String),
    /// Standard error reached end of stream; the session keeps waiting on
    /// standard output.
    ErrEnd,
    /// A read error on standard error; swallowed.
    ErrFail,
}

/// What the driving loop must do after a step: rewrite the status line with
/// the given text, finish the session, or do nothing.
pub enum StepAction {
    Render(String),
    Finish,
    Ignore,
}

/// Advance the session by one observed event. A line on either stream
/// becomes the current message, advances the tick, and asks for a render
/// that contains the line (whenever the line is free of the ANSI reset
/// sequence); the end of standard output finishes the session; the end of
/// standard error and read errors on either stream change nothing. The
/// session therefore terminates as soon as the child closes its standard
/// output, and no line is ever dropped from rendering.
pub fn step(state: &mut RenderState, style: &Style, event: StreamEvent) -> (a: StepAction)
    requires
        style.spinner@.len() > 0,
    ensures
        match event {
            StreamEvent::OutLine(line) => {
                &&& spec_message_like(final(state).message, Message::StdOut(line))
                &&& final(state).ticker == (if old(state).ticker == usize::MAX {
                    0usize
                } else {
                    (old(state).ticker + 1) as usize
                })
                &&& match a {
                    StepAction::Render(r) => !spec_contains_substr(line@, ansi_reset())
                        ==> spec_contains_substr(r@, line@),
                    _ => false,
                }
            },
            StreamEvent::ErrLine(line) => {
                &&& spec_message_like(final(state).message, Message::StdErr(line))
                &&& final(state).ticker == (if old(state).ticker == usize::MAX {
                    0usize
                } else {
                    (old(state).ticker + 1) as usize
                })
                &&& match a {
                    StepAction::Render(r) => !spec_contains_substr(line@, ansi_reset())
                        ==> spec_contains_substr(r@, line@),
                    _ => false,
                }
            },
            StreamEvent::OutEnd => a is Finish && *final(state) == *old(state),
            _ => a is Ignore && *final(state) == *old(state),
        },
{
    match event {
        StreamEvent::OutLine(line) => {
            let msg = Message::StdOut(line);
            state.update_message(&msg);
            state.tick();
            let r = state.display(style);
            proof {
                lemma_concat_contains(r@, spec_message_text(msg));
            }
            StepAction::Render(r)
        },
        StreamEvent::ErrLine(line) => {
            let msg = Message::StdErr(line);
            state.update_message(&msg);
            state.tick();
            let r = state.display(style);
            proof {
                lemma_concat_contains(r@, spec_message_text(msg));
            }
            StepAction::Render(r)
        },
        StreamEvent::OutEnd => StepAction::Finish,
        StreamEvent::OutFail => StepAction::Ignore,
        StreamEvent::ErrEnd => StepAction::Ignore,
        StreamEvent::ErrFail => StepAction::Ignore,
    }
}

/// Text that stands between a prefix and a suffix occurs as a substring.
proof fn lemma_concat_contains(whole: Seq<char>, part: Seq<char>)
    ensures
        (exists|pre: Seq<char>, suf: Seq<char>| whole == pre + part + suf)
            ==> spec_contains_substr(whole, part),
{
    if exists|pre: Seq<char>, suf: Seq<char>| whole == pre + part + suf {
        let (pre, suf) = choose|pre: Seq<char>, suf: Seq<char>| whole == pre + part + suf;
        assert(whole.subrange(pre.len() as int, pre.len() as int + part.len() as int) =~= part);
    }
}

} // verus!
