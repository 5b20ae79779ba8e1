//! The presence state machine: it keeps the display state and turns each
//! message into the command the publishing client must carry out.
use vstd::prelude::*;
use crate::numeral::{altitude_of, altitude_thousands, speed_knots, speed_of};
use crate::telemetry::{SampleView, Telemetry, TelemetryEvent};
use crate::text::{
    chars_eq_str, chars_to_string, decimal_text, lower_of, lowercase, push_chars, push_decimal,
    push_str, push_two_digits, str_chars, subvec, two_digits,
};

verus! {

/// A wall-clock time of day.
#[derive(Clone, Copy, Debug, PartialEq, Eq)]
pub struct ClockTime {
    pub hour: u8,
    pub minute: u8,
    pub second: u8,
}

impl ClockTime {
    /// Each field is within its range.
    pub open spec fn wf(&self) -> bool {
        self.hour < 24 && self.minute < 60 && self.second < 60
    }
}

/// The status published to the presence service.
#[derive(Clone, Debug, PartialEq)]
pub struct Payload {
    pub headline: String,
    pub detail: Option<String>,
    pub asset_key: Option<String>,
    pub asset_label: Option<String>,
    pub session_start: i64,
}

/// What a `Payload` holds, as values.
pub struct PayloadView {
    pub headline: Seq<char>,
    pub detail: Option<Seq<char>>,
    pub asset_key: Option<Seq<char>>,
    pub asset_label: Option<Seq<char>>,
    pub session_start: i64,
}

/// The characters of an optional string.
pub open spec fn opt_view(s: Option<String>) -> Option<Seq<char>> {
    match s {
        Some(t) => Some(t@),
        None => None,
    }
}

impl View for Payload {
    type V = PayloadView;

    open spec fn view(&self) -> PayloadView {
        PayloadView {
            headline: self.headline@,
            detail: opt_view(self.detail),
            asset_key: opt_view(self.asset_key),
            asset_label: opt_view(self.asset_label),
            session_start: self.session_start,
        }
    }
}

/// What the publishing client is asked to do after a message.
#[derive(Clone, Debug, PartialEq)]
pub enum Command {
    Nothing,
    ConnectAndPublish(Payload),
    Publish(Payload),
    Close,
}

/// What a `Command` holds, as values.
pub enum CommandView {
    Nothing,
    ConnectAndPublish(PayloadView),
    Publish(PayloadView),
    Close,
}

impl View for Command {
    type V = CommandView;

    open spec fn view(&self) -> CommandView {
        match self {
            Command::Nothing => CommandView::Nothing,
            Command::ConnectAndPublish(p) => CommandView::ConnectAndPublish(p@),
            Command::Publish(p) => CommandView::Publish(p@),
            Command::Close => CommandView::Close,
        }
    }
}

/// An event or a user intent handed to the state machine.
#[derive(Clone, Debug, PartialEq)]
pub enum Message {
    CallsignChanged(String),
    ClientDisconnected,
    CloseRequested,
    Connect,
    TelemetryReceived(Telemetry),
}

/// What a `Message` holds, as values.
pub enum MessageView {
    CallsignChanged(Seq<char>),
    ClientDisconnected,
    CloseRequested,
    Connect,
    TelemetryReceived(SampleView),
}

impl View for Message {
    type V = MessageView;

    open spec fn view(&self) -> MessageView {
        match self {
            Message::CallsignChanged(s) => MessageView::CallsignChanged(s@),
            Message::ClientDisconnected => MessageView::ClientDisconnected,
            Message::CloseRequested => MessageView::CloseRequested,
            Message::Connect => MessageView::Connect,
            Message::TelemetryReceived(t) => MessageView::TelemetryReceived(t@),
        }
    }
}

impl Message {
    /// A sample carries numerals within the library's decimal range.
    pub open spec fn wf(&self) -> bool {
        self matches Message::TelemetryReceived(t) ==> t.wf()
    }

    /// The message that hands a decoded event to the state machine.
    pub fn from_event(e: TelemetryEvent) -> (r: Message)
        ensures
            r@ == match e@ {
                crate::telemetry::EventView::Sample(s) => MessageView::TelemetryReceived(s),
                crate::telemetry::EventView::Disconnected => MessageView::ClientDisconnected,
            },
            e matches TelemetryEvent::Sample(t) && t.wf() ==> r.wf(),
    {
        match e {
            TelemetryEvent::Sample(t) => Message::TelemetryReceived(t),
            TelemetryEvent::Disconnected => Message::ClientDisconnected,
        }
    }
}

/// The label a vehicle id has in the prettification table, if any.
pub open spec fn table_label(id: Seq<char>) -> Option<Seq<char>> {
    if id == "A-10C_2"@ {
        Some("A10-C"@)
    } else if id == "F-16C_50"@ {
        Some("F-16CM bl.50"@)
    } else {
        None
    }
}

/// The label shown for a vehicle: its table entry, or the id itself.
pub open spec fn vehicle_label(id: Seq<char>) -> Seq<char> {
    match table_label(id) {
        Some(l) => l,
        None => id,
    }
}

/// The human label of a vehicle id.
pub fn pretty_vehicle(id: &Vec<char>) -> (r: Vec<char>)
    ensures
        r@ == vehicle_label(id@),
{
    if chars_eq_str(id, "A-10C_2") {
        str_chars("A10-C")
    } else if chars_eq_str(id, "F-16C_50") {
        str_chars("F-16CM bl.50")
    } else {
        subvec(id, 0, id.len())
    }
}

/// The headline for a display name and a vehicle label; the simulator's
/// placeholder name counts as no name.
pub open spec fn headline_text(name: Seq<char>, label: Seq<char>) -> Seq<char> {
    if name == "New callsign"@ {
        "flying "@ + label
    } else {
        name + " in "@ + label
    }
}

/// The detail line for a sample: speed in knots and altitude in thousands
/// of feet, each rounded to a whole number.
pub open spec fn detail_text(s: SampleView) -> Seq<char> {
    let alt = decimal_text(altitude_thousands(s.alt_bar));
    decimal_text(speed_knots(s.ias)) + " knots at "@ + (if s.alt_bar.negative {
        seq!['-'] + alt
    } else {
        alt
    }) + "k feet"@
}

/// The name shown: the custom callsign if set, else the pilot's name.
pub open spec fn display_name(callsign: Option<Seq<char>>, pilot: Seq<char>) -> Seq<char> {
    match callsign {
        Some(c) => c,
        None => pilot,
    }
}

/// The payload published while no flight is shown.
pub open spec fn idle_payload(session_start: i64) -> PayloadView {
    PayloadView {
        headline: "Mission planning"@,
        detail: None,
        asset_key: None,
        asset_label: None,
        session_start,
    }
}

/// The payload published for a sample.
pub open spec fn sample_payload(
    callsign: Option<Seq<char>>,
    s: SampleView,
    session_start: i64,
) -> PayloadView {
    let label = vehicle_label(s.vehicle);
    PayloadView {
        headline: headline_text(display_name(callsign, s.name), label),
        detail: Some(detail_text(s)),
        asset_key: Some(lower_of(s.vehicle)),
        asset_label: Some(label),
        session_start,
    }
}

/// Builds the idle payload.
pub fn idle(session_start: i64) -> (r: Payload)
    ensures
        r@ == idle_payload(session_start),
{
    let headline = chars_to_string(&str_chars("Mission planning"));
    Payload { headline, detail: None, asset_key: None, asset_label: None, session_start }
}

/// Builds the payload for a sample.
pub fn sample(callsign: &Option<String>, t: &Telemetry, session_start: i64) -> (r: Payload)
    requires
        t.wf(),
    ensures
        r@ == sample_payload(opt_view(*callsign), t@, session_start),
{
    let vehicle = str_chars(t.vehicle.as_str());
    let label = pretty_vehicle(&vehicle);
    let name = match callsign {
        Some(c) => str_chars(c.as_str()),
        None => str_chars(t.name.as_str()),
    };
    let mut headline: Vec<char> = Vec::new();
    if chars_eq_str(&name, "New callsign") {
        push_str(&mut headline, "flying ");
    } else {
        push_chars(&mut headline, &name);
        push_str(&mut headline, " in ");
    }
    push_chars(&mut headline, &label);
    let mut detail: Vec<char> = Vec::new();
    push_decimal(&mut detail, speed_of(t.ias));
    push_str(&mut detail, " knots at ");
    if t.alt_bar.negative {
        detail.push('-');
    }
    push_decimal(&mut detail, altitude_of(t.alt_bar));
    push_str(&mut detail, "k feet");
    proof {
        let alt = decimal_text(altitude_thousands(t.alt_bar));
        if t.alt_bar.negative {
            assert(detail@ =~= decimal_text(speed_knots(t.ias)) + " knots at "@ + (seq!['-']
                + alt) + "k feet"@);
        } else {
            assert(detail@ =~= decimal_text(speed_knots(t.ias)) + " knots at "@ + alt
                + "k feet"@);
        }
    }
    Payload {
        headline: chars_to_string(&headline),
        detail: Some(chars_to_string(&detail)),
        asset_key: Some(lowercase(t.vehicle.as_str())),
        asset_label: Some(chars_to_string(&label)),
        session_start,
    }
}

/// What a `PresenceState` holds, as values.
pub struct StateView {
    pub connected: bool,
    pub last_update: Option<ClockTime>,
    pub callsign: Option<Seq<char>>,
    pub closed: bool,
    pub session_start: i64,
}

/// The state and command that follow a message received at `now`. Once
/// closed, nothing changes any more.
pub open spec fn step(s: StateView, m: MessageView, now: ClockTime) -> (StateView, CommandView) {
    if s.closed {
        (s, CommandView::Nothing)
    } else {
        match m {
            MessageView::Connect => (
                StateView { connected: true, ..s },
                CommandView::ConnectAndPublish(idle_payload(s.session_start)),
            ),
            MessageView::CallsignChanged(text) => (
                StateView {
                    callsign: if text.len() == 0 {
                        None
                    } else {
                        Some(text)
                    },
                    ..s
                },
                CommandView::Nothing,
            ),
            MessageView::TelemetryReceived(sample) => (
                StateView { last_update: Some(now), ..s },
                CommandView::Publish(sample_payload(s.callsign, sample, s.session_start)),
            ),
            MessageView::ClientDisconnected => (
                StateView { last_update: Some(now), ..s },
                CommandView::Publish(idle_payload(s.session_start)),
            ),
            MessageView::CloseRequested => (StateView { closed: true, ..s }, CommandView::Close),
        }
    }
}

/// The connection line for a link state.
pub open spec fn connection_text(connected: bool) -> Seq<char> {
    if connected {
        "Connected to discord."@
    } else {
        "Connecting to discord..."@
    }
}

/// A time of day as `hh:mm:ss`.
pub open spec fn clock_text(t: ClockTime) -> Seq<char> {
    two_digits(t.hour as nat) + seq![':'] + two_digits(t.minute as nat) + seq![':'] + two_digits(
        t.second as nat,
    )
}

/// The last-update line for the time of the last update, if any.
pub open spec fn update_text(last_update: Option<ClockTime>) -> Seq<char> {
    match last_update {
        Some(t) => "Last updated at "@ + clock_text(t),
        None => "Waiting for telemetry..."@,
    }
}

/// Clearing the callsign leaves none set, whatever was set before, and
/// clearing it again changes nothing.
pub proof fn lemma_clear_callsign(s: StateView, now: ClockTime, later: ClockTime)
    ensures
        !s.closed ==> step(s, MessageView::CallsignChanged(Seq::empty()), now).0.callsign is None,
        step(step(s, MessageView::CallsignChanged(Seq::empty()), now).0, MessageView::CallsignChanged(Seq::empty()), later)
            == step(s, MessageView::CallsignChanged(Seq::empty()), now),
{
}

/// A disconnect publishes the idle payload, headed "Mission planning",
/// from any open state, and keeps the link as it was.
pub proof fn lemma_disconnect_returns_idle(s: StateView, now: ClockTime)
    requires
        !s.closed,
    ensures
        step(s, MessageView::ClientDisconnected, now).1 == CommandView::Publish(idle_payload(s.session_start)),
        idle_payload(s.session_start).headline == "Mission planning"@,
        step(s, MessageView::ClientDisconnected, now).0.connected == s.connected,
{
}

/// Once a callsign is set, the next sample's headline names it instead of
/// the pilot.
pub proof fn lemma_callsign_overrides_pilot(
    s: StateView,
    callsign: Seq<char>,
    sample: SampleView,
    t1: ClockTime,
    t2: ClockTime,
)
    requires
        !s.closed,
        callsign.len() > 0,
    ensures
        ({
            let s1 = step(s, MessageView::CallsignChanged(callsign), t1).0;
            step(s1, MessageView::TelemetryReceived(sample), t2).1 == CommandView::Publish(
                sample_payload(Some(callsign), sample, s.session_start),
            )
        }),
        sample_payload(Some(callsign), sample, s.session_start).headline == headline_text(
            callsign,
            vehicle_label(sample.vehicle),
        ),
{
}

/// Whether handling the message reads the clock.
pub open spec fn needs_clock(m: MessageView) -> bool {
    m is TelemetryReceived || m is ClientDisconnected
}

/// The time of day used where a message does not read the clock.
pub open spec fn midnight() -> ClockTime {
    ClockTime { hour: 0, minute: 0, second: 0 }
}

/// The local clock could not be read.
#[derive(Clone, Copy, Debug, PartialEq, Eq)]
pub struct ClockUnavailable;

/// Relies on time's `OffsetDateTime::now_local`, and its `hour`, `minute`
/// and `second`, which stay below 24, 60 and 60; `None` where the local
/// offset cannot be determined.
#[verifier::external_body]
fn local_clock() -> (r: Option<ClockTime>)
    ensures
        r matches Some(t) ==> t.wf(),
{
    match time::OffsetDateTime::now_local() {
        Ok(t) => Some(ClockTime { hour: t.hour(), minute: t.minute(), second: t.second() }),
        Err(_) => None,
    }
}

/// The display state of the presence service.
pub struct PresenceState {
    connected: bool,
    last_update: Option<ClockTime>,
    callsign: Option<String>,
    closed: bool,
    session_start: i64,
}

impl View for PresenceState {
    type V = StateView;

    closed spec fn view(&self) -> StateView {
        StateView {
            connected: self.connected,
            last_update: self.last_update,
            callsign: opt_view(self.callsign),
            closed: self.closed,
            session_start: self.session_start,
        }
    }
}

impl PresenceState {
    /// A recorded update time is a valid time of day.
    pub closed spec fn wf(&self) -> bool {
        self.last_update matches Some(t) ==> t.wf()
    }

    /// The state at startup; `session_start` is the time, in seconds since
    /// the Unix epoch, shown as the start of every status.
    pub fn new(session_start: i64) -> (r: PresenceState)
        ensures
            r.wf(),
            r@ == (StateView {
                connected: false,
                last_update: None,
                callsign: None,
                closed: false,
                session_start,
            }),
    {
        PresenceState { connected: false, last_update: None, callsign: None, closed: false, session_start }
    }

    /// Handles a message received at `now`, and returns what the publishing
    /// client must do.
    pub fn apply(&mut self, message: Message, now: ClockTime) -> (r: Command)
        requires
            old(self).wf(),
            message.wf(),
            now.wf(),
        ensures
            final(self).wf(),
            (final(self)@, r@) == step(old(self)@, message@, now),
    {
        if self.closed {
            return Command::Nothing;
        }
        match message {
            Message::Connect => {
                self.connected = true;
                Command::ConnectAndPublish(idle(self.session_start))
            },
            Message::CallsignChanged(text) => {
                self.callsign = if text.as_str().is_empty() {
                    None
                } else {
                    Some(text)
                };
                Command::Nothing
            },
            Message::TelemetryReceived(t) => {
                self.last_update = Some(now);
                Command::Publish(sample(&self.callsign, &t, self.session_start))
            },
            Message::ClientDisconnected => {
                self.last_update = Some(now);
                Command::Publish(idle(self.session_start))
            },
            Message::CloseRequested => {
                self.closed = true;
                Command::Close
            },
        }
    }

    /// Handles a message, reading the local clock where the message needs
    /// the time; fails, and changes nothing, when the clock cannot be read.
    pub fn update(&mut self, message: Message) -> (r: Result<Command, ClockUnavailable>)
        requires
            old(self).wf(),
            message.wf(),
        ensures
            final(self).wf(),
            !needs_clock(message@) ==> (r matches Ok(c) && (final(self)@, c@) == step(
                old(self)@,
                message@,
                midnight(),
            )),
            needs_clock(message@) ==> match r {
                Ok(c) => exists|now: ClockTime| now.wf() && (final(self)@, c@) == step(old(self)@, message@, now),
                Err(_) => final(self)@ == old(self)@,
            },
    {
        let needs = match message {
            Message::TelemetryReceived(_) => true,
            Message::ClientDisconnected => true,
            _ => false,
        };
        if needs {
            match local_clock() {
                Some(now) => Ok(self.apply(message, now)),
                None => Err(ClockUnavailable),
            }
        } else {
            Ok(self.apply(message, ClockTime { hour: 0, minute: 0, second: 0 }))
        }
    }

    /// Whether the publishing link has been established.
    pub fn connected(&self) -> (r: bool)
        ensures
            r == self@.connected,
    {
        self.connected
    }

    /// When the last sample or disconnect arrived.
    pub fn last_update(&self) -> (r: Option<ClockTime>)
        ensures
            r == self@.last_update,
    {
        self.last_update
    }

    /// Whether the link has been closed for good.
    pub fn closed(&self) -> (r: bool)
        ensures
            r == self@.closed,
    {
        self.closed
    }

    /// The connection line shown by the shell.
    pub fn status_text(&self) -> (r: String)
        ensures
            r@ == connection_text(self@.connected),
    {
        if self.connected {
            chars_to_string(&str_chars("Connected to discord."))
        } else {
            chars_to_string(&str_chars("Connecting to discord..."))
        }
    }

    /// The last-update line shown by the shell.
    pub fn last_update_text(&self) -> (r: String)
        requires
            self.wf(),
        ensures
            r@ == update_text(self@.last_update),
    {
        match self.last_update {
            Some(t) => {
                let mut v = str_chars("Last updated at ");
                push_two_digits(&mut v, t.hour);
                v.push(':');
                push_two_digits(&mut v, t.minute);
                v.push(':');
                push_two_digits(&mut v, t.second);
                assert(v@ =~= "Last updated at "@ + clock_text(t));
                chars_to_string(&v)
            },
            None => chars_to_string(&str_chars("Waiting for telemetry...")),
        }
    }

    /// The custom callsign, or the empty string when none is set.
    pub fn callsign_text(&self) -> (r: String)
        ensures
            r@ == match self@.callsign {
                Some(c) => c,
                None => Seq::<char>::empty(),
            },
    {
        match &self.callsign {
            Some(c) => chars_to_string(&str_chars(c.as_str())),
            None => chars_to_string(&Vec::new()),
        }
    }
}

} // verus!
