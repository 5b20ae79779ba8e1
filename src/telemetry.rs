//! The telemetry line protocol: `bye`, or `telem ` followed by five
//! comma-separated fields (pilot, vehicle, airspeed, altitude, time).
use vstd::prelude::*;
use vstd::utf8::{valid_utf8, decode_utf8};
use crate::numeral::{
    Decimal, decimal_numeral, decimal_of, lemma_decimal_round_trip, lemma_u64_round_trip,
    parse_decimal, parse_u64, push_numeral, u64_of,
};
use crate::text::{
    chars_eq_str, chars_to_string, decimal_text, is_first, lemma_first_unique, push_decimal, push_str,
    split_once, split_once_at, str_chars,
};

verus! {

/// One telemetry sample as the simulator reports it.
#[derive(Clone, Debug, PartialEq)]
pub struct Telemetry {
    pub name: String,
    pub vehicle: String,
    pub ias: Decimal,
    pub alt_bar: Decimal,
    pub sim_time: u64,
}

/// What a `Telemetry` holds, as values.
pub struct SampleView {
    pub name: Seq<char>,
    pub vehicle: Seq<char>,
    pub ias: Decimal,
    pub alt_bar: Decimal,
    pub sim_time: u64,
}

impl View for Telemetry {
    type V = SampleView;

    open spec fn view(&self) -> SampleView {
        SampleView {
            name: self.name@,
            vehicle: self.vehicle@,
            ias: self.ias,
            alt_bar: self.alt_bar,
            sim_time: self.sim_time,
        }
    }
}

impl Telemetry {
    /// Both numerals are within the library's decimal range.
    pub open spec fn wf(&self) -> bool {
        self.ias.wf() && self.alt_bar.wf()
    }
}

/// An event decoded from one datagram.
#[derive(Clone, Debug, PartialEq)]
pub enum TelemetryEvent {
    Sample(Telemetry),
    Disconnected,
}

/// What a `TelemetryEvent` holds, as values.
pub enum EventView {
    Sample(SampleView),
    Disconnected,
}

impl View for TelemetryEvent {
    type V = EventView;

    open spec fn view(&self) -> EventView {
        match self {
            TelemetryEvent::Sample(t) => EventView::Sample(t@),
            TelemetryEvent::Disconnected => EventView::Disconnected,
        }
    }
}

/// The largest datagram that is decoded; longer ones are discarded.
pub const MAX_DATAGRAM: usize = 65527;

/// The comma-separated fields of `s`, empty ones included.
pub open spec fn fields(s: Seq<char>) -> Seq<Seq<char>>
    decreases s.len(),
{
    if s.len() == 0 {
        seq![Seq::<char>::empty()]
    } else {
        let p = fields(s.drop_last());
        if s.last() == ',' {
            p.push(Seq::<char>::empty())
        } else {
            p.update(p.len() - 1, p.last().push(s.last()))
        }
    }
}

/// There is always at least one field.
pub proof fn lemma_fields_nonempty(s: Seq<char>)
    ensures
        fields(s).len() >= 1,
    decreases s.len(),
{
    if s.len() > 0 {
        lemma_fields_nonempty(s.drop_last());
    }
}

/// The sample that the body of a `telem` line describes, if it is well formed.
pub open spec fn sample_of(rest: Seq<char>) -> Option<SampleView> {
    let f = fields(rest);
    if f.len() == 5 && decimal_of(f[2]) is Some && decimal_of(f[3]) is Some && u64_of(f[4]) is Some {
        Some(
            SampleView {
                name: f[0],
                vehicle: f[1],
                ias: decimal_of(f[2])->0,
                alt_bar: decimal_of(f[3])->0,
                sim_time: u64_of(f[4])->0,
            },
        )
    } else {
        None
    }
}

/// The event a line stands for, or `None` for a line to be discarded.
pub open spec fn line_event(line: Seq<char>) -> Option<EventView> {
    if line == "bye"@ {
        Some(EventView::Disconnected)
    } else {
        match split_once(line, ' ') {
            Some((cmd, rest)) => if cmd == "telem"@ {
                match sample_of(rest) {
                    Some(s) => Some(EventView::Sample(s)),
                    None => None,
                }
            } else {
                None
            },
            None => None,
        }
    }
}

/// The event a datagram stands for: its bytes must be UTF-8 and within
/// `MAX_DATAGRAM`.
pub open spec fn datagram_event(b: Seq<u8>) -> Option<EventView> {
    if b.len() <= MAX_DATAGRAM && valid_utf8(b) {
        line_event(decode_utf8(b))
    } else {
        None
    }
}

/// Whether `s` holds no comma.
pub open spec fn no_comma(s: Seq<char>) -> bool {
    forall|i: int| 0 <= i < s.len() ==> s[i] != ','
}

/// The `telem` line that carries the five given fields.
pub open spec fn telem_line(
    name: Seq<char>,
    vehicle: Seq<char>,
    ias: Seq<char>,
    alt_bar: Seq<char>,
    sim_time: Seq<char>,
) -> Seq<char> {
    "telem"@ + seq![' '] + (name + seq![','] + vehicle + seq![','] + ias + seq![','] + alt_bar
        + seq![','] + sim_time)
}

/// Text without a comma is a single field.
pub proof fn lemma_fields_plain(t: Seq<char>)
    requires
        no_comma(t),
    ensures
        fields(t) == seq![t],
    decreases t.len(),
{
    if t.len() > 0 {
        lemma_fields_plain(t.drop_last());
        assert(t.drop_last().push(t.last()) =~= t);
        assert(fields(t) =~= seq![t]);
    } else {
        assert(t =~= Seq::<char>::empty());
    }
}

/// The fields on either side of a comma follow each other.
pub proof fn lemma_fields_concat(x: Seq<char>, y: Seq<char>)
    ensures
        fields(x + seq![','] + y) == fields(x) + fields(y),
    decreases y.len(),
{
    let z = x + seq![','] + y;
    if y.len() == 0 {
        assert(z.drop_last() =~= x);
        assert(fields(z) =~= fields(x) + fields(y));
    } else {
        assert(z.drop_last() =~= x + seq![','] + y.drop_last());
        lemma_fields_concat(x, y.drop_last());
        lemma_fields_nonempty(y.drop_last());
        lemma_fields_nonempty(x);
        assert(fields(z) =~= fields(x) + fields(y));
    }
}

/// A `telem` line whose five fields are well formed decodes to a sample
/// holding exactly those fields.
pub proof fn lemma_telem_line_decodes(
    name: Seq<char>,
    vehicle: Seq<char>,
    ias: Seq<char>,
    alt_bar: Seq<char>,
    sim_time: Seq<char>,
)
    requires
        no_comma(name),
        no_comma(vehicle),
        no_comma(ias),
        no_comma(alt_bar),
        no_comma(sim_time),
        decimal_of(ias) is Some,
        decimal_of(alt_bar) is Some,
        u64_of(sim_time) is Some,
    ensures
        line_event(telem_line(name, vehicle, ias, alt_bar, sim_time)) == Some(
            EventView::Sample(
                SampleView {
                    name,
                    vehicle,
                    ias: decimal_of(ias)->0,
                    alt_bar: decimal_of(alt_bar)->0,
                    sim_time: u64_of(sim_time)->0,
                },
            ),
        ),
{
    reveal_strlit("telem");
    reveal_strlit("bye");
    let rest = name + seq![','] + vehicle + seq![','] + ias + seq![','] + alt_bar + seq![',']
        + sim_time;
    let line = telem_line(name, vehicle, ias, alt_bar, sim_time);
    assert(line[0] == 't');
    assert(line != "bye"@);
    assert(is_first(line, ' ', 5));
    let k = choose|k: int| is_first(line, ' ', k);
    lemma_first_unique(line, ' ', 5, k);
    assert(line.take(5) =~= "telem"@);
    assert(line.skip(6) =~= rest);
    lemma_fields_plain(name);
    lemma_fields_plain(vehicle);
    lemma_fields_plain(ias);
    lemma_fields_plain(alt_bar);
    lemma_fields_plain(sim_time);
    lemma_fields_concat(name, vehicle);
    lemma_fields_concat(name + seq![','] + vehicle, ias);
    lemma_fields_concat(name + seq![','] + vehicle + seq![','] + ias, alt_bar);
    lemma_fields_concat(name + seq![','] + vehicle + seq![','] + ias + seq![','] + alt_bar, sim_time);
    assert(fields(rest) =~= seq![name, vehicle, ias, alt_bar, sim_time]);
}

/// The line that carries a sample, in the form the simulator sends.
pub open spec fn sample_line(t: SampleView) -> Seq<char> {
    telem_line(
        t.name,
        t.vehicle,
        decimal_numeral(t.ias),
        decimal_numeral(t.alt_bar),
        decimal_text(t.sim_time as nat),
    )
}

/// Writes a sample as a `telem` line.
pub fn encode_line(t: &Telemetry) -> (r: String)
    requires
        t.wf(),
    ensures
        r@ == sample_line(t@),
{
    let mut v = str_chars("telem");
    v.push(' ');
    push_str(&mut v, t.name.as_str());
    v.push(',');
    push_str(&mut v, t.vehicle.as_str());
    v.push(',');
    push_numeral(&mut v, t.ias);
    v.push(',');
    push_numeral(&mut v, t.alt_bar);
    v.push(',');
    push_decimal(&mut v, t.sim_time as u128);
    assert(v@ =~= sample_line(t@));
    chars_to_string(&v)
}

/// Writing a sample as a line and decoding that line gives the sample back,
/// when its name and vehicle hold no comma.
pub proof fn lemma_sample_round_trip(t: SampleView)
    requires
        no_comma(t.name),
        no_comma(t.vehicle),
        t.ias.wf(),
        t.alt_bar.wf(),
    ensures
        line_event(sample_line(t)) == Some(EventView::Sample(t)),
{
    lemma_decimal_round_trip(t.ias);
    lemma_decimal_round_trip(t.alt_bar);
    lemma_u64_round_trip(t.sim_time);
    lemma_telem_line_decodes(
        t.name,
        t.vehicle,
        decimal_numeral(t.ias),
        decimal_numeral(t.alt_bar),
        decimal_text(t.sim_time as nat),
    );
}

/// Lines that break the grammar decode to no event: one with no space that
/// is not `bye`, one whose first word is not `telem`, and a `telem` line
/// without exactly five fields or with a numeric field that does not parse.
pub proof fn lemma_malformed_line(line: Seq<char>)
    ensures
        line != "bye"@ && (forall|i: int| 0 <= i < line.len() ==> line[i] != ' ')
            ==> line_event(line) is None,
        (line != "bye"@ && (split_once(line, ' ') matches Some((cmd, rest)) && cmd != "telem"@))
            ==> line_event(line) is None,
        (line != "bye"@ && (split_once(line, ' ') matches Some((cmd, rest)) && fields(rest).len()
            != 5)) ==> line_event(line) is None,
        (line != "bye"@ && (split_once(line, ' ') matches Some((cmd, rest)) && (decimal_of(
            fields(rest)[2],
        ) is None || decimal_of(fields(rest)[3]) is None || u64_of(fields(rest)[4]) is None)))
            ==> line_event(line) is None,
{
}

/// A datagram that is not valid UTF-8 decodes to no event.
pub proof fn lemma_invalid_utf8_discarded(b: Seq<u8>)
    requires
        !valid_utf8(b),
    ensures
        datagram_event(b) is None,
{
}

/// `bye` decodes to exactly one disconnect and no sample.
pub proof fn lemma_bye_disconnects()
    ensures
        line_event("bye"@) == Some(EventView::Disconnected),
{
}

/// Splits `s` at every comma, as `fields` describes.
pub fn split_fields(s: &Vec<char>) -> (r: Vec<Vec<char>>)
    ensures
        r.len() == fields(s@).len(),
        forall|i: int| 0 <= i < r.len() ==> #[trigger] r[i]@ == fields(s@)[i],
{
    let mut done: Vec<Vec<char>> = Vec::new();
    let mut cur: Vec<char> = Vec::new();
    let mut i: usize = 0;
    while i < s.len()
        invariant
            i <= s.len(),
            fields(s@.take(i as int)).len() == done.len() + 1,
            forall|k: int| 0 <= k < done.len() ==> #[trigger] done[k]@ == fields(s@.take(i as int))[k],
            cur@ == fields(s@.take(i as int))[done.len() as int],
        decreases s.len() - i,
    {
        proof {
            assert(s@.take(i + 1).drop_last() =~= s@.take(i as int));
            lemma_fields_nonempty(s@.take(i as int));
        }
        if s[i] == ',' {
            let piece = cur;
            done.push(piece);
            cur = Vec::new();
            assert(cur@ =~= Seq::<char>::empty());
        } else {
            cur.push(s[i]);
        }
        i = i + 1;
    }
    assert(s@.take(s.len() as int) =~= s@);
    done.push(cur);
    done
}

/// Decodes a sample body, as `sample_of` describes.
fn decode_sample(rest: &Vec<char>) -> (r: Option<Telemetry>)
    ensures
        match r {
            Some(t) => sample_of(rest@) == Some(t@) && t.wf(),
            None => sample_of(rest@) is None,
        },
{
    let f = split_fields(rest);
    if f.len() != 5 {
        return None;
    }
    let ias = parse_decimal(&f[2]);
    let alt_bar = parse_decimal(&f[3]);
    let sim_time = parse_u64(&f[4]);
    match (ias, alt_bar, sim_time) {
        (Some(ias), Some(alt_bar), Some(sim_time)) => {
            let name = chars_to_string(&f[0]);
            let vehicle = chars_to_string(&f[1]);
            Some(Telemetry { name, vehicle, ias, alt_bar, sim_time })
        },
        _ => None,
    }
}

/// Decodes one line of the protocol; a malformed line gives `None`.
pub fn decode_line(line: &str) -> (r: Option<TelemetryEvent>)
    ensures
        match r {
            Some(e) => line_event(line@) == Some(e@),
            None => line_event(line@) is None,
        },
        r matches Some(TelemetryEvent::Sample(t)) ==> t.wf(),
{
    let v = str_chars(line);
    if chars_eq_str(&v, "bye") {
        return Some(TelemetryEvent::Disconnected);
    }
    match split_once_at(&v, ' ') {
        Some((cmd, rest)) => {
            if chars_eq_str(&cmd, "telem") {
                match decode_sample(&rest) {
                    Some(t) => Some(TelemetryEvent::Sample(t)),
                    None => None,
                }
            } else {
                None
            }
        },
        None => None,
    }
}

/// Relies on `std::str::from_utf8`: it accepts exactly the valid UTF-8
/// byte strings, and the text it gives is what they encode.
#[verifier::external_body]
fn utf8_text(b: &[u8]) -> (r: Option<&str>)
    ensures
        match r {
            Some(s) => valid_utf8(b@) && s@ == decode_utf8(b@),
            None => !valid_utf8(b@),
        },
{
    std::str::from_utf8(b).ok()
}

/// Decodes one datagram; one that is too long, not UTF-8 or malformed
/// gives `None`.
pub fn decode_datagram(b: &[u8]) -> (r: Option<TelemetryEvent>)
    ensures
        match r {
            Some(e) => datagram_event(b@) == Some(e@),
            None => datagram_event(b@) is None,
        },
        r matches Some(TelemetryEvent::Sample(t)) ==> t.wf(),
{
    if b.len() > MAX_DATAGRAM {
        return None;
    }
    match utf8_text(b) {
        Some(line) => decode_line(line),
        None => None,
    }
}

} // verus!
