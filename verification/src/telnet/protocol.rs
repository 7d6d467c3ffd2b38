//! Telnet byte-stream parser: strips IAC negotiation, surfaces NAWS
//! window-size updates, and yields real user-input bytes.

use vstd::prelude::*;

verus! {

// Telnet command bytes (RFC 854 / 1073).
pub const IAC: u8 = 255;

pub const DONT: u8 = 254;

pub const DO: u8 = 253;

pub const WONT: u8 = 252;

pub const WILL: u8 = 251;

pub const SB: u8 = 250;

pub const SE: u8 = 240;

pub const OPT_ECHO: u8 = 1;

pub const OPT_SGA: u8 = 3;

pub const OPT_NAWS: u8 = 31;

/// Hard cap on a subnegotiation payload's length. Real subnegotiations we
/// understand (NAWS) are a handful of bytes; this is generous headroom. A
/// client that sends `IAC SB` and then streams bytes forever without a
/// terminating `IAC SE` must not be able to grow the payload without bound.
pub const MAX_SUBNEG_LEN: usize = 64;

/// One parsed event from the client byte stream.
#[derive(Debug, Clone, Copy, PartialEq, Eq, Structural)]
pub enum TelnetEvent {
    /// A real user-input byte.
    Data(u8),
    /// A NAWS window-size update.
    WindowSize { cols: u16, rows: u16 },
    /// An observed WILL/WONT/DO/DONT negotiation (we don't act on these).
    Negotiation,
}

/// Where in the protocol the parser stands.
#[derive(Debug, Clone, Copy, PartialEq, Eq, Structural)]
pub enum State {
    /// Normal data flow.
    Data,
    /// Saw IAC, waiting for the command byte.
    Iac,
    /// Saw IAC + (WILL/WONT/DO/DONT), waiting for the option byte.
    Negotiate,
    /// Inside a subnegotiation (after IAC SB), collecting bytes until IAC SE.
    Subneg,
    /// Inside a subnegotiation and just saw IAC (waiting for SE or escaped IAC).
    SubnegIac,
}

/// What a parser remembers between two bytes: its protocol state and the
/// subnegotiation payload collected so far.
#[verifier::ext_equal]
pub struct ParserModel {
    pub state: State,
    pub sb: Seq<u8>,
}

/// The window size that a completed subnegotiation payload announces, if it
/// is a NAWS payload: option byte, then columns and rows, high byte first.
pub open spec fn announced_size(sb: Seq<u8>) -> Option<TelnetEvent> {
    if sb.len() >= 5 && sb[0] == OPT_NAWS {
        Some(
            TelnetEvent::WindowSize {
                cols: (sb[1] * 256 + sb[2]) as u16,
                rows: (sb[3] * 256 + sb[4]) as u16,
            },
        )
    } else {
        None
    }
}

/// The payload `sb` with `b` added; a full payload is abandoned instead.
pub open spec fn collect(sb: Seq<u8>, b: u8) -> ParserModel {
    if sb.len() >= MAX_SUBNEG_LEN {
        ParserModel { state: State::Data, sb: Seq::empty() }
    } else {
        ParserModel { state: State::Subneg, sb: sb.push(b) }
    }
}

/// One byte of input: the parser afterwards, and the event it gives rise to.
pub open spec fn step(m: ParserModel, b: u8) -> (ParserModel, Option<TelnetEvent>) {
    match m.state {
        State::Data => if b == IAC {
            (ParserModel { state: State::Iac, ..m }, None)
        } else {
            (m, Some(TelnetEvent::Data(b)))
        },
        State::Iac => if b == IAC {
            (ParserModel { state: State::Data, ..m }, Some(TelnetEvent::Data(IAC)))
        } else if b == SB {
            (ParserModel { state: State::Subneg, sb: Seq::empty() }, None)
        } else if b == WILL || b == WONT || b == DO || b == DONT {
            (ParserModel { state: State::Negotiate, ..m }, None)
        } else {
            (ParserModel { state: State::Data, ..m }, None)
        },
        State::Negotiate => (
            ParserModel { state: State::Data, ..m },
            Some(TelnetEvent::Negotiation),
        ),
        State::Subneg => if b == IAC {
            (ParserModel { state: State::SubnegIac, ..m }, None)
        } else {
            (collect(m.sb, b), None)
        },
        State::SubnegIac => if b == IAC {
            (collect(m.sb, IAC), None)
        } else if b == SE {
            (ParserModel { state: State::Data, sb: Seq::empty() }, announced_size(m.sb))
        } else {
            (ParserModel { state: State::Data, sb: Seq::empty() }, None)
        },
    }
}

/// The parser after `bytes`.
pub open spec fn state_after(m: ParserModel, bytes: Seq<u8>) -> ParserModel
    decreases bytes.len(),
{
    if bytes.len() == 0 {
        m
    } else {
        step(state_after(m, bytes.drop_last()), bytes.last()).0
    }
}

/// The events that `bytes` give rise to, in order.
pub open spec fn events_of(m: ParserModel, bytes: Seq<u8>) -> Seq<TelnetEvent>
    decreases bytes.len(),
{
    if bytes.len() == 0 {
        Seq::empty()
    } else {
        let before = events_of(m, bytes.drop_last());
        match step(state_after(m, bytes.drop_last()), bytes.last()).1 {
            Some(e) => before.push(e),
            None => before,
        }
    }
}

/// A parser that has seen nothing.
pub open spec fn fresh() -> ParserModel {
    ParserModel { state: State::Data, sb: Seq::empty() }
}

/// Incremental telnet parser. Feed it raw socket bytes; get clean events.
pub struct TelnetParser {
    state: State,
    sb: Vec<u8>,
}

impl View for TelnetParser {
    type V = ParserModel;

    closed spec fn view(&self) -> ParserModel {
        ParserModel { state: self.state, sb: self.sb@ }
    }
}

impl TelnetParser {
    /// The payload never outgrows its cap.
    pub open spec fn capped(&self) -> bool {
        self@.sb.len() <= MAX_SUBNEG_LEN
    }

    pub fn new() -> (r: Self)
        ensures
            r@ == fresh(),
            r.capped(),
    {
        Self { state: State::Data, sb: Vec::new() }
    }

    /// The number of payload bytes held for an unfinished subnegotiation.
    pub fn pending_len(&self) -> (n: usize)
        ensures
            n == self@.sb.len(),
    {
        self.sb.len()
    }

    /// Consumes `bytes` and returns the events they complete.
    pub fn feed(&mut self, bytes: &[u8]) -> (out: Vec<TelnetEvent>)
        ensures
            final(self)@ == state_after(old(self)@, bytes@),
            out@ == events_of(old(self)@, bytes@),
            old(self).capped() ==> final(self).capped(),
    {
        let mut out: Vec<TelnetEvent> = Vec::new();
        let ghost start = self@;
        let mut i: usize = 0;
        proof {
            assert(bytes@.take(0) == Seq::<u8>::empty());
        }
        while i < bytes.len()
            invariant
                i <= bytes@.len(),
                self@ == state_after(start, bytes@.take(i as int)),
                out@ == events_of(start, bytes@.take(i as int)),
            decreases bytes@.len() - i,
        {
            let b: u8 = bytes[i];
            proof {
                assert(bytes@.take(i + 1).drop_last() == bytes@.take(i as int));
                assert(bytes@.take(i + 1).last() == b);
            }
            match self.state {
                State::Data => {
                    if b == IAC {
                        self.state = State::Iac;
                    } else {
                        out.push(TelnetEvent::Data(b));
                    }
                },
                State::Iac => {
                    if b == IAC {
                        // Escaped literal 0xFF.
                        out.push(TelnetEvent::Data(IAC));
                        self.state = State::Data;
                    } else if b == SB {
                        self.sb.clear();
                        self.state = State::Subneg;
                    } else if b == WILL || b == WONT || b == DO || b == DONT {
                        self.state = State::Negotiate;
                    } else {
                        // Standalone command (e.g. GA, NOP): ignore.
                        self.state = State::Data;
                    }
                },
                State::Negotiate => {
                    // The option byte; we don't act on peer negotiation.
                    out.push(TelnetEvent::Negotiation);
                    self.state = State::Data;
                },
                State::Subneg => {
                    if b == IAC {
                        self.state = State::SubnegIac;
                    } else {
                        self.collect_byte(b);
                    }
                },
                State::SubnegIac => {
                    if b == IAC {
                        // Escaped 0xFF inside the subnegotiation payload.
                        self.collect_byte(IAC);
                    } else {
                        if b == SE {
                            if let Some(ev) = parse_subneg(self.sb.as_slice()) {
                                out.push(ev);
                            }
                        }
                        self.sb.clear();
                        self.state = State::Data;
                    }
                },
            }
            i = i + 1;
        }
        proof {
            assert(bytes@.take(bytes@.len() as int) == bytes@);
            if start.sb.len() <= MAX_SUBNEG_LEN {
                payload_stays_capped(start, bytes@);
            }
        }
        out
    }

    /// Adds a payload byte. A payload that is already full (no terminating
    /// IAC SE in sight) is abandoned, and normal data parsing resumes.
    fn collect_byte(&mut self, b: u8)
        ensures
            final(self)@ == collect(old(self)@.sb, b),
    {
        if self.sb.len() >= MAX_SUBNEG_LEN {
            self.sb.clear();
            self.state = State::Data;
        } else {
            self.sb.push(b);
            self.state = State::Subneg;
        }
    }
}

impl Default for TelnetParser {
    fn default() -> (r: Self)
        ensures
            r@ == fresh(),
    {
        TelnetParser::new()
    }
}

/// Parse a completed subnegotiation payload (option byte + data).
pub fn parse_subneg(sb: &[u8]) -> (r: Option<TelnetEvent>)
    ensures
        r == announced_size(sb@),
{
    if sb.len() >= 5 && sb[0] == OPT_NAWS {
        let cols: u16 = sb[1] as u16 * 256 + sb[2] as u16;
        let rows: u16 = sb[3] as u16 * 256 + sb[4] as u16;
        return Some(TelnetEvent::WindowSize { cols, rows });
    }
    None
}

/// Bytes the server sends on connect: take over echo, suppress go-ahead,
/// and ask the client for its window size.
pub fn initial_negotiation() -> (r: Vec<u8>)
    ensures
        r@ == seq![IAC, WILL, OPT_ECHO, IAC, WILL, OPT_SGA, IAC, DO, OPT_NAWS],
{
    vec![IAC, WILL, OPT_ECHO, IAC, WILL, OPT_SGA, IAC, DO, OPT_NAWS]
}

/// Where a byte stream is cut into pieces makes no difference: feeding `a`
/// and then `b` leaves the parser as feeding both at once does, and the
/// events are the same ones in the same order.
pub proof fn feeding_in_pieces(m: ParserModel, a: Seq<u8>, b: Seq<u8>)
    ensures
        state_after(m, a + b) == state_after(state_after(m, a), b),
        events_of(m, a + b) == events_of(m, a) + events_of(state_after(m, a), b),
    decreases b.len(),
{
    if b.len() == 0 {
        assert(a + b == a);
    } else {
        feeding_in_pieces(m, a, b.drop_last());
        assert((a + b).drop_last() == a + b.drop_last());
        assert((a + b).last() == b.last());
    }
}

/// No input makes a payload outgrow its cap.
pub proof fn payload_stays_capped(m: ParserModel, bytes: Seq<u8>)
    requires
        m.sb.len() <= MAX_SUBNEG_LEN,
    ensures
        state_after(m, bytes).sb.len() <= MAX_SUBNEG_LEN,
    decreases bytes.len(),
{
    if bytes.len() > 0 {
        payload_stays_capped(m, bytes.drop_last());
    }
}

/// A subnegotiation that keeps sending payload bytes past the cap is left
/// behind: the byte that finds the payload full is dropped, and every byte
/// after it is ordinary input again.
pub proof fn runaway_subnegotiation_recovers(sb: Seq<u8>, bytes: Seq<u8>)
    requires
        sb.len() + bytes.len() > MAX_SUBNEG_LEN,
        sb.len() <= MAX_SUBNEG_LEN,
        forall|i: int| 0 <= i < bytes.len() ==> bytes[i] != IAC,
    ensures
        state_after(ParserModel { state: State::Subneg, sb }, bytes) == fresh(),
        events_of(ParserModel { state: State::Subneg, sb }, bytes) == bytes.skip(
            MAX_SUBNEG_LEN - sb.len() + 1,
        ).map_values(|b: u8| TelnetEvent::Data(b)),
    decreases bytes.len(),
{
    let m = ParserModel { state: State::Subneg, sb };
    let room = MAX_SUBNEG_LEN - sb.len();
    let head = bytes.take(room);
    payload_fills(sb, head);
    let tail = bytes.skip(room + 1);
    let upto = bytes.take(room + 1);
    assert(upto.drop_last() == head);
    assert(upto.last() == bytes[room]);
    assert(state_after(m, upto) == fresh());
    assert(events_of(m, upto) == Seq::<TelnetEvent>::empty());
    plain_data_passes_through(tail);
    feeding_in_pieces(m, upto, tail);
    assert(upto + tail == bytes);
}

/// Payload bytes that fit are all kept, and cause no event.
proof fn payload_fills(sb: Seq<u8>, bytes: Seq<u8>)
    requires
        sb.len() + bytes.len() <= MAX_SUBNEG_LEN,
        forall|i: int| 0 <= i < bytes.len() ==> bytes[i] != IAC,
    ensures
        state_after(ParserModel { state: State::Subneg, sb }, bytes) == (ParserModel {
            state: State::Subneg,
            sb: sb + bytes,
        }),
        events_of(ParserModel { state: State::Subneg, sb }, bytes) == Seq::<TelnetEvent>::empty(),
    decreases bytes.len(),
{
    if bytes.len() == 0 {
        assert(sb + bytes == sb);
    } else {
        payload_fills(sb, bytes.drop_last());
        assert((sb + bytes.drop_last()).push(bytes.last()) == sb + bytes);
    }
}

/// Input without command bytes comes out unchanged, byte for byte.
pub proof fn plain_data_passes_through(bytes: Seq<u8>)
    requires
        forall|i: int| 0 <= i < bytes.len() ==> bytes[i] != IAC,
    ensures
        state_after(fresh(), bytes) == fresh(),
        events_of(fresh(), bytes) == bytes.map_values(|b: u8| TelnetEvent::Data(b)),
    decreases bytes.len(),
{
    if bytes.len() > 0 {
        plain_data_passes_through(bytes.drop_last());
        assert(events_of(fresh(), bytes) == bytes.map_values(|b: u8| TelnetEvent::Data(b)));
    }
}

/// How a telnet peer writes arbitrary bytes: each 0xFF is sent twice.
pub open spec fn escaped(bytes: Seq<u8>) -> Seq<u8>
    decreases bytes.len(),
{
    if bytes.len() == 0 {
        Seq::empty()
    } else if bytes.last() == IAC {
        escaped(bytes.drop_last()).push(IAC).push(IAC)
    } else {
        escaped(bytes.drop_last()).push(bytes.last())
    }
}

/// The parser undoes the escaping: whatever bytes the peer meant come out as
/// data, each once.
pub proof fn escaped_data_round_trips(bytes: Seq<u8>)
    ensures
        state_after(fresh(), escaped(bytes)) == fresh(),
        events_of(fresh(), escaped(bytes)) == bytes.map_values(|b: u8| TelnetEvent::Data(b)),
    decreases bytes.len(),
{
    if bytes.len() > 0 {
        escaped_data_round_trips(bytes.drop_last());
        let e = escaped(bytes.drop_last());
        reveal_with_fuel(state_after, 3);
        reveal_with_fuel(events_of, 3);
        if bytes.last() == IAC {
            assert(escaped(bytes).drop_last() == e.push(IAC));
            assert(e.push(IAC).drop_last() == e);
        } else {
            assert(escaped(bytes).drop_last() == e);
        }
        assert(events_of(fresh(), escaped(bytes)) == bytes.map_values(
            |b: u8| TelnetEvent::Data(b),
        ));
    }
}

/// The same escaping inside a subnegotiation: a payload that fits is
/// collected as the peer meant it.
proof fn escaped_payload_fills(sb: Seq<u8>, bytes: Seq<u8>)
    requires
        sb.len() + bytes.len() <= MAX_SUBNEG_LEN,
    ensures
        state_after(ParserModel { state: State::Subneg, sb }, escaped(bytes)) == (ParserModel {
            state: State::Subneg,
            sb: sb + bytes,
        }),
        events_of(ParserModel { state: State::Subneg, sb }, escaped(bytes)) == Seq::<
            TelnetEvent,
        >::empty(),
    decreases bytes.len(),
{
    if bytes.len() == 0 {
        assert(sb + bytes == sb);
    } else {
        escaped_payload_fills(sb, bytes.drop_last());
        let e = escaped(bytes.drop_last());
        reveal_with_fuel(state_after, 3);
        reveal_with_fuel(events_of, 3);
        if bytes.last() == IAC {
            assert(escaped(bytes).drop_last() == e.push(IAC));
            assert(e.push(IAC).drop_last() == e);
        } else {
            assert(escaped(bytes).drop_last() == e);
        }
        assert((sb + bytes.drop_last()).push(bytes.last()) == sb + bytes);
    }
}

/// Every window size that a client announces, whatever its bytes, is
/// reported, and the parser is then back in normal data flow.
pub proof fn window_size_is_reported(cols: u16, rows: u16)
    ensures
        ({
            let payload = seq![
                OPT_NAWS,
                (cols / 256) as u8,
                (cols % 256) as u8,
                (rows / 256) as u8,
                (rows % 256) as u8,
            ];
            let bytes = seq![IAC, SB] + escaped(payload) + seq![IAC, SE];
            &&& state_after(fresh(), bytes) == fresh()
            &&& events_of(fresh(), bytes) == seq![TelnetEvent::WindowSize { cols, rows }]
        }),
{
    let payload = seq![
        OPT_NAWS,
        (cols / 256) as u8,
        (cols % 256) as u8,
        (rows / 256) as u8,
        (rows % 256) as u8,
    ];
    let open = seq![IAC, SB];
    let body = escaped(payload);
    let close = seq![IAC, SE];
    let begun = ParserModel { state: State::Subneg, sb: Seq::empty() };
    let filled = ParserModel { state: State::Subneg, sb: payload };
    reveal_with_fuel(state_after, 3);
    reveal_with_fuel(events_of, 3);
    assert(open.drop_last() == seq![IAC]);
    assert(state_after(fresh(), open) == begun);
    assert(events_of(fresh(), open) == Seq::<TelnetEvent>::empty());
    escaped_payload_fills(Seq::empty(), payload);
    assert(Seq::<u8>::empty() + payload == payload);
    assert(close.drop_last() == seq![IAC]);
    assert(state_after(filled, close) == fresh());
    assert(events_of(filled, close) == seq![TelnetEvent::WindowSize { cols, rows }]);
    feeding_in_pieces(fresh(), open, body);
    feeding_in_pieces(fresh(), open + body, close);
}

/// An offer or a request of the peer is noticed and leaves no input behind;
/// any other command is passed over.
pub proof fn commands_are_no_input(command: u8, option: u8)
    ensures
        251 <= command <= 254 ==> {
            &&& events_of(fresh(), seq![255u8, command, option]) == seq![TelnetEvent::Negotiation]
            &&& state_after(fresh(), seq![255u8, command, option]) == fresh()
        },
        command < 250 ==> {
            &&& events_of(fresh(), seq![255u8, command]) == Seq::<TelnetEvent>::empty()
            &&& state_after(fresh(), seq![255u8, command]) == fresh()
        },
{
    let one = seq![255u8];
    let two = seq![255u8, command];
    let three = seq![255u8, command, option];
    assert(one.drop_last() == Seq::<u8>::empty());
    assert(two.drop_last() == one);
    assert(three.drop_last() == two);
    reveal_with_fuel(state_after, 4);
    reveal_with_fuel(events_of, 4);
    if 251 <= command <= 254 {
        assert(events_of(fresh(), three) == seq![TelnetEvent::Negotiation]);
    }
}

/// Only a window size is taken from what a peer says of its options: another
/// option, or a payload that is cut short, announces nothing.
pub proof fn other_options_announce_nothing(sb: Seq<u8>)
    ensures
        sb.len() < 5 ==> announced_size(sb) is None,
        sb.len() > 0 && sb[0] != 31 ==> announced_size(sb) is None,
{
}

} // verus!
