//! Scanner for the control sequences that PTY output reports to the terminal
//! window itself: OSC 7 working directories and modifyOtherKeys requests.

use vstd::prelude::*;
use vstd::utf8::*;

use crate::osc::{osc_payload_cwd, payload_cwd};
use crate::text::{bytes_equal, utf8_decode};

verus! {

/// The xterm modifyOtherKeys level requested by the application.
#[derive(Clone, Copy, PartialEq, Eq, Debug, Structural)]
pub enum ModifyOtherKeys {
    Reset,
    EnableExceptWellDefined,
    EnableAll,
}

/// Side effects observed while PTY output passes through to the parser.
#[derive(Debug, Clone, PartialEq, Eq)]
pub enum TapEvent {
    Cwd(String),
    ModifyOtherKeys(ModifyOtherKeys),
    QueryModifyOtherKeys,
}

/// A tap event with its directory taken as characters.
pub enum TapEventView {
    Cwd(Seq<char>),
    ModifyOtherKeys(ModifyOtherKeys),
    QueryModifyOtherKeys,
}

impl View for TapEvent {
    type V = TapEventView;

    open spec fn view(&self) -> TapEventView {
        match self {
            TapEvent::Cwd(s) => TapEventView::Cwd(s@),
            TapEvent::ModifyOtherKeys(m) => TapEventView::ModifyOtherKeys(*m),
            TapEvent::QueryModifyOtherKeys => TapEventView::QueryModifyOtherKeys,
        }
    }
}

/// Scanner state between two bytes.
#[derive(Clone, Copy, PartialEq, Eq, Debug, Structural)]
pub enum TapState {
    Normal,
    Esc,
    Osc,
    OscEsc,
    Csi,
}

/// Scanner model: state, OSC payload, CSI parameter bytes, CSI intermediate bytes.
pub type TapModel = (TapState, Seq<u8>, Seq<u8>, Seq<u8>);

/// Position of the first `;` in `s` at or after `from`, or `s.len()`.
pub open spec fn first_semicolon(s: Seq<u8>, from: int) -> int
    decreases s.len() - from,
{
    if from >= s.len() {
        s.len() as int
    } else if s[from] == 0x3b {
        from
    } else {
        first_semicolon(s, from + 1)
    }
}

/// The modifyOtherKeys level set by the parameters of `CSI > params m`:
/// the first field must be `4`; a missing or `0` second field resets, `1` and
/// `2` enable; anything else is not such a request.
pub open spec fn modify_other_keys_request(params: Seq<u8>) -> Option<ModifyOtherKeys> {
    let end1 = first_semicolon(params, 0);
    if params.take(end1) != seq![0x34u8] {
        None
    } else if end1 == params.len() {
        Some(ModifyOtherKeys::Reset)
    } else {
        let end2 = first_semicolon(params, end1 + 1);
        let second = params.subrange(end1 + 1, end2);
        if second == seq![0x30u8] {
            Some(ModifyOtherKeys::Reset)
        } else if second == seq![0x31u8] {
            Some(ModifyOtherKeys::EnableExceptWellDefined)
        } else if second == seq![0x32u8] {
            Some(ModifyOtherKeys::EnableAll)
        } else {
            None
        }
    }
}

/// The event reported by a CSI sequence ending in `final_byte`.
pub open spec fn csi_event(params: Seq<u8>, inter: Seq<u8>, final_byte: u8) -> Option<TapEventView> {
    if final_byte == 0x6d && inter == seq![0x3eu8] {
        match modify_other_keys_request(params) {
            Some(m) => Some(TapEventView::ModifyOtherKeys(m)),
            None => None,
        }
    } else if final_byte == 0x67 && inter == seq![0x3fu8] && params == seq![0x34u8] {
        Some(TapEventView::QueryModifyOtherKeys)
    } else {
        None
    }
}

/// The event reported by a finished OSC payload.
pub open spec fn osc_event(payload: Seq<u8>) -> Option<TapEventView> {
    match osc_payload_cwd(payload) {
        Some(p) => Some(TapEventView::Cwd(p)),
        None => None,
    }
}

/// One byte of the scanner.
pub open spec fn tap_step(m: TapModel, byte: u8) -> (TapModel, Option<TapEventView>) {
    let (st, osc, params, inter) = m;
    match st {
        TapState::Normal => (
            (if byte == 0x1b { TapState::Esc } else { TapState::Normal }, osc, params, inter),
            None,
        ),
        TapState::Esc => if byte == 0x5d {
            ((TapState::Osc, Seq::empty(), params, inter), None)
        } else if byte == 0x5b {
            ((TapState::Csi, osc, Seq::empty(), Seq::empty()), None)
        } else {
            ((TapState::Normal, osc, params, inter), None)
        },
        TapState::Osc => if byte == 0x07 {
            ((TapState::Normal, osc, params, inter), osc_event(osc))
        } else if byte == 0x1b {
            ((TapState::OscEsc, osc, params, inter), None)
        } else {
            ((TapState::Osc, osc.push(byte), params, inter), None)
        },
        TapState::OscEsc => if byte == 0x5c {
            ((TapState::Normal, osc, params, inter), osc_event(osc))
        } else {
            ((TapState::Osc, osc.push(0x1b).push(byte), params, inter), None)
        },
        TapState::Csi => if (0x41 <= byte <= 0x5a) || (0x61 <= byte <= 0x7a) || byte == 0x7e {
            ((TapState::Normal, osc, params, inter), csi_event(params, inter, byte))
        } else if (0x30 <= byte <= 0x39) || byte == 0x3b || byte == 0x3a {
            ((TapState::Csi, osc, params.push(byte), inter), None)
        } else if (0x20 <= byte <= 0x2f) || (0x3c <= byte <= 0x3f) {
            ((TapState::Csi, osc, params, inter.push(byte)), None)
        } else {
            ((TapState::Normal, osc, params, inter), None)
        },
    }
}

/// Scanning `data` from `m`: the final model and every event, in order.
pub open spec fn tap_run(m: TapModel, data: Seq<u8>) -> (TapModel, Seq<TapEventView>)
    decreases data.len(),
{
    if data.len() == 0 {
        (m, Seq::empty())
    } else {
        let (m1, events) = tap_run(m, data.drop_last());
        let (m2, found) = tap_step(m1, data.last());
        (m2, match found {
            Some(e) => events.push(e),
            None => events,
        })
    }
}

/// Incremental scanner for OSC 7 and modifyOtherKeys control sequences in PTY output.
pub struct PtyOutputTap {
    state: TapState,
    osc_payload: Vec<u8>,
    csi_params: Vec<u8>,
    csi_intermediate: Vec<u8>,
}

impl View for PtyOutputTap {
    type V = TapModel;

    closed spec fn view(&self) -> TapModel {
        (self.state, self.osc_payload@, self.csi_params@, self.csi_intermediate@)
    }
}

impl Default for PtyOutputTap {
    fn default() -> (r: Self)
        ensures
            r@ == (TapState::Normal, Seq::<u8>::empty(), Seq::<u8>::empty(), Seq::<u8>::empty()),
    {
        PtyOutputTap {
            state: TapState::Normal,
            osc_payload: Vec::new(),
            csi_params: Vec::new(),
            csi_intermediate: Vec::new(),
        }
    }
}

/// Decodes an OSC payload as UTF-8; `None` for malformed bytes.
pub fn validated_utf8(payload: &[u8]) -> (r: Option<&str>)
    ensures
        r is Some <==> valid_utf8(payload@),
        r matches Some(s) ==> s@ == decode_utf8(payload@),
{
    utf8_decode(payload)
}

fn semicolon_from(s: &[u8], from: usize) -> (r: usize)
    requires
        from <= s@.len(),
    ensures
        r == first_semicolon(s@, from as int),
        from <= r <= s@.len(),
{
    let mut i = from;
    while i < s.len()
        invariant
            from <= i <= s@.len(),
            first_semicolon(s@, from as int) == first_semicolon(s@, i as int),
        decreases s@.len() - i,
    {
        if s[i] == 0x3b {
            return i;
        }
        i += 1;
    }
    i
}

/// Reads the modifyOtherKeys level from the parameters of `CSI > params m`.
fn parse_modify_other_keys_set(params: &[u8]) -> (r: Option<ModifyOtherKeys>)
    ensures
        r == modify_other_keys_request(params@),
{
    let end1 = semicolon_from(params, 0);
    let ghost first = params@.take(end1 as int);
    if !(end1 == 1 && params[0] == 0x34) {
        if end1 == 1 {
            assert(first[0] != seq![0x34u8][0]);
        } else {
            assert(first.len() != seq![0x34u8].len());
        }
        return None;
    }
    assert(first =~= seq![0x34u8]);
    if end1 == params.len() {
        return Some(ModifyOtherKeys::Reset);
    }
    let end2 = semicolon_from(params, end1 + 1);
    let ghost second = params@.subrange(end1 + 1, end2 as int);
    if end2 == end1 + 2 {
        let b = params[end1 + 1];
        assert(second =~= seq![b]);
        assert(seq![b][0] == b);
        assert(seq![0x30u8][0] == 0x30u8 && seq![0x31u8][0] == 0x31u8 && seq![0x32u8][0] == 0x32u8);
        if b == 0x30 {
            Some(ModifyOtherKeys::Reset)
        } else if b == 0x31 {
            Some(ModifyOtherKeys::EnableExceptWellDefined)
        } else if b == 0x32 {
            Some(ModifyOtherKeys::EnableAll)
        } else {
            None
        }
    } else {
        assert(second.len() != seq![0x30u8].len());
        None
    }
}

impl PtyOutputTap {
    /// Feeds PTY bytes; returns every event completed by them, in order.
    pub fn feed(&mut self, data: &[u8]) -> (events: Vec<TapEvent>)
        ensures
            final(self)@ == tap_run(old(self)@, data@).0,
            events@.map_values(|e: TapEvent| e@) == tap_run(old(self)@, data@).1,
    {
        let mut events: Vec<TapEvent> = Vec::new();
        let mut i: usize = 0;
        while i < data.len()
            invariant
                i <= data@.len(),
                (self@, events@.map_values(|e: TapEvent| e@)) == tap_run(old(self)@, data@.take(i as int)),
            decreases data@.len() - i,
        {
            let found = self.feed_byte(data[i]);
            assert(data@.take(i + 1).drop_last() =~= data@.take(i as int));
            let ghost before = events@;
            match found {
                Some(e) => {
                    events.push(e);
                    assert(events@.map_values(|e: TapEvent| e@) =~= before.map_values(|e: TapEvent| e@).push(e@));
                },
                None => {},
            }
            i += 1;
        }
        assert(data@.take(data@.len() as int) =~= data@);
        events
    }

    fn feed_byte(&mut self, byte: u8) -> (r: Option<TapEvent>)
        ensures
            final(self)@ == tap_step(old(self)@, byte).0,
            match r {
                Some(e) => tap_step(old(self)@, byte).1 == Some(e@),
                None => tap_step(old(self)@, byte).1 is None,
            },
    {
        match self.state {
            TapState::Normal => {
                if byte == 0x1b {
                    self.state = TapState::Esc;
                }
                None
            },
            TapState::Esc => {
                if byte == 0x5d {
                    self.osc_payload.clear();
                    self.state = TapState::Osc;
                } else if byte == 0x5b {
                    self.csi_params.clear();
                    self.csi_intermediate.clear();
                    self.state = TapState::Csi;
                } else {
                    self.state = TapState::Normal;
                }
                None
            },
            TapState::Osc => {
                if byte == 0x07 {
                    let event = self.finish_osc();
                    self.state = TapState::Normal;
                    return event;
                }
                if byte == 0x1b {
                    self.state = TapState::OscEsc;
                    return None;
                }
                self.osc_payload.push(byte);
                None
            },
            TapState::OscEsc => {
                if byte == 0x5c {
                    let event = self.finish_osc();
                    self.state = TapState::Normal;
                    return event;
                }
                self.osc_payload.push(0x1b);
                self.osc_payload.push(byte);
                self.state = TapState::Osc;
                None
            },
            TapState::Csi => {
                if (0x41 <= byte && byte <= 0x5a) || (0x61 <= byte && byte <= 0x7a) || byte == 0x7e {
                    let event = self.finish_csi(byte);
                    self.state = TapState::Normal;
                    return event;
                }
                if (0x30 <= byte && byte <= 0x39) || byte == 0x3b || byte == 0x3a {
                    self.csi_params.push(byte);
                } else if (0x20 <= byte && byte <= 0x2f) || (0x3c <= byte && byte <= 0x3f) {
                    self.csi_intermediate.push(byte);
                } else {
                    self.state = TapState::Normal;
                }
                None
            },
        }
    }

    fn finish_osc(&self) -> (r: Option<TapEvent>)
        ensures
            match r {
                Some(e) => osc_event(self.osc_payload@) == Some(e@),
                None => osc_event(self.osc_payload@) is None,
            },
    {
        let cwd = payload_cwd(self.osc_payload.as_slice());
        match cwd {
            Some(p) => Some(TapEvent::Cwd(p)),
            None => None,
        }
    }

    fn finish_csi(&self, final_byte: u8) -> (r: Option<TapEvent>)
        ensures
            match r {
                Some(e) => csi_event(self.csi_params@, self.csi_intermediate@, final_byte) == Some(e@),
                None => csi_event(self.csi_params@, self.csi_intermediate@, final_byte) is None,
            },
    {
        let gt = [0x3eu8];
        let q = [0x3fu8];
        let four = [0x34u8];
        assert(gt@ =~= seq![0x3eu8]);
        assert(q@ =~= seq![0x3fu8]);
        assert(four@ =~= seq![0x34u8]);
        if final_byte == 0x6d && bytes_equal(self.csi_intermediate.as_slice(), &gt) {
            return match parse_modify_other_keys_set(self.csi_params.as_slice()) {
                Some(m) => Some(TapEvent::ModifyOtherKeys(m)),
                None => None,
            };
        }
        if final_byte == 0x67 && bytes_equal(self.csi_intermediate.as_slice(), &q) && bytes_equal(
            self.csi_params.as_slice(),
            &four,
        ) {
            return Some(TapEvent::QueryModifyOtherKeys);
        }
        None
    }
}

/// Events do not depend on how PTY output is split into reads: scanning `a`
/// and then `b` gives the state and the events of scanning `a + b`.
pub proof fn lemma_tap_split_feeds(m: TapModel, a: Seq<u8>, b: Seq<u8>)
    ensures
        tap_run(m, a + b).0 == tap_run(tap_run(m, a).0, b).0,
        tap_run(m, a + b).1 == tap_run(m, a).1 + tap_run(tap_run(m, a).0, b).1,
    decreases b.len(),
{
    if b.len() == 0 {
        assert(a + b =~= a);
        assert(tap_run(m, a).1 + Seq::<TapEventView>::empty() =~= tap_run(m, a).1);
    } else {
        assert((a + b).drop_last() =~= a + b.drop_last());
        lemma_tap_split_feeds(m, a, b.drop_last());
        let e1 = tap_run(m, a).1;
        let e2 = tap_run(tap_run(m, a).0, b.drop_last()).1;
        let m2 = tap_run(tap_run(m, a).0, b.drop_last()).0;
        match tap_step(m2, b.last()).1 {
            Some(e) => {
                assert((e1 + e2).push(e) =~= e1 + e2.push(e));
            },
            None => {},
        }
    }
}

} // verus!
