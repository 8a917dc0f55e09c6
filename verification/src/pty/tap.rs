//! What the events of the output tap change: the reported working directory
//! and modifyOtherKeys mode, and the reply a mode query gets.

use vstd::prelude::*;

use crate::pty::output_tap::{ModifyOtherKeys, TapEvent, TapEventView};

verus! {

/// The state that tap events update, shared with the rest of the tab.
#[derive(Debug, Clone)]
pub struct TapShared {
    pub cwd: Option<String>,
    pub modify_other_keys: ModifyOtherKeys,
}

impl View for TapShared {
    type V = (Option<Seq<char>>, ModifyOtherKeys);

    open spec fn view(&self) -> (Option<Seq<char>>, ModifyOtherKeys) {
        (
            match self.cwd {
                Some(s) => Some(s@),
                None => None,
            },
            self.modify_other_keys,
        )
    }
}

/// Number of a modifyOtherKeys mode.
pub open spec fn mode_value(mode: ModifyOtherKeys) -> u8 {
    match mode {
        ModifyOtherKeys::Reset => 0,
        ModifyOtherKeys::EnableExceptWellDefined => 1,
        ModifyOtherKeys::EnableAll => 2,
    }
}

/// The reply to a mode query: `ESC [ > 4 ; <mode> m`.
pub open spec fn mode_report(mode: ModifyOtherKeys) -> Seq<u8> {
    seq![0x1bu8, 0x5bu8, 0x3eu8, 0x34u8, 0x3bu8, (48 + mode_value(mode)) as u8, 0x6du8]
}

/// Builds the reply to a modifyOtherKeys mode query.
pub fn modify_other_keys_report(mode: ModifyOtherKeys) -> (r: Vec<u8>)
    ensures
        r@ == mode_report(mode),
{
    let pv: u8 = match mode {
        ModifyOtherKeys::Reset => 0,
        ModifyOtherKeys::EnableExceptWellDefined => 1,
        ModifyOtherKeys::EnableAll => 2,
    };
    let mut r: Vec<u8> = Vec::new();
    r.push(0x1b);
    r.push(0x5b);
    r.push(0x3e);
    r.push(0x34);
    r.push(0x3b);
    r.push(48 + pv);
    r.push(0x6d);
    assert(r@ =~= mode_report(mode));
    r
}

/// One event: a directory report replaces the directory, a mode change
/// replaces the mode, and a query leaves both and is answered with the
/// current mode.
pub open spec fn tap_effect(
    state: (Option<Seq<char>>, ModifyOtherKeys),
    event: TapEventView,
) -> ((Option<Seq<char>>, ModifyOtherKeys), Option<Seq<u8>>) {
    match event {
        TapEventView::Cwd(path) => ((Some(path), state.1), None),
        TapEventView::ModifyOtherKeys(mode) => ((state.0, mode), None),
        TapEventView::QueryModifyOtherKeys => (state, Some(mode_report(state.1))),
    }
}

/// The events in order: the final state and the replies, in order.
pub open spec fn tap_effects(
    state: (Option<Seq<char>>, ModifyOtherKeys),
    events: Seq<TapEventView>,
) -> ((Option<Seq<char>>, ModifyOtherKeys), Seq<Seq<u8>>)
    decreases events.len(),
{
    if events.len() == 0 {
        (state, Seq::empty())
    } else {
        let prev = tap_effects(state, events.drop_last());
        let step = tap_effect(prev.0, events.last());
        (
            step.0,
            match step.1 {
                Some(reply) => prev.1.push(reply),
                None => prev.1,
            },
        )
    }
}

/// Applies one event and returns the reply it calls for, if any.
pub fn apply_tap_event(shared: &mut TapShared, event: TapEvent) -> (r: Option<Vec<u8>>)
    ensures
        final(shared)@ == tap_effect(old(shared)@, event@).0,
        match tap_effect(old(shared)@, event@).1 {
            Some(reply) => r matches Some(v) && v@ == reply,
            None => r is None,
        },
{
    match event {
        TapEvent::Cwd(path) => {
            shared.cwd = Some(path);
            None
        },
        TapEvent::ModifyOtherKeys(mode) => {
            shared.modify_other_keys = mode;
            None
        },
        TapEvent::QueryModifyOtherKeys => Some(modify_other_keys_report(shared.modify_other_keys)),
    }
}

/// Applies the events in order and returns the replies, in order.
pub fn apply_tap_events(shared: &mut TapShared, events: Vec<TapEvent>) -> (r: Vec<Vec<u8>>)
    ensures
        final(shared)@ == tap_effects(old(shared)@, events@.map_values(|e: TapEvent| e@)).0,
        r@.map_values(|v: Vec<u8>| v@) == tap_effects(old(shared)@, events@.map_values(|e: TapEvent| e@)).1,
{
    let ghost evs = events@.map_values(|e: TapEvent| e@);
    let mut replies: Vec<Vec<u8>> = Vec::new();
    assert(evs.take(0) =~= Seq::<TapEventView>::empty());
    for event in it: events
        invariant
            evs == it.seq().map_values(|e: TapEvent| e@),
            (shared@, replies@.map_values(|v: Vec<u8>| v@)) == tap_effects(old(shared)@, evs.take(it.index() as int)),
    {
        let ghost i = it.index();
        assert(event == it.seq()[i as int]);
        assert(evs.take(i + 1).drop_last() =~= evs.take(i as int));
        if let Some(reply) = apply_tap_event(shared, event) {
            replies.push(reply);
            assert(replies@.map_values(|v: Vec<u8>| v@) =~= tap_effects(old(shared)@, evs.take(i + 1)).1);
        }
    }
    assert(evs.take(evs.len() as int) =~= evs);
    replies
}

} // verus!
