//! Foot switches: which pins to watch, and which actions their presses,
//! releases and holds trigger.
//!
//! Times are milliseconds on a monotonic clock, as the caller reads it.

use crate::messages::{Action, Gesture, SwitchMapping};
use std::collections::HashMap;
use vstd::prelude::*;

verus! {

/// How long a switch must stay down to count as held, in milliseconds.
pub const HOLD_DURATION_MILLIS: u64 = 300;

/// The action of the first mapping for `pin` and `gesture`, from `i` on.
pub open spec fn mapped_action(mappings: Seq<SwitchMapping>, pin: u32, gesture: Gesture, i: int) -> Option<Action>
    decreases mappings.len() - i,
{
    if i < 0 || i >= mappings.len() {
        None
    } else if mappings[i].pin == pin && mappings[i].gesture == gesture {
        Some(mappings[i].action)
    } else {
        mapped_action(mappings, pin, gesture, i + 1)
    }
}

/// The time since `pressed_at`, zero where the clock reads earlier.
pub open spec fn elapsed(pressed_at: u64, now: u64) -> int {
    if now >= pressed_at {
        now - pressed_at
    } else {
        0
    }
}

pub open spec fn is_held(press: (u8, u64), now: u64) -> bool {
    elapsed(press.1, now) > HOLD_DURATION_MILLIS
}

/// The actions of the hold mappings of the pins held down past the hold
/// duration, in the order of `presses`.
pub open spec fn hold_actions(presses: Seq<(u8, u64)>, mappings: Seq<SwitchMapping>, now: u64) -> Seq<Action>
    decreases presses.len(),
{
    if presses.len() == 0 {
        Seq::empty()
    } else {
        let rest = hold_actions(presses.drop_last(), mappings, now);
        let last = presses.last();
        if is_held(last, now) {
            match mapped_action(mappings, last.0 as u32, Gesture::GESTURE_HOLD, 0) {
                Some(a) => rest.push(a),
                None => rest,
            }
        } else {
            rest
        }
    }
}

pub open spec fn pins_unique(presses: Seq<(u8, u64)>) -> bool {
    forall|i: int, j: int| 0 <= i < j < presses.len() ==> presses[i].0 != presses[j].0
}

/// `presses` lists the entries of `m`, each once, in some order.
pub open spec fn lists_presses(presses: Seq<(u8, u64)>, m: Map<u8, u64>) -> bool {
    &&& pins_unique(presses)
    &&& forall|i: int| 0 <= i < presses.len() ==> #[trigger] m.contains_key(presses[i].0) && m[presses[i].0]
        == presses[i].1
    &&& forall|pin: u8| #[trigger] m.contains_key(pin) ==> exists|i: int| 0 <= i < presses.len() && presses[i].0 == pin
}

/// The presses of `m` that are not held at `now`.
pub open spec fn not_held(m: Map<u8, u64>, now: u64) -> Map<u8, u64> {
    Map::new(|pin: u8| m.contains_key(pin) && !is_held((pin, m[pin]), now), |pin: u8| m[pin])
}

/// The switches that are down, each with when it went down.
pub struct SwitchState {
    press_times: HashMap<u8, u64>,
}

impl View for SwitchState {
    type V = Map<u8, u64>;

    closed spec fn view(&self) -> Map<u8, u64> {
        self.press_times@
    }
}

impl SwitchState {
    /// No switch is down.
    pub fn new() -> (r: Self)
        ensures
            r@ == Map::<u8, u64>::empty(),
    {
        SwitchState { press_times: HashMap::new() }
    }

    /// A switch went down at `now`: it is recorded as pressed then, and the
    /// press mapping of its pin, if any, gives the action.
    pub fn on_press(&mut self, pin: u8, now: u64, mappings: &[SwitchMapping]) -> (r: Option<Action>)
        ensures
            final(self)@ == old(self)@.insert(pin, now),
            r == mapped_action(mappings@, pin as u32, Gesture::GESTURE_PRESS, 0),
    {
        broadcast use vstd::std_specs::hash::group_hash_axioms;
        self.press_times.insert(pin, now);
        first_mapping(mappings, pin as u32, Gesture::GESTURE_PRESS)
    }

    /// A switch came up at `now`: it is no longer down; where it was down for
    /// at most the hold duration, the release mapping of its pin gives the
    /// action. A release without a press does nothing.
    pub fn on_release(&mut self, pin: u8, now: u64, mappings: &[SwitchMapping]) -> (r: Option<Action>)
        ensures
            final(self)@ == old(self)@.remove(pin),
            r == if old(self)@.contains_key(pin) && elapsed(old(self)@[pin], now) <= HOLD_DURATION_MILLIS {
                mapped_action(mappings@, pin as u32, Gesture::GESTURE_RELEASE, 0)
            } else {
                None
            },
    {
        broadcast use vstd::std_specs::hash::group_hash_axioms;
        let pressed_at = match self.press_times.remove(&pin) {
            Some(t) => t,
            None => {
                assert(old(self)@.remove(pin) =~= old(self)@);
                return None;
            },
        };
        let duration = if now >= pressed_at {
            now - pressed_at
        } else {
            0
        };
        if duration <= HOLD_DURATION_MILLIS {
            first_mapping(mappings, pin as u32, Gesture::GESTURE_RELEASE)
        } else {
            None
        }
    }

    /// The switches that are down, with when each went down, in the order
    /// the map gives them.
    fn presses(&self) -> (r: Vec<(u8, u64)>)
        ensures
            lists_presses(r@, self@),
    {
        broadcast use vstd::std_specs::hash::group_hash_axioms;
        let m = &self.press_times;
        let mut pins: Vec<u8> = Vec::new();
        let ghost all = vstd::std_specs::iter::IteratorSpec::remaining(&vstd::std_specs::hash::spec_keys_iter(m));
        for k in it: m.keys()
            invariant
                pins@.len() == it.index(),
                it.seq() == all,
                forall|i: int| 0 <= i < pins@.len() ==> pins@[i] == *all[i],
        {
            pins.push(*k);
        }
        assert(pins@ =~= all.unref());
        assert(pins@.to_set() == m@.dom());
        assert(pins@.no_duplicates());
        let mut r: Vec<(u8, u64)> = Vec::new();
        let mut i: usize = 0;
        while i < pins.len()
            invariant
                i <= pins@.len(),
                pins@.to_set() == m@.dom(),
                pins@.no_duplicates(),
                r@.len() == i,
                forall|j: int| 0 <= j < i ==> #[trigger] r@[j] == (pins@[j], m@[pins@[j]]),
            decreases pins@.len() - i,
        {
            let pin = pins[i];
            assert(pins@.to_set().contains(pin));
            let at = *m.get(&pin).unwrap();
            r.push((pin, at));
            i = i + 1;
        }
        assert forall|a: int| 0 <= a < r@.len() implies #[trigger] m@.contains_key(r@[a].0) && m@[r@[a].0]
            == r@[a].1 by {
            assert(r@[a] == (pins@[a], m@[pins@[a]]));
            assert(pins@.to_set().contains(pins@[a]));
        }
        assert forall|pin: u8| #[trigger] m@.contains_key(pin) implies exists|a: int|
            0 <= a < r@.len() && r@[a].0 == pin by {
            assert(pins@.to_set().contains(pin));
            let a = choose|a: int| 0 <= a < pins@.len() && pins@[a] == pin;
            assert(r@[a] == (pins@[a], m@[pins@[a]]));
        }
        assert forall|a: int, b: int| 0 <= a < b < r@.len() implies r@[a].0 != r@[b].0 by {
            assert(r@[a] == (pins@[a], m@[pins@[a]]));
            assert(r@[b] == (pins@[b], m@[pins@[b]]));
        }
        r
    }

    /// At a tick: the hold mappings of the switches down longer than the hold
    /// duration give the actions, in the order the map gives the switches,
    /// and those switches are forgotten (a hold fires once).
    pub fn on_tick(&mut self, now: u64, mappings: &[SwitchMapping]) -> (r: Vec<Action>)
        ensures
            final(self)@ == not_held(old(self)@, now),
            exists|order: Seq<(u8, u64)>|
                lists_presses(order, old(self)@) && r@ == hold_actions(order, mappings@, now),
    {
        broadcast use vstd::std_specs::hash::group_hash_axioms;
        let presses = self.presses();
        let ghost start = self@;
        let mut actions: Vec<Action> = Vec::new();
        let mut i: usize = 0;
        while i < presses.len()
            invariant
                i <= presses@.len(),
                lists_presses(presses@, start),
                actions@ == hold_actions(presses@.take(i as int), mappings@, now),
                forall|pin: u8| #[trigger] self@.contains_key(pin) <==> start.contains_key(pin) && !(exists|j: int|
                    0 <= j < i && presses@[j].0 == pin && is_held(presses@[j], now)),
                forall|pin: u8| #[trigger] self@.contains_key(pin) ==> self@[pin] == start[pin],
            decreases presses@.len() - i,
        {
            let press = presses[i];
            let ghost prefix = presses@.take(i + 1);
            assert(prefix.drop_last() =~= presses@.take(i as int));
            assert(prefix.last() == press);
            let ghost before = self@;
            let held = now.saturating_sub(press.1) > HOLD_DURATION_MILLIS;
            assert(held == is_held(press, now));
            if held {
                match first_mapping(mappings, press.0 as u32, Gesture::GESTURE_HOLD) {
                    Some(action) => actions.push(action),
                    None => {},
                }
                self.press_times.remove(&press.0);
            }
            proof {
                if held {
                    assert(self@ == before.remove(press.0));
                } else {
                    assert(self@ == before);
                }
                assert(start.contains_key(presses@[i as int].0));
                assert forall|pin: u8| #[trigger] self@.contains_key(pin) <==> start.contains_key(pin) && !(exists|j: int|
                    0 <= j < i + 1 && presses@[j].0 == pin && is_held(presses@[j], now)) by {
                    if pin == press.0 {
                        assert(presses@[i as int].0 == pin);
                        if exists|j: int| 0 <= j < i && presses@[j].0 == pin && is_held(presses@[j], now) {
                            let j = choose|j: int| 0 <= j < i && presses@[j].0 == pin && is_held(presses@[j], now);
                            assert(presses@[j].0 != presses@[i as int].0);
                        }
                    } else {
                        if exists|j: int| 0 <= j < i + 1 && presses@[j].0 == pin && is_held(presses@[j], now) {
                            let j = choose|j: int| 0 <= j < i + 1 && presses@[j].0 == pin && is_held(presses@[j], now);
                            assert(j != i);
                        }
                    }
                }
            }
            i = i + 1;
        }
        assert(presses@.take(i as int) =~= presses@);
        assert forall|pin: u8| #[trigger] self@.contains_key(pin) <==> not_held(start, now).contains_key(pin) by {
            if start.contains_key(pin) {
                let j = choose|j: int| 0 <= j < presses@.len() && presses@[j].0 == pin;
                assert(presses@[j].1 == start[pin]);
                if is_held((pin, start[pin]), now) {
                    assert(presses@[j] == (pin, start[pin]));
                }
            }
        }
        assert(self@ =~= not_held(start, now));
        actions
    }
}

/// The action of the first mapping for `pin` and `gesture`.
fn first_mapping(mappings: &[SwitchMapping], pin: u32, gesture: Gesture) -> (r: Option<Action>)
    ensures
        r == mapped_action(mappings@, pin, gesture, 0),
{
    let mut i: usize = 0;
    while i < mappings.len()
        invariant
            i <= mappings@.len(),
            mapped_action(mappings@, pin, gesture, 0) == mapped_action(mappings@, pin, gesture, i as int),
        decreases mappings@.len() - i,
    {
        if mappings[i].pin == pin && mappings[i].gesture == gesture {
            return Some(mappings[i].action);
        }
        i = i + 1;
    }
    None
}

/// The pins to watch: each pin of a mapping once (first mention first),
/// leaving out those that do not fit a GPIO pin number below 255.
pub fn input_pins(mappings: &[SwitchMapping]) -> (r: Vec<u8>)
    ensures
        forall|a: int, b: int| 0 <= a < b < r@.len() ==> r@[a] != r@[b],
        forall|p: u8|
            #[trigger] r@.contains(p) <==> (p < 255 && exists|i: int|
                0 <= i < mappings@.len() && mappings@[i].pin == p as u32),
{
    let mut pins: Vec<u8> = Vec::new();
    let mut i: usize = 0;
    while i < mappings.len()
        invariant
            i <= mappings@.len(),
            forall|a: int, b: int| 0 <= a < b < pins@.len() ==> pins@[a] != pins@[b],
            forall|p: u8|
                #[trigger] pins@.contains(p) <==> (p < 255 && exists|j: int|
                    0 <= j < i && mappings@[j].pin == p as u32),
        decreases mappings@.len() - i,
    {
        let pin = mappings[i].pin;
        let ghost before = pins@;
        if pin < 255 {
            let p = pin as u8;
            let mut seen = false;
            let mut k: usize = 0;
            while k < pins.len()
                invariant
                    k <= pins@.len(),
                    seen <==> exists|m: int| 0 <= m < k && pins@[m] == p,
                decreases pins@.len() - k,
            {
                if pins[k] == p {
                    seen = true;
                }
                k = k + 1;
            }
            assert(seen <==> before.contains(p));
            if !seen {
                pins.push(p);
                assert(pins@[before.len() as int] == p);
            }
        }
        proof {
            assert forall|a: int, b: int| 0 <= a < b < pins@.len() implies pins@[a] != pins@[b] by {
                if b == before.len() {
                    assert(before[a] == pins@[a]);
                    assert(before.contains(before[a]));
                }
            }
            assert forall|q: u8|
                #[trigger] pins@.contains(q) <==> (q < 255 && exists|j: int|
                    0 <= j < i + 1 && mappings@[j].pin == q as u32) by {
                if q < 255 && exists|j: int| 0 <= j < i + 1 && mappings@[j].pin == q as u32 {
                    let j = choose|j: int| 0 <= j < i + 1 && mappings@[j].pin == q as u32;
                    if j < i {
                        assert(exists|j2: int| 0 <= j2 < i && mappings@[j2].pin == q as u32);
                        assert(before.contains(q));
                        let m = choose|m: int| 0 <= m < before.len() && before[m] == q;
                        assert(pins@[m] == q);
                    } else {
                        assert(pin == q as u32);
                        if before.contains(q) {
                            let m = choose|m: int| 0 <= m < before.len() && before[m] == q;
                            assert(pins@[m] == q);
                        } else {
                            assert(pins@[before.len() as int] == q);
                        }
                    }
                }
                if pins@.contains(q) {
                    let m = choose|m: int| 0 <= m < pins@.len() && pins@[m] == q;
                    if m < before.len() {
                        assert(before[m] == q);
                        assert(before.contains(q));
                    }
                }
            }
        }
        i = i + 1;
    }
    pins
}


} // verus!
