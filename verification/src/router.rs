//! The per-contact touch router.
//!
//! Each concurrent touch contact is identified by a small seat-slot id and is
//! either untracked or tracking one button index. A qualifying touch-down
//! binds the slot to the button under it, presses that button and emits a
//! key-down; motion on a tracked slot re-tests the bound button (drag-off
//! releases, drag-back re-presses, never rebinding the slot); touch-up
//! unbinds the slot and releases the button if it is still pressed. Every
//! emitted key transition is followed by a synchronize report. The router is
//! the one owner of the active-button vector, the slot map and the redraw
//! flag; the whole transition relation is the spec function [`step`].

use crate::emitter::{key_emission, key_event, syn_emission, syn_report_event, Emission};
use crate::geometry::{
    button_hit, candidate_index, candidate_spec, hit_spec, DFR_HEIGHT, DFR_WIDTH,
};
use crate::layout::FunctionLayer;
use vstd::hash_map::HashMapWithView;
use vstd::prelude::*;

verus! {

broadcast use vstd::std_specs::hash::group_hash_axioms;

/// One touch event for a seat slot, with coordinates already transformed to
/// the strip's logical `DFR_WIDTH` by `DFR_HEIGHT` space.
#[derive(Clone, Copy, PartialEq, Eq, Structural, Debug)]
pub enum TouchInput {
    Down { slot: u32, x: u32, y: u32 },
    Motion { slot: u32, x: u32, y: u32 },
    Up { slot: u32 },
}

/// The router's mathematical state: which buttons are pressed, which slot
/// tracks which button, and whether the row must be repainted.
#[verifier::ext_equal]
pub struct RouterModel {
    pub active: Seq<bool>,
    pub touches: Map<u32, u32>,
    pub redraw: bool,
}

/// Every tracked slot points at an existing button.
pub open spec fn model_wf(m: RouterModel) -> bool {
    forall|s: u32| #[trigger] m.touches.contains_key(s) ==> (m.touches[s] as int) < m.active.len()
}

/// The complete transition relation of the router: from a state and one touch
/// event to the next state and the exact sequence of emitted events.
pub open spec fn step(m: RouterModel, actions: Seq<u16>, ev: TouchInput) -> (RouterModel, Seq<
    Emission,
>) {
    match ev {
        TouchInput::Down { slot, x, y } => {
            let n = m.active.len() as int;
            let c = candidate_spec(DFR_WIDTH as int, n, x as int);
            if 0 <= c < n && hit_spec(DFR_WIDTH as int, DFR_HEIGHT as int, n, c, x as int, y as int) {
                (
                    RouterModel {
                        active: m.active.update(c, true),
                        touches: m.touches.insert(slot, c as u32),
                        redraw: true,
                    },
                    seq![key_emission(actions[c], true), syn_emission()],
                )
            } else {
                (m, Seq::empty())
            }
        },
        TouchInput::Motion { slot, x, y } => {
            if m.touches.contains_key(slot) {
                let idx = m.touches[slot] as int;
                let n = m.active.len() as int;
                let h = hit_spec(DFR_WIDTH as int, DFR_HEIGHT as int, n, idx, x as int, y as int);
                if m.active[idx] != h {
                    (
                        RouterModel {
                            active: m.active.update(idx, h),
                            touches: m.touches,
                            redraw: true,
                        },
                        seq![key_emission(actions[idx], h), syn_emission()],
                    )
                } else {
                    (m, Seq::empty())
                }
            } else {
                (m, Seq::empty())
            }
        },
        TouchInput::Up { slot } => {
            if m.touches.contains_key(slot) {
                let idx = m.touches[slot] as int;
                if m.active[idx] {
                    (
                        RouterModel {
                            active: m.active.update(idx, false),
                            touches: m.touches.remove(slot),
                            redraw: true,
                        },
                        seq![key_emission(actions[idx], false), syn_emission()],
                    )
                } else {
                    (
                        RouterModel {
                            active: m.active,
                            touches: m.touches.remove(slot),
                            redraw: m.redraw,
                        },
                        Seq::empty(),
                    )
                }
            } else {
                (m, Seq::empty())
            }
        },
    }
}

/// Runs the router over a whole batch of events, in delivery order.
pub open spec fn run(m: RouterModel, actions: Seq<u16>, evs: Seq<TouchInput>) -> (RouterModel, Seq<
    Emission,
>)
    decreases evs.len(),
{
    if evs.len() == 0 {
        (m, Seq::empty())
    } else {
        let first = step(m, actions, evs[0]);
        let rest = run(first.0, actions, evs.drop_first());
        (rest.0, first.1 + rest.1)
    }
}

/// The stateful context threaded through the control loop.
pub struct TouchRouter {
    pub active: Vec<bool>,
    pub touches: HashMapWithView<u32, u32>,
    pub needs_redraw: bool,
}

impl TouchRouter {
    pub open spec fn model(&self) -> RouterModel {
        RouterModel { active: self.active@, touches: self.touches@, redraw: self.needs_redraw }
    }

    pub open spec fn wf(&self, layer: &FunctionLayer) -> bool {
        &&& layer.wf()
        &&& self.active@.len() == layer.buttons@.len()
        &&& model_wf(self.model())
    }

    /// A fresh router for the layer: nothing pressed, nothing tracked, and an
    /// initial repaint owed.
    pub fn new(layer: &FunctionLayer) -> (r: TouchRouter)
        requires
            layer.wf(),
        ensures
            r.wf(layer),
            r.model().active.len() == layer.buttons@.len(),
            forall|i: int| 0 <= i < r.model().active.len() ==> !(#[trigger] r.model().active[i]),
            r.model().touches =~= Map::<u32, u32>::empty(),
            r.model().redraw == true,
    {
        let n = layer.buttons.len();
        let mut active: Vec<bool> = Vec::new();
        let mut i: usize = 0;
        while i < n
            invariant
                i <= n,
                active@.len() == i,
                forall|k: int| 0 <= k < i ==> !(#[trigger] active@[k]),
            decreases n - i,
        {
            active.push(false);
            i = i + 1;
        }
        TouchRouter { active, touches: HashMapWithView::new(), needs_redraw: true }
    }

    /// Reports whether a repaint is owed and clears the flag, leaving the
    /// rest of the state as it was.
    pub fn take_redraw(&mut self) -> (was: bool)
        ensures
            was == old(self).needs_redraw,
            final(self).active@ == old(self).active@,
            final(self).touches@ == old(self).touches@,
            final(self).needs_redraw == false,
    {
        let was = self.needs_redraw;
        self.needs_redraw = false;
        was
    }

    /// Whether button `i` is currently pressed.
    pub fn is_active(&self, i: usize) -> (r: bool)
        requires
            i < self.active@.len(),
        ensures
            r == self.model().active[i as int],
    {
        self.active[i]
    }

    /// The button a slot currently tracks, if any.
    pub fn tracked_button(&self, slot: u32) -> (r: Option<u32>)
        ensures
            match r {
                Some(i) => self.model().touches.contains_key(slot)
                    && i == self.model().touches[slot],
                None => !self.model().touches.contains_key(slot),
            },
    {
        match self.touches.get(&slot) {
            Some(v) => Some(*v),
            None => None,
        }
    }

    /// Routes one touch event: the state moves and the events come out
    /// exactly as the transition relation [`step`] says.
    pub fn handle_event(&mut self, layer: &FunctionLayer, ev: TouchInput) -> (out: Vec<Emission>)
        requires
            old(self).wf(layer),
            ev matches TouchInput::Down { slot, x, y } ==> x <= DFR_WIDTH,
        ensures
            final(self).wf(layer),
            final(self).model() == step(old(self).model(), layer.actions(), ev).0,
            out@ == step(old(self).model(), layer.actions(), ev).1,
    {
        match ev {
            TouchInput::Down { slot, x, y } => {
                let n = self.active.len();
                let c = candidate_index(n as u32, x);
                if (c as usize) < n && button_hit(n as u32, c, x, y) {
                    self.active.set(c as usize, true);
                    self.touches.insert(slot, c);
                    self.needs_redraw = true;
                    let code = layer.buttons[c as usize].action;
                    let mut out: Vec<Emission> = Vec::new();
                    out.push(key_event(code, true));
                    out.push(syn_report_event());
                    proof {
                        assert(layer.actions()[c as int] == code);
                        assert(out@ =~= seq![key_emission(code, true), syn_emission()]);
                        assert(final(self).model() =~= step(
                            old(self).model(),
                            layer.actions(),
                            ev,
                        ).0);
                    }
                    out
                } else {
                    Vec::new()
                }
            },
            TouchInput::Motion { slot, x, y } => {
                let n = self.active.len();
                match self.touches.get(&slot) {
                    Some(idx_ref) => {
                        let idx = *idx_ref;
                        proof {
                            assert(old(self).model().touches.contains_key(slot));
                            assert((idx as int) < self.active@.len());
                        }
                        let h = button_hit(n as u32, idx, x, y);
                        if self.active[idx as usize] != h {
                            self.active.set(idx as usize, h);
                            self.needs_redraw = true;
                            let code = layer.buttons[idx as usize].action;
                            let mut out: Vec<Emission> = Vec::new();
                            out.push(key_event(code, h));
                            out.push(syn_report_event());
                            proof {
                                assert(layer.actions()[idx as int] == code);
                                assert(out@ =~= seq![key_emission(code, h), syn_emission()]);
                                assert(final(self).model() =~= step(
                                    old(self).model(),
                                    layer.actions(),
                                    ev,
                                ).0);
                            }
                            out
                        } else {
                            Vec::new()
                        }
                    },
                    None => Vec::new(),
                }
            },
            TouchInput::Up { slot } => {
                match self.touches.remove(&slot) {
                    Some(idx) => {
                        proof {
                            assert(old(self).model().touches.contains_key(slot));
                            assert((idx as int) < self.active@.len());
                        }
                        if self.active[idx as usize] {
                            self.active.set(idx as usize, false);
                            self.needs_redraw = true;
                            let code = layer.buttons[idx as usize].action;
                            let mut out: Vec<Emission> = Vec::new();
                            out.push(key_event(code, false));
                            out.push(syn_report_event());
                            proof {
                                assert(layer.actions()[idx as int] == code);
                                assert(out@ =~= seq![key_emission(code, false), syn_emission()]);
                                assert(final(self).model() =~= step(
                                    old(self).model(),
                                    layer.actions(),
                                    ev,
                                ).0);
                            }
                            out
                        } else {
                            let out: Vec<Emission> = Vec::new();
                            proof {
                                assert(final(self).model() =~= step(
                                    old(self).model(),
                                    layer.actions(),
                                    ev,
                                ).0);
                            }
                            out
                        }
                    },
                    None => Vec::new(),
                }
            },
        }
    }
}

/// Appending one event to a batch runs the batch first and the event last.
pub proof fn lemma_run_snoc(
    m: RouterModel,
    actions: Seq<u16>,
    evs: Seq<TouchInput>,
    ev: TouchInput,
)
    ensures
        run(m, actions, evs.push(ev)).0 == step(run(m, actions, evs).0, actions, ev).0,
        run(m, actions, evs.push(ev)).1 == run(m, actions, evs).1 + step(
            run(m, actions, evs).0,
            actions,
            ev,
        ).1,
    decreases evs.len(),
{
    reveal_with_fuel(run, 3);
    let whole = evs.push(ev);
    if evs.len() == 0 {
        assert(whole[0] == ev);
        assert(whole.drop_first() =~= Seq::<TouchInput>::empty());
        assert(run(m, actions, whole).1 =~= run(m, actions, evs).1 + step(
            run(m, actions, evs).0,
            actions,
            ev,
        ).1);
    } else {
        assert(whole[0] == evs[0]);
        assert(whole.drop_first() =~= evs.drop_first().push(ev));
        let m1 = step(m, actions, evs[0]).0;
        lemma_run_snoc(m1, actions, evs.drop_first(), ev);
        assert(run(m, actions, whole).1 =~= run(m, actions, evs).1 + step(
            run(m, actions, evs).0,
            actions,
            ev,
        ).1);
    }
}

impl TouchRouter {
    /// Routes one dispatch batch, strictly in delivery order; the combined
    /// state move and emissions are exactly those of the spec function
    /// [`run`] over the whole batch.
    pub fn route_batch(&mut self, layer: &FunctionLayer, evs: &Vec<TouchInput>) -> (out: Vec<
        Emission,
    >)
        requires
            old(self).wf(layer),
            forall|k: int|
                0 <= k < evs@.len() ==> (#[trigger] evs@[k] matches TouchInput::Down { slot, x, y }
                    ==> x <= DFR_WIDTH),
        ensures
            final(self).wf(layer),
            final(self).model() == run(old(self).model(), layer.actions(), evs@).0,
            out@ == run(old(self).model(), layer.actions(), evs@).1,
    {
        let ghost m0 = self.model();
        let mut out: Vec<Emission> = Vec::new();
        let n = evs.len();
        let mut i: usize = 0;
        proof {
            assert(evs@.take(0) =~= Seq::<TouchInput>::empty());
        }
        while i < n
            invariant
                i <= n,
                n == evs@.len(),
                self.wf(layer),
                forall|k: int|
                    0 <= k < evs@.len() ==> (#[trigger] evs@[k] matches TouchInput::Down {
                        slot,
                        x,
                        y,
                    } ==> x <= DFR_WIDTH),
                self.model() == run(m0, layer.actions(), evs@.take(i as int)).0,
                out@ == run(m0, layer.actions(), evs@.take(i as int)).1,
            decreases n - i,
        {
            let ev = evs[i];
            let mut emitted = self.handle_event(layer, ev);
            proof {
                lemma_run_snoc(m0, layer.actions(), evs@.take(i as int), ev);
                assert(evs@.take(i as int).push(ev) =~= evs@.take(i as int + 1));
            }
            out.append(&mut emitted);
            i = i + 1;
        }
        proof {
            assert(evs@.take(n as int) =~= evs@);
        }
        out
    }
}

/// Law: repeated identical motion events on one slot are debounced — after a
/// motion is routed, routing the identical motion again changes nothing and
/// emits nothing, so each geometric change costs at most one key transition.
pub proof fn lemma_motion_idempotent(
    m: RouterModel,
    actions: Seq<u16>,
    slot: u32,
    x: u32,
    y: u32,
)
    requires
        model_wf(m),
    ensures
        step(step(m, actions, (TouchInput::Motion { slot, x, y })).0, actions, (TouchInput::Motion {
            slot,
            x,
            y,
        })).0 == step(m, actions, (TouchInput::Motion { slot, x, y })).0,
        step(step(m, actions, (TouchInput::Motion { slot, x, y })).0, actions, (TouchInput::Motion {
            slot,
            x,
            y,
        })).1 == Seq::<Emission>::empty(),
{
    let ev = TouchInput::Motion { slot, x, y };
    let m1 = step(m, actions, ev).0;
    if m.touches.contains_key(slot) {
        let idx = m.touches[slot] as int;
        let n = m.active.len() as int;
        let h = hit_spec(DFR_WIDTH as int, DFR_HEIGHT as int, n, idx, x as int, y as int);
        if m.active[idx] != h {
            assert(m1.active[idx] == h);
            assert(m1.active.len() == m.active.len());
        }
    }
}

/// Law: a touch-down that lands on no button leaves the slot untracked and
/// changes nothing.
pub proof fn lemma_missed_down_ignored(
    m: RouterModel,
    actions: Seq<u16>,
    slot: u32,
    x: u32,
    y: u32,
)
    requires
        forall|i: int|
            0 <= i < m.active.len() ==> !hit_spec(
                DFR_WIDTH as int,
                DFR_HEIGHT as int,
                m.active.len() as int,
                i,
                x as int,
                y as int,
            ),
    ensures
        step(m, actions, (TouchInput::Down { slot, x, y })).0 == m,
        step(m, actions, (TouchInput::Down { slot, x, y })).1 == Seq::<Emission>::empty(),
{
}

/// Law: no motion or up event for an untracked slot ever emits anything or
/// moves the state; with [`lemma_missed_down_ignored`], a down that misses
/// every button is followed by silence on that slot for good.
pub proof fn lemma_untracked_slot_silent(
    m: RouterModel,
    actions: Seq<u16>,
    slot: u32,
    evs: Seq<TouchInput>,
)
    requires
        !m.touches.contains_key(slot),
        forall|k: int|
            0 <= k < evs.len() ==> match #[trigger] evs[k] {
                TouchInput::Down { .. } => false,
                TouchInput::Motion { slot: s, .. } => s == slot,
                TouchInput::Up { slot: s } => s == slot,
            },
    ensures
        run(m, actions, evs).0 == m,
        run(m, actions, evs).1 == Seq::<Emission>::empty(),
    decreases evs.len(),
{
    if evs.len() > 0 {
        assert(step(m, actions, evs[0]).0 == m);
        assert(step(m, actions, evs[0]).1 == Seq::<Emission>::empty());
        lemma_untracked_slot_silent(m, actions, slot, evs.drop_first());
        assert(run(m, actions, evs).1 =~= Seq::<Emission>::empty());
    }
}

/// Law: the round trip. A down inside button `k` emits exactly key-down of
/// that button's action followed by one synchronize report and binds the
/// slot to `k`; an up on the same slot then emits exactly the matching
/// key-up and report, releases the button and unbinds the slot.
pub proof fn lemma_press_release_roundtrip(
    m: RouterModel,
    actions: Seq<u16>,
    slot: u32,
    k: int,
    x: u32,
    y: u32,
)
    requires
        model_wf(m),
        0 <= k < m.active.len(),
        k <= u32::MAX,
        hit_spec(DFR_WIDTH as int, DFR_HEIGHT as int, m.active.len() as int, k, x as int, y as int),
        !m.touches.contains_key(slot),
    ensures
        step(m, actions, (TouchInput::Down { slot, x, y })).1 =~= seq![
            key_emission(actions[k], true),
            syn_emission(),
        ],
        step(m, actions, (TouchInput::Down { slot, x, y })).0.active == m.active.update(k, true),
        step(m, actions, (TouchInput::Down { slot, x, y })).0.touches == m.touches.insert(
            slot,
            k as u32,
        ),
        step(step(m, actions, (TouchInput::Down { slot, x, y })).0, actions, (TouchInput::Up {
            slot,
        })).1 =~= seq![key_emission(actions[k], false), syn_emission()],
        step(step(m, actions, (TouchInput::Down { slot, x, y })).0, actions, (TouchInput::Up {
            slot,
        })).0.touches =~= m.touches,
        step(step(m, actions, (TouchInput::Down { slot, x, y })).0, actions, (TouchInput::Up {
            slot,
        })).0.active =~= m.active.update(k, false),
{
    let n = m.active.len() as int;
    crate::geometry::lemma_candidate_complete(DFR_WIDTH as int, n, k, x as int);
    let m1 = step(m, actions, (TouchInput::Down { slot, x, y })).0;
    assert(m1.touches.contains_key(slot));
    assert(m1.touches[slot] == k as u32);
    assert(m1.active[k]);
    assert(m1.touches.remove(slot) =~= m.touches);
    assert(m1.active.update(k, false) =~= m.active.update(k, false));
}

} // verus!
