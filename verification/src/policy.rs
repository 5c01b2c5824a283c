//! The suppression policy of the hardware listener: per incoming event,
//! decide whether to forward it to the synthetic device or to divert it to
//! the control channel.

use vstd::prelude::*;
use crate::control::{TAG_PRESS, TAG_RELEASE};
use crate::event::Event;
use crate::modifiers::{update_held, HeldModifiers};
use crate::numeric::{
    dec_repr, is_u16_literal, lemma_dec_repr_value, literal_digits, render_u16, u16_literal_value,
};
use crate::suppress::SuppressSet;

verus! {

/// What the listener does with one incoming event: forward it unchanged to
/// the synthetic device, or withhold it and emit a report line (without its
/// terminator) on the control output.
#[derive(Debug, PartialEq, Eq)]
pub enum Decision {
    Forward(Event),
    Report(Vec<u8>),
}

/// The held-modifier collection after a key event has been applied to it.
pub open spec fn held_after(held: Seq<u16>, ev: Event) -> Seq<u16> {
    match ev {
        Event::Key(key, pressed) => update_held(held, key.0, pressed),
        _ => held,
    }
}

/// Whether an event is withheld: only a key event whose key is in the
/// suppression set while no modifier is held (after the event's own effect
/// on the held-modifier collection).
pub open spec fn suppresses(held: Seq<u16>, suppressed: Set<u16>, ev: Event) -> bool {
    match ev {
        Event::Key(key, pressed) => suppressed.contains(key.0) && held_after(
            held,
            ev,
        ).len() == 0,
        _ => false,
    }
}

/// The control-output line reporting a withheld key event: `d` for a press,
/// `u` for a release, then the key code in decimal.
pub open spec fn report_line(code: u16, pressed: bool) -> Seq<u8> {
    seq![if pressed { TAG_PRESS } else { TAG_RELEASE }] + dec_repr(code as nat)
}

/// The line `handle_event` reports for a suppressed event. Meaningful only
/// for key events.
pub open spec fn report_of(ev: Event) -> Seq<u8> {
    match ev {
        Event::Key(key, pressed) => report_line(key.0, pressed),
        _ => Seq::empty(),
    }
}

/// Process one incoming physical event: apply it to the held-modifier
/// collection, then either withhold it (reporting it on the control output)
/// or forward it unchanged. A key event is withheld exactly when its key is
/// in the suppression set and no modifier is held; synchronization markers
/// and `Other` events are always forwarded.
pub fn handle_event(held: &mut HeldModifiers, suppressed: &SuppressSet, ev: Event) -> (d:
    Decision)
    ensures
        final(held)@ == held_after(old(held)@, ev),
        old(held).wf() ==> final(held).wf(),
        suppresses(old(held)@, suppressed@, ev) ==> (d matches Decision::Report(line)
            && line@ == report_of(ev)),
        !suppresses(old(held)@, suppressed@, ev) ==> d == Decision::Forward(ev),
        ev matches Event::Syn ==> d == Decision::Forward(ev),
{
    if let Event::Key(key, pressed) = ev {
        held.update(key, pressed);
        if suppressed.contains(key.0) && held.is_empty() {
            let mut line: Vec<u8> = Vec::new();
            line.push(if pressed { TAG_PRESS } else { TAG_RELEASE });
            let mut digits = render_u16(key.0);
            line.append(&mut digits);
            proof {
                assert(line@ =~= report_line(key.0, pressed));
            }
            return Decision::Report(line);
        }
    }
    Decision::Forward(ev)
}

/// The two directions of the control protocol agree: a report line for a
/// withheld key event, fed back as a control line, is a well-formed
/// injection command for the same key code and the same press state.
pub proof fn lemma_report_round_trip(code: u16, pressed: bool)
    ensures
        ({
            let line = report_line(code, pressed);
            &&& line.len() > 0
            &&& line[0] == if pressed {
                TAG_PRESS
            } else {
                TAG_RELEASE
            }
            &&& is_u16_literal(line.subrange(1, line.len() as int))
            &&& u16_literal_value(line.subrange(1, line.len() as int)) == code
        }),
{
    lemma_dec_repr_value(code as nat);
    let line = report_line(code, pressed);
    let body = line.subrange(1, line.len() as int);
    assert(body =~= dec_repr(code as nat));
    assert(literal_digits(body) == body);
}

/// The cumulative effect of a stream of physical events under a fixed
/// suppression set: the final held-modifier collection, the events forwarded
/// to the synthetic device, and the report lines emitted on the control
/// output, each in stream order.
pub open spec fn run_listener(held: Seq<u16>, suppressed: Set<u16>, evs: Seq<Event>) -> (
    Seq<u16>,
    Seq<Event>,
    Seq<Seq<u8>>,
)
    decreases evs.len(),
{
    if evs.len() == 0 {
        (held, Seq::empty(), Seq::empty())
    } else {
        let (h, fwd, rep) = run_listener(held, suppressed, evs.drop_last());
        let ev = evs.last();
        if suppresses(h, suppressed, ev) {
            (held_after(h, ev), fwd, rep.push(report_of(ev)))
        } else {
            (held_after(h, ev), fwd.push(ev), rep)
        }
    }
}

/// For every key sequence and every position in it: if the event is
/// suppressed at the moment it arrives (its key is in the suppression set
/// and no modifier is held), it is reported on the control output and never
/// forwarded to the synthetic device; otherwise it is forwarded unchanged
/// and never reported.
pub proof fn lemma_step_effect(held: Seq<u16>, suppressed: Set<u16>, evs: Seq<Event>, i: int)
    requires
        0 <= i < evs.len(),
    ensures
        ({
            let (h, fwd, rep) = run_listener(held, suppressed, evs.take(i));
            let (h2, fwd2, rep2) = run_listener(held, suppressed, evs.take(i + 1));
            &&& suppresses(h, suppressed, evs[i]) ==> fwd2 == fwd && rep2 == rep.push(
                report_of(evs[i]),
            )
            &&& !suppresses(h, suppressed, evs[i]) ==> fwd2 == fwd.push(evs[i]) && rep2 == rep
            &&& h2 == held_after(h, evs[i])
        }),
{
    assert(evs.take(i + 1).drop_last() =~= evs.take(i));
    assert(evs.take(i + 1).last() == evs[i]);
}

/// Synchronization markers are always forwarded, whatever came before them
/// in the stream and whatever the suppression set holds: a suppressed key
/// event leaves its frame's marker untouched.
pub proof fn lemma_syn_always_forwarded(held: Seq<u16>, suppressed: Set<u16>, evs: Seq<Event>, i: int)
    requires
        0 <= i < evs.len(),
        evs[i] is Syn,
    ensures
        ({
            let (h, fwd, rep) = run_listener(held, suppressed, evs.take(i));
            let (h2, fwd2, rep2) = run_listener(held, suppressed, evs.take(i + 1));
            fwd2 == fwd.push(evs[i]) && rep2 == rep
        }),
{
    lemma_step_effect(held, suppressed, evs, i);
}

/// Process a stream of physical events against a fixed suppression set,
/// returning the forwarded events and the emitted report lines in order.
pub fn process_stream(held: &mut HeldModifiers, suppressed: &SuppressSet, evs: &Vec<Event>) -> (r:
    (Vec<Event>, Vec<Vec<u8>>))
    ensures
        (final(held)@, r.0@, r.1@.map_values(|l: Vec<u8>| l@)) == run_listener(
            old(held)@,
            suppressed@,
            evs@,
        ),
        old(held).wf() ==> final(held).wf(),
{
    let mut forwarded: Vec<Event> = Vec::new();
    let mut reports: Vec<Vec<u8>> = Vec::new();
    let mut i: usize = 0;
    proof {
        assert(evs@.take(0) =~= Seq::<Event>::empty());
    }
    while i < evs.len()
        invariant
            i <= evs@.len(),
            (held@, forwarded@, reports@.map_values(|l: Vec<u8>| l@)) == run_listener(
                old(held)@,
                suppressed@,
                evs@.take(i as int),
            ),
            old(held).wf() ==> held.wf(),
        decreases evs@.len() - i,
    {
        proof {
            assert(evs@.take(i + 1).drop_last() =~= evs@.take(i as int));
            assert(evs@.take(i + 1).last() == evs@[i as int]);
        }
        let ev = evs[i];
        match handle_event(held, suppressed, ev) {
            Decision::Forward(e) => {
                forwarded.push(e);
            },
            Decision::Report(line) => {
                let ghost old_reports = reports@;
                reports.push(line);
                proof {
                    assert(reports@.map_values(|l: Vec<u8>| l@) =~= old_reports.map_values(
                        |l: Vec<u8>| l@,
                    ).push(line@));
                }
            },
        }
        i = i + 1;
    }
    proof {
        assert(evs@.take(i as int) =~= evs@);
    }
    (forwarded, reports)
}

} // verus!
