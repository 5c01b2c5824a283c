//! The control protocol: parsing command lines from the controlling process
//! and applying them to the suppression state or the synthetic device.

use vstd::prelude::*;
use vstd::slice::slice_subrange;
use crate::event::Event;
use crate::keys::Key;
use crate::numeric::{is_u16_literal, parse_u16, u16_literal_value};
use crate::suppress::SuppressSet;

verus! {

/// The `d` tag: marks a key press, both in report lines flowing out and in
/// injection commands flowing in.
pub const TAG_PRESS: u8 = 100;

/// The `u` tag: marks a key release, both in report lines flowing out and
/// in injection commands flowing in.
pub const TAG_RELEASE: u8 = 117;

/// Command tag replacing the suppression set (`s`).
pub const TAG_SET: u8 = 115;

/// The ASCII space separating codes in a `s` command body.
pub const SPACE: u8 = 32;

/// A decoded control command: inject a synthetic key event (press or
/// release, followed by a synchronization marker), replace the suppression
/// set wholesale, or do nothing (malformed or unrecognized lines).
pub enum Command {
    Inject(u16, bool),
    Replace(SuppressSet),
    Ignore,
}

/// Index of the first space in `s`, or `s.len()` if there is none.
pub open spec fn first_space(s: Seq<u8>) -> nat
    decreases s.len(),
{
    if s.len() == 0 {
        0
    } else if s[0] == SPACE {
        0
    } else {
        1 + first_space(s.drop_first())
    }
}

/// The space-separated tokens of `s`, in order. Consecutive or leading and
/// trailing separators yield empty tokens, as does an empty `s`.
pub open spec fn tokens(s: Seq<u8>) -> Seq<Seq<u8>>
    decreases s.len(),
{
    let i = first_space(s);
    if i >= s.len() {
        seq![s]
    } else {
        seq![s.take(i as int)] + tokens(s.skip(i as int + 1))
    }
}

/// The key codes a single token contributes: its value if it is a valid
/// decimal literal, nothing otherwise (malformed tokens are skipped).
pub open spec fn token_code(t: Seq<u8>) -> Set<u16> {
    if is_u16_literal(t) {
        set![u16_literal_value(t) as u16]
    } else {
        Set::empty()
    }
}

/// The key codes contributed by a sequence of tokens.
pub open spec fn codes_of_tokens(ts: Seq<Seq<u8>>) -> Set<u16>
    decreases ts.len(),
{
    if ts.len() == 0 {
        Set::empty()
    } else {
        token_code(ts.first()).union(codes_of_tokens(ts.drop_first()))
    }
}

/// The set of key codes a `s` command body denotes: each valid decimal
/// token becomes a code; malformed tokens are individually skipped.
pub open spec fn suppression_codes(body: Seq<u8>) -> Set<u16> {
    codes_of_tokens(tokens(body))
}

proof fn lemma_first_space_at(s: Seq<u8>, j: int)
    requires
        0 <= j < s.len(),
        s[j] == SPACE,
        forall|k: int| 0 <= k < j ==> s[k] != SPACE,
    ensures
        first_space(s) == j,
    decreases s.len(),
{
    if j > 0 {
        lemma_first_space_at(s.drop_first(), j - 1);
    }
}

proof fn lemma_first_space_none(s: Seq<u8>)
    requires
        forall|k: int| 0 <= k < s.len() ==> s[k] != SPACE,
    ensures
        first_space(s) == s.len(),
    decreases s.len(),
{
    if s.len() > 0 {
        lemma_first_space_none(s.drop_first());
    }
}

/// A body without separators is one single token.
proof fn lemma_codes_single(s: Seq<u8>)
    requires
        forall|k: int| 0 <= k < s.len() ==> s[k] != SPACE,
    ensures
        suppression_codes(s) =~= token_code(s),
{
    lemma_first_space_none(s);
    let ts = tokens(s);
    assert(ts == seq![s]);
    assert(ts.drop_first() =~= Seq::<Seq<u8>>::empty());
    assert(codes_of_tokens(Seq::<Seq<u8>>::empty()) == Set::<u16>::empty());
    assert(codes_of_tokens(ts) =~= token_code(s).union(codes_of_tokens(ts.drop_first())));
    assert(codes_of_tokens(ts) =~= token_code(s));
}

/// Splitting a body at its first separator splits its codes: the token
/// before the separator, and the codes of the rest.
proof fn lemma_codes_split(s: Seq<u8>, j: int)
    requires
        0 <= j < s.len(),
        s[j] == SPACE,
        forall|k: int| 0 <= k < j ==> s[k] != SPACE,
    ensures
        suppression_codes(s) =~= token_code(s.take(j)).union(suppression_codes(s.skip(j + 1))),
{
    lemma_first_space_at(s, j);
    let ts = seq![s.take(j)] + tokens(s.skip(j + 1));
    assert(tokens(s) == ts);
    assert(ts.first() == s.take(j));
    assert(ts.drop_first() =~= tokens(s.skip(j + 1)));
}

/// Build the suppression set a `s` command body denotes: parse each
/// space-separated token, keep the valid codes, skip the rest.
pub fn parse_suppression_body(body: &[u8]) -> (s: SuppressSet)
    ensures
        s@ == suppression_codes(body@),
{
    let mut set = SuppressSet::new();
    let mut start: usize = 0;
    let mut i: usize = 0;
    proof {
        assert(body@.skip(0) =~= body@);
        assert(set@.union(suppression_codes(body@)) =~= suppression_codes(body@));
    }
    while i < body.len()
        invariant
            start <= i <= body@.len(),
            forall|k: int| start <= k < i ==> body@[k] != SPACE,
            suppression_codes(body@) =~= set@.union(suppression_codes(body@.skip(start as int))),
        decreases body@.len() - i,
    {
        if body[i] == SPACE {
            let token = slice_subrange(body, start, i);
            proof {
                let rest = body@.skip(start as int);
                assert(rest.take(i - start) =~= token@);
                assert(rest.skip(i - start + 1) =~= body@.skip(i + 1));
                assert(forall|k: int| 0 <= k < i - start ==> rest[k] != SPACE);
                assert(rest[i - start] == SPACE);
                lemma_codes_split(rest, i - start);
            }
            if let Some(code) = parse_u16(token) {
                set.insert(code);
            }
            proof {
                assert(suppression_codes(body@) =~= set@.union(
                    suppression_codes(body@.skip(i + 1)),
                ));
            }
            start = i + 1;
        }
        i = i + 1;
    }
    let token = slice_subrange(body, start, body.len());
    proof {
        let rest = body@.skip(start as int);
        assert(rest =~= token@);
        lemma_codes_single(rest);
    }
    if let Some(code) = parse_u16(token) {
        set.insert(code);
    }
    proof {
        assert(set@ =~= suppression_codes(body@));
    }
    set
}

/// Decode one control line (without its terminator): the first byte is the
/// command tag, the rest is the body. `d`/`u` with a valid decimal code
/// become injections; `s` becomes a wholesale replacement of the
/// suppression set; anything else, including a malformed `d`/`u` body, is
/// ignored.
pub fn parse_line(line: &[u8]) -> (c: Command)
    ensures
        line@.len() == 0 ==> c is Ignore,
        line@.len() > 0 ==> {
            let tag = line@[0];
            let body = line@.subrange(1, line@.len() as int);
            &&& (tag == TAG_PRESS && is_u16_literal(body)) ==> c == Command::Inject(
                u16_literal_value(body) as u16,
                true,
            )
            &&& (tag == TAG_RELEASE && is_u16_literal(body)) ==> c == Command::Inject(
                u16_literal_value(body) as u16,
                false,
            )
            &&& ((tag == TAG_PRESS || tag == TAG_RELEASE) && !is_u16_literal(body)) ==> c
                is Ignore
            &&& tag == TAG_SET ==> (c matches Command::Replace(s) && s@ == suppression_codes(
                body,
            ))
            &&& (tag != TAG_PRESS && tag != TAG_RELEASE && tag != TAG_SET) ==> c is Ignore
        },
{
    if line.len() == 0 {
        return Command::Ignore;
    }
    let tag = line[0];
    let body = slice_subrange(line, 1, line.len());
    if tag == TAG_PRESS || tag == TAG_RELEASE {
        match parse_u16(body) {
            Some(code) => Command::Inject(code, tag == TAG_PRESS),
            None => Command::Ignore,
        }
    } else if tag == TAG_SET {
        Command::Replace(parse_suppression_body(body))
    } else {
        Command::Ignore
    }
}

/// The pair of events injection writes to the synthetic device: the key
/// event itself, then a synchronization marker.
pub open spec fn injection_seq(code: u16, pressed: bool) -> Seq<Event> {
    seq![Event::Key(Key(code), pressed), Event::Syn]
}

/// The events to write to the synthetic device for an injection command.
pub fn injection_events(code: u16, pressed: bool) -> (evs: Vec<Event>)
    ensures
        evs@ == injection_seq(code, pressed),
{
    let mut evs: Vec<Event> = Vec::new();
    evs.push(Event::Key(Key(code), pressed));
    evs.push(Event::Syn);
    proof {
        assert(evs@ =~= injection_seq(code, pressed));
    }
    evs
}

/// Injecting a press of `code` and then a release of `code` writes to the
/// synthetic device, in order: a press event, a synchronization marker, a
/// release event, and a synchronization marker.
pub proof fn lemma_inject_press_release(code: u16)
    ensures
        injection_seq(code, true) + injection_seq(code, false) == seq![
            Event::Key(Key(code), true),
            Event::Syn,
            Event::Key(Key(code), false),
            Event::Syn,
        ],
{
    assert(injection_seq(code, true) + injection_seq(code, false) =~= seq![
        Event::Key(Key(code), true),
        Event::Syn,
        Event::Key(Key(code), false),
        Event::Syn,
    ]);
}

/// Apply a decoded command: a replacement installs the new suppression set
/// wholesale (the old one is discarded, never merged); an injection leaves
/// the set untouched and yields the events to write to the synthetic
/// device; an ignored line changes nothing.
pub fn apply_command(cmd: Command, suppressed: &mut SuppressSet) -> (inject: Option<Vec<Event>>)
    ensures
        cmd matches Command::Replace(s) ==> final(suppressed)@ == s@ && inject is None,
        cmd matches Command::Inject(code, pressed) ==> final(suppressed)@ == old(suppressed)@
            && (inject matches Some(evs) && evs@ == injection_seq(code, pressed)),
        cmd is Ignore ==> final(suppressed)@ == old(suppressed)@ && inject is None,
{
    match cmd {
        Command::Replace(s) => {
            *suppressed = s;
            None
        },
        Command::Inject(code, pressed) => Some(injection_events(code, pressed)),
        Command::Ignore => None,
    }
}

} // verus!

