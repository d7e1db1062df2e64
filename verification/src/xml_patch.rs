//! The element patcher: gives the child of a given name, in every
//! element at a given depth, a given text, and adds the child where an
//! element has none.

use vstd::prelude::*;
use crate::xml_model::{
    as_read, is_plain_name, lemma_plain_name_is_tag_name, read_form, tag_name, tokens,
    trimmed_texts, EventKind, Token, XmlEvent,
};

verus! {

/// What the patcher remembers between events.
pub struct PatchState {
    /// The number of elements that are open.
    pub depth: int,
    /// Whether a target child is open.
    pub inside: bool,
    /// Whether the element at the wanted depth that is open has a target child.
    pub seen: bool,
}

/// The state before the first event.
pub open spec fn initial_state() -> PatchState {
    PatchState { depth: 0, inside: false, seen: false }
}

/// The opening tag of a new child named `target`.
pub open spec fn start_token(target: Seq<char>) -> Token {
    Token { kind: EventKind::Start, content: target }
}

/// The closing tag of a child named `target`.
pub open spec fn end_token(target: Seq<char>) -> Token {
    Token { kind: EventKind::End, content: target }
}

/// A text event with the given escaped content.
pub open spec fn text_token(text: Seq<char>) -> Token {
    Token { kind: EventKind::Text, content: text }
}

/// Whether `t` is the tag of a target child when it is read in state
/// `s`: an opening or a self-closing tag of that name, directly in an
/// element at the wanted depth.
pub open spec fn is_target(s: PatchState, t: Token, target: Seq<char>, depth: int) -> bool {
    (t.kind == EventKind::Start || t.kind == EventKind::Empty) && s.depth == depth && tag_name(
        t.content,
    ) == target
}

/// Whether `t` closes an element at the wanted depth that has no target
/// child, when it is read in state `s`.
pub open spec fn adds_child(s: PatchState, t: Token, depth: int) -> bool {
    t.kind == EventKind::End && s.depth == depth && !s.seen
}

/// Whether `t` is character data that stands directly in a target
/// child, when it is read in state `s`.
pub open spec fn is_old_text(s: PatchState, t: Token, depth: int) -> bool {
    (t.kind == EventKind::Text || t.kind == EventKind::CData) && s.inside && s.depth == depth + 1
}

/// The state after reading `t` in state `s`.
pub open spec fn next_state(s: PatchState, t: Token, target: Seq<char>, depth: int) -> PatchState {
    match t.kind {
        EventKind::Start => PatchState {
            depth: s.depth + 1,
            inside: s.inside || is_target(s, t, target, depth),
            seen: s.depth + 1 != depth && (s.seen || is_target(s, t, target, depth)),
        },
        EventKind::Empty => PatchState { seen: s.seen || is_target(s, t, target, depth), ..s },
        EventKind::End => PatchState {
            depth: s.depth - 1,
            inside: s.inside && s.depth != depth + 1,
            seen: s.seen,
        },
        _ => s,
    }
}

/// What is written for `t` when it is read in state `s`:
/// - after the opening tag of a target child comes the new text, and a
///   self-closing target child is written as an opening tag, the new
///   text and a closing tag;
/// - character data that stands directly in a target child is left out;
/// - before the closing tag of an element at the wanted depth that has
///   no target child comes a new child with the new text;
/// - every other event is written as it was read.
pub open spec fn emitted(
    s: PatchState,
    t: Token,
    target: Seq<char>,
    text: Seq<char>,
    depth: int,
) -> Seq<Token> {
    if is_target(s, t, target, depth) {
        if t.kind == EventKind::Start {
            seq![t, text_token(text)]
        } else {
            seq![start_token(t.content), text_token(text), end_token(target)]
        }
    } else if adds_child(s, t, depth) {
        seq![start_token(target), text_token(text), end_token(target), t]
    } else if is_old_text(s, t, depth) {
        Seq::empty()
    } else {
        seq![t]
    }
}

/// The state after reading all of `events`, starting in `s`.
pub open spec fn state_after(
    s: PatchState,
    events: Seq<Token>,
    target: Seq<char>,
    depth: int,
) -> PatchState
    decreases events.len(),
{
    if events.len() == 0 {
        s
    } else {
        next_state(state_after(s, events.drop_last(), target, depth), events.last(), target, depth)
    }
}

/// What is written for all of `events`, starting in `s`.
pub open spec fn patched_from(
    s: PatchState,
    events: Seq<Token>,
    target: Seq<char>,
    text: Seq<char>,
    depth: int,
) -> Seq<Token>
    decreases events.len(),
{
    if events.len() == 0 {
        Seq::empty()
    } else {
        patched_from(s, events.drop_last(), target, text, depth) + emitted(
            state_after(s, events.drop_last(), target, depth),
            events.last(),
            target,
            text,
            depth,
        )
    }
}

/// The patched form of a document's events: in every element at
/// `depth`, the child named `target` holds `text` as its text, and an
/// element at `depth` that has no such child gets one as its last child.
pub open spec fn patched(
    events: Seq<Token>,
    target: Seq<char>,
    text: Seq<char>,
    depth: int,
) -> Seq<Token> {
    patched_from(initial_state(), events, target, text, depth)
}

/// The state in which the event at index `i` is read.
pub open spec fn state_at(events: Seq<Token>, i: int, target: Seq<char>, depth: int) -> PatchState {
    state_after(initial_state(), events.take(i), target, depth)
}

/// A target child is only open while deeper than the wanted depth.
pub open spec fn consistent(s: PatchState, depth: int) -> bool {
    s.inside ==> s.depth > depth
}

/// How the state of a second pass over a patched document relates to the
/// state that the first pass was in at the same place: it is as deep and
/// as far inside a target child, and knows of a target child if the
/// first pass did.
pub open spec fn follows(first: PatchState, second: PatchState) -> bool {
    &&& first.depth == second.depth
    &&& first.inside == second.inside
    &&& first.seen ==> second.seen
}

/// Reading one event writes what `emitted` says and moves to `next_state`.
pub proof fn lemma_single(s: PatchState, t: Token, target: Seq<char>, text: Seq<char>, depth: int)
    ensures
        state_after(s, seq![t], target, depth) == next_state(s, t, target, depth),
        patched_from(s, seq![t], target, text, depth) == emitted(s, t, target, text, depth),
{
    let one = seq![t];
    assert(one.drop_last() =~= Seq::<Token>::empty());
    assert(one.last() == t);
    assert(state_after(s, one.drop_last(), target, depth) == s);
    assert(patched_from(s, one.drop_last(), target, text, depth) =~= Seq::<Token>::empty());
    assert(Seq::<Token>::empty() + emitted(s, t, target, text, depth) =~= emitted(
        s,
        t,
        target,
        text,
        depth,
    ));
}

/// Reading nothing writes nothing.
pub proof fn lemma_none(s: PatchState, target: Seq<char>, text: Seq<char>, depth: int)
    ensures
        state_after(s, Seq::empty(), target, depth) == s,
        patched_from(s, Seq::empty(), target, text, depth) == Seq::<Token>::empty(),
{
}

/// Reading `a` and then `b` is reading `a + b`.
pub proof fn lemma_concat(
    s: PatchState,
    a: Seq<Token>,
    b: Seq<Token>,
    target: Seq<char>,
    text: Seq<char>,
    depth: int,
)
    ensures
        state_after(s, a + b, target, depth) == state_after(
            state_after(s, a, target, depth),
            b,
            target,
            depth,
        ),
        patched_from(s, a + b, target, text, depth) == patched_from(s, a, target, text, depth)
            + patched_from(state_after(s, a, target, depth), b, target, text, depth),
    decreases b.len(),
{
    let mid = state_after(s, a, target, depth);
    if b.len() == 0 {
        assert(a + b =~= a);
        assert(patched_from(s, a, target, text, depth) + Seq::<Token>::empty() =~= patched_from(
            s,
            a,
            target,
            text,
            depth,
        ));
    } else {
        let front = b.drop_last();
        assert((a + b).drop_last() =~= a + front);
        assert((a + b).last() == b.last());
        lemma_concat(s, a, front, target, text, depth);
        let last_out = emitted(state_after(mid, front, target, depth), b.last(), target, text, depth);
        assert((patched_from(s, a, target, text, depth) + patched_from(
            mid,
            front,
            target,
            text,
            depth,
        )) + last_out =~= patched_from(s, a, target, text, depth) + (patched_from(
            mid,
            front,
            target,
            text,
            depth,
        ) + last_out));
    }
}

/// One step keeps the state consistent.
pub proof fn lemma_step_consistent(s: PatchState, t: Token, target: Seq<char>, depth: int)
    requires
        consistent(s, depth),
    ensures
        consistent(next_state(s, t, target, depth), depth),
{
}

/// What a second pass is given for an event that the first pass wrote:
/// the event itself, or the event as a reader that trims text hands it out.
pub open spec fn given_back(trimmed: bool, t: Token) -> Seq<Token> {
    if trimmed {
        as_read(t)
    } else {
        seq![t]
    }
}

/// What a second pass is given for the events that the first pass wrote.
pub open spec fn given_back_all(trimmed: bool, events: Seq<Token>) -> Seq<Token>
    decreases events.len(),
{
    if events.len() == 0 {
        Seq::empty()
    } else {
        given_back_all(trimmed, events.drop_last()) + given_back(trimmed, events.last())
    }
}

/// `given_back_all` with trimming is `read_form`, and without it is the
/// events themselves.
pub proof fn lemma_given_back_all(events: Seq<Token>)
    ensures
        given_back_all(true, events) == read_form(events),
        given_back_all(false, events) == events,
    decreases events.len(),
{
    if events.len() > 0 {
        lemma_given_back_all(events.drop_last());
        assert(events.drop_last() + seq![events.last()] =~= events);
    }
}

/// What is given back for `a + b` is what is given back for `a` and for `b`.
pub proof fn lemma_given_back_concat(trimmed: bool, a: Seq<Token>, b: Seq<Token>)
    ensures
        given_back_all(trimmed, a + b) == given_back_all(trimmed, a) + given_back_all(trimmed, b),
    decreases b.len(),
{
    if b.len() == 0 {
        assert(a + b =~= a);
        assert(given_back_all(trimmed, a) + Seq::<Token>::empty() =~= given_back_all(trimmed, a));
    } else {
        assert((a + b).drop_last() =~= a + b.drop_last());
        lemma_given_back_concat(trimmed, a, b.drop_last());
        assert((given_back_all(trimmed, a) + given_back_all(trimmed, b.drop_last())) + given_back(
            trimmed,
            b.last(),
        ) =~= given_back_all(trimmed, a) + (given_back_all(trimmed, b.drop_last()) + given_back(
            trimmed,
            b.last(),
        )));
    }
}

/// What is given back for one event.
pub proof fn lemma_given_back_one(trimmed: bool, t: Token)
    ensures
        given_back_all(trimmed, seq![t]) == given_back(trimmed, t),
{
    let one = seq![t];
    assert(one.drop_last() =~= Seq::<Token>::empty());
    assert(one.last() == t);
    assert(given_back_all(trimmed, one.drop_last()) =~= Seq::<Token>::empty());
    assert(Seq::<Token>::empty() + given_back(trimmed, t) =~= given_back(trimmed, t));
}

/// Inside a target child, the text that the first pass wrote is left
/// out by the second pass, in whatever form it is given back.
proof fn lemma_old_text_left_out(
    r: PatchState,
    trimmed: bool,
    content: Seq<char>,
    target: Seq<char>,
    text: Seq<char>,
    depth: int,
)
    requires
        r.inside,
        r.depth == depth + 1,
    ensures
        patched_from(r, given_back(trimmed, text_token(content)), target, text, depth)
            == Seq::<Token>::empty(),
        state_after(r, given_back(trimmed, text_token(content)), target, depth) == r,
{
    let back = given_back(trimmed, text_token(content));
    if back.len() == 0 {
        lemma_none(r, target, text, depth);
    } else {
        assert(back =~= seq![back[0]]);
        lemma_single(r, back[0], target, text, depth);
    }
}

/// The second pass over an opening tag of a target child, the text
/// after it and what follows.
proof fn lemma_second_pass_child(
    r: PatchState,
    trimmed: bool,
    opening: Token,
    rest: Seq<Token>,
    target: Seq<char>,
    text: Seq<char>,
    depth: int,
)
    requires
        opening.kind == EventKind::Start,
        is_target(r, opening, target, depth),
        !r.inside,
    ensures
        patched_from(
            r,
            given_back_all(trimmed, seq![opening, text_token(text)] + rest),
            target,
            text,
            depth,
        ) == seq![opening, text_token(text)] + patched_from(
            next_state(r, opening, target, depth),
            given_back_all(trimmed, rest),
            target,
            text,
            depth,
        ),
        state_after(
            r,
            given_back_all(trimmed, seq![opening, text_token(text)] + rest),
            target,
            depth,
        ) == state_after(
            next_state(r, opening, target, depth),
            given_back_all(trimmed, rest),
            target,
            depth,
        ),
{
    let r1 = next_state(r, opening, target, depth);
    let one = seq![opening];
    let two = seq![text_token(text)];
    let back = given_back(trimmed, text_token(text));
    assert(seq![opening, text_token(text)] + rest =~= one + (two + rest));
    lemma_given_back_concat(trimmed, one, two + rest);
    lemma_given_back_concat(trimmed, two, rest);
    lemma_given_back_one(trimmed, opening);
    lemma_given_back_one(trimmed, text_token(text));
    assert(given_back(trimmed, opening) =~= one);
    let tail = given_back_all(trimmed, rest);
    lemma_concat(r, one, back + tail, target, text, depth);
    lemma_single(r, opening, target, text, depth);
    lemma_concat(r1, back, tail, target, text, depth);
    lemma_old_text_left_out(r1, trimmed, text, target, text, depth);
    assert(seq![opening, text_token(text)] + (Seq::<Token>::empty() + patched_from(
        r1,
        tail,
        target,
        text,
        depth,
    )) =~= seq![opening, text_token(text)] + patched_from(r1, tail, target, text, depth));
}

/// What the first pass wrote for one event, the second pass writes again
/// unchanged, and the two passes stay in step.
pub proof fn lemma_repatch_step(
    s: PatchState,
    r: PatchState,
    trimmed: bool,
    t: Token,
    target: Seq<char>,
    text: Seq<char>,
    depth: int,
)
    requires
        is_plain_name(target),
        consistent(s, depth),
        follows(s, r),
        trimmed ==> as_read(t) == seq![t],
    ensures
        patched_from(
            r,
            given_back_all(trimmed, emitted(s, t, target, text, depth)),
            target,
            text,
            depth,
        ) == emitted(s, t, target, text, depth),
        follows(
            next_state(s, t, target, depth),
            state_after(
                r,
                given_back_all(trimmed, emitted(s, t, target, text, depth)),
                target,
                depth,
            ),
        ),
{
    let out = emitted(s, t, target, text, depth);
    let none = Seq::<Token>::empty();
    lemma_plain_name_is_tag_name(target);
    assert(given_back_all(trimmed, none) =~= none);
    if is_target(s, t, target, depth) {
        if t.kind == EventKind::Start {
            assert(out =~= seq![t, text_token(text)] + none);
            lemma_second_pass_child(r, trimmed, t, none, target, text, depth);
            lemma_none(next_state(r, t, target, depth), target, text, depth);
            assert(seq![t, text_token(text)] + none =~= out);
        } else {
            let opening = start_token(t.content);
            let closing = end_token(target);
            let rest = seq![closing];
            let r1 = next_state(r, opening, target, depth);
            assert(out =~= seq![opening, text_token(text)] + rest);
            lemma_second_pass_child(r, trimmed, opening, rest, target, text, depth);
            lemma_given_back_one(trimmed, closing);
            lemma_single(r1, closing, target, text, depth);
        }
    } else if adds_child(s, t, depth) {
        let opening = start_token(target);
        let closing = end_token(target);
        let rest = seq![closing, t];
        let r1 = next_state(r, opening, target, depth);
        let r2 = next_state(r1, closing, target, depth);
        assert(out =~= seq![opening, text_token(text)] + rest);
        lemma_second_pass_child(r, trimmed, opening, rest, target, text, depth);
        assert(rest =~= seq![closing] + seq![t]);
        lemma_given_back_concat(trimmed, seq![closing], seq![t]);
        lemma_given_back_one(trimmed, closing);
        lemma_given_back_one(trimmed, t);
        lemma_concat(r1, seq![closing], seq![t], target, text, depth);
        lemma_single(r1, closing, target, text, depth);
        lemma_single(r2, t, target, text, depth);
        assert(seq![opening, text_token(text)] + (seq![closing] + seq![t]) =~= out);
    } else if is_old_text(s, t, depth) {
        lemma_none(r, target, text, depth);
    } else {
        assert(out =~= seq![t]);
        lemma_given_back_one(trimmed, t);
        lemma_single(r, t, target, text, depth);
    }
}

/// A second pass over what a first pass wrote changes nothing, from any
/// pair of states that are in step.
pub proof fn lemma_repatch_from(
    s: PatchState,
    r: PatchState,
    trimmed: bool,
    events: Seq<Token>,
    target: Seq<char>,
    text: Seq<char>,
    depth: int,
)
    requires
        is_plain_name(target),
        consistent(s, depth),
        follows(s, r),
        trimmed ==> trimmed_texts(events),
    ensures
        patched_from(
            r,
            given_back_all(trimmed, patched_from(s, events, target, text, depth)),
            target,
            text,
            depth,
        ) == patched_from(s, events, target, text, depth),
        follows(
            state_after(s, events, target, depth),
            state_after(
                r,
                given_back_all(trimmed, patched_from(s, events, target, text, depth)),
                target,
                depth,
            ),
        ),
        consistent(state_after(s, events, target, depth), depth),
    decreases events.len(),
{
    if events.len() == 0 {
        assert(patched_from(s, events, target, text, depth) =~= Seq::<Token>::empty());
    } else {
        let front = events.drop_last();
        let t = events.last();
        assert(trimmed ==> trimmed_texts(front)) by {
            if trimmed {
                assert forall|i: int| 0 <= i < front.len() implies as_read(#[trigger] front[i])
                    == seq![front[i]] by {
                    assert(front[i] == events[i]);
                }
            }
        }
        lemma_repatch_from(s, r, trimmed, front, target, text, depth);
        let s1 = state_after(s, front, target, depth);
        let done = patched_from(s, front, target, text, depth);
        let out = emitted(s1, t, target, text, depth);
        let r1 = state_after(r, given_back_all(trimmed, done), target, depth);
        lemma_repatch_step(s1, r1, trimmed, t, target, text, depth);
        lemma_step_consistent(s1, t, target, depth);
        lemma_given_back_concat(trimmed, done, out);
        lemma_concat(
            r,
            given_back_all(trimmed, done),
            given_back_all(trimmed, out),
            target,
            text,
            depth,
        );
    }
}

/// Patching is idempotent: patching a patched document with the same
/// name, text and depth gives the same document. The name must be free of
/// whitespace, as the name of an element is.
pub proof fn lemma_patch_idempotent(
    events: Seq<Token>,
    target: Seq<char>,
    text: Seq<char>,
    depth: int,
)
    requires
        is_plain_name(target),
    ensures
        patched(patched(events, target, text, depth), target, text, depth) == patched(
            events,
            target,
            text,
            depth,
        ),
{
    lemma_repatch_from(initial_state(), initial_state(), false, events, target, text, depth);
    lemma_given_back_all(patched(events, target, text, depth));
}

/// Patching is idempotent across writing and reading: where the events
/// of a document are as a reader that trims text hands them out,
/// patching the patched document again, in the form in which such a
/// reader hands it out, gives the patched document. This holds for
/// every text, also for one that is empty or all whitespace.
pub proof fn lemma_patch_idempotent_as_read(
    events: Seq<Token>,
    target: Seq<char>,
    text: Seq<char>,
    depth: int,
)
    requires
        is_plain_name(target),
        trimmed_texts(events),
    ensures
        patched(read_form(patched(events, target, text, depth)), target, text, depth) == patched(
            events,
            target,
            text,
            depth,
        ),
{
    lemma_repatch_from(initial_state(), initial_state(), true, events, target, text, depth);
    lemma_given_back_all(patched(events, target, text, depth));
}

/// The patcher's state as the executable code holds it.
struct Cursor {
    depth: i128,
    inside: bool,
    seen: bool,
}

impl View for Cursor {
    type V = PatchState;

    closed spec fn view(&self) -> PatchState {
        PatchState { depth: self.depth as int, inside: self.inside, seen: self.seen }
    }
}

/// Patches a document given as events. `text` is the escaped text that
/// the target child is to hold.
pub fn patch_events(events: &Vec<XmlEvent>, target: &str, text: &str, depth: i64) -> (out: Vec<
    XmlEvent,
>)
    ensures
        tokens(out@) == patched(tokens(events@), target@, text@, depth as int),
{
    let mut out: Vec<XmlEvent> = Vec::new();
    let mut cur = Cursor { depth: 0, inside: false, seen: false };
    let wanted: i128 = depth as i128;
    let ghost all = tokens(events@);
    let mut i: usize = 0;
    assert(all.take(0) =~= Seq::<Token>::empty());
    assert(tokens(out@) =~= Seq::<Token>::empty());
    while i < events.len()
        invariant
            i <= events.len(),
            all == tokens(events@),
            wanted == depth,
            -(i as int) <= cur.depth <= i as int,
            cur@ == state_after(initial_state(), all.take(i as int), target@, depth as int),
            tokens(out@) == patched(all.take(i as int), target@, text@, depth as int),
        decreases events.len() - i,
    {
        let event = &events[i];
        let ghost before = cur@;
        let ghost written = tokens(out@);
        proof {
            assert(all.take(i + 1).drop_last() =~= all.take(i as int));
            assert(all.take(i + 1).last() == event@);
        }
        match event.kind {
            EventKind::Start => {
                let hit = cur.depth == wanted && event.has_name(target);
                out.push(event.duplicate());
                if hit {
                    out.push(XmlEvent::new(EventKind::Text, text));
                    assert(tokens(out@) =~= written + seq![event@, text_token(text@)]);
                } else {
                    assert(tokens(out@) =~= written + seq![event@]);
                }
                cur.seen = cur.depth + 1 != wanted && (cur.seen || hit);
                cur.inside = cur.inside || hit;
                cur.depth = cur.depth + 1;
            },
            EventKind::Empty => {
                let hit = cur.depth == wanted && event.has_name(target);
                if hit {
                    out.push(XmlEvent::new(EventKind::Start, event.content.as_str()));
                    out.push(XmlEvent::new(EventKind::Text, text));
                    out.push(XmlEvent::new(EventKind::End, target));
                    assert(tokens(out@) =~= written + seq![
                        start_token(event.content@),
                        text_token(text@),
                        end_token(target@),
                    ]);
                } else {
                    out.push(event.duplicate());
                    assert(tokens(out@) =~= written + seq![event@]);
                }
                cur.seen = cur.seen || hit;
            },
            EventKind::End => {
                if cur.depth == wanted && !cur.seen {
                    out.push(XmlEvent::new(EventKind::Start, target));
                    out.push(XmlEvent::new(EventKind::Text, text));
                    out.push(XmlEvent::new(EventKind::End, target));
                    out.push(event.duplicate());
                    assert(tokens(out@) =~= written + seq![
                        start_token(target@),
                        text_token(text@),
                        end_token(target@),
                        event@,
                    ]);
                } else {
                    out.push(event.duplicate());
                    assert(tokens(out@) =~= written + seq![event@]);
                }
                cur.inside = cur.inside && cur.depth != wanted + 1;
                cur.depth = cur.depth - 1;
            },
            EventKind::Text | EventKind::CData => {
                if cur.inside && cur.depth == wanted + 1 {
                    assert(tokens(out@) =~= written + Seq::<Token>::empty());
                } else {
                    out.push(event.duplicate());
                    assert(tokens(out@) =~= written + seq![event@]);
                }
            },
            _ => {
                out.push(event.duplicate());
                assert(tokens(out@) =~= written + seq![event@]);
            },
        }
        assert(cur@ == next_state(before, event@, target@, depth as int));
        assert(tokens(out@) == written + emitted(before, event@, target@, text@, depth as int));
        i += 1;
    }
    assert(all.take(i as int) =~= all);
    out
}

} // verus!
