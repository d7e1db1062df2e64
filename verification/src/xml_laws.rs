//! What patching does to a document, said of the document: where an
//! element has no child of the name it gets one as its last child, and
//! where it has one the child gets the text; all else stays.

use vstd::prelude::*;
use crate::xml_model::{tag_name, EventKind, Token};
use crate::xml_patch::{
    adds_child, emitted, end_token, is_old_text, is_target, patched, start_token, state_at,
    text_token,
};

verus! {

/// The number of elements that are open after `events`.
pub open spec fn nesting(events: Seq<Token>) -> int
    decreases events.len(),
{
    if events.len() == 0 {
        0
    } else {
        nesting(events.drop_last()) + match events.last().kind {
            EventKind::Start => 1int,
            EventKind::End => -1int,
            _ => 0int,
        }
    }
}

/// Whether the event at `i` is the tag of a child named `target` of an
/// element at `depth`.
pub open spec fn is_child(events: Seq<Token>, i: int, target: Seq<char>, depth: int) -> bool {
    (events[i].kind == EventKind::Start || events[i].kind == EventKind::Empty) && tag_name(
        events[i].content,
    ) == target && nesting(events.take(i)) == depth
}

/// Whether the event at `i` closes an element at `depth`.
pub open spec fn closes(events: Seq<Token>, i: int, depth: int) -> bool {
    events[i].kind == EventKind::End && nesting(events.take(i)) == depth
}

/// No element at `depth` has a child named `target`.
pub open spec fn no_child(events: Seq<Token>, target: Seq<char>, depth: int) -> bool {
    forall|j: int| 0 <= j < events.len() ==> !#[trigger] is_child(events, j, target, depth)
}

/// The event at `i` is the only tag of a child named `target` of an
/// element at `depth`.
pub open spec fn only_child(events: Seq<Token>, i: int, target: Seq<char>, depth: int) -> bool {
    &&& 0 <= i < events.len()
    &&& is_child(events, i, target, depth)
    &&& forall|j: int|
        0 <= j < events.len() && j != i ==> !#[trigger] is_child(events, j, target, depth)
}

/// The event at `c` is the only one that closes an element at `depth`.
pub open spec fn only_close(events: Seq<Token>, c: int, depth: int) -> bool {
    &&& 0 <= c < events.len()
    &&& closes(events, c, depth)
    &&& forall|j: int| 0 <= j < events.len() && j != c ==> !#[trigger] closes(events, j, depth)
}

/// A new child named `target` with the text `text`.
pub open spec fn new_child(target: Seq<char>, text: Seq<char>) -> Seq<Token> {
    seq![start_token(target), text_token(text), end_token(target)]
}

/// The child whose tag is the event at `i` and whose last event is the
/// one at `last`, with `text` as its text: a self-closing child becomes
/// an opening tag, the text and a closing tag; another keeps its tags.
pub open spec fn child_with_text(
    events: Seq<Token>,
    i: int,
    last: int,
    target: Seq<char>,
    text: Seq<char>,
) -> Seq<Token> {
    if events[i].kind == EventKind::Empty {
        seq![start_token(events[i].content), text_token(text), end_token(target)]
    } else {
        seq![events[i], text_token(text), events[last]]
    }
}

/// Whether the events from `i` to `last` are a child that holds at most
/// one piece of character data and nothing else: a self-closing tag; or
/// an opening tag and a closing tag, with nothing or one text or CDATA
/// section between them.
pub open spec fn is_plain_child(events: Seq<Token>, i: int, last: int) -> bool {
    &&& 0 <= i <= last < events.len()
    &&& if events[i].kind == EventKind::Empty {
        last == i
    } else {
        &&& events[i].kind == EventKind::Start
        &&& events[last].kind == EventKind::End
        &&& (last == i + 1 || (last == i + 2 && (events[i + 1].kind == EventKind::Text || events[i
            + 1].kind == EventKind::CData)))
    }
}

proof fn lemma_insert_shape(
    events: Seq<Token>,
    c: int,
    n: int,
    target: Seq<char>,
    text: Seq<char>,
    depth: int,
)
    requires
        only_close(events, c, depth),
        no_child(events, target, depth),
        0 <= n <= events.len(),
    ensures
        state_at(events, n, target, depth).depth == nesting(events.take(n)),
        !state_at(events, n, target, depth).inside,
        !state_at(events, n, target, depth).seen,
        patched(events.take(n), target, text, depth) == if n <= c {
            events.take(n)
        } else {
            events.take(c) + new_child(target, text) + events.subrange(c, n)
        },
    decreases n,
{
    if n == 0 {
        assert(events.take(0) =~= Seq::<Token>::empty());
    } else {
        lemma_insert_shape(events, c, n - 1, target, text, depth);
        let pre = events.take(n - 1);
        let cur = events.take(n);
        let t = events[n - 1];
        let s = state_at(events, n - 1, target, depth);
        assert(cur.drop_last() =~= pre);
        assert(cur.last() == t);
        assert(!is_child(events, n - 1, target, depth));
        assert(!is_target(s, t, target, depth));
        assert(!is_old_text(s, t, depth));
        if n - 1 == c {
            assert(adds_child(s, t, depth));
            assert(emitted(s, t, target, text, depth) =~= new_child(target, text) + seq![t]);
            assert(pre + (new_child(target, text) + seq![t]) =~= events.take(c) + new_child(
                target,
                text,
            ) + events.subrange(c, n));
        } else {
            assert(!closes(events, n - 1, depth));
            assert(emitted(s, t, target, text, depth) =~= seq![t]);
            if n <= c {
                assert(pre + seq![t] =~= cur);
            } else {
                assert((events.take(c) + new_child(target, text) + events.subrange(c, n - 1))
                    + seq![t] =~= events.take(c) + new_child(target, text) + events.subrange(
                    c,
                    n,
                ));
            }
        }
    }
}

/// Insertion: in a document in which one element at `depth` closes and
/// no element at `depth` has a child named `target`, that element gets
/// a child of the name with the text as its last child, just before its
/// closing tag, and every event of the document stays as it is and
/// where it is.
pub proof fn lemma_inserts_when_absent(
    events: Seq<Token>,
    c: int,
    target: Seq<char>,
    text: Seq<char>,
    depth: int,
)
    requires
        only_close(events, c, depth),
        no_child(events, target, depth),
    ensures
        patched(events, target, text, depth) == events.take(c) + new_child(target, text)
            + events.skip(c),
{
    lemma_insert_shape(events, c, events.len() as int, target, text, depth);
    assert(events.take(events.len() as int) =~= events);
    assert(events.subrange(c, events.len() as int) =~= events.skip(c));
}

proof fn lemma_child_shape(
    events: Seq<Token>,
    i: int,
    last: int,
    c: int,
    n: int,
    target: Seq<char>,
    text: Seq<char>,
    depth: int,
)
    requires
        only_child(events, i, target, depth),
        is_plain_child(events, i, last),
        only_close(events, c, depth),
        last < c,
        0 <= n <= events.len(),
    ensures
        state_at(events, n, target, depth).depth == nesting(events.take(n)),
        n <= i ==> !state_at(events, n, target, depth).inside && !state_at(
            events,
            n,
            target,
            depth,
        ).seen && patched(events.take(n), target, text, depth) == events.take(n),
        i < n <= last ==> state_at(events, n, target, depth).inside && state_at(
            events,
            n,
            target,
            depth,
        ).depth == depth + 1 && patched(events.take(n), target, text, depth) == events.take(i)
            + seq![events[i], text_token(text)],
        last < n ==> !state_at(events, n, target, depth).inside && patched(
            events.take(n),
            target,
            text,
            depth,
        ) == events.take(i) + child_with_text(events, i, last, target, text) + events.subrange(
            last + 1,
            n,
        ),
        last < n <= c ==> state_at(events, n, target, depth).seen && state_at(
            events,
            n,
            target,
            depth,
        ).depth >= depth,
    decreases n,
{
    if n == 0 {
        assert(events.take(0) =~= Seq::<Token>::empty());
    } else {
        lemma_child_shape(events, i, last, c, n - 1, target, text, depth);
        let pre = events.take(n - 1);
        let cur = events.take(n);
        let t = events[n - 1];
        let s = state_at(events, n - 1, target, depth);
        let out = emitted(s, t, target, text, depth);
        let filled = child_with_text(events, i, last, target, text);
        assert(cur.drop_last() =~= pre);
        assert(cur.last() == t);
        if n - 1 < i {
            assert(!is_child(events, n - 1, target, depth));
            assert(!closes(events, n - 1, depth));
            assert(out =~= seq![t]);
            assert(pre + seq![t] =~= cur);
        } else if n - 1 == i {
            assert(is_target(s, t, target, depth));
            assert(pre =~= events.take(i));
            if t.kind == EventKind::Empty {
                assert(out =~= filled);
                assert(events.subrange(last + 1, n) =~= Seq::<Token>::empty());
                assert(events.take(i) + filled =~= events.take(i) + filled + events.subrange(
                    last + 1,
                    n,
                ));
            } else {
                assert(out =~= seq![events[i], text_token(text)]);
            }
        } else if n - 1 < last {
            assert(is_old_text(s, t, depth));
            assert(out =~= Seq::<Token>::empty());
            assert(events.take(i) + seq![events[i], text_token(text)] + Seq::<Token>::empty()
                =~= events.take(i) + seq![events[i], text_token(text)]);
        } else if n - 1 == last {
            assert(out =~= seq![t]);
            assert(events.subrange(last + 1, n) =~= Seq::<Token>::empty());
            assert((events.take(i) + seq![events[i], text_token(text)]) + seq![t] =~= events.take(
                i,
            ) + filled + events.subrange(last + 1, n));
        } else {
            assert(!is_child(events, n - 1, target, depth));
            if n - 1 != c {
                assert(!closes(events, n - 1, depth));
            }
            assert(out =~= seq![t]);
            assert((events.take(i) + filled + events.subrange(last + 1, n - 1)) + seq![t]
                =~= events.take(i) + filled + events.subrange(last + 1, n));
        }
    }
}

/// Replacement: in a document in which one element at `depth` closes
/// and has one child named `target`, which holds at most one piece of
/// character data and nothing else, the child holds the text after
/// patching, no child is added, and every event outside the child stays
/// as it is and where it is.
pub proof fn lemma_sets_text_of_child(
    events: Seq<Token>,
    i: int,
    last: int,
    c: int,
    target: Seq<char>,
    text: Seq<char>,
    depth: int,
)
    requires
        only_child(events, i, target, depth),
        is_plain_child(events, i, last),
        only_close(events, c, depth),
        last < c,
    ensures
        patched(events, target, text, depth) == events.take(i) + child_with_text(
            events,
            i,
            last,
            target,
            text,
        ) + events.skip(last + 1),
{
    lemma_child_shape(events, i, last, c, events.len() as int, target, text, depth);
    assert(events.take(events.len() as int) =~= events);
    assert(events.subrange(last + 1, events.len() as int) =~= events.skip(last + 1));
}

/// Replacement of a text: where the child holds one text, the patched
/// document is the document with that text replaced by the new one.
pub proof fn lemma_replaces_only_text(
    events: Seq<Token>,
    i: int,
    c: int,
    target: Seq<char>,
    text: Seq<char>,
    depth: int,
)
    requires
        only_child(events, i, target, depth),
        is_plain_child(events, i, i + 2),
        only_close(events, c, depth),
        i + 2 < c,
    ensures
        patched(events, target, text, depth) == events.update(i + 1, text_token(text)),
{
    lemma_sets_text_of_child(events, i, i + 2, c, target, text, depth);
    assert(events.take(i) + child_with_text(events, i, i + 2, target, text) + events.skip(i + 3)
        =~= events.update(i + 1, text_token(text)));
}

} // verus!
