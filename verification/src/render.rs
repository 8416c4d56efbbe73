//! The exact wire lines of the protocol: the welcome line, the presence
//! listing, and the notification a session writes for another session's
//! event. Rendering is self-excluding: an event carrying the reader's own
//! name renders to nothing.
use vstd::prelude::*;
use vstd::string::StringExecFns;
use crate::event::Event;
use crate::event::spec_event_name;
use crate::text::views_of;
use crate::text::spec_join;
use crate::text::without;
use crate::text::join_from;

verus! {

/// The fixed welcome line sent immediately on connect.
pub open spec fn spec_welcome() -> Seq<char> {
    "Welcome to budgetchat! What shall I call you?"@
}

/// Builds the welcome line.
pub fn welcome_line() -> (r: String)
    ensures
        r@ == spec_welcome(),
{
    String::from_str("Welcome to budgetchat! What shall I call you?")
}

/// The notification line an event renders to for a reader other than its
/// carrier.
pub open spec fn spec_notice(e: Event) -> Seq<char> {
    match e {
        Event::Join(n) => "* "@ + n@ + " has entered the room"@,
        Event::Leave(n) => "* "@ + n@ + " has left the room"@,
        Event::Text { name, body } => "["@ + name@ + "] "@ + body@,
    }
}

/// What a session named `me` writes for an event: nothing for its own
/// events, the notification line for every other session's.
pub open spec fn spec_render(e: Event, me: Seq<char>) -> Option<Seq<char>> {
    if spec_event_name(e) == me {
        None
    } else {
        Some(spec_notice(e))
    }
}

/// Renders an event for the session named `me`, excluding its own events.
pub fn render_event_for(e: &Event, me: &String) -> (r: Option<String>)
    ensures
        r is Some <==> spec_event_name(*e) != me@,
        r matches Some(line) ==> line@ == spec_notice(*e),
{
    match e {
        Event::Join(n) => {
            if n.eq(me) {
                None
            } else {
                let mut s = String::from_str("* ");
                s.append(n.as_str());
                s.append(" has entered the room");
                Some(s)
            }
        }
        Event::Leave(n) => {
            if n.eq(me) {
                None
            } else {
                let mut s = String::from_str("* ");
                s.append(n.as_str());
                s.append(" has left the room");
                Some(s)
            }
        }
        Event::Text { name, body } => {
            if name.eq(me) {
                None
            } else {
                let mut s = String::from_str("[");
                s.append(name.as_str());
                s.append("] ");
                s.append(body.as_str());
                Some(s)
            }
        }
    }
}

/// A session never receives its own event as a rendered line.
pub proof fn lemma_self_exclusion(e: Event, me: Seq<char>)
    ensures
        spec_event_name(e) == me ==> spec_render(e, me) is None,
{
}

/// A text event published by `n` renders for every other reader as the
/// bracketed relay line, and for `n` itself as nothing.
pub proof fn lemma_text_round_trip(n: Seq<char>, b: Seq<char>, name: String, body: String, me: Seq<char>)
    requires
        name@ == n,
        body@ == b,
    ensures
        me != n ==> spec_render(Event::Text { name, body }, me)
            == Some("["@ + n + "] "@ + b),
        me == n ==> spec_render(Event::Text { name, body }, me) is None,
{
}

/// The exact presence listing for the given sequence of other names.
pub open spec fn spec_presence_line(others: Seq<Seq<char>>) -> Seq<char> {
    if others.len() == 0 {
        "* The room contains: just you!"@
    } else {
        "* The room contains: "@ + spec_join(others)
    }
}

/// Composes the presence listing from the other sessions' names.
pub fn presence_line(others: &Vec<String>) -> (r: String)
    ensures
        r@ == spec_presence_line(views_of(others@)),
{
    if others.len() == 0 {
        String::from_str("* The room contains: just you!")
    } else {
        let mut s = String::from_str("* The room contains: ");
        let joined = join_from(others, 0);
        s.append(joined.as_str());
        proof {
            assert(views_of(others@).skip(0) =~= views_of(others@));
        }
        s
    }
}

/// Keeps every snapshot entry whose name differs from `me`, in snapshot
/// order.
pub fn filter_others(snapshot: &Vec<String>, me: &String) -> (r: Vec<String>)
    ensures
        views_of(r@) == without(views_of(snapshot@), me@),
{
    let mut r: Vec<String> = Vec::new();
    let n = snapshot.len();
    let mut k: usize = 0;
    while k < n
        invariant
            n == snapshot.len(),
            k <= n,
            views_of(r@) == without(views_of(snapshot@).take(k as int), me@),
        decreases n - k,
    {
        let ghost pre = views_of(snapshot@).take(k as int);
        let ghost post = views_of(snapshot@).take(k as int + 1);
        let ghost oldr = r@;
        if !snapshot[k].eq(me) {
            r.push(snapshot[k].clone());
        }
        proof {
            assert(post.drop_last() =~= pre);
            assert(post.last() == snapshot@[k as int]@);
            if snapshot@[k as int]@ == me@ {
                assert(views_of(r@) =~= views_of(oldr));
            } else {
                assert(views_of(r@) =~= views_of(oldr).push(snapshot@[k as int]@));
            }
        }
        k += 1;
    }
    proof {
        assert(views_of(snapshot@).take(n as int) =~= views_of(snapshot@));
    }
    r
}

} // verus!
