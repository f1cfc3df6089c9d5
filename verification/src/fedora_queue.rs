//! Filtering of Fedora's JMS events, as they arrive over STOMP.
use vstd::prelude::*;
use crate::text::str_equal;

verus! {

/// Header carrying the repository path of the changed resource.
pub open spec fn identifier_key() -> Seq<char> {
    "org.fcrepo.jms.identifier"@
}

/// Header carrying the ActivityStreams type of the event.
pub open spec fn event_type_key() -> Seq<char> {
    "org.fcrepo.jms.eventType"@
}

/// The event type of a resource creation.
pub open spec fn create_event_type() -> Seq<char> {
    "https://www.w3.org/ns/activitystreams#Create"@
}

/// The value of the last header named `key`: collecting the headers into a
/// map keeps the last value given for a key.
pub open spec fn last_header_value(headers: Seq<(String, String)>, key: Seq<char>) -> Option<Seq<char>>
    decreases headers.len(),
{
    if headers.len() == 0 {
        None
    } else if headers.last().0@ == key {
        Some(headers.last().1@)
    } else {
        last_header_value(headers.drop_last(), key)
    }
}

/// The identifier of a creation event, `None` for any other message.
pub open spec fn create_event_identifier(headers: Seq<(String, String)>) -> Option<Seq<char>> {
    match (last_header_value(headers, identifier_key()), last_header_value(headers, event_type_key())) {
        (Some(id), Some(t)) => if t == create_event_type() {
            Some(id)
        } else {
            None
        },
        _ => None,
    }
}

/// Index of the last header named `key`, if any.
fn last_header_index(headers: &Vec<(String, String)>, key: &str) -> (res: Option<usize>)
    ensures
        match res {
            Some(k) => k < headers@.len() && last_header_value(headers@, key@) == Some(headers@[k as int].1@),
            None => last_header_value(headers@, key@) is None,
        },
{
    let mut found: Option<usize> = None;
    let mut i: usize = 0;
    while i < headers.len()
        invariant
            i <= headers@.len(),
            match found {
                Some(k) => k < i && last_header_value(headers@.take(i as int), key@) == Some(headers@[k as int].1@),
                None => last_header_value(headers@.take(i as int), key@) is None,
            },
        decreases headers@.len() - i,
    {
        assert(headers@.take(i + 1).drop_last() =~= headers@.take(i as int));
        if str_equal(headers[i].0.as_str(), key) {
            found = Some(i);
        }
        i = i + 1;
    }
    assert(headers@.take(i as int) =~= headers@);
    found
}

/// Returns the resource identifier of a creation event; every other message
/// (no identifier, no event type, another event type) gives `None`. When a
/// header name repeats, its last value counts.
pub fn parse_stomp_headers(headers: Vec<(String, String)>) -> (res: Option<String>)
    ensures
        res is None <==> create_event_identifier(headers@) is None,
        res matches Some(id) ==> create_event_identifier(headers@) == Some(id@),
{
    let id_index = last_header_index(&headers, "org.fcrepo.jms.identifier");
    let type_index = last_header_index(&headers, "org.fcrepo.jms.eventType");
    match (id_index, type_index) {
        (Some(i), Some(t)) => {
            if str_equal(headers[t].1.as_str(), "https://www.w3.org/ns/activitystreams#Create") {
                Some(headers[i].1.clone())
            } else {
                None
            }
        },
        _ => None,
    }
}


/// What the broker connection delivers while the queue is read.
pub enum QueueEvent {
    /// A MESSAGE frame, with its headers.
    Message(Vec<(String, String)>),
    /// Any other frame from the server.
    OtherFrame,
    /// The connection reported an error.
    ConnectionLost,
    /// The server closed the connection.
    Closed,
    /// No frame arrived within the receive timeout.
    TimedOut,
}

/// Whether reading goes on after an event.
#[derive(Debug, Clone, Copy, PartialEq, Eq, Structural)]
pub enum QueueAction {
    Continue,
    Stop,
}

/// Milliseconds to wait for the next frame before the queue counts as drained.
pub const RECEIVE_TIMEOUT_MS: u64 = 10000;

/// Heart-beat interval, in milliseconds, asked of the broker both ways.
pub const HEARTBEAT_MS: u32 = 2000;

/// The URIs of the resources whose creation the queue announced, each once,
/// in the order of their first announcement.
pub struct QueueCollector {
    uris: Vec<String>,
}

/// The action that follows an event: frames keep the reading going, the
/// end of the connection or a timeout stop it.
pub open spec fn step_action(event: QueueEvent) -> QueueAction {
    match event {
        QueueEvent::Message(_) => QueueAction::Continue,
        QueueEvent::OtherFrame => QueueAction::Continue,
        _ => QueueAction::Stop,
    }
}

/// Adds `id` unless it is already there (a map keyed by URI).
pub open spec fn insert_uri(uris: Seq<Seq<char>>, id: Seq<char>) -> Seq<Seq<char>> {
    if uris.contains(id) {
        uris
    } else {
        uris.push(id)
    }
}

/// The collected URIs after one event.
pub open spec fn step_uris(uris: Seq<Seq<char>>, event: QueueEvent) -> Seq<Seq<char>> {
    match event {
        QueueEvent::Message(headers) => match create_event_identifier(headers@) {
            Some(id) => insert_uri(uris, id),
            None => uris,
        },
        _ => uris,
    }
}

/// The collected URIs after a run of events; the first stopping event ends
/// the run, and what follows it is never read.
pub open spec fn run_events(uris: Seq<Seq<char>>, events: Seq<QueueEvent>) -> Seq<Seq<char>>
    decreases events.len(),
{
    if events.len() == 0 {
        uris
    } else if step_action(events[0]) == QueueAction::Stop {
        step_uris(uris, events[0])
    } else {
        run_events(step_uris(uris, events[0]), events.drop_first())
    }
}

/// Event `i` is read: no event before it stopped the run.
pub open spec fn is_read(events: Seq<QueueEvent>, i: int) -> bool {
    &&& 0 <= i < events.len()
    &&& forall|j: int| 0 <= j < i ==> step_action(#[trigger] events[j]) == QueueAction::Continue
}

/// Event `i` is a read creation message announcing `id`.
pub open spec fn announces(events: Seq<QueueEvent>, i: int, id: Seq<char>) -> bool {
    &&& is_read(events, i)
    &&& events[i] matches QueueEvent::Message(headers)
    &&& create_event_identifier(headers@) == Some(id)
}

/// Some read creation message announces `id`.
pub open spec fn announced(events: Seq<QueueEvent>, id: Seq<char>) -> bool {
    exists|i: int| announces(events, i, id)
}

/// Adding an identifier keeps the URIs free of duplicates.
proof fn lemma_insert_no_duplicates(uris: Seq<Seq<char>>, id: Seq<char>)
    requires
        uris.no_duplicates(),
    ensures
        insert_uri(uris, id).no_duplicates(),
        forall|x: Seq<char>| insert_uri(uris, id).contains(x) <==> (uris.contains(x) || x == id),
{
    if !uris.contains(id) {
        let r = uris.push(id);
        assert forall|i: int, j: int| 0 <= i < r.len() && 0 <= j < r.len() && i != j implies r[i] != r[j] by {
            if i == uris.len() {
                assert(uris.contains(r[j]));
            } else if j == uris.len() {
                assert(uris.contains(r[i]));
            }
        }
        assert forall|x: Seq<char>| r.contains(x) implies (uris.contains(x) || x == id) by {
            let k = choose|k: int| 0 <= k < r.len() && r[k] == x;
            if k < uris.len() {
                assert(uris[k] == x);
            }
        }
        assert forall|x: Seq<char>| (uris.contains(x) || x == id) implies r.contains(x) by {
            if x == id {
                assert(r[uris.len() as int] == x);
            } else {
                let k = choose|k: int| 0 <= k < uris.len() && uris[k] == x;
                assert(r[k] == x);
            }
        }
    }
}

/// Reading a queue collects each identifier at most once, and collects
/// exactly the identifiers that the creation messages read before the run
/// stopped announce (besides those collected before the run).
pub proof fn lemma_run_collects_announced(uris: Seq<Seq<char>>, events: Seq<QueueEvent>)
    requires
        uris.no_duplicates(),
    ensures
        run_events(uris, events).no_duplicates(),
        forall|id: Seq<char>|
            #![trigger run_events(uris, events).contains(id)]
            run_events(uris, events).contains(id) <==> (uris.contains(id) || announced(events, id)),
    decreases events.len(),
{
    if events.len() == 0 {
        assert forall|id: Seq<char>, i: int| !#[trigger] announces(events, i, id) by {}
    } else {
        let e = events[0];
        let next = step_uris(uris, e);
        match e {
            QueueEvent::Message(headers) => {
                match create_event_identifier(headers@) {
                    Some(id) => lemma_insert_no_duplicates(uris, id),
                    None => {},
                }
            },
            _ => {},
        }
        assert(next.no_duplicates());
        if step_action(e) == QueueAction::Stop {
            assert(run_events(uris, events) == uris);
            assert forall|id: Seq<char>, i: int| !#[trigger] announces(events, i, id) by {
                if i > 0 && is_read(events, i) {
                    assert(step_action(events[0]) == QueueAction::Continue);
                }
            }
        } else {
            let rest = events.drop_first();
            lemma_run_collects_announced(next, rest);
            assert forall|id: Seq<char>|
                #[trigger] run_events(uris, events).contains(id) <==> (uris.contains(id) || announced(events, id)) by {
                assert(run_events(uris, events) == run_events(next, rest));
                assert(is_read(events, 0));
                match e {
                    QueueEvent::Message(headers) => {
                        match create_event_identifier(headers@) {
                            Some(x) => {
                                if x == id {
                                    assert(announces(events, 0, id));
                                }
                            },
                            None => {},
                        }
                    },
                    _ => {},
                }
                if announces(events, 0, id) {
                    assert(next.contains(id));
                }
                if exists|i: int| announces(rest, i, id) {
                    let i = choose|i: int| announces(rest, i, id);
                    assert forall|j: int| 0 <= j < i + 1 implies step_action(#[trigger] events[j]) == QueueAction::Continue by {
                        if j > 0 {
                            assert(events[j] == rest[j - 1]);
                        }
                    }
                    assert(announces(events, i + 1, id));
                }
                if exists|i: int| announces(events, i, id) {
                    let i = choose|i: int| announces(events, i, id);
                    if i > 0 {
                        assert forall|j: int| 0 <= j < i - 1 implies step_action(#[trigger] rest[j]) == QueueAction::Continue by {
                            assert(rest[j] == events[j + 1]);
                        }
                        assert(announces(rest, i - 1, id));
                    }
                }
            }
        }
    }
}

/// The event announces `id`: a creation message for it.
pub open spec fn event_announces(event: QueueEvent, id: Seq<char>) -> bool {
    event matches QueueEvent::Message(headers) && create_event_identifier(headers@) == Some(id)
}

/// Two runs whose read creation messages announce the same identifiers
/// collect the same URIs, each once (so the same number of them): the order
/// of the messages, their repetitions and the events that announce nothing
/// make no difference.
pub proof fn lemma_same_announcements_same_uris(e1: Seq<QueueEvent>, e2: Seq<QueueEvent>)
    requires
        forall|id: Seq<char>| announced(e1, id) <==> announced(e2, id),
    ensures
        run_events(Seq::empty(), e1).to_set() == run_events(Seq::empty(), e2).to_set(),
        run_events(Seq::empty(), e1).len() == run_events(Seq::empty(), e2).len(),
{
    let empty = Seq::<Seq<char>>::empty();
    lemma_run_collects_announced(empty, e1);
    lemma_run_collects_announced(empty, e2);
    let r1 = run_events(empty, e1);
    let r2 = run_events(empty, e2);
    assert forall|id: Seq<char>| r1.to_set().contains(id) <==> r2.to_set().contains(id) by {
        assert(r1.contains(id) <==> announced(e1, id));
        assert(r2.contains(id) <==> announced(e2, id));
    }
    assert(r1.to_set() =~= r2.to_set());
    r1.unique_seq_to_set();
    r2.unique_seq_to_set();
}

/// Inserting, before the run stops, an event that reads on adds to what the
/// run announces only what that event announces.
pub proof fn lemma_insert_reading_event(events: Seq<QueueEvent>, k: int, x: QueueEvent)
    requires
        0 <= k <= events.len(),
        forall|j: int| 0 <= j < k ==> step_action(#[trigger] events[j]) == QueueAction::Continue,
        step_action(x) == QueueAction::Continue,
    ensures
        forall|id: Seq<char>|
            #[trigger] announced(events.insert(k, x), id) <==> (announced(events, id) || event_announces(x, id)),
{
    let n = events.insert(k, x);
    assert forall|id: Seq<char>| #[trigger] announced(n, id) <==> (announced(events, id) || event_announces(x, id)) by {
        if announced(n, id) {
            let i = choose|i: int| announces(n, i, id);
            if i < k {
                assert(n[i] == events[i]);
                assert(announces(events, i, id));
            } else if i > k {
                assert(n[i] == events[i - 1]);
                assert forall|j: int| 0 <= j < i - 1 implies step_action(#[trigger] events[j]) == QueueAction::Continue by {
                    if j < k {
                    } else {
                        assert(n[j + 1] == events[j]);
                    }
                }
                assert(announces(events, i - 1, id));
            }
        }
        if announced(events, id) {
            let i = choose|i: int| announces(events, i, id);
            if i < k {
                assert(n[i] == events[i]);
                assert forall|j: int| 0 <= j < i implies step_action(#[trigger] n[j]) == QueueAction::Continue by {
                    assert(n[j] == events[j]);
                }
                assert(announces(n, i, id));
            } else {
                assert(n[i + 1] == events[i]);
                assert forall|j: int| 0 <= j < i + 1 implies step_action(#[trigger] n[j]) == QueueAction::Continue by {
                    if j < k {
                        assert(n[j] == events[j]);
                    } else if j > k {
                        assert(n[j] == events[j - 1]);
                    }
                }
                assert(announces(n, i + 1, id));
            }
        }
        if event_announces(x, id) {
            assert forall|j: int| 0 <= j < k implies step_action(#[trigger] n[j]) == QueueAction::Continue by {
                assert(n[j] == events[j]);
            }
            assert(n[k] == x);
            assert(announces(n, k, id));
        }
    }
}

/// Inserting, before the run stops, a frame that reads on and announces
/// nothing (another frame, or a message that is no creation) leaves the
/// collected URIs as they were.
pub proof fn lemma_ignored_event_keeps_uris(events: Seq<QueueEvent>, k: int, x: QueueEvent)
    requires
        0 <= k <= events.len(),
        forall|j: int| 0 <= j < k ==> step_action(#[trigger] events[j]) == QueueAction::Continue,
        step_action(x) == QueueAction::Continue,
        forall|id: Seq<char>| !event_announces(x, id),
    ensures
        run_events(Seq::empty(), events.insert(k, x)).to_set() == run_events(Seq::empty(), events).to_set(),
        run_events(Seq::empty(), events.insert(k, x)).len() == run_events(Seq::empty(), events).len(),
{
    lemma_insert_reading_event(events, k, x);
    assert forall|id: Seq<char>| announced(events.insert(k, x), id) <==> announced(events, id) by {
        assert(!event_announces(x, id));
    }
    lemma_same_announcements_same_uris(events.insert(k, x), events);
}

/// Repeating, before the run stops, a message that the run reads leaves the
/// collected URIs as they were.
pub proof fn lemma_repeated_message_keeps_uris(events: Seq<QueueEvent>, i: int, k: int)
    requires
        is_read(events, i),
        0 <= k <= events.len(),
        forall|j: int| 0 <= j < k ==> step_action(#[trigger] events[j]) == QueueAction::Continue,
        step_action(events[i]) == QueueAction::Continue,
    ensures
        run_events(Seq::empty(), events.insert(k, events[i])).to_set() == run_events(Seq::empty(), events).to_set(),
        run_events(Seq::empty(), events.insert(k, events[i])).len() == run_events(Seq::empty(), events).len(),
{
    let x = events[i];
    lemma_insert_reading_event(events, k, x);
    assert forall|id: Seq<char>| announced(events.insert(k, x), id) <==> announced(events, id) by {
        if event_announces(x, id) {
            assert(announces(events, i, id));
        }
    }
    lemma_same_announcements_same_uris(events.insert(k, x), events);
}

/// Swapping two neighbouring events that both read on leaves the collected
/// URIs as they were; any reordering of the events read before the stop is a
/// series of such swaps.
pub proof fn lemma_swapped_events_keep_uris(events: Seq<QueueEvent>, k: int)
    requires
        0 <= k,
        k + 1 < events.len(),
        step_action(events[k]) == QueueAction::Continue,
        step_action(events[k + 1]) == QueueAction::Continue,
    ensures
        run_events(Seq::empty(), events.update(k, events[k + 1]).update(k + 1, events[k])).to_set()
            == run_events(Seq::empty(), events).to_set(),
        run_events(Seq::empty(), events.update(k, events[k + 1]).update(k + 1, events[k])).len()
            == run_events(Seq::empty(), events).len(),
{
    let n = events.update(k, events[k + 1]).update(k + 1, events[k]);
    assert(n.len() == events.len());
    assert forall|id: Seq<char>| announced(n, id) <==> announced(events, id) by {
        if announced(n, id) {
            let i = choose|i: int| announces(n, i, id);
            let t = if i == k { k + 1 } else if i == k + 1 { k } else { i };
            assert(events[t] == n[i]);
            assert forall|j: int| 0 <= j < t implies step_action(#[trigger] events[j]) == QueueAction::Continue by {
                if j != k && j != k + 1 {
                    assert(events[j] == n[j]);
                }
            }
            assert(announces(events, t, id));
        }
        if announced(events, id) {
            let i = choose|i: int| announces(events, i, id);
            let t = if i == k { k + 1 } else if i == k + 1 { k } else { i };
            assert(n[t] == events[i]);
            assert forall|j: int| 0 <= j < t implies step_action(#[trigger] n[j]) == QueueAction::Continue by {
                if j != k && j != k + 1 {
                    assert(n[j] == events[j]);
                }
            }
            assert(announces(n, t, id));
        }
    }
    lemma_same_announcements_same_uris(n, events);
}

/// The collected URIs after taking the first `n` events one by one, as a
/// loop calling `QueueCollector::handle` does.
pub open spec fn handled_uris(uris: Seq<Seq<char>>, events: Seq<QueueEvent>, n: nat) -> Seq<Seq<char>>
    decreases n,
{
    if n == 0 || n > events.len() {
        uris
    } else {
        step_uris(handled_uris(uris, events, (n - 1) as nat), events[n - 1])
    }
}

proof fn lemma_handled_uris_shift(uris: Seq<Seq<char>>, events: Seq<QueueEvent>, n: nat)
    requires
        0 < n <= events.len(),
    ensures
        handled_uris(uris, events, n) == handled_uris(step_uris(uris, events[0]), events.drop_first(), (n - 1) as nat),
    decreases n,
{
    let rest = events.drop_first();
    let u1 = step_uris(uris, events[0]);
    if n == 1 {
        assert(handled_uris(uris, events, 0) == uris);
        assert(handled_uris(u1, rest, 0) == u1);
    } else {
        lemma_handled_uris_shift(uris, events, (n - 1) as nat);
        assert(rest[n - 2] == events[n - 1]);
        assert(handled_uris(u1, rest, (n - 1) as nat) == step_uris(handled_uris(u1, rest, (n - 2) as nat), rest[n - 2]));
    }
}

/// A loop that hands the events one by one to `QueueCollector::handle` and
/// ends after the first one answered with `Stop` (or when the events run
/// out) collects what `run_events` says; so the laws stated over
/// `run_events` hold of what such a loop collects.
pub proof fn lemma_handle_loop_runs_events(uris: Seq<Seq<char>>, events: Seq<QueueEvent>, n: nat)
    requires
        n <= events.len(),
        forall|j: int| 0 <= j < n - 1 ==> step_action(#[trigger] events[j]) == QueueAction::Continue,
        n == events.len() || (n > 0 && step_action(events[n - 1]) == QueueAction::Stop),
    ensures
        handled_uris(uris, events, n) == run_events(uris, events),
    decreases events.len(),
{
    if events.len() == 0 {
    } else if n == 0 {
    } else {
        lemma_handled_uris_shift(uris, events, n);
        let rest = events.drop_first();
        if step_action(events[0]) == QueueAction::Stop {
            assert(n == 1);
        } else {
            assert forall|j: int| 0 <= j < n - 2 implies step_action(#[trigger] rest[j]) == QueueAction::Continue by {
                assert(rest[j] == events[j + 1]);
            }
            if n < events.len() {
                assert(rest[n - 2] == events[n - 1]);
            }
            lemma_handle_loop_runs_events(step_uris(uris, events[0]), rest, (n - 1) as nat);
        }
    }
}

/// Taking in the same message twice collects what taking it once does.
pub proof fn lemma_step_idempotent(uris: Seq<Seq<char>>, event: QueueEvent)
    ensures
        step_uris(step_uris(uris, event), event) == step_uris(uris, event),
{
    match event {
        QueueEvent::Message(headers) => {
            match create_event_identifier(headers@) {
                Some(id) => {
                    if !uris.contains(id) {
                        assert(uris.push(id)[uris.len() as int] == id);
                    }
                },
                None => {},
            }
        },
        _ => {},
    }
}

impl View for QueueCollector {
    type V = Seq<Seq<char>>;

    closed spec fn view(&self) -> Seq<Seq<char>> {
        self.uris@.map_values(|s: String| s@)
    }
}

impl QueueCollector {
    #[verifier::type_invariant]
    closed spec fn inv(&self) -> bool {
        self@.no_duplicates()
    }

    /// Nothing collected yet.
    pub fn new() -> (res: Self)
        ensures
            res@ == Seq::<Seq<char>>::empty(),
    {
        let res = QueueCollector { uris: Vec::new() };
        assert(res@ =~= Seq::<Seq<char>>::empty());
        res
    }

    /// Whether `id` was collected already.
    fn contains(&self, id: &String) -> (res: bool)
        ensures
            res == self@.contains(id@),
    {
        let mut i: usize = 0;
        while i < self.uris.len()
            invariant
                i <= self.uris@.len(),
                forall|j: int| 0 <= j < i ==> self@[j] != id@,
            decreases self.uris@.len() - i,
        {
            if self.uris[i] == *id {
                assert(self@[i as int] == id@);
                return true;
            }
            i = i + 1;
        }
        false
    }

    /// Records `id` unless it is there already.
    fn insert(&mut self, id: String)
        ensures
            final(self)@ == insert_uri(old(self)@, id@),
    {
        proof {
            use_type_invariant(&*self);
        }
        if !self.contains(&id) {
            let mut uris: Vec<String> = Vec::new();
            std::mem::swap(&mut uris, &mut self.uris);
            let ghost before = uris@.map_values(|s: String| s@);
            uris.push(id);
            assert(uris@.map_values(|s: String| s@) =~= before.push(id@));
            self.uris = uris;
        }
    }

    /// Takes in one event: a creation message adds its identifier, and the
    /// returned action says whether to read on.
    pub fn handle(&mut self, event: QueueEvent) -> (action: QueueAction)
        ensures
            final(self)@ == step_uris(old(self)@, event),
            action == step_action(event),
    {
        match event {
            QueueEvent::Message(headers) => {
                if let Some(id) = parse_stomp_headers(headers) {
                    self.insert(id);
                }
                QueueAction::Continue
            },
            QueueEvent::OtherFrame => QueueAction::Continue,
            _ => QueueAction::Stop,
        }
    }

    /// The collected URIs.
    pub fn into_uris(self) -> (res: Vec<String>)
        ensures
            res@.map_values(|s: String| s@) == self@,
            res@.len() == self@.len(),
            forall|i: int| 0 <= i < res@.len() ==> (#[trigger] res@[i])@ == self@[i],
            res@.map_values(|s: String| s@).no_duplicates(),
    {
        proof {
            use_type_invariant(&self);
        }
        self.uris
    }
}

} // verus!
