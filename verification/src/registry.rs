//! The registry that gives every named resource a listener of its own for the life of the
//! process.
use vstd::prelude::*;

verus! {

/// What a [`ListenerRegistry`] holds, as a mathematical value.
#[verifier::ext_equal]
pub struct RegistryState {
    /// The socket of each key, by its number.
    pub slots: Map<Seq<char>, int>,
    /// The port of each socket.
    pub ports: Seq<u16>,
}

impl RegistryState {
    /// Keys have distinct sockets, every socket that was bound belongs to a key, and no two sockets
    /// have the same port.
    pub open spec fn wf(self) -> bool {
        &&& forall|k: Seq<char>| #[trigger]
            self.slots.contains_key(k) ==> 0 <= self.slots[k] < self.ports.len()
        &&& forall|a: Seq<char>, b: Seq<char>|
            #![trigger self.slots[a], self.slots[b]]
            self.slots.contains_key(a) && self.slots.contains_key(b) && self.slots[a]
                == self.slots[b] ==> a == b
        &&& forall|s: int| 0 <= s < self.ports.len() ==> #[trigger] self.has_owner(s)
        &&& self.ports.no_duplicates()
    }

    /// Whether some key has the socket with number `s`.
    pub open spec fn has_owner(self, s: int) -> bool {
        exists|k: Seq<char>| #[trigger] self.slots.contains_key(k) && self.slots[k] == s
    }

    /// The registry after a new socket on `port` was bound for `key`.
    pub open spec fn bound(self, key: Seq<char>, port: u16) -> Self {
        RegistryState {
            slots: self.slots.insert(key, self.ports.len() as int),
            ports: self.ports.push(port),
        }
    }

    /// Whether a request of a listener for `key` is answered, where a socket that has to be bound
    /// gets `port`: not if the port is that of a held socket, since it belongs to another key.
    pub open spec fn answers(self, key: Seq<char>, port: u16) -> bool {
        self.slots.contains_key(key) || !self.ports.contains(port)
    }

    /// The registry after a listener for `key` was asked for, where a socket that has to be
    /// bound gets `port`.
    pub open spec fn acquired(self, key: Seq<char>, port: u16) -> Self {
        if self.slots.contains_key(key) || self.ports.contains(port) {
            self
        } else {
            self.bound(key, port)
        }
    }

    /// Whether `action` is what to do for a request of `key`.
    pub open spec fn acts(self, key: Seq<char>, action: ListenerAction) -> bool {
        match action {
            ListenerAction::Share { slot, port } => {
                &&& self.slots.contains_key(key)
                &&& self.slots[key] == slot
                &&& slot < self.ports.len()
                &&& port == self.ports[slot as int]
                &&& forall|any: u16| #[trigger] self.acquired(key, any) == self
            },
            ListenerAction::Bind => !self.slots.contains_key(key),
        }
    }

    /// Whether entering a socket for `key`, on `port`, leads to `later` with the result `r`.
    pub open spec fn binds(
        self,
        key: Seq<char>,
        port: u16,
        later: Self,
        r: Result<usize, PortHeld>,
    ) -> bool {
        &&& later == self.acquired(key, port)
        &&& match r {
            Ok(slot) => {
                &&& !self.ports.contains(port)
                &&& later.slots[key] == slot
                &&& later.ports == self.ports.push(port)
                &&& slot == self.ports.len()
            },
            Err(PortHeld) => self.ports.contains(port),
        }
    }

    /// Whether every key of `self` has the same socket and port in `later`.
    pub open spec fn kept_in(self, later: Self) -> bool {
        &&& self.ports.is_prefix_of(later.ports)
        &&& self.slots.submap_of(later.slots)
    }
}

/// The registry after a series of requests, each with the port that a new socket would get.
pub open spec fn after_requests(
    start: RegistryState,
    requests: Seq<(Seq<char>, u16)>,
) -> RegistryState
    decreases requests.len(),
{
    if requests.len() == 0 {
        start
    } else {
        after_requests(start, requests.drop_last()).acquired(
            requests.last().0,
            requests.last().1,
        )
    }
}

/// What to do for a request of a listener.
#[derive(Debug, Clone, Copy, PartialEq, Eq, Structural)]
pub enum ListenerAction {
    /// Share the held socket with this number; it listens on this port.
    Share { slot: usize, port: u16 },
    /// Bind a fresh socket on a port that the system chooses, and enter it in the registry.
    Bind,
}

/// The port of a new socket is that of a socket that is held already.
#[derive(Debug, Clone, Copy, PartialEq, Eq, Structural)]
pub struct PortHeld;

/// Gives each key a unique, stable listener.
///
/// A key is entered when its socket is bound, and never leaves: whoever asks for the key again
/// gets a share of the same socket, so its port is not free for anyone else in between. The
/// sockets themselves are held by the caller, under the numbers that the registry gives them.
pub struct ListenerRegistry {
    keys: Vec<String>,
    ports: Vec<u16>,
}

/// The number of `key` among `keys`: of its first occurrence, or `keys.len()`.
spec fn position(keys: Seq<String>, key: Seq<char>) -> int
    decreases keys.len(),
{
    if keys.len() == 0 {
        0
    } else if keys[0]@ == key {
        0
    } else {
        1 + position(keys.drop_first(), key)
    }
}

proof fn lemma_position(keys: Seq<String>, key: Seq<char>)
    ensures
        0 <= position(keys, key) <= keys.len(),
        position(keys, key) < keys.len() ==> keys[position(keys, key)]@ == key,
        forall|i: int| 0 <= i < position(keys, key) ==> #[trigger] keys[i]@ != key,
    decreases keys.len(),
{
    if keys.len() != 0 && keys[0]@ != key {
        let rest = keys.drop_first();
        lemma_position(rest, key);
        assert forall|i: int| 0 <= i < position(keys, key) implies #[trigger] keys[i]@ != key by {
            if i > 0 {
                assert(rest[i - 1] == keys[i]);
            }
        }
    }
}

impl View for ListenerRegistry {
    type V = RegistryState;

    closed spec fn view(&self) -> RegistryState {
        let keys = self.keys@;
        RegistryState {
            slots: Map::new(
                |k: Seq<char>| position(keys, k) < keys.len(),
                |k: Seq<char>| position(keys, k),
            ),
            ports: self.ports@,
        }
    }
}

impl ListenerRegistry {
    /// No key is entered twice, every key has a port, and no port is entered twice.
    pub closed spec fn inv(self) -> bool {
        &&& self.keys.len() == self.ports.len()
        &&& forall|i: int, j: int|
            0 <= i < j < self.keys.len() ==> #[trigger] self.keys[i]@ != #[trigger] self.keys[j]@
        &&& self.ports@.no_duplicates()
    }

    /// A registry with no listeners.
    pub fn new() -> (registry: Self)
        ensures
            registry.inv(),
            registry@.wf(),
            registry@.slots == Map::<Seq<char>, int>::empty(),
            registry@.ports == Seq::<u16>::empty(),
    {
        let registry = ListenerRegistry { keys: Vec::new(), ports: Vec::new() };
        proof {
            lemma_inv_wf(registry);
            assert(registry@.slots =~= Map::<Seq<char>, int>::empty());
        }
        registry
    }

    /// What to do for a request of `key`: share its socket if it has one, else bind one.
    pub fn request(&self, key: &str) -> (action: ListenerAction)
        requires
            self.inv(),
        ensures
            self@.acts(key@, action),
    {
        proof {
            lemma_position(self.keys@, key@);
        }
        let wanted = key.to_owned();
        for i in 0..self.keys.len()
            invariant
                self.inv(),
                wanted@ == key@,
                forall|j: int| 0 <= j < i ==> #[trigger] self.keys[j]@ != key@,
                0 <= position(self.keys@, key@) <= self.keys.len(),
                position(self.keys@, key@) < self.keys.len() ==> self.keys@[position(
                    self.keys@,
                    key@,
                )]@ == key@,
                forall|j: int|
                    0 <= j < position(self.keys@, key@) ==> #[trigger] self.keys@[j]@ != key@,
        {
            if self.keys[i] == wanted {
                return ListenerAction::Share { slot: i, port: self.ports[i] };
            }
        }
        ListenerAction::Bind
    }

    /// Enters the socket that was bound for `key`, on `port`, and returns its number. A system
    /// gives out no port that is in use; a port that is held is refused, so that no two keys share
    /// one.
    pub fn bind(&mut self, key: &str, port: u16) -> (r: Result<usize, PortHeld>)
        requires
            old(self).inv(),
            !old(self)@.slots.contains_key(key@),
        ensures
            final(self).inv(),
            final(self)@.wf(),
            old(self)@.binds(key@, port, final(self)@, r),
    {
        for i in 0..self.ports.len()
            invariant
                *self == *old(self),
                self.inv(),
                forall|j: int| 0 <= j < i ==> #[trigger] self.ports[j] != port,
        {
            if self.ports[i] == port {
                proof {
                    assert(self@.ports[i as int] == port);
                    lemma_inv_wf(*self);
                }
                return Err(PortHeld);
            }
        }
        assert(!self@.ports.contains(port));
        let slot: usize = self.ports.len();
        proof {
            let keys = self.keys@;
            lemma_position(keys, key@);
        }
        let ghost before = *self;
        self.keys.push(key.to_owned());
        self.ports.push(port);
        proof {
            let keys = before.keys@;
            assert forall|k: Seq<char>| #[trigger] position(self.keys@, k) == (if k == key@ {
                keys.len() as int
            } else if position(keys, k) < keys.len() {
                position(keys, k)
            } else {
                keys.len() as int + 1
            }) by {
                lemma_position_of_push(keys, self.keys@.last(), k);
                lemma_position(keys, k);
                assert(self.keys@ =~= keys.push(self.keys@.last()));
            }
            assert(self@.slots =~= before@.bound(key@, port).slots);
            lemma_inv_wf(*self);
        }
        Ok(slot)
    }
}

/// A registry in its invariant gives distinct sockets to distinct keys.
proof fn lemma_inv_wf(registry: ListenerRegistry)
    requires
        registry.inv(),
    ensures
        registry@.wf(),
{
    let keys = registry.keys@;
    let state = registry@;
    assert forall|k: Seq<char>| #[trigger] state.slots.contains_key(k) implies 0 <= state.slots[k]
        < state.ports.len() by {
        lemma_position(keys, k);
    }
    assert forall|a: Seq<char>, b: Seq<char>|
        #![trigger state.slots[a], state.slots[b]]
        state.slots.contains_key(a) && state.slots.contains_key(b) && state.slots[a]
            == state.slots[b] implies a == b by {
        lemma_position(keys, a);
        lemma_position(keys, b);
    }
    assert forall|s: int| 0 <= s < state.ports.len() implies #[trigger] state.has_owner(
        s,
    ) by {
        let k = keys[s]@;
        lemma_position(keys, k);
        assert(state.slots.contains_key(k) && state.slots[k] == s);
    }
}

proof fn lemma_position_of_push(keys: Seq<String>, last: String, key: Seq<char>)
    ensures
        position(keys.push(last), key) == (if position(keys, key) < keys.len() {
            position(keys, key)
        } else if last@ == key {
            keys.len() as int
        } else {
            keys.len() as int + 1
        }),
    decreases keys.len(),
{
    lemma_position(keys, key);
    let longer = keys.push(last);
    if keys.len() == 0 {
        assert(longer[0] == last);
        assert(longer.drop_first().len() == 0);
        assert(position(longer.drop_first(), key) == 0);
    } else {
        assert(longer[0] == keys[0]);
        assert(longer.drop_first() =~= keys.drop_first().push(last));
        lemma_position_of_push(keys.drop_first(), last, key);
        lemma_position(keys.drop_first(), key);
    }
}

/// A request keeps the listeners of all keys, gives its own key a listener if it is answered, and
/// keeps distinct keys on distinct sockets and ports.
pub proof fn law_request_keeps_listeners(state: RegistryState, key: Seq<char>, port: u16)
    requires
        state.wf(),
    ensures
        state.acquired(key, port).wf(),
        state.kept_in(state.acquired(key, port)),
        state.acquired(key, port).slots.contains_key(key) <==> state.answers(key, port),
{
    let next = state.acquired(key, port);
    if !state.slots.contains_key(key) && !state.ports.contains(port) {
        assert forall|s: int| 0 <= s < next.ports.len() implies #[trigger] next.has_owner(
            s,
        ) by {
            if s == state.ports.len() {
                assert(next.slots.contains_key(key) && next.slots[key] == s);
            } else {
                assert(state.has_owner(s));
                let k = choose|k: Seq<char>|
                    #![trigger state.slots.contains_key(k)]
                    state.slots.contains_key(k) && state.slots[k] == s;
                assert(next.slots.contains_key(k) && next.slots[k] == s);
            }
        }
    }
}

/// A listener is stable: over any series of requests, every key keeps its socket and its port.
pub proof fn law_listeners_are_stable(start: RegistryState, requests: Seq<(Seq<char>, u16)>)
    requires
        start.wf(),
    ensures
        after_requests(start, requests).wf(),
        start.kept_in(after_requests(start, requests)),
    decreases requests.len(),
{
    if requests.len() != 0 {
        law_listeners_are_stable(start, requests.drop_last());
        let middle = after_requests(start, requests.drop_last());
        law_request_keeps_listeners(middle, requests.last().0, requests.last().1);
    }
}

/// No two keys share a port: two keys that were asked for have the same port only if they are the
/// same key.
pub proof fn law_ports_are_unique(state: RegistryState, a: Seq<char>, b: Seq<char>)
    requires
        state.wf(),
        state.slots.contains_key(a),
        state.slots.contains_key(b),
    ensures
        state.ports[state.slots[a]] == state.ports[state.slots[b]] <==> a == b,
{
}

/// Whether the request with the number `i` is answered.
pub open spec fn is_answered(
    start: RegistryState,
    requests: Seq<(Seq<char>, u16)>,
    i: int,
) -> bool {
    after_requests(start, requests.take(i)).answers(requests[i].0, requests[i].1)
}

/// The port that the request with the number `i` is answered with.
pub open spec fn port_given(
    start: RegistryState,
    requests: Seq<(Seq<char>, u16)>,
    i: int,
) -> u16 {
    let state = after_requests(start, requests.take(i + 1));
    state.ports[state.slots[requests[i].0]]
}

/// Requests can be taken one part after the other.
proof fn lemma_requests_in_parts(
    start: RegistryState,
    one: Seq<(Seq<char>, u16)>,
    other: Seq<(Seq<char>, u16)>,
)
    ensures
        after_requests(start, one + other) == after_requests(after_requests(start, one), other),
    decreases other.len(),
{
    if other.len() == 0 {
        assert(one + other =~= one);
    } else {
        lemma_requests_in_parts(start, one, other.drop_last());
        assert((one + other).drop_last() =~= one + other.drop_last());
    }
}

/// After a request that is answered, its key has a listener.
proof fn lemma_answered(start: RegistryState, requests: Seq<(Seq<char>, u16)>, i: int)
    requires
        start.wf(),
        0 <= i < requests.len(),
        is_answered(start, requests, i),
    ensures
        after_requests(start, requests.take(i + 1)).wf(),
        after_requests(start, requests.take(i + 1)).slots.contains_key(requests[i].0),
{
    let upto = requests.take(i + 1);
    assert(upto.drop_last() =~= requests.take(i));
    assert(upto.last() == requests[i]);
    law_listeners_are_stable(start, requests.take(i));
    law_request_keeps_listeners(
        after_requests(start, requests.take(i)),
        requests[i].0,
        requests[i].1,
    );
}

/// A key keeps its port for good, and no two keys share one: of any two requests that are
/// answered, with any others before, between and after them, the ports are the same if and only if
/// the keys are.
pub proof fn law_port_tells_the_key(
    start: RegistryState,
    requests: Seq<(Seq<char>, u16)>,
    i: int,
    j: int,
)
    requires
        start.wf(),
        0 <= i <= j < requests.len(),
        is_answered(start, requests, i),
        is_answered(start, requests, j),
    ensures
        port_given(start, requests, i) == port_given(start, requests, j) <==> requests[i].0
            == requests[j].0,
{
    let one = requests.take(i + 1);
    let all = requests.take(j + 1);
    let other = requests.subrange(i + 1, j + 1);
    let middle = after_requests(start, one);
    let end = after_requests(start, all);
    assert(all =~= one + other);
    lemma_requests_in_parts(start, one, other);
    lemma_answered(start, requests, i);
    lemma_answered(start, requests, j);
    law_listeners_are_stable(middle, other);
    let a = requests[i].0;
    let b = requests[j].0;
    assert(middle.slots.dom().contains(a));
    assert(end.slots.contains_key(a) && end.slots[a] == middle.slots[a]);
    assert(end.ports[end.slots[a]] == middle.ports[middle.slots[a]]);
    law_ports_are_unique(end, a, b);
}

/// A port is never given up: what a socket held once is held after any requests.
pub proof fn law_ports_stay_held(start: RegistryState, requests: Seq<(Seq<char>, u16)>, port: u16)
    requires
        start.wf(),
        start.ports.contains(port),
    ensures
        after_requests(start, requests).ports.contains(port),
{
    law_listeners_are_stable(start, requests);
    let i = choose|i: int| 0 <= i < start.ports.len() && start.ports[i] == port;
    assert(after_requests(start, requests).ports[i] == port);
}

/// A restart reuses the listener: whoever asks for a key again, after any other requests, gets the
/// socket and the port that the key was given first.
pub proof fn law_restart_reuses_the_listener(
    start: RegistryState,
    key: Seq<char>,
    port: u16,
    between: Seq<(Seq<char>, u16)>,
    later_port: u16,
)
    requires
        start.wf(),
        start.answers(key, port),
    ensures
        ({
            let first = start.acquired(key, port);
            let again = after_requests(first, between).acquired(key, later_port);
            &&& again == after_requests(first, between)
            &&& again.slots[key] == first.slots[key]
            &&& again.ports[again.slots[key]] == first.ports[first.slots[key]]
        }),
{
    let first = start.acquired(key, port);
    law_request_keeps_listeners(start, key, port);
    law_listeners_are_stable(first, between);
    let later = after_requests(first, between);
    assert(first.slots.submap_of(later.slots));
    assert(first.slots.dom().contains(key));
}

/// A listener is unique: two keys that were asked for have the same socket only if they are the
/// same key.
pub proof fn law_listeners_are_unique(state: RegistryState, a: Seq<char>, b: Seq<char>)
    requires
        state.wf(),
        state.slots.contains_key(a),
        state.slots.contains_key(b),
    ensures
        state.slots[a] == state.slots[b] <==> a == b,
{
}

/// A socket that was entered for a key is the one that is shared: whoever asks for the key then
/// gets its number and its port.
pub proof fn law_bound_socket_is_shared(
    state: RegistryState,
    key: Seq<char>,
    port: u16,
    later: RegistryState,
    slot: usize,
    action: ListenerAction,
)
    requires
        state.wf(),
        !state.slots.contains_key(key),
        state.binds(key, port, later, Ok(slot)),
        later.acts(key, action),
    ensures
        action == (ListenerAction::Share { slot, port }),
        slot == state.ports.len(),
{
}

/// Entering a socket for one key changes nothing for any other: what is to be done for another key
/// is the same before and after, whether the socket was entered or refused.
pub proof fn law_binding_leaves_other_keys_alone(
    state: RegistryState,
    key: Seq<char>,
    port: u16,
    later: RegistryState,
    r: Result<usize, PortHeld>,
    other: Seq<char>,
    before: ListenerAction,
    after: ListenerAction,
)
    requires
        state.wf(),
        !state.slots.contains_key(key),
        state.binds(key, port, later, r),
        other != key,
        state.acts(other, before),
        later.acts(other, after),
    ensures
        before == after,
{
}

/// A socket is refused if and only if some key has its port, and then nothing changes.
pub proof fn law_only_held_ports_are_refused(
    state: RegistryState,
    key: Seq<char>,
    port: u16,
    later: RegistryState,
    r: Result<usize, PortHeld>,
)
    requires
        state.wf(),
        !state.slots.contains_key(key),
        state.binds(key, port, later, r),
    ensures
        r is Err <==> (exists|k: Seq<char>|
            #![trigger state.slots[k]]
            state.slots.contains_key(k) && state.ports[state.slots[k]] == port),
        r is Err ==> later == state,
{
    if r is Err {
        let s = choose|s: int| 0 <= s < state.ports.len() && state.ports[s] == port;
        assert(state.has_owner(s));
        let k = choose|k: Seq<char>| #[trigger] state.slots.contains_key(k) && state.slots[k] == s;
        assert(state.ports[state.slots[k]] == port);
    } else {
        assert forall|k: Seq<char>|
            #![trigger state.slots[k]]
            state.slots.contains_key(k) implies state.ports[state.slots[k]] != port by {
            assert(state.ports.contains(state.ports[state.slots[k]]));
        }
    }
}

/// A request of a key that has no socket asks for one, and a request of a key that has one asks for
/// none.
pub proof fn law_sockets_are_bound_when_missing(
    state: RegistryState,
    key: Seq<char>,
    action: ListenerAction,
)
    requires
        state.wf(),
        state.acts(key, action),
    ensures
        action is Bind <==> !state.slots.contains_key(key),
        action matches ListenerAction::Share { slot, port } ==> slot == state.slots[key] && port
            == state.ports[state.slots[key]],
{
}

} // verus!
