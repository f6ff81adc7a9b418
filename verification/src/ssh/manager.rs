//! The registry of connections: at most one live connection per session
//! identifier.

use super::connection::{is_tilde_expansion, SshConnection};
use super::host_key::{HostKeyPolicy, HostKeyPolicyView};
use super::machine::{
    connect_model, handshake_model, host_key_model, initial, run_model, valid, ConnectionView,
};
use super::protocol::{ConnectActionView, ConnectStep, LoopInput, LoopStep, Reply};
use crate::storage::{Session, SessionView};
use vstd::prelude::*;

verus! {

/// Names a connection of a registry. A handle stays with its connection for
/// good: once the connection is removed the handle names nothing, and it is
/// never given to another connection.
#[derive(Debug, Clone, Copy, PartialEq, Eq, Structural)]
pub struct ConnectionHandle {
    slot: usize,
}

impl ConnectionHandle {
    /// The place of the connection in its registry.
    pub closed spec fn index(self) -> int {
        self.slot as int
    }
}

/// A handle is its place: two handles that name the same place are the same
/// handle.
pub proof fn a_handle_is_its_place(a: ConnectionHandle, b: ConnectionHandle)
    requires
        a.index() == b.index(),
    ensures
        a == b,
{
}

/// A registry as a mathematical value: one place per connection that was
/// ever created, empty once the connection has been removed.
pub struct ManagerView {
    pub slots: Seq<Option<ConnectionView>>,
}

impl ManagerView {
    /// Whether place `i` holds the live connection of session `id`.
    pub open spec fn holds(self, i: int, id: Seq<char>) -> bool {
        0 <= i < self.slots.len() && self.slots[i] is Some && self.slots[i]->0.session.id == id
    }

    /// The place of the live connection of session `id`, if there is one.
    pub open spec fn lookup(self, id: Seq<char>) -> Option<int> {
        if exists|i: int| self.holds(i, id) {
            Some(choose|i: int| self.holds(i, id))
        } else {
            None
        }
    }

    /// The invariant of a registry: every connection in it is valid, and no
    /// two live connections belong to the same session.
    pub open spec fn valid(self) -> bool {
        &&& forall|i: int|
            0 <= i < self.slots.len() && (#[trigger] self.slots[i]) is Some ==> valid(
                self.slots[i]->0,
            )
        &&& forall|i: int, j: int, id: Seq<char>|
            #![trigger self.holds(i, id), self.holds(j, id)]
            self.holds(i, id) && self.holds(j, id) ==> i == j
    }

    /// `create_connection_with_policy`: the connection of the session if it
    /// has one, a new connection with this policy in a new place if it has
    /// none.
    pub open spec fn create_with(self, session: SessionView, policy: HostKeyPolicyView) -> (
        ManagerView,
        int,
    ) {
        match self.lookup(session.id) {
            Some(i) => (self, i),
            None => (
                ManagerView { slots: self.slots.push(Some(initial(session, policy))) },
                self.slots.len() as int,
            ),
        }
    }

    /// `create_connection`: as `create_with`, a new connection trusting
    /// every host key.
    pub open spec fn create(self, session: SessionView) -> (ManagerView, int) {
        self.create_with(session, HostKeyPolicyView::TrustAll)
    }

    /// `remove_connection`: the place of the session's connection is emptied.
    pub open spec fn remove(self, id: Seq<char>) -> ManagerView {
        match self.lookup(id) {
            Some(i) => self.without(i),
            None => self,
        }
    }

    /// The registry with place `i` emptied.
    pub open spec fn without(self, i: int) -> ManagerView {
        ManagerView { slots: self.slots.update(i, None) }
    }

    /// The registry with the connection at place `i` replaced.
    pub open spec fn with_connection(self, i: int, c: ConnectionView) -> ManagerView {
        ManagerView { slots: self.slots.update(i, Some(c)) }
    }

    /// Whether `handle` names a connection: its place is there and holds one.
    pub open spec fn names(self, i: int) -> bool {
        0 <= i < self.slots.len() && self.slots[i] is Some
    }
}

/// Manages multiple SSH connections.
///
/// The registry is an ordinary value: whoever holds it exclusively decides
/// what happens next, so calls never interleave, and a front end that shares
/// it among threads puts it behind one lock.
///
/// Removing a connection only detaches it. It is handed to the caller as it
/// is, still connected if it was connected, and it is the caller who ends its
/// session or keeps driving it.
pub struct ConnectionManager {
    slots: Vec<Option<SshConnection>>,
}

/// What a place of a registry holds, as a mathematical value.
pub open spec fn slot_view(slot: Option<SshConnection>) -> Option<ConnectionView> {
    match slot {
        Some(c) => Some(c@),
        None => None,
    }
}

/// The places of a registry as mathematical values.
pub open spec fn slot_views(slots: Seq<Option<SshConnection>>) -> ManagerView {
    ManagerView { slots: slots.map_values(|s: Option<SshConnection>| slot_view(s)) }
}

impl View for ConnectionManager {
    type V = ManagerView;

    closed spec fn view(&self) -> ManagerView {
        slot_views(self.slots@)
    }
}

impl ConnectionManager {
    /// Every registry is valid, at every moment.
    #[verifier::type_invariant]
    pub closed spec fn is_valid(&self) -> bool {
        self@.valid()
    }

    /// An empty registry.
    pub fn new() -> (m: ConnectionManager)
        ensures
            m@.slots.len() == 0,
            m@.valid(),
    {
        ConnectionManager { slots: Vec::new() }
    }

    /// The place of the live connection of session `id`, if there is one.
    fn find(&self, id: &str) -> (found: Option<usize>)
        ensures
            self@.valid(),
            match found {
                Some(i) => self@.lookup(id@) == Some(i as int) && self@.holds(i as int, id@),
                None => self@.lookup(id@) is None,
            },
    {
        proof {
            use_type_invariant(self);
        }
        let wanted = id.to_owned();
        let ghost m = self@;
        let mut i: usize = 0;
        while i < self.slots.len()
            invariant
                i <= self.slots.len(),
                m == self@,
                m.valid(),
                m.slots.len() == self.slots.len(),
                wanted@ == id@,
                forall|k: int| 0 <= k < i ==> !m.holds(k, id@),
            decreases self.slots.len() - i,
        {
            assert(m.slots[i as int] == slot_view(self.slots@[i as int]));
            let same = match &self.slots[i] {
                Some(c) => c.session().id == wanted,
                None => false,
            };
            if same {
                proof {
                    assert(m.holds(i as int, id@));
                    let chosen = m.lookup(id@)->0;
                    assert(m.holds(chosen, id@));
                }
                return Some(i);
            }
            i = i + 1;
        }
        proof {
            assert forall|k: int| !m.holds(k, id@) by {
                if 0 <= k < m.slots.len() {
                }
            }
        }
        None
    }

    /// Takes the connection that `handle` names out of its place, which is
    /// left empty until the connection is put back.
    fn take(&mut self, handle: ConnectionHandle) -> (taken: Option<SshConnection>)
        ensures
            old(self)@.valid(),
            final(self)@.valid(),
            match taken {
                Some(c) => {
                    &&& old(self)@.names(handle.index())
                    &&& old(self)@.slots[handle.index()] == Some(c@)
                    &&& final(self)@ == old(self)@.without(handle.index())
                    &&& valid(c@)
                    &&& forall|j: int| !final(self)@.holds(j, c@.session.id)
                },
                None => final(self)@ == old(self)@ && !old(self)@.names(handle.index()),
            },
    {
        proof {
            use_type_invariant(&*self);
        }
        let i = handle.slot;
        if i >= self.slots.len() {
            return None;
        }
        let ghost before = self@;
        assert(before.slots[i as int] == slot_view(self.slots@[i as int]));
        let mut slots: Vec<Option<SshConnection>> = Vec::new();
        core::mem::swap(&mut self.slots, &mut slots);
        let mut taken: Option<SshConnection> = None;
        core::mem::swap(&mut slots[i], &mut taken);
        proof {
            let after = slot_views(slots@);
            assert(after.slots =~= before.slots.update(i as int, None));
            lemma_without_keeps_valid(before, i as int);
            if before.slots[i as int] is Some {
                let id = before.slots[i as int]->0.session.id;
                assert forall|j: int| !after.holds(j, id) by {
                    if after.holds(j, id) {
                        assert(before.holds(j, id) && before.holds(i as int, id));
                    }
                }
            } else {
                assert(after.slots =~= before.slots);
            }
        }
        self.slots = slots;
        taken
    }

    /// Puts a connection into the empty place that `handle` names.
    fn put(&mut self, handle: ConnectionHandle, connection: SshConnection)
        requires
            0 <= handle.index() < old(self)@.slots.len(),
            old(self)@.slots[handle.index()] is None,
            valid(connection@),
            forall|j: int| !old(self)@.holds(j, connection@.session.id),
        ensures
            final(self)@ == old(self)@.with_connection(handle.index(), connection@),
            final(self)@.valid(),
    {
        proof {
            use_type_invariant(&*self);
        }
        let i = handle.slot;
        let ghost before = self@;
        let ghost c = connection@;
        let mut slots: Vec<Option<SshConnection>> = Vec::new();
        core::mem::swap(&mut self.slots, &mut slots);
        let mut filled: Option<SshConnection> = Some(connection);
        core::mem::swap(&mut slots[i], &mut filled);
        proof {
            let after = slot_views(slots@);
            assert(after.slots =~= before.slots.update(i as int, Some(c)));
            assert forall|a: int, b: int, id: Seq<char>|
                #![trigger after.holds(a, id), after.holds(b, id)]
                after.holds(a, id) && after.holds(b, id) implies a == b by {
                if a != i as int && b != i as int {
                    assert(before.holds(a, id) && before.holds(b, id));
                } else if a != i as int {
                    assert(before.holds(a, c.session.id));
                } else if b != i as int {
                    assert(before.holds(b, c.session.id));
                }
            }
            assert forall|a: int|
                0 <= a < after.slots.len() && (#[trigger] after.slots[a]) is Some implies valid(
                after.slots[a]->0,
            ) by {
                if a != i as int {
                    assert(before.slots[a] is Some);
                }
            }
        }
        self.slots = slots;
    }

    /// Create a new connection for a session, unless the session has one:
    /// then that one is returned and nothing is created. Two calls for the
    /// same session thus name the same connection. A new connection trusts
    /// every host key; see [`ConnectionManager::create_connection_with_policy`].
    pub fn create_connection(&mut self, session: Session) -> (handle: ConnectionHandle)
        ensures
            (final(self)@, handle.index()) == old(self)@.create(session@),
            final(self)@.valid(),
            final(self)@.holds(handle.index(), session@.id),
    {
        self.create_connection_with_policy(session, HostKeyPolicy::TrustAll)
    }

    /// Create a new connection for a session, to trust host keys as `policy`
    /// says, unless the session has a connection: then that one is returned
    /// as it is, with the policy it was created with, and nothing is created.
    pub fn create_connection_with_policy(&mut self, session: Session, policy: HostKeyPolicy) -> (handle:
        ConnectionHandle)
        ensures
            (final(self)@, handle.index()) == old(self)@.create_with(session@, policy@),
            final(self)@.valid(),
            final(self)@.holds(handle.index(), session@.id),
    {
        match self.find(session.id.as_str()) {
            Some(i) => ConnectionHandle { slot: i },
            None => {
                let ghost before = self@;
                let connection = SshConnection::with_policy(session, policy);
                let mut slots: Vec<Option<SshConnection>> = Vec::new();
                core::mem::swap(&mut self.slots, &mut slots);
                let at = slots.len();
                slots.push(Some(connection));
                proof {
                    let after = slot_views(slots@);
                    assert(after.slots =~= before.slots.push(
                        Some(initial(session@, policy@)),
                    ));
                    create_keeps_valid(before, session@, policy@);
                }
                self.slots = slots;
                ConnectionHandle { slot: at }
            },
        }
    }

    /// Get an existing connection by session ID.
    pub fn get_connection(&self, session_id: &str) -> (handle: Option<ConnectionHandle>)
        ensures
            self@.valid(),
            match handle {
                Some(h) => self@.lookup(session_id@) == Some(h.index()) && self@.holds(
                    h.index(),
                    session_id@,
                ),
                None => self@.lookup(session_id@) is None,
            },
    {
        match self.find(session_id) {
            Some(i) => Some(ConnectionHandle { slot: i }),
            None => None,
        }
    }

    /// Remove a connection: the session has no connection in the registry
    /// any more, and the one it had is handed to the caller as it is. Its
    /// session is not ended by this.
    pub fn remove_connection(&mut self, session_id: &str) -> (detached: Option<SshConnection>)
        ensures
            final(self)@ == old(self)@.remove(session_id@),
            final(self)@.valid(),
            final(self)@.lookup(session_id@) is None,
            match old(self)@.lookup(session_id@) {
                Some(i) => detached is Some && Some(detached->0@) == old(self)@.slots[i],
                None => detached is None,
            },
    {
        match self.find(session_id) {
            Some(i) => self.take(ConnectionHandle { slot: i }),
            None => None,
        }
    }

    /// How many connections were ever created in this registry.
    pub fn capacity(&self) -> (n: usize)
        ensures
            n == self@.slots.len(),
            self@.valid(),
    {
        proof {
            use_type_invariant(self);
        }
        self.slots.len()
    }

    /// The connection that `handle` names, if it is still in the registry.
    pub fn connection(&self, handle: ConnectionHandle) -> (c: Option<&SshConnection>)
        ensures
            self@.valid(),
            match c {
                Some(c) => self@.names(handle.index()) && self@.slots[handle.index()] == Some(c@),
                None => !self@.names(handle.index()),
            },
    {
        proof {
            use_type_invariant(self);
        }
        if handle.slot < self.slots.len() {
            assert(self@.slots[handle.index()] == slot_view(self.slots@[handle.index()]));
            match &self.slots[handle.slot] {
                Some(c) => Some(c),
                None => None,
            }
        } else {
            None
        }
    }

    /// [`SshConnection::run`] on the connection that `handle` names. None if
    /// it names none; nothing has happened then.
    pub fn run(&mut self, handle: ConnectionHandle, input: LoopInput) -> (step: Option<LoopStep>)
        ensures
            final(self)@.valid(),
            match step {
                Some(step) => {
                    &&& old(self)@.names(handle.index())
                    &&& (
                        final(self)@.slots[handle.index()]->0,
                        step.action@,
                        step.events.deep_view(),
                    ) == run_model(old(self)@.slots[handle.index()]->0, input@)
                    &&& final(self)@ == old(self)@.with_connection(
                        handle.index(),
                        final(self)@.slots[handle.index()]->0,
                    )
                },
                None => final(self)@ == old(self)@ && !old(self)@.names(handle.index()),
            },
    {
        match self.take(handle) {
            Some(connection) => {
                let mut connection = connection;
                let step = connection.run(input);
                self.put(handle, connection);
                assert(self@.slots =~= old(self)@.slots.update(
                    handle.index(),
                    self@.slots[handle.index()],
                ));
                Some(step)
            },
            None => None,
        }
    }

    /// [`SshConnection::connect`] on the connection that `handle` names.
    /// None if it names none; nothing has happened then.
    pub fn connect(&mut self, handle: ConnectionHandle, password: Option<&str>) -> (step: Option<
        ConnectStep,
    >)
        ensures
            final(self)@.valid(),
            match step {
                Some(step) => {
                    &&& old(self)@.names(handle.index())
                    &&& (final(self)@.slots[handle.index()]->0, step.action@) == connect_model(
                        old(self)@.slots[handle.index()]->0,
                        match password {
                            Some(p) => Some(p@),
                            None => None,
                        },
                    )
                    &&& step.events@.len() == 0
                    &&& final(self)@ == old(self)@.with_connection(
                        handle.index(),
                        final(self)@.slots[handle.index()]->0,
                    )
                },
                None => final(self)@ == old(self)@ && !old(self)@.names(handle.index()),
            },
    {
        match self.take(handle) {
            Some(connection) => {
                let mut connection = connection;
                let step = connection.connect(password);
                self.put(handle, connection);
                assert(self@.slots =~= old(self)@.slots.update(
                    handle.index(),
                    self@.slots[handle.index()],
                ));
                Some(step)
            },
            None => None,
        }
    }

    /// [`SshConnection::check_server_key`] on the connection that `handle`
    /// names. A handle that names none is answered with no.
    pub fn check_server_key(&mut self, handle: ConnectionHandle, fingerprint: &str) -> (accepted:
        bool)
        ensures
            final(self)@.valid(),
            if old(self)@.names(handle.index()) {
                &&& (final(self)@.slots[handle.index()]->0, accepted) == host_key_model(
                    old(self)@.slots[handle.index()]->0,
                    fingerprint@,
                )
                &&& final(self)@ == old(self)@.with_connection(
                    handle.index(),
                    final(self)@.slots[handle.index()]->0,
                )
            } else {
                !accepted && final(self)@ == old(self)@
            },
    {
        match self.take(handle) {
            Some(connection) => {
                let mut connection = connection;
                let accepted = connection.check_server_key(fingerprint);
                self.put(handle, connection);
                assert(self@.slots =~= old(self)@.slots.update(
                    handle.index(),
                    self@.slots[handle.index()],
                ));
                accepted
            },
            None => false,
        }
    }

    /// [`SshConnection::handshake`] on the connection that `handle` names.
    /// None if it names none; nothing has happened then.
    pub fn handshake(&mut self, handle: ConnectionHandle, reply: Reply) -> (step: Option<
        ConnectStep,
    >)
        ensures
            final(self)@.valid(),
            match step {
                Some(step) => {
                    let key_file = match step.action@ {
                        ConnectActionView::LoadKey { path } => path,
                        _ => Seq::empty(),
                    };
                    &&& old(self)@.names(handle.index())
                    &&& (
                        final(self)@.slots[handle.index()]->0,
                        step.action@,
                        step.events.deep_view(),
                    ) == handshake_model(old(self)@.slots[handle.index()]->0, reply@, key_file)
                    &&& step.action@ is LoadKey ==> old(
                        self,
                    )@.slots[handle.index()]->0.session.key_path is Some && is_tilde_expansion(
                        old(self)@.slots[handle.index()]->0.session.key_path->0,
                        key_file,
                    )
                    &&& final(self)@ == old(self)@.with_connection(
                        handle.index(),
                        final(self)@.slots[handle.index()]->0,
                    )
                },
                None => final(self)@ == old(self)@ && !old(self)@.names(handle.index()),
            },
    {
        match self.take(handle) {
            Some(connection) => {
                let mut connection = connection;
                let step = connection.handshake(reply);
                self.put(handle, connection);
                assert(self@.slots =~= old(self)@.slots.update(
                    handle.index(),
                    self@.slots[handle.index()],
                ));
                Some(step)
            },
            None => None,
        }
    }
}

/// Emptying a place keeps a registry valid.
proof fn lemma_without_keeps_valid(m: ManagerView, i: int)
    requires
        m.valid(),
        0 <= i < m.slots.len(),
    ensures
        m.without(i).valid(),
{
    let after = m.without(i);
    assert forall|a: int, b: int, id: Seq<char>|
        #![trigger after.holds(a, id), after.holds(b, id)]
        after.holds(a, id) && after.holds(b, id) implies a == b by {
        assert(m.holds(a, id) && m.holds(b, id));
    }
    assert forall|a: int|
        0 <= a < after.slots.len() && (#[trigger] after.slots[a]) is Some implies valid(
        after.slots[a]->0,
    ) by {
        assert(m.slots[a] is Some);
    }
}

/// Two calls of `create_connection` for the same session name the same
/// connection, and the second creates nothing, whatever policy it brings: a
/// session never has two connections in a registry.
pub proof fn same_session_same_connection(
    m: ManagerView,
    first: SessionView,
    first_policy: HostKeyPolicyView,
    second: SessionView,
    second_policy: HostKeyPolicyView,
)
    requires
        m.valid(),
        first.id == second.id,
    ensures
        ({
            let once = m.create_with(first, first_policy);
            let twice = once.0.create_with(second, second_policy);
            &&& twice.1 == once.1
            &&& twice.0 == once.0
            &&& once.0.holds(once.1, first.id)
        }),
{
    let once = m.create_with(first, first_policy);
    create_keeps_valid(m, first, first_policy);
    assert(once.0.holds(once.1, first.id)) by {
        if m.lookup(first.id) is Some {
            assert(m.holds(m.lookup(first.id)->0, first.id));
        }
    }
    let again = once.0.lookup(second.id);
    assert(again is Some);
    assert(once.0.holds(again->0, second.id));
}

/// `create_connection` keeps a registry valid.
pub proof fn create_keeps_valid(m: ManagerView, session: SessionView, policy: HostKeyPolicyView)
    requires
        m.valid(),
    ensures
        m.create_with(session, policy).0.valid(),
        m.create_with(session, policy).0.holds(m.create_with(session, policy).1, session.id),
{
    if m.lookup(session.id) is None {
        let after = m.create_with(session, policy).0;
        let at = m.slots.len() as int;
        assert forall|i: int, j: int, other: Seq<char>|
            #![trigger after.holds(i, other), after.holds(j, other)]
            after.holds(i, other) && after.holds(j, other) implies i == j by {
            if i < at && j < at {
                assert(m.holds(i, other) && m.holds(j, other));
            } else if i < at {
                assert(m.holds(i, session.id));
            } else if j < at {
                assert(m.holds(j, session.id));
            }
        }
        assert forall|i: int|
            0 <= i < after.slots.len() && (#[trigger] after.slots[i]) is Some implies valid(
            after.slots[i]->0,
        ) by {
            if i < at {
                assert(m.slots[i] is Some);
            }
        }
    } else {
        assert(m.holds(m.lookup(session.id)->0, session.id));
    }
}

/// A session has at most one live connection in a registry.
pub proof fn one_connection_per_session(m: ManagerView, i: int, j: int)
    requires
        m.valid(),
        0 <= i < m.slots.len(),
        0 <= j < m.slots.len(),
        m.slots[i] is Some,
        m.slots[j] is Some,
        m.slots[i]->0.session.id == m.slots[j]->0.session.id,
    ensures
        i == j,
{
    let id = m.slots[i]->0.session.id;
    assert(m.holds(i, id) && m.holds(j, id));
}

/// Creating the connection of one session leaves the connections of the
/// other sessions where they are.
pub proof fn other_sessions_keep_their_connection(
    m: ManagerView,
    session: SessionView,
    policy: HostKeyPolicyView,
    id: Seq<char>,
)
    requires
        m.valid(),
        id != session.id,
    ensures
        m.create_with(session, policy).0.lookup(id) == m.lookup(id),
{
    let after = m.create_with(session, policy).0;
    create_keeps_valid(m, session, policy);
    if m.lookup(id) is Some {
        let i = m.lookup(id)->0;
        assert(m.holds(i, id));
        assert(after.holds(i, id));
        let j = after.lookup(id)->0;
        assert(after.holds(j, id));
    } else {
        if after.lookup(id) is Some {
            let j = after.lookup(id)->0;
            assert(after.holds(j, id));
            assert(m.holds(j, id));
        }
    }
}

/// Driving the connection of one session leaves every session with the
/// connection it had: the places stay, and so does what is looked up.
pub proof fn driving_keeps_every_connection_in_place(
    m: ManagerView,
    i: int,
    c: ConnectionView,
    id: Seq<char>,
)
    requires
        m.valid(),
        m.names(i),
        c.session == m.slots[i]->0.session,
        valid(c),
    ensures
        m.with_connection(i, c).valid(),
        m.with_connection(i, c).lookup(id) == m.lookup(id),
{
    let after = m.with_connection(i, c);
    assert forall|a: int, other: Seq<char>| after.holds(a, other) == m.holds(a, other) by {
    }
    assert forall|a: int, b: int, other: Seq<char>|
        #![trigger after.holds(a, other), after.holds(b, other)]
        after.holds(a, other) && after.holds(b, other) implies a == b by {
        assert(m.holds(a, other) && m.holds(b, other));
    }
    assert forall|a: int|
        0 <= a < after.slots.len() && (#[trigger] after.slots[a]) is Some implies valid(
        after.slots[a]->0,
    ) by {
        if a != i {
            assert(m.slots[a] is Some);
        }
    }
    if m.lookup(id) is Some {
        let at = m.lookup(id)->0;
        assert(m.holds(at, id));
        assert(after.holds(at, id));
        let found = after.lookup(id)->0;
        assert(after.holds(found, id));
        assert(m.holds(found, id));
    } else {
        if after.lookup(id) is Some {
            let found = after.lookup(id)->0;
            assert(after.holds(found, id));
            assert(m.holds(found, id));
        }
    }
}

/// `create_connection_with_policy` for each of `requests` in turn: the
/// registry after the calls, and the place that each call named.
pub open spec fn create_all(
    m: ManagerView,
    requests: Seq<(SessionView, HostKeyPolicyView)>,
) -> (ManagerView, Seq<int>)
    decreases requests.len(),
{
    if requests.len() == 0 {
        (m, Seq::empty())
    } else {
        let before = create_all(m, requests.drop_last());
        let step = before.0.create_with(requests.last().0, requests.last().1);
        (step.0, before.1.push(step.1))
    }
}

/// A session that has a connection keeps it whatever is created after.
pub proof fn a_connection_stays_with_its_session(
    m: ManagerView,
    session: SessionView,
    policy: HostKeyPolicyView,
    id: Seq<char>,
)
    requires
        m.valid(),
        m.lookup(id) is Some,
    ensures
        m.create_with(session, policy).0.lookup(id) == m.lookup(id),
{
    if id == session.id {
    } else {
        other_sessions_keep_their_connection(m, session, policy, id);
    }
}

/// After any run of calls, each session that was asked for has the
/// connection that its call named.
proof fn lemma_create_all(m: ManagerView, requests: Seq<(SessionView, HostKeyPolicyView)>)
    requires
        m.valid(),
    ensures
        create_all(m, requests).0.valid(),
        create_all(m, requests).1.len() == requests.len(),
        forall|k: int|
            0 <= k < requests.len() ==> create_all(m, requests).0.lookup(
                (#[trigger] requests[k]).0.id,
            ) == Some(create_all(m, requests).1[k]),
    decreases requests.len(),
{
    if requests.len() > 0 {
        let front = requests.drop_last();
        let last = requests.last();
        lemma_create_all(m, front);
        let before = create_all(m, front);
        create_keeps_valid(before.0, last.0, last.1);
        let after = create_all(m, requests);
        assert(after.0.holds(after.1[requests.len() - 1], last.0.id));
        assert forall|k: int| 0 <= k < requests.len() implies after.0.lookup(
            (#[trigger] requests[k]).0.id,
        ) == Some(after.1[k]) by {
            if k < front.len() {
                assert(front[k] == requests[k]);
                a_connection_stays_with_its_session(before.0, last.0, last.1, requests[k].0.id);
            } else {
                let chosen = after.0.lookup(last.0.id)->0;
                assert(after.0.holds(chosen, last.0.id));
            }
        }
    }
}

/// However the calls of several callers fall into line, all calls for one
/// session name one and the same connection.
pub proof fn calls_for_one_session_name_one_connection(
    m: ManagerView,
    requests: Seq<(SessionView, HostKeyPolicyView)>,
    i: int,
    j: int,
)
    requires
        m.valid(),
        0 <= i < requests.len(),
        0 <= j < requests.len(),
        requests[i].0.id == requests[j].0.id,
    ensures
        create_all(m, requests).1[i] == create_all(m, requests).1[j],
        create_all(m, requests).0.valid(),
{
    lemma_create_all(m, requests);
}

} // verus!
