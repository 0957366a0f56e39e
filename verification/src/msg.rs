use vstd::prelude::*;

verus! {

/// A raw connection record, as exchanged with the host platform.
pub struct Connection {
    pub id: u128,
    pub account1: String,
    pub account2: String,
    pub created_at: u8,
}

/// A raw message record kept alongside the indexed message log.
pub struct Message {
    pub id: usize,
    pub customer: String,
    pub body: String,
    pub company: String,
    pub time: i64,
}

/// A connection between two accounts: the unordered pair of their identities,
/// a dense id, a creation time and a completion flag.
pub struct ConnectionEntry {
    pub id: usize,
    pub account1: String,
    pub account2: String,
    pub created_at: i64,
    pub completed: bool,
}

impl Clone for ConnectionEntry {
    fn clone(&self) -> (r: Self)
        ensures
            r == *self,
    {
        ConnectionEntry {
            id: self.id,
            account1: self.account1.clone(),
            account2: self.account2.clone(),
            created_at: self.created_at,
            completed: self.completed,
        }
    }
}

/// One direct message: a dense id, the connection it belongs to, the sender,
/// the body and a creation time.
pub struct MessageEntry {
    pub id: usize,
    pub connection_id: usize,
    pub sender: String,
    pub body: String,
    pub created_at: i64,
}

impl Clone for MessageEntry {
    fn clone(&self) -> (r: Self)
        ensures
            r == *self,
    {
        MessageEntry {
            id: self.id,
            connection_id: self.connection_id,
            sender: self.sender.clone(),
            body: self.body.clone(),
            created_at: self.created_at,
        }
    }
}

/// Whether a connection joins exactly this unordered pair of accounts.
pub open spec fn connects(c: ConnectionEntry, account: Seq<char>, caller: Seq<char>) -> bool {
    (c.account1@ == caller && c.account2@ == account) || (c.account1@ == account && c.account2@
        == caller)
}

/// Whether some connection among the first `n` joins this pair of accounts.
pub open spec fn has_connection_in(
    conns: Seq<ConnectionEntry>,
    account: Seq<char>,
    caller: Seq<char>,
    n: int,
) -> bool {
    exists|i: int| 0 <= i < n && connects(#[trigger] conns[i], account, caller)
}

/// The messaging subsystem: direct messages between accounts, grouped into
/// connections.  Both the connection list and the message log are dense:
/// entry `i` has id `i`, ids are allocated by the two counters and never
/// reused, and no two connections join the same pair of accounts.
pub struct Msg {
    pub connection_id: usize,
    pub message_id: usize,
    pub messages: Vec<Message>,
    pub connections: Vec<ConnectionEntry>,
    pub message_log: Vec<MessageEntry>,
}

impl Default for Msg {
    /// An empty messaging subsystem.
    fn default() -> (r: Self)
        ensures
            r.wf(),
            r.connection_id == 0,
            r.message_id == 0,
            r.messages@.len() == 0,
            r.connections@.len() == 0,
            r.message_log@.len() == 0,
    {
        Msg::new()
    }
}

impl Msg {
    /// Well-formedness: counters count the records, ids are dense, every
    /// message belongs to a live connection, and connections join distinct
    /// pairs.
    pub open spec fn wf(&self) -> bool {
        &&& self.connection_id == self.connections@.len()
        &&& self.message_id == self.message_log@.len()
        &&& forall|i: int|
            0 <= i < self.connections@.len() ==> (#[trigger] self.connections@[i].id) == i
        &&& forall|i: int| 0 <= i < self.message_log@.len() ==> (#[trigger] self.message_log@[i].id) == i
        &&& forall|i: int|
            0 <= i < self.message_log@.len() ==> (#[trigger] self.message_log@[i].connection_id)
                < self.connections@.len()
        &&& forall|i: int, j: int|
            0 <= i < j < self.connections@.len() ==> !connects(
                #[trigger] self.connections@[i],
                (#[trigger] self.connections@[j]).account1@,
                self.connections@[j].account2@,
            )
    }

    /// Whether some connection joins this pair of accounts.
    pub open spec fn spec_has_connection(&self, account: Seq<char>, caller: Seq<char>) -> bool {
        has_connection_in(self.connections@, account, caller, self.connections@.len() as int)
    }

    /// The index (and so the id) of the connection joining this pair.
    pub open spec fn spec_connection_index(&self, account: Seq<char>, caller: Seq<char>) -> int {
        choose|i: int|
            0 <= i < self.connections@.len() && connects(
                #[trigger] self.connections@[i],
                account,
                caller,
            )
    }

    pub fn new() -> (r: Msg)
        ensures
            r.wf(),
            r.connection_id == 0,
            r.message_id == 0,
            r.messages@.len() == 0,
            r.connections@.len() == 0,
            r.message_log@.len() == 0,
    {
        Msg {
            connection_id: 0,
            message_id: 0,
            messages: Vec::new(),
            connections: Vec::new(),
            message_log: Vec::new(),
        }
    }

    /// Sends a message from `caller` to `account`: the message is filed
    /// under the connection joining the two accounts, which is created
    /// first — with the given time as its creation time — if it does not
    /// exist yet.  Always succeeds.
    pub fn send_message(&mut self, account: String, caller: String, body: String, time: i64) -> (r:
        Option<()>)
        requires
            old(self).wf(),
        ensures
            final(self).wf(),
            r == Some(()),
            final(self).messages == old(self).messages,
            old(self).spec_has_connection(account@, caller@) ==> {
                &&& final(self).connections == old(self).connections
                &&& final(self).connection_id == old(self).connection_id
                &&& final(self).message_log@ == old(self).message_log@.push(
                    (MessageEntry {
                        id: old(self).message_id,
                        connection_id: old(self).spec_connection_index(account@, caller@) as usize,
                        sender: caller,
                        body: body,
                        created_at: time,
                    }),
                )
                &&& final(self).message_id == old(self).message_id + 1
            },
            !old(self).spec_has_connection(account@, caller@) ==> {
                &&& final(self).connections@ == old(self).connections@.push(
                    (ConnectionEntry {
                        id: old(self).connection_id,
                        account1: account,
                        account2: caller,
                        created_at: time,
                        completed: false,
                    }),
                )
                &&& final(self).connection_id == old(self).connection_id + 1
                &&& final(self).message_log@ == old(self).message_log@.push(
                    (MessageEntry {
                        id: old(self).message_id,
                        connection_id: old(self).connection_id,
                        sender: caller,
                        body: body,
                        created_at: time,
                    }),
                )
                &&& final(self).message_id == old(self).message_id + 1
            },
    {
        let mut found_id: Option<usize> = None;
        let n = self.connections.len();
        let mut i: usize = 0;
        while i < n
            invariant
                self.wf(),
                i <= n,
                n == self.connections@.len(),
                found_id is None ==> !has_connection_in(
                    self.connections@,
                    account@,
                    caller@,
                    i as int,
                ),
                found_id matches Some(id) ==> (id as int) < i && connects(
                    self.connections@[id as int],
                    account@,
                    caller@,
                ),
            decreases n - i,
        {
            if found_id.is_none() {
                let c = &self.connections[i];
                if (c.account1 == caller && c.account2 == account) || (c.account1 == account
                    && c.account2 == caller) {
                    found_id = Some(c.id);
                }
            }
            i = i + 1;
        }
        match found_id {
            Some(cid) => {
                proof {
                    let idx = self.spec_connection_index(account@, caller@);
                    assert(connects(self.connections@[cid as int], account@, caller@));
                    assert(connects(self.connections@[idx], account@, caller@));
                    assert(idx == cid as int);
                }
                let new_message = MessageEntry {
                    id: self.message_id,
                    connection_id: cid,
                    sender: caller,
                    body,
                    created_at: time,
                };
                self.message_log.push(new_message);
                self.message_id = self.message_log.len();
            },
            None => {
                let new_connection = ConnectionEntry {
                    id: self.connection_id,
                    account1: account,
                    account2: caller.clone(),
                    created_at: time,
                    completed: false,
                };
                let cid = self.connection_id;
                self.connections.push(new_connection);
                self.connection_id = self.connections.len();
                let new_message = MessageEntry {
                    id: self.message_id,
                    connection_id: cid,
                    sender: caller,
                    body,
                    created_at: time,
                };
                self.message_log.push(new_message);
                self.message_id = self.message_log.len();
            },
        }
        Some(())
    }

    /// All messages exchanged between the two accounts, in log order: the
    /// messages of the connection joining the pair, none if there is no such
    /// connection.
    pub fn get_messages(&self, account: String, caller: String) -> (r: Vec<MessageEntry>)
        requires
            self.wf(),
        ensures
            !self.spec_has_connection(account@, caller@) ==> r@.len() == 0,
            self.spec_has_connection(account@, caller@) ==> r@ == self.message_log@.filter(
                |m: MessageEntry|
                    m.connection_id as int == self.spec_connection_index(account@, caller@),
            ),
    {
        let ghost idx = self.spec_connection_index(account@, caller@);
        let mut msgs: Vec<MessageEntry> = Vec::new();
        let nc = self.connections.len();
        let mut i: usize = 0;
        while i < nc
            invariant
                self.wf(),
                i <= nc,
                nc == self.connections@.len(),
                idx == self.spec_connection_index(account@, caller@),
                !has_connection_in(self.connections@, account@, caller@, i as int) ==> msgs@.len()
                    == 0,
                has_connection_in(self.connections@, account@, caller@, i as int) ==> msgs@
                    == self.message_log@.filter(
                    |m: MessageEntry| m.connection_id as int == idx,
                ),
            decreases nc - i,
        {
            let c = &self.connections[i];
            if (c.account1 == caller && c.account2 == account) || (c.account1 == account
                && c.account2 == caller) {
                proof {
                    assert(connects(self.connections@[i as int], account@, caller@));
                    assert(connects(self.connections@[idx], account@, caller@));
                    assert(idx == i as int);
                    assert(msgs@.len() == 0);
                }
                let cid = c.id;
                let nm = self.message_log.len();
                let mut k: usize = 0;
                while k < nm
                    invariant
                        self.wf(),
                        k <= nm,
                        nm == self.message_log@.len(),
                        cid as int == idx,
                        msgs@ == self.message_log@.take(k as int).filter(
                            |m: MessageEntry| m.connection_id as int == idx,
                        ),
                    decreases nm - k,
                {
                    if self.message_log[k].connection_id == cid {
                        let entry = (&self.message_log[k]).clone();
                        msgs.push(entry);
                    }
                    k = k + 1;
                    proof {
                        let t = self.message_log@.take(k as int);
                        assert(t.drop_last() =~= self.message_log@.take(k - 1));
                        assert(t.last() == self.message_log@[k - 1]);
                        reveal(Seq::filter);
                    }
                }
                proof {
                    assert(self.message_log@.take(nm as int) =~= self.message_log@);
                }
            }
            i = i + 1;
            proof {
                if !has_connection_in(self.connections@, account@, caller@, i as int) {
                    assert(!connects(self.connections@[i - 1], account@, caller@));
                }
            }
        }
        msgs
    }

    /// Whether a connection between the two accounts exists.
    pub fn check_connection(&self, account: String, caller: String) -> (r: bool)
        requires
            self.wf(),
        ensures
            r == self.spec_has_connection(account@, caller@),
    {
        let n = self.connections.len();
        let mut i: usize = 0;
        while i < n
            invariant
                i <= n,
                n == self.connections@.len(),
                !has_connection_in(self.connections@, account@, caller@, i as int),
            decreases n - i,
        {
            let c = &self.connections[i];
            if (c.account1 == caller && c.account2 == account) || (c.account1 == account
                && c.account2 == caller) {
                proof {
                    assert(connects(self.connections@[i as int], account@, caller@));
                }
                return true;
            }
            i = i + 1;
            proof {
                if !has_connection_in(self.connections@, account@, caller@, i as int) {
                }
                assert(!connects(self.connections@[i - 1], account@, caller@));
            }
        }
        false
    }

    /// Marks the connection with the given id as completed.  Returns whether
    /// such a connection exists; nothing else changes.
    pub fn set_connection_completed(&mut self, connection_id: usize) -> (r: bool)
        requires
            old(self).wf(),
        ensures
            final(self).wf(),
            r == ((connection_id as int) < old(self).connections@.len()),
            !r ==> *final(self) == *old(self),
            r ==> final(self).connections@ == old(self).connections@.update(
                connection_id as int,
                (ConnectionEntry {
                    completed: true,
                    ..old(self).connections@[connection_id as int]
                }),
            ),
            final(self).connection_id == old(self).connection_id,
            final(self).message_id == old(self).message_id,
            final(self).message_log == old(self).message_log,
            final(self).messages == old(self).messages,
    {
        if connection_id < self.connections.len() {
            let c = &mut self.connections[connection_id];
            c.completed = true;
            proof {
                assert forall|i: int, j: int|
                    0 <= i < j < self.connections@.len() implies !connects(
                    #[trigger] self.connections@[i],
                    (#[trigger] self.connections@[j]).account1@,
                    self.connections@[j].account2@,
                ) by {
                    assert(self.connections@[i].account1@ == old(
                        self,
                    ).connections@[i].account1@);
                    assert(self.connections@[i].account2@ == old(
                        self,
                    ).connections@[i].account2@);
                    assert(self.connections@[j].account1@ == old(
                        self,
                    ).connections@[j].account1@);
                    assert(self.connections@[j].account2@ == old(
                        self,
                    ).connections@[j].account2@);
                }
            }
            true
        } else {
            false
        }
    }

    /// Whether the connection between the two accounts is completed; false
    /// if there is no such connection.
    pub fn is_complete(&self, caller: String, account: String) -> (r: bool)
        requires
            self.wf(),
        ensures
            r == (self.spec_has_connection(account@, caller@) && self.connections@[self
                .spec_connection_index(account@, caller@)].completed),
    {
        let n = self.connections.len();
        let mut i: usize = 0;
        while i < n
            invariant
                self.wf(),
                i <= n,
                n == self.connections@.len(),
                !has_connection_in(self.connections@, account@, caller@, i as int),
            decreases n - i,
        {
            let c = &self.connections[i];
            if (c.account1 == caller && c.account2 == account) || (c.account1 == account
                && c.account2 == caller) {
                proof {
                    assert(connects(self.connections@[i as int], account@, caller@));
                    let idx = self.spec_connection_index(account@, caller@);
                    assert(connects(self.connections@[idx], account@, caller@));
                    assert(idx == i as int);
                }
                return c.completed;
            }
            i = i + 1;
            proof {
                assert(!connects(self.connections@[i - 1], account@, caller@));
            }
        }
        false
    }

    /// Every connection one of whose endpoints is the given account, in
    /// creation order.
    pub fn get_all_connections(&self, caller: String) -> (r: Vec<ConnectionEntry>)
        requires
            self.wf(),
        ensures
            r@ == self.connections@.filter(
                |c: ConnectionEntry| c.account1@ == caller@ || c.account2@ == caller@,
            ),
    {
        let mut buff: Vec<ConnectionEntry> = Vec::new();
        let n = self.connections.len();
        let mut i: usize = 0;
        while i < n
            invariant
                i <= n,
                n == self.connections@.len(),
                buff@ == self.connections@.take(i as int).filter(
                    |c: ConnectionEntry| c.account1@ == caller@ || c.account2@ == caller@,
                ),
            decreases n - i,
        {
            let c = &self.connections[i];
            if c.account1 == caller || c.account2 == caller {
                buff.push(c.clone());
            }
            i = i + 1;
            proof {
                let t = self.connections@.take(i as int);
                assert(t.drop_last() =~= self.connections@.take(i - 1));
                assert(t.last() == self.connections@[i - 1]);
                reveal(Seq::filter);
            }
        }
        proof {
            assert(self.connections@.take(n as int) =~= self.connections@);
        }
        buff
    }
}

} // verus!
