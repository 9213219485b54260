//! The store: a generic key-value map over hashed addresses, plus the chat
//! tenant's channels and its running message count.
use vstd::prelude::*;
use crate::address::{app_key, hash_id, id_hash, storage_address};
use crate::channel::{page, Channel};
use crate::host::{block_timestamp, current_account_id, predecessor_account_id};
use crate::types::{
    ChannelMessagesResponse, ChannelStatusResponse, ChatError, GetRequest, GetResponse,
    IncomingMessage, Message, StatusResponse,
};
use crate::validate::{
    chat_app_id, is_chat_app_id, valid_app_id, valid_channel_id, verify_app_id,
    verify_channel_id,
};
use crate::channel::NANOS_PER_MILLI;

verus! {

/// The sum of the message counts of the channels.
pub open spec fn total_messages_of(cs: Seq<Channel>) -> int
    decreases cs.len(),
{
    if cs.len() == 0 {
        0
    } else {
        total_messages_of(cs.drop_last()) + cs.last().msgs().len()
    }
}

/// No two channels share an id digest.
pub open spec fn hashes_unique(cs: Seq<Channel>) -> bool {
    forall|i: int, j: int|
        0 <= i < cs.len() && 0 <= j < cs.len() && i != j ==> id_hash(#[trigger] cs[i].id())
            != id_hash(#[trigger] cs[j].id())
}

/// Channel `i` of `cs` is the one stored under digest `h`.
pub open spec fn channel_index(cs: Seq<Channel>, h: Seq<u8>, i: int) -> bool {
    0 <= i < cs.len() && id_hash(cs[i].id()) == h
}

/// Some channel of `cs` is stored under the digest of `id`.
pub open spec fn has_channel(cs: Seq<Channel>, id: Seq<char>) -> bool {
    exists|i: int| channel_index(cs, id_hash(id), i)
}

/// The messages that a read of channel `id` sees: those of the channel stored
/// under its digest, or none where no channel is.
pub open spec fn messages_in(cs: Seq<Channel>, id: Seq<char>) -> Seq<Message> {
    if has_channel(cs, id) {
        cs[choose|i: int| channel_index(cs, id_hash(id), i)].msgs()
    } else {
        Seq::empty()
    }
}

/// The channel id and the text of a posted message.
pub open spec fn incoming_channel(m: IncomingMessage) -> Seq<char> {
    match m {
        IncomingMessage::ChatMessage { channel_id, .. } => channel_id@,
    }
}

pub open spec fn incoming_text(m: IncomingMessage) -> String {
    match m {
        IncomingMessage::ChatMessage { text, .. } => text,
    }
}

/// What one post of `m` to channel `cid` does to a store: the channel gains
/// `m` at its end, every channel under another digest keeps its messages, a
/// channel is created where none was, the generic store is untouched and the
/// running count grows by one.
pub open spec fn posted(before: MetanearChat, after: MetanearChat, cid: Seq<char>, m: Message) -> bool {
    &&& after.stored() == before.stored()
    &&& after.total() == before.total() + 1
    &&& messages_in(after.channel_list(), cid) == messages_in(before.channel_list(), cid).push(m)
    &&& forall|id: Seq<char>|
        id_hash(id) != id_hash(cid) ==> #[trigger] messages_in(after.channel_list(), id)
            == messages_in(before.channel_list(), id)
    &&& after.channel_list().len() == before.channel_list().len() + if has_channel(
        before.channel_list(),
        cid,
    ) {
        0int
    } else {
        1int
    }
    &&& (before.counts_agree() ==> after.counts_agree())
}

proof fn lemma_messages_in_same(cs1: Seq<Channel>, cs2: Seq<Channel>, id: Seq<char>)
    requires
        hashes_unique(cs1),
        hashes_unique(cs2),
        forall|j: int|
            channel_index(cs1, id_hash(id), j) <==> #[trigger] channel_index(cs2, id_hash(id), j),
        forall|j: int|
            #[trigger] channel_index(cs1, id_hash(id), j) ==> cs1[j].msgs() == cs2[j].msgs(),
    ensures
        messages_in(cs1, id) == messages_in(cs2, id),
{
    if has_channel(cs1, id) {
        let j = choose|j: int| channel_index(cs1, id_hash(id), j);
        lemma_messages_in_at(cs1, id, j);
        lemma_messages_in_at(cs2, id, j);
    } else {
        if has_channel(cs2, id) {
            let j = choose|j: int| channel_index(cs2, id_hash(id), j);
            assert(channel_index(cs1, id_hash(id), j));
        }
    }
}

proof fn lemma_messages_in_at(cs: Seq<Channel>, id: Seq<char>, i: int)
    requires
        hashes_unique(cs),
        channel_index(cs, id_hash(id), i),
    ensures
        has_channel(cs, id),
        messages_in(cs, id) == cs[i].msgs(),
{
    let j = choose|j: int| channel_index(cs, id_hash(id), j);
    assert(channel_index(cs, id_hash(id), j));
    if j != i {
        assert(id_hash(cs[i].id()) != id_hash(cs[j].id()));
    }
}

proof fn lemma_total_update(cs: Seq<Channel>, i: int, c: Channel)
    requires
        0 <= i < cs.len(),
    ensures
        total_messages_of(cs.update(i, c)) == total_messages_of(cs) - cs[i].msgs().len()
            + c.msgs().len(),
    decreases cs.len(),
{
    let u = cs.update(i, c);
    if i == cs.len() - 1 {
        assert(u.drop_last() =~= cs.drop_last());
    } else {
        assert(u.drop_last() =~= cs.drop_last().update(i, c));
        lemma_total_update(cs.drop_last(), i, c);
    }
}

proof fn lemma_total_push(cs: Seq<Channel>, c: Channel)
    ensures
        total_messages_of(cs.push(c)) == total_messages_of(cs) + c.msgs().len(),
{
    assert(cs.push(c).drop_last() =~= cs);
}

fn bytes_equal(a: &Vec<u8>, b: &Vec<u8>) -> (r: bool)
    ensures
        r == (a@ == b@),
{
    if a.len() != b.len() {
        return false;
    }
    let mut i: usize = 0;
    while i < a.len()
        invariant
            a@.len() == b@.len(),
            i <= a@.len(),
            forall|j: int| 0 <= j < i ==> a@[j] == b@[j],
        decreases a@.len() - i,
    {
        if a[i] != b[i] {
            return false;
        }
        i += 1;
    }
    assert(a@ =~= b@);
    true
}

fn find_key(keys: &Vec<Vec<u8>>, k: &Vec<u8>) -> (r: Option<usize>)
    ensures
        match r {
            Some(i) => i < keys@.len() && keys@[i as int]@ == k@,
            None => forall|i: int| 0 <= i < keys@.len() ==> (#[trigger] keys@[i])@ != k@,
        },
{
    let mut i: usize = 0;
    while i < keys.len()
        invariant
            i <= keys@.len(),
            forall|j: int| 0 <= j < i ==> (#[trigger] keys@[j])@ != k@,
        decreases keys@.len() - i,
    {
        if bytes_equal(&keys[i], k) {
            return Some(i);
        }
        i += 1;
    }
    None
}

pub struct MetanearChat {
    keys: Vec<Vec<u8>>,
    values: Vec<String>,
    stored_map: Ghost<Map<Seq<u8>, Seq<char>>>,
    channel_hashes: Vec<Vec<u8>>,
    channels: Vec<Channel>,
    total_num_messages: u64,
}

impl MetanearChat {
    /// The generic store: address to value.
    pub closed spec fn stored(&self) -> Map<Seq<u8>, Seq<char>> {
        self.stored_map@
    }

    /// The channels, in the order they were first saved.
    pub closed spec fn channel_list(&self) -> Seq<Channel> {
        self.channels@
    }

    /// The running count of posted messages.
    pub closed spec fn total(&self) -> int {
        self.total_num_messages as int
    }

    /// The running count equals the sum of the channels' message counts.
    pub open spec fn counts_agree(&self) -> bool {
        self.total() == total_messages_of(self.channel_list())
    }

    /// Stored keys are unique and mirror the store's map; each channel sits
    /// under the digest of its id, and no digest twice.
    pub closed spec fn wf(&self) -> bool {
        &&& self.keys@.len() == self.values@.len()
        &&& forall|i: int, j: int|
            0 <= i < self.keys@.len() && 0 <= j < self.keys@.len() && i != j ==> (
            #[trigger] self.keys@[i])@ != (#[trigger] self.keys@[j])@
        &&& forall|i: int|
            0 <= i < self.keys@.len() ==> self.stored_map@.contains_key(
                (#[trigger] self.keys@[i])@,
            ) && self.stored_map@[self.keys@[i]@] == self.values@[i]@
        &&& forall|k: Seq<u8>|
            #[trigger] self.stored_map@.contains_key(k) ==> exists|i: int|
                0 <= i < self.keys@.len() && (#[trigger] self.keys@[i])@ == k
        &&& self.channel_hashes@.len() == self.channels@.len()
        &&& forall|i: int|
            0 <= i < self.channels@.len() ==> (#[trigger] self.channel_hashes@[i])@ == id_hash(
                self.channels@[i].id(),
            ) && self.channels@[i].wf()
        &&& hashes_unique(self.channels@)
    }

    /// An empty store.
    pub fn new() -> (r: MetanearChat)
        ensures
            r.wf(),
            r.stored() == Map::<Seq<u8>, Seq<char>>::empty(),
            r.channel_list() == Seq::<Channel>::empty(),
            r.total() == 0,
            r.counts_agree(),
    {
        MetanearChat {
            keys: Vec::new(),
            values: Vec::new(),
            stored_map: Ghost(Map::empty()),
            channel_hashes: Vec::new(),
            channels: Vec::new(),
            total_num_messages: 0,
        }
    }

    fn storage_write(&mut self, k: Vec<u8>, v: String)
        requires
            old(self).wf(),
        ensures
            final(self).wf(),
            final(self).stored() == old(self).stored().insert(k@, v@),
            final(self).channel_list() == old(self).channel_list(),
            final(self).total() == old(self).total(),
    {
        let ghost kv = k@;
        let ghost vv = v@;
        self.stored_map = Ghost(self.stored_map@.insert(k@, v@));
        match find_key(&self.keys, &k) {
            Some(i) => {
                self.values.set(i, v);
            },
            None => {
                self.keys.push(k);
                self.values.push(v);
            },
        }
        assert forall|key: Seq<u8>| #[trigger] self.stored_map@.contains_key(key) implies exists|
            i: int,
        | 0 <= i < self.keys@.len() && (#[trigger] self.keys@[i])@ == key by {
            if key == kv {
                if self.keys@.len() > old(self).keys@.len() {
                    assert(self.keys@[self.keys@.len() - 1]@ == key);
                } else {
                    let i = choose|i: int| 0 <= i < self.keys@.len() && self.keys@[i]@ == kv;
                }
            } else {
                assert(old(self).stored_map@.contains_key(key));
                let i = choose|i: int|
                    0 <= i < old(self).keys@.len() && (#[trigger] old(self).keys@[i])@ == key;
                assert(self.keys@[i] == old(self).keys@[i]);
            }
        }
    }

    fn storage_remove(&mut self, k: &Vec<u8>)
        requires
            old(self).wf(),
        ensures
            final(self).wf(),
            final(self).stored() == old(self).stored().remove(k@),
            final(self).channel_list() == old(self).channel_list(),
            final(self).total() == old(self).total(),
    {
        self.stored_map = Ghost(self.stored_map@.remove(k@));
        match find_key(&self.keys, k) {
            Some(i) => {
                let ghost ok = old(self).keys@;
                let ghost ov = old(self).values@;
                self.keys.remove(i);
                self.values.remove(i);
                assert forall|j: int| 0 <= j < self.keys@.len() implies self.stored_map@.contains_key(
                    (#[trigger] self.keys@[j])@,
                ) && self.stored_map@[self.keys@[j]@] == self.values@[j]@ by {
                    let oj = if j < i { j } else { j + 1 };
                    assert(self.keys@[j] == ok[oj]);
                    assert(self.values@[j] == ov[oj]);
                    assert(oj != i);
                }
                assert forall|key: Seq<u8>| #[trigger]
                    self.stored_map@.contains_key(key) implies exists|j: int|
                    0 <= j < self.keys@.len() && (#[trigger] self.keys@[j])@ == key by {
                    assert(old(self).stored_map@.contains_key(key));
                    let oj = choose|oj: int| 0 <= oj < ok.len() && (#[trigger] ok[oj])@ == key;
                    assert(oj != i);
                    let j = if oj < i { oj } else { oj - 1 };
                    assert(self.keys@[j] == ok[oj]);
                }
            },
            None => {
                assert forall|key: Seq<u8>| #[trigger]
                    self.stored_map@.contains_key(key) implies exists|j: int|
                    0 <= j < self.keys@.len() && (#[trigger] self.keys@[j])@ == key by {
                    assert(old(self).stored_map@.contains_key(key));
                }
                assert forall|j: int| 0 <= j < self.keys@.len() implies self.stored_map@.contains_key(
                    (#[trigger] self.keys@[j])@,
                ) && self.stored_map@[self.keys@[j]@] == self.values@[j]@ by {
                    assert(self.keys@[j]@ != k@);
                }
            },
        }
    }

    fn storage_read(&self, k: &Vec<u8>) -> (r: Option<String>)
        requires
            self.wf(),
        ensures
            match r {
                Some(v) => self.stored().contains_key(k@) && self.stored()[k@] == v@,
                None => !self.stored().contains_key(k@),
            },
    {
        match find_key(&self.keys, k) {
            Some(i) => Some(self.values[i].clone()),
            None => {
                proof {
                    if self.stored_map@.contains_key(k@) {
                        let i = choose|i: int|
                            0 <= i < self.keys@.len() && (#[trigger] self.keys@[i])@ == k@;
                        assert(false);
                    }
                }
                None
            },
        }
    }

    /// Writes `value` under `key` of tenant `app_id`, when `caller` is the
    /// store's own account `self_id`.
    pub fn master_set_from(
        &mut self,
        caller: &String,
        self_id: &String,
        app_id: String,
        key: String,
        value: String,
    ) -> (r: Result<(), ChatError>)
        requires
            old(self).wf(),
        ensures
            final(self).wf(),
            r is Ok <==> caller@ == self_id@,
            r is Ok ==> final(self).stored() == old(self).stored().insert(
                storage_address(app_id@, key@),
                value@,
            ) && final(self).channel_list() == old(self).channel_list() && final(self).total()
                == old(self).total(),
            r is Err ==> r == Err::<(), ChatError>(ChatError::NotSelfCall) && *final(self) == *old(
                self,
            ),
    {
        if !caller.eq(self_id) {
            return Err(ChatError::NotSelfCall);
        }
        let k = app_key(&app_id, &key);
        self.storage_write(k, value);
        Ok(())
    }

    /// Writes `value` under `key` of tenant `app_id`; only the store's own
    /// account may do so.
    pub fn master_set(&mut self, app_id: String, key: String, value: String) -> (r: Result<
        (),
        ChatError,
    >)
        requires
            old(self).wf(),
        ensures
            final(self).wf(),
            r is Ok ==> final(self).stored() == old(self).stored().insert(
                storage_address(app_id@, key@),
                value@,
            ) && final(self).channel_list() == old(self).channel_list() && final(self).total()
                == old(self).total(),
            r is Err ==> r == Err::<(), ChatError>(ChatError::NotSelfCall) && *final(self) == *old(
                self,
            ),
    {
        let self_id = current_account_id();
        let caller = predecessor_account_id();
        self.master_set_from(&caller, &self_id, app_id, key, value)
    }

    /// Removes `key` of tenant `app_id`, when `caller` is the store's own
    /// account `self_id`. Removing an absent key is no error.
    pub fn master_remove_from(
        &mut self,
        caller: &String,
        self_id: &String,
        app_id: String,
        key: String,
    ) -> (r: Result<(), ChatError>)
        requires
            old(self).wf(),
        ensures
            final(self).wf(),
            r is Ok <==> caller@ == self_id@,
            r is Ok ==> final(self).stored() == old(self).stored().remove(
                storage_address(app_id@, key@),
            ) && final(self).channel_list() == old(self).channel_list() && final(self).total()
                == old(self).total(),
            r is Err ==> r == Err::<(), ChatError>(ChatError::NotSelfCall) && *final(self) == *old(
                self,
            ),
    {
        if !caller.eq(self_id) {
            return Err(ChatError::NotSelfCall);
        }
        let k = app_key(&app_id, &key);
        self.storage_remove(&k);
        Ok(())
    }

    /// Removes `key` of tenant `app_id`; only the store's own account may do so.
    pub fn master_remove(&mut self, app_id: String, key: String) -> (r: Result<(), ChatError>)
        requires
            old(self).wf(),
        ensures
            final(self).wf(),
            r is Ok ==> final(self).stored() == old(self).stored().remove(
                storage_address(app_id@, key@),
            ) && final(self).channel_list() == old(self).channel_list() && final(self).total()
                == old(self).total(),
            r is Err ==> r == Err::<(), ChatError>(ChatError::NotSelfCall) && *final(self) == *old(
                self,
            ),
    {
        let self_id = current_account_id();
        let caller = predecessor_account_id();
        self.master_remove_from(&caller, &self_id, app_id, key)
    }

    /// Reads `key` of tenant `app_id` from the generic store. The chat tenant
    /// is read through [`MetanearChat::chat_get`] instead.
    pub fn get(&self, app_id: String, key: String) -> (r: Result<Option<String>, ChatError>)
        requires
            self.wf(),
        ensures
            r == Err::<Option<String>, ChatError>(ChatError::InvalidAppId) <==> !valid_app_id(
                app_id@,
            ),
            r == Err::<Option<String>, ChatError>(ChatError::ReservedApp) <==> valid_app_id(app_id@)
                && app_id@ == chat_app_id(),
            r is Ok <==> valid_app_id(app_id@) && app_id@ != chat_app_id(),
            r matches Ok(Some(v)) ==> self.stored().contains_key(storage_address(app_id@, key@))
                && self.stored()[storage_address(app_id@, key@)] == v@,
            r matches Ok(None) ==> !self.stored().contains_key(storage_address(app_id@, key@)),
    {
        match verify_app_id(&app_id) {
            Err(e) => {
                return Err(e);
            },
            Ok(()) => {},
        }
        if is_chat_app_id(&app_id) {
            return Err(ChatError::ReservedApp);
        }
        let k = app_key(&app_id, &key);
        Ok(self.storage_read(&k))
    }

    /// Loads channel `channel_id`; a channel never saved comes back empty and
    /// unsaved.
    pub fn get_channel(&self, channel_id: String) -> (r: Result<Channel, ChatError>)
        requires
            self.wf(),
        ensures
            r is Err <==> !valid_channel_id(channel_id@),
            r is Err ==> r == Err::<Channel, ChatError>(ChatError::InvalidChannelId),
            r matches Ok(c) ==> c.wf() && id_hash(c.id()) == id_hash(channel_id@) && c.msgs()
                == messages_in(self.channel_list(), channel_id@) && (!has_channel(
                self.channel_list(),
                channel_id@,
            ) ==> c.id() == channel_id@),
    {
        match verify_channel_id(&channel_id) {
            Err(e) => {
                return Err(e);
            },
            Ok(()) => {},
        }
        let h = hash_id(&channel_id);
        match find_key(&self.channel_hashes, &h) {
            Some(i) => {
                proof {
                    lemma_messages_in_at(self.channels@, channel_id@, i as int);
                }
                Ok(self.channels[i].duplicate())
            },
            None => {
                proof {
                    if has_channel(self.channels@, channel_id@) {
                        let i = choose|i: int| channel_index(self.channels@, id_hash(channel_id@), i);
                        assert(self.channel_hashes@[i]@ == h@);
                    }
                }
                Ok(Channel::new(channel_id))
            },
        }
    }

    /// Stores `channel` under the digest of its id, in place of the channel
    /// stored there before, if any.
    pub fn save_channel(&mut self, channel: Channel)
        requires
            old(self).wf(),
            channel.wf(),
        ensures
            final(self).wf(),
            final(self).stored() == old(self).stored(),
            final(self).total() == old(self).total(),
            has_channel(old(self).channel_list(), channel.id()) ==> final(self).channel_list()
                == old(self).channel_list().update(
                choose|i: int| channel_index(old(self).channel_list(), id_hash(channel.id()), i),
                channel,
            ),
            !has_channel(old(self).channel_list(), channel.id()) ==> final(self).channel_list()
                == old(self).channel_list().push(channel),
    {
        let h = hash_id(channel.channel_id());
        let ghost cs = self.channels@;
        let ghost c = channel;
        match find_key(&self.channel_hashes, &h) {
            Some(i) => {
                proof {
                    assert(channel_index(cs, id_hash(c.id()), i as int));
                    let j = choose|j: int| channel_index(cs, id_hash(c.id()), j);
                    if j != i as int {
                        assert(id_hash(cs[i as int].id()) != id_hash(cs[j].id()));
                    }
                }
                self.channels.set(i, channel);
                assert(hashes_unique(self.channels@)) by {
                    assert forall|a: int, b: int|
                        0 <= a < self.channels@.len() && 0 <= b < self.channels@.len() && a != b
                        implies id_hash(#[trigger] self.channels@[a].id()) != id_hash(
                        #[trigger] self.channels@[b].id(),
                    ) by {
                        if a != i as int && b != i as int {
                        } else if a == i as int {
                            assert(id_hash(cs[b].id()) != id_hash(cs[a].id()));
                        } else {
                            assert(id_hash(cs[b].id()) != id_hash(cs[a].id()));
                        }
                    }
                }
            },
            None => {
                proof {
                    if has_channel(cs, c.id()) {
                        let i = choose|i: int| channel_index(cs, id_hash(c.id()), i);
                        assert(self.channel_hashes@[i]@ == h@);
                    }
                }
                self.channel_hashes.push(h);
                self.channels.push(channel);
                assert(hashes_unique(self.channels@)) by {
                    assert forall|a: int, b: int|
                        0 <= a < self.channels@.len() && 0 <= b < self.channels@.len() && a != b
                        implies id_hash(#[trigger] self.channels@[a].id()) != id_hash(
                        #[trigger] self.channels@[b].id(),
                    ) by {
                        let n = cs.len() as int;
                        if a == n {
                            assert(self.channel_hashes@[b]@ != h@);
                        } else if b == n {
                            assert(self.channel_hashes@[a]@ != h@);
                        } else {
                            assert(self.channels@[a] == cs[a]);
                            assert(self.channels@[b] == cs[b]);
                        }
                    }
                }
            },
        }
        assert forall|i: int| 0 <= i < self.channels@.len() implies (
        #[trigger] self.channel_hashes@[i])@ == id_hash(self.channels@[i].id())
            && self.channels@[i].wf() by {
            if i < cs.len() && self.channels@[i] == cs[i] {
                assert(old(self).channel_hashes@[i] == self.channel_hashes@[i]);
            }
        }
    }

    /// Answers a structured read of the chat tenant.
    pub fn chat_get(&self, request: GetRequest) -> (r: Result<GetResponse, ChatError>)
        requires
            self.wf(),
        ensures
            match request {
                GetRequest::Status {  } => r == Ok::<GetResponse, ChatError>(
                    GetResponse::Status(
                        (StatusResponse {
                            num_channels: self.channel_list().len() as u64,
                            total_num_messages: self.total() as u64,
                        }),
                    ),
                ),
                GetRequest::ChannelStatus { channel_id } => if valid_channel_id(channel_id@) {
                    r == Ok::<GetResponse, ChatError>(
                        GetResponse::ChannelStatus(
                            (ChannelStatusResponse {
                                num_messages: messages_in(
                                    self.channel_list(),
                                    channel_id@,
                                ).len() as u64,
                            }),
                        ),
                    )
                } else {
                    r == Err::<GetResponse, ChatError>(ChatError::InvalidChannelId)
                },
                GetRequest::ChannelMessages { channel_id, from_index, limit } => if valid_channel_id(
                    channel_id@,
                ) {
                    r matches Ok(GetResponse::ChannelMessages(resp)) && resp.messages@ == page(
                        messages_in(self.channel_list(), channel_id@),
                        from_index as int,
                        limit as int,
                    )
                } else {
                    r == Err::<GetResponse, ChatError>(ChatError::InvalidChannelId)
                },
            },
    {
        match request {
            GetRequest::Status {  } => {
                Ok(
                    GetResponse::Status(
                        StatusResponse {
                            num_channels: self.channels.len() as u64,
                            total_num_messages: self.total_num_messages,
                        },
                    ),
                )
            },
            GetRequest::ChannelStatus { channel_id } => {
                let channel = match self.get_channel(channel_id) {
                    Err(e) => {
                        return Err(e);
                    },
                    Ok(c) => c,
                };
                Ok(
                    GetResponse::ChannelStatus(
                        ChannelStatusResponse { num_messages: channel.num_messages() },
                    ),
                )
            },
            GetRequest::ChannelMessages { channel_id, from_index, limit } => {
                let channel = match self.get_channel(channel_id) {
                    Err(e) => {
                        return Err(e);
                    },
                    Ok(c) => c,
                };
                let messages = channel.messages_slice(from_index, limit);
                Ok(GetResponse::ChannelMessages(ChannelMessagesResponse { messages }))
            },
        }
    }

    /// Posts `message` to the chat tenant as `sender_id`, stamped `time`
    /// (milliseconds).
    pub fn post_message_from(
        &mut self,
        app_id: String,
        message: IncomingMessage,
        sender_id: String,
        time: u64,
    ) -> (r: Result<(), ChatError>)
        requires
            old(self).wf(),
            old(self).total() < u64::MAX,
        ensures
            final(self).wf(),
            r == Err::<(), ChatError>(ChatError::InvalidAppId) <==> !valid_app_id(app_id@),
            r == Err::<(), ChatError>(ChatError::UnsupportedApp) <==> valid_app_id(app_id@)
                && app_id@ != chat_app_id(),
            r == Err::<(), ChatError>(ChatError::InvalidChannelId) <==> app_id@ == chat_app_id()
                && !valid_channel_id(incoming_channel(message)),
            r is Ok <==> app_id@ == chat_app_id() && valid_channel_id(incoming_channel(message)),
            r is Err ==> *final(self) == *old(self),
            r is Ok ==> posted(
                *old(self),
                *final(self),
                incoming_channel(message),
                (Message { time, sender_id, text: incoming_text(message) }),
            ),
    {
        match verify_app_id(&app_id) {
            Err(e) => {
                return Err(e);
            },
            Ok(()) => {},
        }
        if !is_chat_app_id(&app_id) {
            return Err(ChatError::UnsupportedApp);
        }
        match message {
            IncomingMessage::ChatMessage { channel_id, text } => {
                let ghost cid = channel_id@;
                let ghost m = Message { time, sender_id, text };
                let ghost cs = self.channels@;
                let mut channel = match self.get_channel(channel_id) {
                    Err(e) => {
                        return Err(e);
                    },
                    Ok(c) => c,
                };
                channel.add_message_at(sender_id, text, time);
                let ghost c = channel;
                self.save_channel(channel);
                assert(self.wf());
                self.total_num_messages = self.total_num_messages + 1;
                assert(self.wf());
                proof {
                    let cs2 = self.channels@;
                    assert(has_channel(cs, c.id()) == has_channel(cs, cid));
                    if has_channel(cs, cid) {
                        let i = choose|i: int| channel_index(cs, id_hash(c.id()), i);
                        assert(cs2 == cs.update(i, c));
                        lemma_messages_in_at(cs, cid, i);
                        lemma_messages_in_at(cs2, cid, i);
                        lemma_total_update(cs, i, c);
                        assert forall|id: Seq<char>| id_hash(id) != id_hash(cid) implies #[trigger]
                            messages_in(cs2, id) == messages_in(cs, id) by {
                            lemma_messages_in_same(cs, cs2, id);
                        }
                    } else {
                        let n = cs.len() as int;
                        assert(cs2 == cs.push(c));
                        assert(channel_index(cs2, id_hash(cid), n));
                        lemma_messages_in_at(cs2, cid, n);
                        lemma_total_push(cs, c);
                        assert forall|id: Seq<char>| id_hash(id) != id_hash(cid) implies #[trigger]
                            messages_in(cs2, id) == messages_in(cs, id) by {
                            assert forall|j: int|
                                channel_index(cs, id_hash(id), j) <==> #[trigger] channel_index(
                                    cs2,
                                    id_hash(id),
                                    j,
                                ) by {
                                if 0 <= j < n {
                                    assert(cs2[j] == cs[j]);
                                }
                            }
                            assert forall|j: int|
                                #[trigger] channel_index(cs, id_hash(id), j) implies cs[j].msgs()
                                == cs2[j].msgs() by {
                                if 0 <= j < n {
                                    assert(cs2[j] == cs[j]);
                                }
                            }
                            lemma_messages_in_same(cs, cs2, id);
                        }
                    }
                    assert(messages_in(cs2, cid) == messages_in(cs, cid).push(m));
                }
                Ok(())
            },
        }
    }

    /// Posts `message` to the chat tenant as the calling account, stamped with
    /// the current block time in milliseconds.
    pub fn post_message(&mut self, app_id: String, message: IncomingMessage) -> (r: Result<
        (),
        ChatError,
    >)
        requires
            old(self).wf(),
            old(self).total() < u64::MAX,
        ensures
            final(self).wf(),
            r == Err::<(), ChatError>(ChatError::InvalidAppId) <==> !valid_app_id(app_id@),
            r == Err::<(), ChatError>(ChatError::UnsupportedApp) <==> valid_app_id(app_id@)
                && app_id@ != chat_app_id(),
            r == Err::<(), ChatError>(ChatError::InvalidChannelId) <==> app_id@ == chat_app_id()
                && !valid_channel_id(incoming_channel(message)),
            r is Ok <==> app_id@ == chat_app_id() && valid_channel_id(incoming_channel(message)),
            r is Err ==> *final(self) == *old(self),
            r is Ok ==> exists|m: Message|
                m.text == incoming_text(message) && posted(
                    *old(self),
                    *final(self),
                    incoming_channel(message),
                    m,
                ),
    {
        let sender_id = predecessor_account_id();
        let time = block_timestamp() / NANOS_PER_MILLI;
        let ghost msg = message;
        let r = self.post_message_from(app_id, message, sender_id, time);
        if r.is_ok() {
            assert(posted(
                *old(self),
                *self,
                incoming_channel(msg),
                (Message { time, sender_id, text: incoming_text(msg) }),
            ));
        }
        r
    }

    /// How many channels have been saved.
    pub fn num_channels(&self) -> (r: u64)
        ensures
            r == self.channel_list().len(),
    {
        self.channels.len() as u64
    }

    /// The running count of posted messages.
    pub fn total_num_messages(&self) -> (r: u64)
        ensures
            r == self.total(),
    {
        self.total_num_messages
    }
}

} // verus!
