//! Short-term conversation memory: per-conversation message buffers with a
//! size limit and an idle timeout. Each operation that depends on the
//! clock has an exact core that takes the current second as an argument;
//! the methods named as the callers know them read the clock and delegate.

use vstd::prelude::*;
use vstd::string::*;
use crate::clock::now_unix_seconds;
use crate::text::{i64_to_string, spec_i64_string, spec_u64_string, str_eq, u64_to_string};

verus! {

/// One remembered message.
pub struct ChatMessage {
    pub message_id: String,
    pub role: String,
    pub content: String,
    pub timestamp: u64,
}

/// One conversation's buffer and the second it last changed.
struct ConversationHistory {
    messages: Vec<ChatMessage>,
    last_update: u64,
}

/// The map described by the entry list, later entries shadowing earlier
/// ones; the entry list never holds a key twice.
spec fn entry_map(s: Seq<(String, ConversationHistory)>) -> Map<Seq<char>, ConversationHistory>
    decreases s.len(),
{
    if s.len() == 0 {
        Map::empty()
    } else {
        entry_map(s.drop_last()).insert(s.last().0@, s.last().1)
    }
}

spec fn distinct_keys(s: Seq<(String, ConversationHistory)>) -> bool {
    forall|i: int, j: int| 0 <= i < j < s.len() ==> (#[trigger] s[i]).0@ != (#[trigger] s[j]).0@
}

proof fn lemma_entry_map_contains(s: Seq<(String, ConversationHistory)>, key: Seq<char>)
    ensures
        entry_map(s).contains_key(key) <==> exists|i: int|
            0 <= i < s.len() && (#[trigger] s[i]).0@ == key,
    decreases s.len(),
{
    if s.len() > 0 {
        lemma_entry_map_contains(s.drop_last(), key);
        if s.last().0@ == key {
            assert((s[s.len() - 1]).0@ == key);
        } else {
            if entry_map(s).contains_key(key) {
                let i = choose|i: int|
                    0 <= i < s.drop_last().len() && (#[trigger] s.drop_last()[i]).0@ == key;
                if entry_map(s.drop_last()).contains_key(key) {
                    assert((s[i]).0@ == key);
                }
            }
            if exists|i: int| 0 <= i < s.len() && (#[trigger] s[i]).0@ == key {
                let i = choose|i: int| 0 <= i < s.len() && (#[trigger] s[i]).0@ == key;
                assert(i < s.len() - 1);
                assert((s.drop_last()[i]).0@ == key);
            }
        }
    }
}

proof fn lemma_entry_map_value(s: Seq<(String, ConversationHistory)>, k: int)
    requires
        distinct_keys(s),
        0 <= k < s.len(),
    ensures
        entry_map(s).contains_key(s[k].0@),
        entry_map(s)[s[k].0@] == s[k].1,
    decreases s.len(),
{
    if k == s.len() - 1 {
    } else {
        assert(s.drop_last()[k] == s[k]);
        lemma_entry_map_value(s.drop_last(), k);
        assert(s.last().0@ != s[k].0@);
    }
}

proof fn lemma_entry_map_remove(s: Seq<(String, ConversationHistory)>, k: int)
    requires
        distinct_keys(s),
        0 <= k < s.len(),
    ensures
        entry_map(s.remove(k)) == entry_map(s).remove(s[k].0@),
    decreases s.len(),
{
    let key = s[k].0@;
    if k == s.len() - 1 {
        assert(s.remove(k) =~= s.drop_last());
        lemma_entry_map_contains(s.drop_last(), key);
        assert(!entry_map(s.drop_last()).contains_key(key)) by {
            if entry_map(s.drop_last()).contains_key(key) {
                let i = choose|i: int|
                    0 <= i < s.drop_last().len() && (#[trigger] s.drop_last()[i]).0@ == key;
                assert((s[i]).0@ == key);
            }
        }
        assert(entry_map(s).remove(key) =~= entry_map(s.drop_last()));
    } else {
        let dl = s.drop_last();
        assert(s.remove(k).drop_last() =~= dl.remove(k));
        assert(s.remove(k).last() == s.last());
        assert(dl[k] == s[k]);
        lemma_entry_map_remove(dl, k);
        assert(s.last().0@ != key);
        assert(entry_map(dl).remove(key).insert(s.last().0@, s.last().1) =~= entry_map(
            dl,
        ).insert(s.last().0@, s.last().1).remove(key));
    }
}

proof fn lemma_entry_map_len(s: Seq<(String, ConversationHistory)>)
    requires
        distinct_keys(s),
    ensures
        entry_map(s).dom().finite(),
        entry_map(s).dom().len() == s.len(),
    decreases s.len(),
{
    if s.len() > 0 {
        lemma_entry_map_len(s.drop_last());
        assert(!entry_map(s.drop_last()).contains_key(s.last().0@)) by {
            lemma_entry_map_contains(s.drop_last(), s.last().0@);
            if entry_map(s.drop_last()).contains_key(s.last().0@) {
                let i = choose|i: int|
                    0 <= i < s.drop_last().len() && (#[trigger] s.drop_last()[i]).0@ == s.last().0@;
                assert((s[i]).0@ == s.last().0@);
            }
        }
        assert(entry_map(s).dom() =~= entry_map(s.drop_last()).dom().insert(s.last().0@));
    } else {
        assert(entry_map(s).dom() =~= Set::<Seq<char>>::empty());
    }
}

/// The idle seconds between `last` and `now`; a clock that moved backwards
/// counts as no idle time.
pub open spec fn spec_elapsed(now: u64, last: u64) -> int {
    if now >= last {
        now - last
    } else {
        0
    }
}

/// The message identifier written for one stored message: the conversation
/// key, the second, the role and the store's own sequence number.
pub open spec fn spec_message_id(key: Seq<char>, ts: u64, role: Seq<char>, seq: u64) -> Seq<
    char,
> {
    "msg_"@ + key + "_"@ + spec_u64_string(ts as int) + "_"@ + role + "_"@ + spec_u64_string(
        seq as int,
    )
}

/// A buffer kept to its size limit: when it overflows, the oldest
/// messages are dropped from the front.
pub open spec fn spec_capped(msgs: Seq<ChatMessage>, limit: int) -> Seq<ChatMessage> {
    if msgs.len() > limit {
        msgs.skip(msgs.len() - limit)
    } else {
        msgs
    }
}

/// The conversation-key text: the user id alone for a private chat, and
/// `group:user` inside a group.
pub open spec fn spec_conversation_key(user_id: i64, group_id: Option<i64>) -> Seq<char> {
    match group_id {
        Some(gid) => spec_i64_string(gid as int) + ":"@ + spec_i64_string(user_id as int),
        None => spec_i64_string(user_id as int),
    }
}

/// The buffer an incoming user message lands in: the conversation's
/// current messages while it is fresh, and an empty buffer when it has no
/// entry or has sat idle past the timeout.
pub open spec fn spec_user_base(pre: Memory, key: Seq<char>, now: u64) -> Seq<ChatMessage> {
    if pre.has_conversation(key) && spec_elapsed(now, pre.last_update_of(key)) <= pre.timeout() {
        pre.messages_of(key)
    } else {
        Seq::empty()
    }
}

/// What storing one user message at second `now` does to the store.
pub open spec fn spec_added_user(
    pre: Memory,
    post: Memory,
    key: Seq<char>,
    content: Seq<char>,
    id: Seq<char>,
    now: u64,
) -> bool {
    &&& post.well_formed()
    &&& post.limit() == pre.limit()
    &&& post.timeout() == pre.timeout()
    &&& post.seq_counter() == pre.seq_counter() + 1
    &&& id == spec_message_id(key, now, "user"@, pre.seq_counter())
    &&& post.last_update_of(key) == now
    &&& post.has_conversation(key)
    &&& exists|m: ChatMessage|
        m.message_id@ == id && m.role@ == "user"@ && m.content@ == content && m.timestamp == now
            && post.messages_of(key) == spec_capped(
            #[trigger] spec_user_base(pre, key, now).push(m),
            pre.limit() as int,
        )
    &&& forall|k: Seq<char>|
        k != key ==> post.messages_of(k) == pre.messages_of(k) && post.last_update_of(k)
            == pre.last_update_of(k) && post.has_conversation(k) == pre.has_conversation(k)
}

/// What storing one assistant reply at second `now` does to the store:
/// nothing at all when the conversation has no entry yet.
pub open spec fn spec_added_assistant(
    pre: Memory,
    post: Memory,
    key: Seq<char>,
    content: Seq<char>,
    id: Seq<char>,
    now: u64,
) -> bool {
    &&& post.well_formed()
    &&& post.limit() == pre.limit()
    &&& post.timeout() == pre.timeout()
    &&& post.seq_counter() == pre.seq_counter() + 1
    &&& id == spec_message_id(key, now, "assistant"@, pre.seq_counter())
    &&& !pre.has_conversation(key) ==> !post.has_conversation(key) && post.messages_of(key)
        == pre.messages_of(key) && post.last_update_of(key) == pre.last_update_of(key)
    &&& pre.has_conversation(key) ==> post.has_conversation(key) && post.last_update_of(key)
        == now && (exists|m: ChatMessage|
        m.message_id@ == id && m.role@ == "assistant"@ && m.content@ == content && m.timestamp
            == now && post.messages_of(key) == spec_capped(
            #[trigger] pre.messages_of(key).push(m),
            pre.limit() as int,
        ))
    &&& forall|k: Seq<char>|
        k != key ==> post.messages_of(k) == pre.messages_of(k) && post.last_update_of(k)
            == pre.last_update_of(k) && post.has_conversation(k) == pre.has_conversation(k)
}

/// What reading one conversation's history at second `now` does and
/// returns: the system prompt first; a fresh buffer is listed role by
/// role, a stale one is cleared and only the prompt comes back.
pub open spec fn spec_read_history(
    pre: Memory,
    post: Memory,
    key: Seq<char>,
    system_prompt: Seq<char>,
    r: Seq<(String, String)>,
    now: u64,
) -> bool {
    let fresh = pre.has_conversation(key) && spec_elapsed(now, pre.last_update_of(key))
        <= pre.timeout();
    &&& post.well_formed()
    &&& post.limit() == pre.limit()
    &&& post.timeout() == pre.timeout()
    &&& post.seq_counter() == pre.seq_counter()
    &&& r.len() >= 1
    &&& r[0].0@ == "system"@ && r[0].1@ == system_prompt
    &&& fresh ==> {
        &&& post.messages_of(key) == pre.messages_of(key)
        &&& post.last_update_of(key) == pre.last_update_of(key)
        &&& post.has_conversation(key)
        &&& r.len() == 1 + pre.messages_of(key).len()
        &&& forall|i: int|
            0 <= i < pre.messages_of(key).len() ==> (#[trigger] r[i + 1]).0@ == pre.messages_of(
                key,
            )[i].role@ && r[i + 1].1@ == pre.messages_of(key)[i].content@
    }
    &&& !fresh ==> {
        &&& r.len() == 1
        &&& post.messages_of(key) == Seq::<ChatMessage>::empty()
        &&& post.has_conversation(key) == pre.has_conversation(key)
        &&& post.last_update_of(key) == (if pre.has_conversation(key) {
            pre.last_update_of(key)
        } else {
            0u64
        })
    }
    &&& forall|k: Seq<char>|
        k != key ==> post.messages_of(k) == pre.messages_of(k) && post.last_update_of(k)
            == pre.last_update_of(k) && post.has_conversation(k) == pre.has_conversation(k)
}

/// What removing every stale conversation at second `now` leaves: fresh
/// conversations untouched, everything else gone.
pub open spec fn spec_cleaned(pre: Memory, post: Memory, now: u64) -> bool {
    &&& post.well_formed()
    &&& post.limit() == pre.limit()
    &&& post.timeout() == pre.timeout()
    &&& post.seq_counter() == pre.seq_counter()
    &&& forall|k: Seq<char>|
        pre.has_conversation(k) && spec_elapsed(now, pre.last_update_of(k)) <= pre.timeout()
            ==> #[trigger] post.has_conversation(k) && post.messages_of(k) == pre.messages_of(k)
            && post.last_update_of(k) == pre.last_update_of(k)
    &&& forall|k: Seq<char>|
        !(pre.has_conversation(k) && spec_elapsed(now, pre.last_update_of(k)) <= pre.timeout())
            ==> !(#[trigger] post.has_conversation(k))
}

/// The short-term memory: per-conversation buffers, the size limit and
/// idle timeout they share, and the sequence counter message ids draw on.
pub struct Memory {
    histories: Vec<(String, ConversationHistory)>,
    history_limit: usize,
    history_timeout: u64,
    next_seq: u64,
}

impl Memory {
    /// Internal shape: no conversation key occurs twice.
    pub closed spec fn well_formed(&self) -> bool {
        distinct_keys(self.histories@)
    }

    /// The configured size limit of each buffer.
    pub closed spec fn limit(&self) -> usize {
        self.history_limit
    }

    /// The configured idle timeout in seconds.
    pub closed spec fn timeout(&self) -> u64 {
        self.history_timeout
    }

    /// The sequence counter the next message id draws on.
    pub closed spec fn seq_counter(&self) -> u64 {
        self.next_seq
    }

    /// How many conversations hold an entry.
    pub closed spec fn conversation_count(&self) -> nat {
        entry_map(self.histories@).dom().len()
    }

    /// Whether a conversation has an entry at all.
    pub closed spec fn has_conversation(&self, key: Seq<char>) -> bool {
        entry_map(self.histories@).contains_key(key)
    }

    /// The stored messages of a conversation; none when it has no entry.
    pub closed spec fn messages_of(&self, key: Seq<char>) -> Seq<ChatMessage> {
        if entry_map(self.histories@).contains_key(key) {
            entry_map(self.histories@)[key].messages@
        } else {
            Seq::empty()
        }
    }

    /// The second a conversation last changed; zero when it has no entry.
    pub closed spec fn last_update_of(&self, key: Seq<char>) -> u64 {
        if entry_map(self.histories@).contains_key(key) {
            entry_map(self.histories@)[key].last_update
        } else {
            0
        }
    }

    /// A fresh store with the given per-conversation limit and idle
    /// timeout.
    pub fn new(history_limit: usize, history_timeout: u64) -> (r: Memory)
        ensures
            r.well_formed(),
            r.limit() == history_limit,
            r.timeout() == history_timeout,
            r.seq_counter() == 0,
            forall|k: Seq<char>| !(#[trigger] r.has_conversation(k)),
    {
        let r = Memory {
            histories: Vec::new(),
            history_limit,
            history_timeout,
            next_seq: 0,
        };
        proof {
            assert(forall|k: Seq<char>| !(#[trigger] r.has_conversation(k)));
        }
        r
    }

    /// The conversation key of a user in a group or in private chat.
    pub fn generate_key(user_id: i64, group_id: Option<i64>) -> (r: String)
        ensures
            r@ == spec_conversation_key(user_id, group_id),
    {
        match group_id {
            Some(gid) => {
                let mut s = i64_to_string(gid);
                s.append(":");
                let uid = i64_to_string(user_id);
                s.append(uid.as_str());
                proof {
                    reveal_strlit(":");
                }
                s
            },
            None => i64_to_string(user_id),
        }
    }

    /// Takes a conversation's entry out, if it has one.
    #[verifier::loop_isolation(false)]
    fn take_entry(&mut self, key: &str) -> (r: Option<ConversationHistory>)
        requires
            old(self).well_formed(),
        ensures
            final(self).well_formed(),
            final(self).history_limit == old(self).history_limit,
            final(self).history_timeout == old(self).history_timeout,
            final(self).next_seq == old(self).next_seq,
            match r {
                Some(h) => old(self).has_conversation(key@) && h == entry_map(
                    old(self).histories@,
                )[key@] && entry_map(final(self).histories@) == entry_map(
                    old(self).histories@,
                ).remove(key@) && final(self).histories@.len() == old(self).histories@.len()
                    - 1,
                None => !old(self).has_conversation(key@) && final(self).histories@ == old(self).histories@,
            },
    {
        proof {
            lemma_entry_map_contains(self.histories@, key@);
        }
        let mut i: usize = 0;
        while i < self.histories.len()
            invariant
                self.histories@ == old(self).histories@,
                self.history_limit == old(self).history_limit,
                self.history_timeout == old(self).history_timeout,
                self.next_seq == old(self).next_seq,
                i <= self.histories@.len(),
                forall|j: int| 0 <= j < i ==> (#[trigger] self.histories@[j]).0@ != key@,
            decreases self.histories@.len() - i,
        {
            if str_eq(self.histories[i].0.as_str(), key) {
                let ghost before = self.histories@;
                proof {
                    lemma_entry_map_value(before, i as int);
                    lemma_entry_map_remove(before, i as int);
                }
                let entry = self.histories.remove(i);
                proof {
                    assert(forall|x: int|
                        0 <= x < before.remove(i as int).len() ==> #[trigger] before.remove(
                            i as int,
                        )[x] == (if x < i { before[x] } else { before[x + 1] }));
                }
                return Some(entry.1);
            }
            i += 1;
        }
        None
    }

    /// Puts a conversation's entry back under a key that has none.
    fn put_entry(&mut self, key: String, h: ConversationHistory)
        requires
            old(self).well_formed(),
            !old(self).has_conversation(key@),
        ensures
            final(self).well_formed(),
            final(self).history_limit == old(self).history_limit,
            final(self).history_timeout == old(self).history_timeout,
            final(self).next_seq == old(self).next_seq,
            entry_map(final(self).histories@) == entry_map(old(self).histories@).insert(
                key@,
                h,
            ),
    {
        proof {
            lemma_entry_map_contains(self.histories@, key@);
        }
        let ghost before = self.histories@;
        self.histories.push((key, h));
        proof {
            assert(self.histories@.drop_last() =~= before);
            assert(forall|i: int| 0 <= i < before.len() ==> (#[trigger] before[i]).0@ != self.histories@.last().0@);
        }
    }

    /// Writes the message identifier for the next stored message and
    /// advances the sequence counter.
    fn next_message_id(&mut self, key: &str, ts: u64, role: &str) -> (id: String)
        requires
            old(self).next_seq < u64::MAX,
        ensures
            id@ == spec_message_id(key@, ts, role@, old(self).next_seq),
            final(self).next_seq == old(self).next_seq + 1,
            final(self).histories == old(self).histories,
            final(self).history_limit == old(self).history_limit,
            final(self).history_timeout == old(self).history_timeout,
    {
        let seq_no = self.next_seq;
        self.next_seq = self.next_seq + 1;
        let mut id = "msg_".to_owned();
        id.append(key);
        id.append("_");
        let ts_digits = u64_to_string(ts);
        id.append(ts_digits.as_str());
        id.append("_");
        id.append(role);
        id.append("_");
        let seq_digits = u64_to_string(seq_no);
        id.append(seq_digits.as_str());
        proof {
            assert(id@ =~= spec_message_id(key@, ts, role@, seq_no));
        }
        id
    }

    /// Keeps only the newest `limit` messages.
    fn cap_messages(msgs: &mut Vec<ChatMessage>, limit: usize)
        ensures
            final(msgs)@ == spec_capped(old(msgs)@, limit as int),
    {
        if msgs.len() > limit {
            let excess = msgs.len() - limit;
            let tail = msgs.split_off(excess);
            *msgs = tail;
        }
    }

    /// Exact core of [`Memory::add_user_message`], at a given second: the
    /// conversation gets an entry if it has none, a buffer idle past the
    /// timeout is cleared first, the user message is appended, and the
    /// buffer is kept to its limit.
    pub fn add_user_message_at(&mut self, key: &str, content: String, now: u64) -> (id: String)
        requires
            old(self).well_formed(),
            old(self).seq_counter() < u64::MAX,
        ensures
            spec_added_user(*old(self), *final(self), key@, content@, id@, now),
    {
        let id = self.next_message_id(key, now, "user");
        let mut history = match self.take_entry(key) {
            Some(h) => h,
            None => ConversationHistory { messages: Vec::new(), last_update: now },
        };
        let elapsed = if now >= history.last_update {
            now - history.last_update
        } else {
            0
        };
        if elapsed > self.history_timeout {
            history.messages.clear();
        }
        let message = ChatMessage {
            message_id: id.clone(),
            role: "user".to_owned(),
            content,
            timestamp: now,
        };
        let ghost gm = message;
        let ghost base = history.messages@;
        history.messages.push(message);
        Self::cap_messages(&mut history.messages, self.history_limit);
        history.last_update = now;
        let ghost ghist = history;
        self.put_entry(key.to_owned(), history);
        proof {
            let specbase = spec_user_base(*old(self), key@, now);
            assert(base =~= specbase);
            assert(self.messages_of(key@) == ghist.messages@);
            assert(self.messages_of(key@) == spec_capped(
                specbase.push(gm),
                old(self).limit() as int,
            ));
            assert(gm.message_id@ == id@ && gm.role@ == "user"@ && gm.timestamp == now);
        }
        id
    }

    /// Exact core of [`Memory::add_assistant_message`], at a given second:
    /// the reply is appended only when the conversation already has an
    /// entry; the identifier is written either way.
    pub fn add_assistant_message_at(&mut self, key: &str, content: String, now: u64) -> (id:
        String)
        requires
            old(self).well_formed(),
            old(self).seq_counter() < u64::MAX,
        ensures
            spec_added_assistant(*old(self), *final(self), key@, content@, id@, now),
    {
        let id = self.next_message_id(key, now, "assistant");
        let mut history = match self.take_entry(key) {
            Some(h) => h,
            None => {
                return id;
            },
        };
        let message = ChatMessage {
            message_id: id.clone(),
            role: "assistant".to_owned(),
            content,
            timestamp: now,
        };
        let ghost gm = message;
        let ghost base = history.messages@;
        history.messages.push(message);
        Self::cap_messages(&mut history.messages, self.history_limit);
        history.last_update = now;
        let ghost ghist = history;
        self.put_entry(key.to_owned(), history);
        proof {
            let specbase = old(self).messages_of(key@);
            assert(base =~= specbase);
            assert(self.messages_of(key@) == ghist.messages@);
            assert(self.messages_of(key@) == spec_capped(
                specbase.push(gm),
                old(self).limit() as int,
            ));
            assert(gm.message_id@ == id@ && gm.role@ == "assistant"@ && gm.timestamp == now);
        }
        id
    }

    /// Exact core of [`Memory::get_history`], at a given second: the
    /// system prompt first, then the conversation's messages as role and
    /// content pairs — unless the buffer has sat idle past the timeout, in
    /// which case it is cleared and the system prompt stands alone.
    pub fn get_history_at(&mut self, key: &str, system_prompt: &str, now: u64) -> (r: Vec<
        (String, String),
    >)
        requires
            old(self).well_formed(),
        ensures
            spec_read_history(*old(self), *final(self), key@, system_prompt@, r@, now),
    {
        let mut out: Vec<(String, String)> = Vec::new();
        out.push(("system".to_owned(), system_prompt.to_owned()));
        let mut history = match self.take_entry(key) {
            Some(h) => h,
            None => {
                return out;
            },
        };
        let elapsed = if now >= history.last_update {
            now - history.last_update
        } else {
            0
        };
        if elapsed > self.history_timeout {
            history.messages.clear();
            self.put_entry(key.to_owned(), history);
            return out;
        }
        let ghost msgs = history.messages@;
        let mut i: usize = 0;
        while i < history.messages.len()
            invariant
                msgs == history.messages@,
                i <= msgs.len(),
                out@.len() == 1 + i,
                out@[0].0@ == "system"@ && out@[0].1@ == system_prompt@,
                forall|j: int|
                    0 <= j < i ==> (#[trigger] out@[j + 1]).0@ == msgs[j].role@ && out@[j
                        + 1].1@ == msgs[j].content@,
            decreases msgs.len() - i,
        {
            let role = history.messages[i].role.clone();
            let content = history.messages[i].content.clone();
            out.push((role, content));
            i += 1;
        }
        self.put_entry(key.to_owned(), history);
        out
    }

    /// The stored message identifiers of a conversation, for retrieval
    /// deduplication.
    pub fn get_message_ids(&self, key: &str) -> (r: Vec<String>)
        requires
            self.well_formed(),
        ensures
            r@.len() == self.messages_of(key@).len(),
            forall|i: int|
                0 <= i < r@.len() ==> (#[trigger] r@[i])@ == self.messages_of(key@)[i].message_id@,
    {
        let mut out: Vec<String> = Vec::new();
        let entry = self.find_entry(key);
        match entry {
            Some(h) => {
                let ghost msgs = h.messages@;
                let mut i: usize = 0;
                while i < h.messages.len()
                    invariant
                        msgs == h.messages@,
                        i <= msgs.len(),
                        out@.len() == i,
                        forall|j: int|
                            0 <= j < i ==> (#[trigger] out@[j])@ == msgs[j].message_id@,
                    decreases msgs.len() - i,
                {
                    out.push(h.messages[i].message_id.clone());
                    i += 1;
                }
                out
            },
            None => out,
        }
    }

    /// Borrows a conversation's entry, if it has one.
    #[verifier::loop_isolation(false)]
    fn find_entry(&self, key: &str) -> (r: Option<&ConversationHistory>)
        requires
            self.well_formed(),
        ensures
            match r {
                Some(h) => self.has_conversation(key@) && *h == entry_map(self.histories@)[key@],
                None => !self.has_conversation(key@),
            },
    {
        proof {
            lemma_entry_map_contains(self.histories@, key@);
        }
        let mut i: usize = 0;
        while i < self.histories.len()
            invariant
                i <= self.histories@.len(),
                forall|j: int| 0 <= j < i ==> (#[trigger] self.histories@[j]).0@ != key@,
            decreases self.histories@.len() - i,
        {
            if str_eq(self.histories[i].0.as_str(), key) {
                proof {
                    lemma_entry_map_value(self.histories@, i as int);
                }
                return Some(&self.histories[i].1);
            }
            i += 1;
        }
        None
    }

    /// Exact core of [`Memory::initialize_from_database`], at a given
    /// second: a conversation that already holds messages is left alone;
    /// otherwise the loaded rows become the buffer, oldest dropped beyond
    /// the limit, and the count kept is returned.
    pub fn initialize_from_database_at(
        &mut self,
        key: &str,
        messages: Vec<(String, String, String, u64)>,
        now: u64,
    ) -> (count: usize)
        requires
            old(self).well_formed(),
        ensures
            final(self).well_formed(),
            final(self).limit() == old(self).limit(),
            final(self).timeout() == old(self).timeout(),
            final(self).seq_counter() == old(self).seq_counter(),
            old(self).messages_of(key@).len() > 0 ==> count == 0 && final(self).messages_of(
                key@,
            ) == old(self).messages_of(key@) && final(self).last_update_of(key@) == old(self).last_update_of(key@) && final(self).has_conversation(key@),
            old(self).messages_of(key@).len() == 0 ==> {
                let n = messages@.len();
                let off = if n > old(self).limit() {
                    n - old(self).limit()
                } else {
                    0
                };
                &&& count == n - off
                &&& final(self).last_update_of(key@) == now
                &&& final(self).messages_of(key@).len() == n - off
                &&& forall|i: int|
                    0 <= i < n - off ==> {
                        let m = #[trigger] final(self).messages_of(key@)[i];
                        &&& m.message_id@ == messages@[i + off].0@
                        &&& m.role@ == messages@[i + off].1@
                        &&& m.content@ == messages@[i + off].2@
                        &&& m.timestamp == messages@[i + off].3
                    }
            },
            forall|k: Seq<char>|
                k != key@ ==> final(self).messages_of(k) == old(self).messages_of(k) && final(self).last_update_of(k) == old(self).last_update_of(k) && final(self).has_conversation(k) == old(self).has_conversation(k),
    {
        let existing = self.take_entry(key);
        match existing {
            Some(h) => {
                if h.messages.len() > 0 {
                    let ghost before = entry_map(old(self).histories@);
                    self.put_entry(key.to_owned(), h);
                    proof {
                        assert(entry_map(self.histories@) =~= before);
                    }
                    return 0;
                }
            },
            None => {},
        }
        let mut history = ConversationHistory { messages: Vec::new(), last_update: now };
        let ghost rows = messages@;
        let mut messages = messages;
        let mut i: usize = 0;
        let n = messages.len();
        while i < n
            invariant
                n == rows.len(),
                i <= n,
                messages@ == rows.skip(i as int),
                history.messages@.len() == i,
                forall|j: int|
                    0 <= j < i ==> {
                        let m = #[trigger] history.messages@[j];
                        &&& m.message_id@ == rows[j].0@
                        &&& m.role@ == rows[j].1@
                        &&& m.content@ == rows[j].2@
                        &&& m.timestamp == rows[j].3
                    },
            decreases n - i,
        {
            proof {
                assert(rows.skip(i as int)[0] == rows[i as int]);
            }
            let (message_id, role, content, timestamp) = messages.remove(0);
            proof {
                assert(messages@ =~= rows.skip(i + 1));
            }
            history.messages.push(ChatMessage { message_id, role, content, timestamp });
            i += 1;
        }
        let count = if n > self.history_limit {
            self.history_limit
        } else {
            n
        };
        Self::cap_messages(&mut history.messages, self.history_limit);
        history.last_update = now;
        self.put_entry(key.to_owned(), history);
        count
    }

    /// Whether a conversation already holds messages.
    pub fn is_initialized(&self, key: &str) -> (r: bool)
        requires
            self.well_formed(),
        ensures
            r == (self.messages_of(key@).len() > 0),
    {
        match self.find_entry(key) {
            Some(h) => h.messages.len() > 0,
            None => false,
        }
    }

    /// Forgets one conversation entirely.
    pub fn clear_history(&mut self, key: &str)
        requires
            old(self).well_formed(),
        ensures
            final(self).well_formed(),
            final(self).limit() == old(self).limit(),
            final(self).timeout() == old(self).timeout(),
            !final(self).has_conversation(key@),
            final(self).messages_of(key@) == Seq::<ChatMessage>::empty(),
            final(self).last_update_of(key@) == 0,
            forall|k: Seq<char>|
                k != key@ ==> final(self).messages_of(k) == old(self).messages_of(k) && final(self).last_update_of(k) == old(self).last_update_of(k) && final(self).has_conversation(k) == old(self).has_conversation(k),
    {
        let _ = self.take_entry(key);
    }

    /// Forgets every conversation.
    pub fn clear_all(&mut self)
        requires
            old(self).well_formed(),
        ensures
            final(self).well_formed(),
            final(self).limit() == old(self).limit(),
            final(self).timeout() == old(self).timeout(),
            forall|k: Seq<char>| !(#[trigger] final(self).has_conversation(k)),
            forall|k: Seq<char>|
                #[trigger] final(self).messages_of(k) == Seq::<ChatMessage>::empty() && final(self).last_update_of(k) == 0,
    {
        self.histories.clear();
    }

    /// How many messages one conversation holds.
    pub fn get_message_count(&self, key: &str) -> (n: usize)
        requires
            self.well_formed(),
        ensures
            n == self.messages_of(key@).len(),
    {
        match self.find_entry(key) {
            Some(h) => h.messages.len(),
            None => 0,
        }
    }

    /// How many conversations are held.
    pub fn get_conversation_count(&self) -> (n: usize)
        requires
            self.well_formed(),
        ensures
            n == self.conversation_count(),
    {
        proof {
            lemma_entry_map_len(self.histories@);
        }
        self.histories.len()
    }

    /// Stores a user message at the current second; exact behaviour per
    /// second in [`Memory::add_user_message_at`].
    pub fn add_user_message(&mut self, key: &str, content: String) -> (id: String)
        requires
            old(self).well_formed(),
            old(self).seq_counter() < u64::MAX,
        ensures
            exists|now: u64|
                #[trigger] spec_added_user(*old(self), *final(self), key@, content@, id@, now),
    {
        let now = now_unix_seconds();
        self.add_user_message_at(key, content, now)
    }

    /// Stores an assistant reply at the current second; exact behaviour
    /// per second in [`Memory::add_assistant_message_at`].
    pub fn add_assistant_message(&mut self, key: &str, content: String) -> (id: String)
        requires
            old(self).well_formed(),
            old(self).seq_counter() < u64::MAX,
        ensures
            exists|now: u64|
                #[trigger] spec_added_assistant(
                    *old(self),
                    *final(self),
                    key@,
                    content@,
                    id@,
                    now,
                ),
    {
        let now = now_unix_seconds();
        self.add_assistant_message_at(key, content, now)
    }

    /// Reads one conversation's history at the current second; exact
    /// behaviour per second in [`Memory::get_history_at`].
    pub fn get_history(&mut self, key: &str, system_prompt: &str) -> (r: Vec<(String, String)>)
        requires
            old(self).well_formed(),
        ensures
            exists|now: u64|
                #[trigger] spec_read_history(
                    *old(self),
                    *final(self),
                    key@,
                    system_prompt@,
                    r@,
                    now,
                ),
    {
        let now = now_unix_seconds();
        self.get_history_at(key, system_prompt, now)
    }

    /// Loads stored rows into an empty conversation at the current second;
    /// exact behaviour per second in
    /// [`Memory::initialize_from_database_at`].
    pub fn initialize_from_database(
        &mut self,
        key: &str,
        messages: Vec<(String, String, String, u64)>,
    ) -> (count: usize)
        requires
            old(self).well_formed(),
        ensures
            final(self).well_formed(),
            final(self).limit() == old(self).limit(),
            final(self).timeout() == old(self).timeout(),
            old(self).messages_of(key@).len() > 0 ==> count == 0 && final(self).messages_of(key@)
                == old(self).messages_of(key@),
            forall|k: Seq<char>|
                k != key@ ==> final(self).messages_of(k) == old(self).messages_of(k) && final(self).last_update_of(k) == old(self).last_update_of(k) && final(self).has_conversation(k) == old(self).has_conversation(k),
    {
        let now = now_unix_seconds();
        self.initialize_from_database_at(key, messages, now)
    }

    /// Index of some conversation idle past the timeout, if any.
    #[verifier::loop_isolation(false)]
    fn find_expired(&self, now: u64) -> (r: Option<usize>)
        ensures
            match r {
                Some(i) => i < self.histories@.len() && spec_elapsed(
                    now,
                    self.histories@[i as int].1.last_update,
                ) > self.history_timeout,
                None => forall|j: int|
                    0 <= j < self.histories@.len() ==> spec_elapsed(
                        now,
                        (#[trigger] self.histories@[j]).1.last_update,
                    ) <= self.history_timeout,
            },
    {
        let mut i: usize = 0;
        while i < self.histories.len()
            invariant
                i <= self.histories@.len(),
                forall|j: int|
                    0 <= j < i ==> spec_elapsed(
                        now,
                        (#[trigger] self.histories@[j]).1.last_update,
                    ) <= self.history_timeout,
            decreases self.histories@.len() - i,
        {
            let last = self.histories[i].1.last_update;
            let elapsed = if now >= last {
                now - last
            } else {
                0
            };
            if elapsed > self.history_timeout {
                return Some(i);
            }
            i += 1;
        }
        None
    }

    /// Exact core of [`Memory::cleanup_expired`], at a given second:
    /// removes every conversation whose buffer has sat idle past the
    /// timeout and keeps the rest untouched.
    #[verifier::loop_isolation(false)]
    pub fn cleanup_expired_at(&mut self, now: u64)
        requires
            old(self).well_formed(),
        ensures
            spec_cleaned(*old(self), *final(self), now),
    {
        loop
            invariant
                self.well_formed(),
                self.history_limit == old(self).history_limit,
                self.history_timeout == old(self).history_timeout,
                self.next_seq == old(self).next_seq,
                forall|k: Seq<char>|
                    old(self).has_conversation(k) && spec_elapsed(
                        now,
                        old(self).last_update_of(k),
                    ) <= old(self).timeout() ==> #[trigger] self.has_conversation(k)
                        && self.messages_of(k) == old(self).messages_of(k)
                        && self.last_update_of(k) == old(self).last_update_of(k),
                forall|k: Seq<char>|
                    #[trigger] self.has_conversation(k) ==> old(self).has_conversation(k)
                        && self.messages_of(k) == old(self).messages_of(k)
                        && self.last_update_of(k) == old(self).last_update_of(k),
            decreases self.histories@.len(),
        {
            let idx = match self.find_expired(now) {
                Some(idx) => idx,
                None => {
                    proof {
                        assert forall|k: Seq<char>|
                            !(old(self).has_conversation(k) && spec_elapsed(
                                now,
                                old(self).last_update_of(k),
                            ) <= old(self).timeout()) implies !(#[trigger] self.has_conversation(
                            k,
                        )) by {
                            if self.has_conversation(k) {
                                lemma_entry_map_contains(self.histories@, k);
                                let j = choose|j: int|
                                    0 <= j < self.histories@.len()
                                        && (#[trigger] self.histories@[j]).0@ == k;
                                lemma_entry_map_value(self.histories@, j);
                            }
                        }
                    }
                    return ;
                },
            };
            let key = self.histories[idx].0.clone();
            let ghost pre = *self;
            proof {
                lemma_entry_map_value(self.histories@, idx as int);
                assert(pre.has_conversation(key@));
                assert(spec_elapsed(now, pre.last_update_of(key@)) > pre.timeout());
                assert(spec_elapsed(now, old(self).last_update_of(key@)) > old(self).timeout());
            }
            let taken = self.take_entry(key.as_str());
            proof {
                assert(taken is Some);
                assert forall|k: Seq<char>| #[trigger] self.has_conversation(k)
                    implies old(self).has_conversation(k) && self.messages_of(k) == old(self).messages_of(k) && self.last_update_of(k) == old(self).last_update_of(k) by {
                    assert(k != key@);
                    assert(pre.has_conversation(k));
                }
                assert forall|k: Seq<char>|
                    old(self).has_conversation(k) && spec_elapsed(
                        now,
                        old(self).last_update_of(k),
                    ) <= old(self).timeout() implies #[trigger] self.has_conversation(k)
                    && self.messages_of(k) == old(self).messages_of(k) && self.last_update_of(
                    k,
                ) == old(self).last_update_of(k) by {
                    assert(k != key@);
                    assert(pre.has_conversation(k));
                    assert(self.has_conversation(k));
                }
            }
        }
    }

    /// Removes every conversation idle past the timeout, at the current
    /// second; exact behaviour per second in
    /// [`Memory::cleanup_expired_at`].
    pub fn cleanup_expired(&mut self)
        requires
            old(self).well_formed(),
        ensures
            exists|now: u64| #[trigger] spec_cleaned(*old(self), *final(self), now),
    {
        let now = now_unix_seconds();
        self.cleanup_expired_at(now);
    }
}

} // verus!
