//! The queue of running room key downloads, keyed by room and megolm session
//! and kept in key order, as an ordered map would keep it.

use vstd::prelude::*;
use vstd::utf8::*;

verus! {

broadcast use vstd::utf8::encode_utf8_decode_utf8;

/// A room and a megolm session of that room.
pub type RoomKeyInfo = (String, String);

/// Strict lexicographic order of two byte strings, looked at from index `i`
/// on.
pub open spec fn bytes_lt_from(a: Seq<u8>, b: Seq<u8>, i: int) -> bool
    decreases a.len() - i,
{
    if i >= a.len() {
        i < b.len()
    } else if i >= b.len() {
        false
    } else if a[i] < b[i] {
        true
    } else if a[i] > b[i] {
        false
    } else {
        bytes_lt_from(a, b, i + 1)
    }
}

/// Strict lexicographic order of two byte strings: the order of `str`.
pub open spec fn bytes_lt(a: Seq<u8>, b: Seq<u8>) -> bool {
    bytes_lt_from(a, b, 0)
}

/// The UTF-8 bytes of a string.
pub open spec fn text_bytes(s: String) -> Seq<u8> {
    encode_utf8(s@)
}

/// Two keys name the same room and session.
pub open spec fn same_key(a: RoomKeyInfo, b: RoomKeyInfo) -> bool {
    a.0@ == b.0@ && a.1@ == b.1@
}

/// The order of keys: by room, then by session, each compared as `str` is.
pub open spec fn room_key_lt(a: RoomKeyInfo, b: RoomKeyInfo) -> bool {
    ||| bytes_lt(text_bytes(a.0), text_bytes(b.0))
    ||| (text_bytes(a.0) == text_bytes(b.0) && bytes_lt(text_bytes(a.1), text_bytes(b.1)))
}

proof fn lemma_bytes_lt_irreflexive(a: Seq<u8>, i: int)
    requires
        0 <= i,
    ensures
        !bytes_lt_from(a, a, i),
    decreases a.len() - i,
{
    if i < a.len() {
        lemma_bytes_lt_irreflexive(a, i + 1);
    }
}

proof fn lemma_bytes_lt_transitive(a: Seq<u8>, b: Seq<u8>, c: Seq<u8>, i: int)
    requires
        0 <= i,
        bytes_lt_from(a, b, i),
        bytes_lt_from(b, c, i),
    ensures
        bytes_lt_from(a, c, i),
    decreases a.len() - i,
{
    if i < a.len() && i < b.len() && i < c.len() && a[i] == b[i] && b[i] == c[i] {
        lemma_bytes_lt_transitive(a, b, c, i + 1);
    }
}

proof fn lemma_bytes_lt_total(a: Seq<u8>, b: Seq<u8>, i: int)
    requires
        0 <= i <= a.len(),
        i <= b.len(),
        !bytes_lt_from(a, b, i),
        !bytes_lt_from(b, a, i),
    ensures
        a.len() == b.len(),
        forall|j: int| i <= j < a.len() ==> a[j] == b[j],
    decreases a.len() - i,
{
    if i < a.len() && i < b.len() {
        lemma_bytes_lt_total(a, b, i + 1);
    }
}

proof fn lemma_bytes_equal_or_ordered(a: Seq<u8>, b: Seq<u8>)
    ensures
        a == b || bytes_lt(a, b) || bytes_lt(b, a),
{
    if !bytes_lt(a, b) && !bytes_lt(b, a) {
        lemma_bytes_lt_total(a, b, 0);
        assert(a =~= b);
    }
}

proof fn lemma_bytes_lt_skips_common_prefix(a: Seq<u8>, b: Seq<u8>, i: int, k: int)
    requires
        0 <= i <= k,
        k <= a.len(),
        k <= b.len(),
        forall|j: int| i <= j < k ==> a[j] == b[j],
    ensures
        bytes_lt_from(a, b, i) == bytes_lt_from(a, b, k),
    decreases k - i,
{
    if i < k {
        lemma_bytes_lt_skips_common_prefix(a, b, i + 1, k);
    }
}

/// `str` order: after a common prefix, the first differing byte decides.
pub proof fn lemma_bytes_lt_first_difference(a: Seq<u8>, b: Seq<u8>, k: int)
    requires
        0 <= k < a.len(),
        k < b.len(),
        forall|j: int| 0 <= j < k ==> a[j] == b[j],
        a[k] != b[k],
    ensures
        bytes_lt(a, b) <==> a[k] < b[k],
{
    lemma_bytes_lt_skips_common_prefix(a, b, 0, k);
}

/// `str` order: a proper prefix comes first, and a string never comes before
/// one of its prefixes.
pub proof fn lemma_bytes_lt_prefix(a: Seq<u8>, b: Seq<u8>)
    requires
        a.len() <= b.len(),
        forall|j: int| 0 <= j < a.len() ==> a[j] == b[j],
    ensures
        bytes_lt(a, b) <==> a.len() < b.len(),
        !bytes_lt(b, a),
{
    lemma_bytes_lt_skips_common_prefix(a, b, 0, a.len() as int);
    lemma_bytes_lt_skips_common_prefix(b, a, 0, a.len() as int);
}

/// Keys of different rooms are ordered by their rooms; keys of the same
/// room by their sessions.
pub proof fn lemma_room_key_order_room_then_session(a: RoomKeyInfo, b: RoomKeyInfo)
    ensures
        text_bytes(a.0) != text_bytes(b.0) ==> (room_key_lt(a, b) <==> bytes_lt(text_bytes(a.0), text_bytes(b.0))),
        text_bytes(a.0) == text_bytes(b.0) ==> (room_key_lt(a, b) <==> bytes_lt(text_bytes(a.1), text_bytes(b.1))),
{
    lemma_bytes_lt_irreflexive(text_bytes(a.0), 0);
}

/// The order of keys is irreflexive.
pub proof fn lemma_room_key_lt_irreflexive(a: RoomKeyInfo, b: RoomKeyInfo)
    requires
        same_key(a, b),
    ensures
        !room_key_lt(a, b),
{
    lemma_bytes_lt_irreflexive(text_bytes(a.0), 0);
    lemma_bytes_lt_irreflexive(text_bytes(a.1), 0);
}

/// The order of keys is transitive.
pub proof fn lemma_room_key_lt_transitive(a: RoomKeyInfo, b: RoomKeyInfo, c: RoomKeyInfo)
    requires
        room_key_lt(a, b),
        room_key_lt(b, c),
    ensures
        room_key_lt(a, c),
{
    let (a0, b0, c0) = (text_bytes(a.0), text_bytes(b.0), text_bytes(c.0));
    let (a1, b1, c1) = (text_bytes(a.1), text_bytes(b.1), text_bytes(c.1));
    if bytes_lt(a0, b0) && bytes_lt(b0, c0) {
        lemma_bytes_lt_transitive(a0, b0, c0, 0);
    } else if bytes_lt(a1, b1) && bytes_lt(b1, c1) {
        lemma_bytes_lt_transitive(a1, b1, c1, 0);
    }
}

/// Two keys that name different rooms or sessions are ordered one way or
/// the other.
pub proof fn lemma_room_key_lt_total(a: RoomKeyInfo, b: RoomKeyInfo)
    requires
        !same_key(a, b),
    ensures
        room_key_lt(a, b) || room_key_lt(b, a),
{
    lemma_bytes_equal_or_ordered(text_bytes(a.0), text_bytes(b.0));
    lemma_bytes_equal_or_ordered(text_bytes(a.1), text_bytes(b.1));
    assert(decode_utf8(encode_utf8(a.0@)) == a.0@);
    assert(decode_utf8(encode_utf8(b.0@)) == b.0@);
    assert(decode_utf8(encode_utf8(a.1@)) == a.1@);
    assert(decode_utf8(encode_utf8(b.1@)) == b.1@);
}

/// Compares two byte strings as `str` does.
fn bytes_less(a: &[u8], b: &[u8]) -> (r: bool)
    ensures
        r == bytes_lt(a@, b@),
{
    let mut i: usize = 0;
    while i < a.len() && i < b.len() && a[i] == b[i]
        invariant
            i <= a.len(),
            i <= b.len(),
            bytes_lt(a@, b@) == bytes_lt_from(a@, b@, i as int),
        decreases a.len() - i,
    {
        i = i + 1;
    }
    if i < a.len() && i < b.len() {
        a[i] < b[i]
    } else {
        i < b.len()
    }
}

/// Compares two keys: by room, then by session.
pub fn room_key_less(a: &RoomKeyInfo, b: &RoomKeyInfo) -> (r: bool)
    ensures
        r == room_key_lt(*a, *b),
{
    let a0 = a.0.as_str().as_bytes();
    let b0 = b.0.as_str().as_bytes();
    if bytes_less(a0, b0) {
        true
    } else if a.0 == b.0 {
        let a1 = a.1.as_str().as_bytes();
        let b1 = b.1.as_str().as_bytes();
        bytes_less(a1, b1)
    } else {
        proof {
            assert(decode_utf8(encode_utf8(a.0@)) == a.0@);
            assert(decode_utf8(encode_utf8(b.0@)) == b.0@);
        }
        false
    }
}

/// Whether two keys name the same room and session.
pub fn room_key_eq(a: &RoomKeyInfo, b: &RoomKeyInfo) -> (r: bool)
    ensures
        r == same_key(*a, *b),
{
    a.0 == b.0 && a.1 == b.1
}

/// Entries whose keys are in strictly increasing order.
pub open spec fn keys_increasing<H>(entries: Seq<(RoomKeyInfo, H)>) -> bool {
    forall|i: int, j: int|
        0 <= i < j < entries.len() ==> #[trigger] room_key_lt(entries[i].0, entries[j].0)
}

/// Whether an entry has a key that names the same room and session as `k`.
pub open spec fn has_key<H>(entries: Seq<(RoomKeyInfo, H)>, k: RoomKeyInfo) -> bool {
    exists|i: int| 0 <= i < entries.len() && #[trigger] same_key(entries[i].0, k)
}

/// Running tasks, one per key, in key order.
pub struct TaskQueue<H> {
    entries: Vec<(RoomKeyInfo, H)>,
}

impl<H> View for TaskQueue<H> {
    type V = Seq<(RoomKeyInfo, H)>;

    closed spec fn view(&self) -> Seq<(RoomKeyInfo, H)> {
        self.entries@
    }
}

impl<H> TaskQueue<H> {
    /// The entries are in strictly increasing key order, so that no key
    /// occurs twice.
    pub open spec fn wf(&self) -> bool {
        keys_increasing(self@)
    }

    /// An empty queue.
    pub fn new() -> (q: TaskQueue<H>)
        ensures
            q@ == Seq::<(RoomKeyInfo, H)>::empty(),
            q.wf(),
    {
        TaskQueue { entries: Vec::new() }
    }

    /// The number of tasks.
    pub fn len(&self) -> (n: usize)
        ensures
            n == self@.len(),
    {
        self.entries.len()
    }

    /// Whether a task runs for `k`.
    pub fn contains_key(&self, k: &RoomKeyInfo) -> (r: bool)
        ensures
            r == has_key(self@, *k),
    {
        let mut i: usize = 0;
        while i < self.entries.len()
            invariant
                i <= self.entries@.len(),
                forall|j: int| 0 <= j < i ==> !#[trigger] same_key(self.entries@[j].0, *k),
            decreases self.entries.len() - i,
        {
            if room_key_eq(&self.entries[i].0, k) {
                return true;
            }
            i = i + 1;
        }
        false
    }

    /// Records the task `h` for `k`. When a task was recorded for the same
    /// room and session, its handle is replaced and handed back, and the key
    /// recorded first is kept; otherwise the entry is put at its place in
    /// key order.
    pub fn insert(&mut self, k: RoomKeyInfo, h: H) -> (prev: Option<H>)
        requires
            old(self).wf(),
        ensures
            final(self).wf(),
            match prev {
                Some(p) => exists|i: int|
                    0 <= i < old(self)@.len()
                    && same_key(#[trigger] old(self)@[i].0, k)
                    && p == old(self)@[i].1
                    && final(self)@ == old(self)@.update(i, (old(self)@[i].0, h)),
                None => !has_key(old(self)@, k)
                    && exists|i: int|
                    0 <= i <= old(self)@.len()
                    && final(self)@ == #[trigger] old(self)@.insert(i, (k, h)),
            },
    {
        let ghost s = self.entries@;
        let mut i: usize = 0;
        while i < self.entries.len() && room_key_less(&self.entries[i].0, &k)
            invariant
                self.entries@ == s,
                keys_increasing(s),
                i <= s.len(),
                forall|j: int| 0 <= j < i ==> #[trigger] room_key_lt(s[j].0, k),
            decreases self.entries.len() - i,
        {
            i = i + 1;
        }
        if i < self.entries.len() && room_key_eq(&self.entries[i].0, &k) {
            let (old_key, old_h) = self.entries.remove(i);
            self.entries.insert(i, (old_key, h));
            proof {
                assert(self.entries@ =~= s.update(i as int, (s[i as int].0, h)));
                assert forall|p: int, q: int| 0 <= p < q < self.entries@.len() implies
                    #[trigger] room_key_lt(self.entries@[p].0, self.entries@[q].0) by {
                    assert(room_key_lt(s[p].0, s[q].0));
                }
            }
            Some(old_h)
        } else {
            proof {
                if i < s.len() {
                    lemma_room_key_lt_total(k, s[i as int].0);
                }
                assert forall|j: int| 0 <= j < s.len() implies !#[trigger] same_key(s[j].0, k) by {
                    if j < i {
                        if same_key(s[j].0, k) {
                            lemma_room_key_lt_irreflexive(s[j].0, k);
                        }
                    } else {
                        if j > i {
                            assert(room_key_lt(s[i as int].0, s[j].0));
                            lemma_room_key_lt_transitive(k, s[i as int].0, s[j].0);
                        }
                        if same_key(s[j].0, k) {
                            lemma_room_key_lt_irreflexive(k, s[j].0);
                            assert(same_key(k, s[j].0));
                        }
                    }
                }
            }
            self.entries.insert(i, (k, h));
            proof {
                let t = self.entries@;
                assert(t =~= s.insert(i as int, (k, h)));
                assert forall|p: int, q: int| 0 <= p < q < t.len() implies
                    #[trigger] room_key_lt(t[p].0, t[q].0) by {
                    if q < i {
                        assert(room_key_lt(s[p].0, s[q].0));
                    } else if q == i {
                        assert(room_key_lt(s[p].0, k));
                    } else if p > i {
                        assert(room_key_lt(s[p - 1].0, s[q - 1].0));
                    } else if p == i {
                        if q - 1 > i {
                            assert(room_key_lt(s[i as int].0, s[q - 1].0));
                            lemma_room_key_lt_transitive(k, s[i as int].0, s[q - 1].0);
                        }
                    } else {
                        assert(room_key_lt(s[p].0, k));
                        if q - 1 > i {
                            assert(room_key_lt(s[i as int].0, s[q - 1].0));
                            lemma_room_key_lt_transitive(k, s[i as int].0, s[q - 1].0);
                        }
                        lemma_room_key_lt_transitive(s[p].0, k, s[q - 1].0);
                    }
                }
            }
            None
        }
    }

    /// Takes out the entry with the smallest key.
    pub fn pop_first(&mut self) -> (first: Option<(RoomKeyInfo, H)>)
        requires
            old(self).wf(),
        ensures
            final(self).wf(),
            old(self)@.len() == 0 ==> first is None && final(self)@ == old(self)@,
            old(self)@.len() > 0 ==> first == Some(old(self)@[0]) && final(self)@ == old(self)@.drop_first(),
    {
        if self.entries.len() == 0 {
            None
        } else {
            let ghost s = self.entries@;
            let e = self.entries.remove(0);
            proof {
                assert(self.entries@ =~= s.drop_first());
                assert forall|p: int, q: int| 0 <= p < q < self.entries@.len() implies
                    #[trigger] room_key_lt(self.entries@[p].0, self.entries@[q].0) by {
                    assert(room_key_lt(s[p + 1].0, s[q + 1].0));
                }
            }
            Some(e)
        }
    }
}

} // verus!
