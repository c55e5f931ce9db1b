//! The credential pool and the rules by which responses rotate and evict
//! its credentials.

use crate::headers::{
    ascii_text, authorization, authorization_text, first_of, first_value, header_entries,
    header_value_bytes, is_value, is_visible, is_visible_byte, try_insert, value_from_str,
    value_to_str,
};
use crate::outcome::{Outcome, TOO_MANY_REQUESTS, UNAUTHORIZED};
use http::header::{HeaderMap, HeaderValue};
use vstd::arithmetic::div_mod::{
    lemma_add_mod_noop, lemma_mod_add_multiples_vanish, lemma_mod_twice, lemma_small_mod,
};
use vstd::prelude::*;
use vstd::string::{StrSliceExecFns, StringExecFns};
use vstd::utf8::{encode_utf8, is_ascii_chars};

verus! {

/// Mathematical model of a credential pool: the credentials in priority
/// order and the position of the active one.
pub struct PoolView {
    pub keys: Seq<Seq<char>>,
    pub cursor: nat,
}

impl PoolView {
    /// The cursor points at a credential, or the pool is empty and the
    /// cursor rests at zero.
    pub open spec fn wf(self) -> bool {
        if self.keys.len() == 0 {
            self.cursor == 0
        } else {
            self.cursor < self.keys.len()
        }
    }

    /// The credential under the cursor, if there is one.
    pub open spec fn active(self) -> Option<Seq<char>> {
        if self.cursor < self.keys.len() {
            Some(self.keys[self.cursor as int])
        } else {
            None
        }
    }

    /// The pool after the active credential is discarded. The cursor keeps
    /// its position, so the next credential in order becomes active; when the
    /// last position was discarded the cursor returns to the front.
    pub open spec fn remove_active(self) -> PoolView {
        if self.cursor < self.keys.len() {
            let keys = self.keys.remove(self.cursor as int);
            PoolView { keys, cursor: if self.cursor >= keys.len() { 0 } else { self.cursor } }
        } else {
            self
        }
    }

    /// The pool after the cursor moved one position on, wrapping at the end.
    /// A pool of fewer than two credentials has nowhere to move to.
    pub open spec fn shift(self) -> PoolView {
        if self.keys.len() > 1 {
            PoolView {
                keys: self.keys,
                cursor: ((self.cursor + 1) as int % (self.keys.len() as int)) as nat,
            }
        } else {
            self
        }
    }

    /// `remove_active`, gated on the caller's belief about the active
    /// credential.
    pub open spec fn remove_if(self, key: Option<Seq<char>>) -> PoolView {
        if self.active() == key {
            self.remove_active()
        } else {
            self
        }
    }

    /// `shift`, gated on the caller's belief about the active credential.
    pub open spec fn shift_if(self, key: Option<Seq<char>>) -> PoolView {
        if self.active() == key {
            self.shift()
        } else {
            self
        }
    }

    /// The pool after `n` rotations, each presenting the credential that is
    /// active at that moment.
    pub open spec fn rotate(self, n: nat) -> PoolView
        decreases n,
    {
        if n == 0 {
            self
        } else {
            self.shift_if(self.active()).rotate((n - 1) as nat)
        }
    }
}

/// Every pool operation keeps a well-formed pool well formed: the cursor
/// never leaves the credentials.
pub proof fn lemma_operations_keep_wf(pool: PoolView, key: Option<Seq<char>>)
    requires
        pool.wf(),
    ensures
        pool.remove_active().wf(),
        pool.shift().wf(),
        pool.remove_if(key).wf(),
        pool.shift_if(key).wf(),
{
}

/// After `n` rotations of a pool of at least two credentials the cursor has
/// advanced by `n` positions, modulo the number of credentials.
proof fn lemma_rotate_advances(pool: PoolView, n: nat)
    requires
        pool.wf(),
        pool.keys.len() >= 2,
    ensures
        pool.rotate(n) == (PoolView {
            keys: pool.keys,
            cursor: ((pool.cursor + n) as int % (pool.keys.len() as int)) as nat,
        }),
    decreases n,
{
    let len: int = pool.keys.len() as int;
    if n == 0 {
        lemma_small_mod(pool.cursor, len as nat);
    } else {
        let next = pool.shift_if(pool.active());
        assert(next == pool.shift());
        lemma_rotate_advances(next, (n - 1) as nat);
        lemma_add_mod_noop((pool.cursor + 1) as int, (n - 1) as int, len);
        lemma_mod_twice((pool.cursor + 1) as int, len);
        lemma_add_mod_noop(((pool.cursor + 1) as int) % len, (n - 1) as int, len);
    }
}

/// Cursor wraparound: as many rotations as the pool has credentials, each
/// presenting the credential active at that moment, bring the pool back to
/// the state it started from, cursor and active credential included.
pub proof fn lemma_rotation_wraps_around(pool: PoolView)
    requires
        pool.wf(),
    ensures
        pool.rotate(pool.keys.len()) == pool,
        pool.rotate(pool.keys.len()).active() == pool.active(),
{
    let len: nat = pool.keys.len();
    if len == 0 {
    } else if len == 1 {
        assert(pool.shift_if(pool.active()) == pool);
        assert(pool.rotate(1) == pool.shift_if(pool.active()).rotate(0));
    } else {
        lemma_rotate_advances(pool, len);
        lemma_mod_add_multiples_vanish(pool.cursor as int, len as int);
        lemma_small_mod(pool.cursor, len);
    }
}

/// Compare-and-act: a step that presents anything but the credential that
/// is active now, such as one that another request has already rotated away
/// from, leaves the pool exactly as it is, active credential included.
pub proof fn lemma_stale_key_changes_nothing(pool: PoolView, stale: Option<Seq<char>>)
    requires
        pool.active() != stale,
    ensures
        pool.remove_if(stale) == pool,
        pool.shift_if(stale) == pool,
        pool.remove_if(stale).active() == pool.active(),
{
}

/// Removing the only credential of a pool with its matching value leaves
/// the pool empty.
pub proof fn lemma_last_key_removed(pool: PoolView)
    requires
        pool.wf(),
        pool.keys.len() == 1,
    ensures
        pool.remove_if(pool.active()).keys.len() == 0,
        pool.remove_if(pool.active()).active() is None,
        pool.remove_if(pool.active()).wf(),
{
}

/// An empty pool yields no credential, and no compare-and-act step brings
/// one back.
pub proof fn lemma_empty_pool_stays_empty(pool: PoolView, key: Option<Seq<char>>)
    requires
        pool.keys.len() == 0,
    ensures
        pool.active() is None,
        pool.remove_if(key) == pool,
        pool.shift_if(key) == pool,
{
}

/// The texts of a list of credentials.
pub open spec fn key_texts(keys: Seq<String>) -> Seq<Seq<char>> {
    Seq::new(keys.len(), |i: int| keys[i]@)
}

/// The text of an optional credential.
pub open spec fn key_text(key: Option<String>) -> Option<Seq<char>> {
    match key {
        Some(k) => Some(k@),
        None => None,
    }
}

/// An ordered pool of credentials with a cursor on the active one.
///
/// The pool is plain data: whoever shares it between requests guards it with
/// a lock and calls the mutating operations under exclusive access, which is
/// what makes each compare-and-act step atomic.
///
/// A pool made by `new` is well formed (`PoolView::wf`) and every operation
/// keeps it so.
pub struct KeyPool {
    keys: Vec<String>,
    cursor: usize,
}

impl View for KeyPool {
    type V = PoolView;

    closed spec fn view(&self) -> PoolView {
        PoolView { keys: key_texts(self.keys@), cursor: self.cursor as nat }
    }
}

impl KeyPool {
    /// A pool holding `keys` in the given order, the first one active.
    pub fn new(keys: Vec<String>) -> (pool: KeyPool)
        ensures
            pool@ == (PoolView { keys: key_texts(keys@), cursor: 0 }),
            pool@.wf(),
    {
        KeyPool { keys, cursor: 0 }
    }

    /// A pool holding the credentials of a comma-separated list, the first
    /// one active.
    pub fn from_list(list: &str) -> (pool: KeyPool)
        ensures
            pool@ == (PoolView { keys: split_commas(list@), cursor: 0 }),
            pool@.wf(),
    {
        KeyPool::new(split_keys(list))
    }

    /// The active credential, or `None` when the pool is empty.
    pub fn active_key(&self) -> (key: Option<String>)
        ensures
            key_text(key) == self@.active(),
    {
        if self.cursor < self.keys.len() {
            Some(self.keys[self.cursor].clone())
        } else {
            None
        }
    }

    /// Discards the active credential for good and returns it; `None`, and
    /// no change, when the pool is empty.
    pub fn remove_active_key(&mut self) -> (removed: Option<String>)
        ensures
            final(self)@ == old(self)@.remove_active(),
            old(self)@.wf() ==> final(self)@.wf(),
            key_text(removed) == old(self)@.active(),
    {
        if self.cursor >= self.keys.len() {
            None
        } else {
            let key = self.keys.remove(self.cursor);
            if self.cursor >= self.keys.len() {
                self.cursor = 0;
            }
            assert(key_texts(self.keys@) =~= key_texts(old(self).keys@).remove(
                old(self).cursor as int,
            ));
            Some(key)
        }
    }

    /// Moves the cursor to the next credential, wrapping at the end. Does
    /// nothing to a pool of fewer than two credentials.
    pub fn shift_active_key(&mut self)
        ensures
            final(self)@ == old(self)@.shift(),
            old(self)@.wf() ==> final(self)@.wf(),
    {
        let len: usize = self.keys.len();
        if len > 1 {
            proof {
                lemma_add_mod_noop(self.cursor as int, 1, len as int);
                lemma_small_mod(1, len as nat);
            }
            self.cursor = (self.cursor % len + 1) % len;
        }
    }

    /// Whether `key` is the credential that is active right now.
    pub fn is_active(&self, key: &Option<String>) -> (same: bool)
        ensures
            same == (self@.active() == key_text(*key)),
    {
        if self.cursor < self.keys.len() {
            match key {
                Some(k) => self.keys[self.cursor] == *k,
                None => false,
            }
        } else {
            key.is_none()
        }
    }

    /// Rotates to the next credential if `key` is still the active one;
    /// a stale `key` changes nothing.
    pub fn shift_active_key_if_equal(&mut self, key: Option<String>)
        ensures
            final(self)@ == old(self)@.shift_if(key_text(key)),
            old(self)@.wf() ==> final(self)@.wf(),
    {
        if self.is_active(&key) {
            self.shift_active_key();
        }
    }

    /// Discards the active credential if `key` is still the active one;
    /// a stale `key` changes nothing.
    pub fn remove_active_key_if_equal(&mut self, key: Option<String>)
        ensures
            final(self)@ == old(self)@.remove_if(key_text(key)),
            old(self)@.wf() ==> final(self)@.wf(),
    {
        if self.is_active(&key) {
            let _ = self.remove_active_key();
        }
    }
}

/// The length of the longest prefix of `text` that holds no comma.
pub open spec fn comma_free_prefix(text: Seq<char>) -> nat
    decreases text.len(),
{
    if text.len() == 0 || text[0] == ',' {
        0
    } else {
        1 + comma_free_prefix(text.skip(1))
    }
}

/// The pieces of a comma-separated list: the text before the first comma,
/// then the pieces of what follows it. A text without a comma is one piece,
/// the empty text included.
pub open spec fn split_commas(text: Seq<char>) -> Seq<Seq<char>>
    decreases text.len(),
{
    let n: nat = comma_free_prefix(text);
    if n >= text.len() {
        seq![text]
    } else {
        seq![text.take(n as int)] + split_commas(text.skip(n as int + 1))
    }
}

/// A prefix without a comma that ends at a comma, or at the end of the text,
/// is the longest one.
proof fn lemma_comma_free_prefix(text: Seq<char>, k: int)
    requires
        0 <= k <= text.len(),
        forall|j: int| 0 <= j < k ==> text[j] != ',',
        k == text.len() || text[k] == ',',
    ensures
        comma_free_prefix(text) == k,
    decreases k,
{
    if k > 0 {
        lemma_comma_free_prefix(text.skip(1), k - 1);
    }
}

/// The characters of a text.
fn chars_of(text: &str) -> (chars: Vec<char>)
    ensures
        chars@ == text@,
{
    broadcast use vstd::string::group_string_axioms;

    let mut chars: Vec<char> = Vec::new();
    for c in it: text.chars()
        invariant
            it.seq() == text@,
            chars@ == it.seq().take(it.index() as int),
    {
        chars.push(c);
    }
    assert(chars@ =~= text@);
    chars
}

/// The credentials of a comma-separated list, in the order in which the
/// list names them.
pub fn split_keys(list: &str) -> (keys: Vec<String>)
    ensures
        key_texts(keys@) == split_commas(list@),
{
    let chars: Vec<char> = chars_of(list);
    let n: usize = chars.len();
    let mut keys: Vec<String> = Vec::new();
    let mut start: usize = 0;
    let mut i: usize = 0;
    assert(list@.skip(0) =~= list@);
    assert(key_texts(keys@) + split_commas(list@) =~= split_commas(list@));
    while i < n
        invariant
            start <= i <= n,
            n == list@.len(),
            chars@ == list@,
            forall|j: int| start <= j < i ==> list@[j] != ',',
            split_commas(list@) == key_texts(keys@) + split_commas(list@.skip(start as int)),
        decreases n - i,
    {
        if chars[i] == ',' {
            let piece: &str = list.substring_char(start, i);
            proof {
                let rest = list@.skip(start as int);
                lemma_comma_free_prefix(rest, i - start);
                assert(rest.take(i - start) =~= list@.subrange(start as int, i as int));
                assert(rest.skip(i - start + 1) =~= list@.skip(i + 1));
            }
            let ghost before = keys@;
            keys.push(piece.to_owned());
            assert(key_texts(keys@) =~= key_texts(before) + seq![piece@]);
            start = i + 1;
        }
        i = i + 1;
    }
    let piece: &str = list.substring_char(start, n);
    proof {
        let rest = list@.skip(start as int);
        lemma_comma_free_prefix(rest, n - start);
        assert(rest =~= list@.subrange(start as int, n as int));
    }
    let ghost before = keys@;
    keys.push(piece.to_owned());
    assert(key_texts(keys@) =~= key_texts(before) + seq![piece@]);
    keys
}

/// What follows the first space of `text`; `None` when it holds no space.
pub open spec fn after_first_space(text: Seq<char>) -> Option<Seq<char>>
    decreases text.len(),
{
    if text.len() == 0 {
        None
    } else if text[0] == ' ' {
        Some(text.skip(1))
    } else {
        after_first_space(text.skip(1))
    }
}

/// Whether the request brings an `authorization` header of its own. Such a
/// header is the caller's, whatever it holds, and is never replaced.
pub open spec fn has_authorization(entries: Map<Seq<char>, Seq<Seq<u8>>>) -> bool {
    entries.dom().contains(authorization_text())
}

/// The credential that can be read from the headers of a request: what
/// follows the scheme in the first `authorization` value. Nothing can be read
/// from headers without that header, nor from a value that does not read as
/// text or that holds no space.
pub open spec fn carried_key(entries: Map<Seq<char>, Seq<Seq<u8>>>) -> Option<Seq<char>> {
    match first_of(entries, authorization_text()) {
        Some(bytes) => if is_visible(bytes) {
            after_first_space(ascii_text(bytes))
        } else {
            None
        },
        None => None,
    }
}

/// Headers from which the `authorization` header was taken out have none,
/// and no credential can be read from them.
pub proof fn lemma_no_header_no_key(entries: Map<Seq<char>, Seq<Seq<u8>>>)
    ensures
        !has_authorization(entries.remove(authorization_text())),
        carried_key(entries.remove(authorization_text())) is None,
{
}

/// The bytes of the header value that presents `key` as a bearer token.
pub open spec fn bearer(key: Seq<char>) -> Seq<u8> {
    encode_utf8("Bearer "@ + key)
}

/// The pool after the response to an attempt that went out with `key`:
/// an unauthorized credential is discarded, a rate-limited one is rotated
/// away from, each only while it is still the active one. Any other outcome,
/// a transport error included, leaves the pool alone.
pub open spec fn feedback(pool: PoolView, key: Option<Seq<char>>, outcome: Outcome) -> PoolView {
    match outcome {
        Outcome::Status(code) => if code == UNAUTHORIZED {
            pool.remove_if(key)
        } else if code == TOO_MANY_REQUESTS {
            pool.shift_if(key)
        } else {
            pool
        },
        Outcome::TransportError => pool,
    }
}

/// What a response did to the pool, as a mathematical value.
pub enum ChangeView {
    /// The pool is as it was.
    Unchanged,
    /// The credential with this text was discarded.
    Removed(Seq<char>),
    /// The cursor moved on to the next credential.
    Shifted,
}

/// What the response to an attempt that went out with `key` does to the
/// pool: it discards the credential on status 401, and moves the cursor on
/// status 429 if there is another credential to move to, each only while
/// `key` is still the active credential.
pub open spec fn change_of(pool: PoolView, key: Option<Seq<char>>, outcome: Outcome) -> ChangeView {
    match outcome {
        Outcome::Status(code) => if code == UNAUTHORIZED && pool.active() == key && key is Some {
            ChangeView::Removed(key->0)
        } else if code == TOO_MANY_REQUESTS && pool.active() == key && pool.keys.len() > 1 {
            ChangeView::Shifted
        } else {
            ChangeView::Unchanged
        },
        Outcome::TransportError => ChangeView::Unchanged,
    }
}

/// The pool changes exactly when `change_of` names a change.
pub proof fn lemma_change_tells_feedback(pool: PoolView, key: Option<Seq<char>>, outcome: Outcome)
    requires
        pool.wf(),
    ensures
        change_of(pool, key, outcome) is Unchanged <==> feedback(pool, key, outcome) == pool,
        change_of(pool, key, outcome) is Removed ==> feedback(pool, key, outcome)
            == pool.remove_active(),
        change_of(pool, key, outcome) is Shifted ==> feedback(pool, key, outcome) == pool.shift(),
{
    if change_of(pool, key, outcome) is Removed {
        assert(pool.remove_active().keys.len() == pool.keys.len() - 1);
    }
    if change_of(pool, key, outcome) is Shifted {
        let len: int = pool.keys.len() as int;
        if pool.cursor + 1 < len {
            lemma_small_mod((pool.cursor + 1) as nat, len as nat);
        } else {
            lemma_mod_add_multiples_vanish(0, len);
            lemma_small_mod(0, len as nat);
        }
    }
}

/// What a response did to the pool.
#[derive(Clone, Debug, PartialEq, Eq)]
pub enum Change {
    /// The pool is as it was.
    Unchanged,
    /// This credential was discarded.
    Removed(String),
    /// The cursor moved on to the next credential.
    Shifted,
}

impl View for Change {
    type V = ChangeView;

    open spec fn view(&self) -> ChangeView {
        match self {
            Change::Unchanged => ChangeView::Unchanged,
            Change::Removed(key) => ChangeView::Removed(key@),
            Change::Shifted => ChangeView::Shifted,
        }
    }
}

/// Why a credential could not be attached to a request.
#[derive(Clone, Copy, Debug, PartialEq, Eq, Structural)]
pub enum AuthError {
    /// The active credential holds a byte that no header value may hold.
    InvalidCredential,
    /// The header map has no room for another header.
    HeadersFull,
}

/// What follows the first space of an ASCII text.
fn split_credential(text: &str) -> (key: Option<String>)
    requires
        is_ascii_chars(text@),
    ensures
        key_text(key) == after_first_space(text@),
{
    proof {
        vstd::string::is_ascii_spec_bytes(text);
    }
    let bytes: &[u8] = text.as_bytes();
    let n: usize = bytes.len();
    let mut i: usize = 0;
    assert(text@.skip(0) =~= text@);
    while i < n
        invariant
            i <= n,
            n == text@.len(),
            is_ascii_chars(text@),
            bytes@ == Seq::new(text@.len(), |k: int| text@[k] as u8),
            after_first_space(text@) == after_first_space(text@.skip(i as int)),
        decreases n - i,
    {
        let b: u8 = bytes[i];
        proof {
            assert(text@.skip(i as int)[0] == text@[i as int]);
            assert(text@.skip(i as int).skip(1) =~= text@.skip(i + 1));
            assert(text@[i as int] as nat == b as nat);
        }
        if b == 32 {
            let rest: &str = text.substring_ascii(i + 1, n);
            assert(rest@ =~= text@.skip(i + 1));
            return Some(rest.to_owned());
        }
        i = i + 1;
    }
    None
}

/// The credential that can be read from the headers of the request, if any.
pub fn extract_api_key(headers: &HeaderMap<HeaderValue>) -> (key: Option<String>)
    ensures
        key_text(key) == carried_key(header_entries(*headers)),
{
    let name = authorization();
    match first_value(headers, &name) {
        None => None,
        Some(value) => match value_to_str(value) {
            None => None,
            Some(text) => {
                proof {
                    lemma_visible_is_ascii(header_value_bytes(*value));
                }
                split_credential(text)
            },
        },
    }
}

/// Bytes that read as text are ASCII characters.
proof fn lemma_visible_is_ascii(bytes: Seq<u8>)
    requires
        is_visible(bytes),
    ensures
        is_ascii_chars(ascii_text(bytes)),
{
    assert forall|i: int| 0 <= i < bytes.len() implies '\0' <= #[trigger] ascii_text(bytes)[i]
        <= '\u{7f}' by {
        assert(is_visible_byte(bytes[i]));
    }
}

impl KeyPool {
    /// Settles which credential goes out with an attempt, and attaches it.
    ///
    /// A request that brings an `authorization` header of its own keeps it as
    /// it is, whatever it holds, and nothing changes; the result is the
    /// credential that can be read from it, if any. A request without that
    /// header gets the active credential of the pool, if there is one, as a
    /// bearer token, and the result is that credential. Either way the result is
    /// what `settle` compares against later.
    ///
    /// It fails, with the headers as they were, only when a credential of the
    /// pool was to be attached: with `InvalidCredential` exactly when its bearer
    /// value holds a byte that no header value may hold, with `HeadersFull` when
    /// the header map refused the new header.
    pub fn authorize(&self, headers: &mut HeaderMap<HeaderValue>) -> (r: Result<
        Option<String>,
        AuthError,
    >)
        ensures
            ({
                let before = header_entries(*old(headers));
                let after = header_entries(*final(headers));
                let present = has_authorization(before);
                let active = self@.active();
                match r {
                    Ok(key) => {
                        &&& key_text(key) == if present {
                            carried_key(before)
                        } else {
                            active
                        }
                        &&& after == if !present && active is Some {
                            before.insert(authorization_text(), seq![bearer(active->0)])
                        } else {
                            before
                        }
                        &&& !present && active is Some ==> is_value(bearer(active->0))
                    },
                    Err(AuthError::InvalidCredential) => {
                        &&& !present
                        &&& active is Some
                        &&& !is_value(bearer(active->0))
                        &&& after == before
                    },
                    Err(AuthError::HeadersFull) => {
                        &&& !present
                        &&& active is Some
                        &&& is_value(bearer(active->0))
                        &&& after == before
                    },
                }
            }),
    {
        let name = authorization();
        if first_value(headers, &name).is_some() {
            return Ok(extract_api_key(headers));
        }
        match self.active_key() {
            None => Ok(None),
            Some(key) => {
                let text: String = String::from_str("Bearer ").concat(key.as_str());
                match value_from_str(text.as_str()) {
                    None => Err(AuthError::InvalidCredential),
                    Some(value) => {
                        if try_insert(headers, &name, value) {
                            Ok(Some(key))
                        } else {
                            Err(AuthError::HeadersFull)
                        }
                    },
                }
            },
        }
    }

    /// Applies the response to an attempt that went out with `key`: on
    /// status 401 the credential is discarded, on 429 it is rotated away from,
    /// each only if it is still the active one. Nothing else touches the pool.
    /// The result says what was done.
    pub fn settle(&mut self, key: Option<String>, outcome: Outcome) -> (change: Change)
        ensures
            final(self)@ == feedback(old(self)@, key_text(key), outcome),
            old(self)@.wf() ==> final(self)@.wf(),
            change@ == change_of(old(self)@, key_text(key), outcome),
    {
        match outcome {
            Outcome::Status(code) => {
                if code == UNAUTHORIZED {
                    if self.is_active(&key) {
                        match self.remove_active_key() {
                            Some(removed) => Change::Removed(removed),
                            None => Change::Unchanged,
                        }
                    } else {
                        Change::Unchanged
                    }
                } else if code == TOO_MANY_REQUESTS {
                    if self.is_active(&key) && self.keys.len() > 1 {
                        self.shift_active_key();
                        Change::Shifted
                    } else {
                        Change::Unchanged
                    }
                } else {
                    Change::Unchanged
                }
            },
            Outcome::TransportError => Change::Unchanged,
        }
    }
}

} // verus!
