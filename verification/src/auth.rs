//! Nonce issuance and validation, and the user directory.
//!
//! Time is a plain tick count handed in by the caller; a nonce is valid while
//! the ticks elapsed since it was issued do not exceed the configured
//! lifetime.

use vstd::prelude::*;
use crate::errors::TurnError;
use crate::util::str_eq;

verus! {

/// Relies on String::push of std: appends one character.
pub assume_specification[ String::push ](s: &mut String, ch: char)
    ensures
        final(s)@ == old(s)@ + seq![ch],
;

/// Ticks elapsed from `t` to `now`, zero if `now` lies before `t`.
pub open spec fn spec_elapsed(now: u64, t: u64) -> u64 {
    if now >= t {
        (now - t) as u64
    } else {
        0
    }
}

/// Every key occurs at most once.
pub open spec fn keys_unique<V>(s: Seq<(String, V)>) -> bool {
    forall|i: int, j: int| 0 <= i < j < s.len() ==> s[i].0@ != s[j].0@
}

pub open spec fn has_key<V>(s: Seq<(String, V)>, n: Seq<char>) -> bool {
    exists|i: int| 0 <= i < s.len() && s[i].0@ == n
}

pub open spec fn key_idx<V>(s: Seq<(String, V)>, n: Seq<char>) -> int {
    choose|i: int| 0 <= i < s.len() && s[i].0@ == n
}

/// The value stored under key `n`, if any.
pub open spec fn value_of<V>(s: Seq<(String, V)>, n: Seq<char>) -> Option<V> {
    if has_key(s, n) {
        Some(s[key_idx(s, n)].1)
    } else {
        None
    }
}

/// Removing the entry at `i` removes exactly its key from the association.
proof fn lemma_remove_key<V>(s: Seq<(String, V)>, i: int)
    requires
        keys_unique(s),
        0 <= i < s.len(),
    ensures
        keys_unique(s.remove(i)),
        value_of(s.remove(i), s[i].0@) is None,
        forall|n: Seq<char>| n != s[i].0@ ==> value_of(s.remove(i), n) == value_of(s, n),
{
    let r = s.remove(i);
    s.remove_ensures(i);
    assert(forall|j: int| 0 <= j < i ==> r[j] == s[j]);
    assert(forall|j: int| i <= j < r.len() ==> r[j] == s[j + 1]);
    assert forall|n: Seq<char>| n != s[i].0@ implies value_of(r, n) == value_of(s, n) by {
        if has_key(s, n) {
            let k = key_idx(s, n);
            assert(0 <= k < s.len() && s[k].0@ == n);
            assert(k != i);
            if k < i {
                assert(r[k] == s[k]);
            } else {
                assert(r[k - 1] == s[k]);
            }
            assert(has_key(r, n));
            let k2 = key_idx(r, n);
            assert(0 <= k2 < r.len() && r[k2].0@ == n);
            if k2 < i {
                assert(r[k2] == s[k2]);
                assert(s[k2].1 == s[k].1);
            } else {
                assert(r[k2] == s[k2 + 1]);
                assert(s[k2 + 1].1 == s[k].1);
            }
        } else {
            if has_key(r, n) {
                let k2 = key_idx(r, n);
                if k2 < i {
                    assert(s[k2].0@ == n);
                } else {
                    assert(s[k2 + 1].0@ == n);
                }
            }
        }
    }
    if has_key(r, s[i].0@) {
        let k2 = key_idx(r, s[i].0@);
        if k2 < i {
            assert(s[k2].0@ == s[i].0@);
        } else {
            assert(s[k2 + 1].0@ == s[i].0@);
        }
    }
}

/// Pushing an entry with a fresh key adds exactly that key.
proof fn lemma_push_key<V>(s: Seq<(String, V)>, kv: (String, V))
    requires
        keys_unique(s),
        !has_key(s, kv.0@),
    ensures
        keys_unique(s.push(kv)),
        value_of(s.push(kv), kv.0@) == Some(kv.1),
        forall|n: Seq<char>| n != kv.0@ ==> value_of(s.push(kv), n) == value_of(s, n),
{
    let r = s.push(kv);
    assert(forall|j: int| 0 <= j < s.len() ==> r[j] == s[j]);
    assert(r[s.len() as int] == kv);
    assert(has_key(r, kv.0@));
    let k = key_idx(r, kv.0@);
    assert(0 <= k < r.len() && r[k].0@ == kv.0@);
    assert(k == s.len());
    assert forall|n: Seq<char>| n != kv.0@ implies value_of(r, n) == value_of(s, n) by {
        if has_key(s, n) {
            let j = key_idx(s, n);
            assert(r[j] == s[j]);
            assert(has_key(r, n));
            let j2 = key_idx(r, n);
            assert(j2 != s.len());
            assert(r[j2] == s[j2]);
        } else {
            if has_key(r, n) {
                let j2 = key_idx(r, n);
                assert(j2 != s.len());
                assert(s[j2].0@ == n);
            }
        }
    }
}

/// A lowercase hexadecimal digit.
pub open spec fn is_lower_hex_digit(c: char) -> bool {
    ('0' <= c && c <= '9') || ('a' <= c && c <= 'f')
}

/// The lowercase hexadecimal digit of a nibble.
pub open spec fn hex_digit(n: u8) -> char {
    if n < 10 {
        (48 + n) as char
    } else {
        (87 + n) as char
    }
}

/// The lowercase hexadecimal spelling of a byte string, two digits a byte.
pub open spec fn spec_hex_of(bytes: Seq<u8>) -> Seq<char> {
    Seq::new(
        bytes.len() * 2,
        |i: int|
            if i % 2 == 0 {
                hex_digit((bytes[i / 2] / 16) as u8)
            } else {
                hex_digit((bytes[i / 2] % 16) as u8)
            },
    )
}

/// Spells bytes as lowercase hexadecimal.
fn hex_string(bytes: &[u8]) -> (r: String)
    ensures
        r@ == spec_hex_of(bytes@),
        r@.len() == 2 * bytes@.len(),
        forall|i: int| 0 <= i < r@.len() ==> is_lower_hex_digit(#[trigger] r@[i]),
        vstd::utf8::is_ascii_chars(r@),
        vstd::utf8::encode_utf8(r@).len() == 2 * bytes@.len(),
{
    let mut s = String::new();
    let n: usize = bytes.len();
    let mut i: usize = 0;
    while i < n
        invariant
            i <= n,
            n == bytes@.len(),
            s@ =~= spec_hex_of(bytes@.subrange(0, i as int)),
        decreases n - i,
    {
        let b: u8 = bytes[i];
        let hi: u8 = b / 16;
        let lo: u8 = b % 16;
        let hc: char = if hi < 10 {
            (48 + hi) as char
        } else {
            (87 + hi) as char
        };
        let lc: char = if lo < 10 {
            (48 + lo) as char
        } else {
            (87 + lo) as char
        };
        s.push(hc);
        s.push(lc);
        i = i + 1;
        assert(s@ =~= spec_hex_of(bytes@.subrange(0, i as int)));
    }
    assert(bytes@.subrange(0, n as int) =~= bytes@);
    proof {
        assert forall|j: int| 0 <= j < s@.len() implies is_lower_hex_digit(#[trigger] s@[j]) by {
            assert(s@[j] == spec_hex_of(bytes@)[j]);
        }
        assert forall|j: int| 0 <= j < s@.len() implies '\0' <= #[trigger] s@[j] <= '\u{7f}' by {
            assert(is_lower_hex_digit(s@[j]));
        }
        assert(vstd::utf8::is_ascii_chars(s@));
        vstd::utf8::is_ascii_chars_encode_utf8(s@);
    }
    s
}

/// Issued nonces with their issue times, and the nonce lifetime in ticks.
#[derive(Debug, Clone)]
pub struct NonceManager {
    pub nonces: Vec<(String, u64)>,
    pub lifetime: u64,
}

impl NonceManager {
    /// Each nonce is recorded once.
    pub open spec fn wf(self) -> bool {
        keys_unique(self.nonces@)
    }

    pub open spec fn spec_lifetime(self) -> u64 {
        self.lifetime
    }

    /// When the nonce was issued, if it is on record.
    pub open spec fn spec_time_of(self, n: Seq<char>) -> Option<u64> {
        value_of(self.nonces@, n)
    }

    /// A nonce is valid while on record and not older than the lifetime.
    pub open spec fn spec_valid(self, n: Seq<char>, now: u64) -> bool {
        match self.spec_time_of(n) {
            Some(t) => spec_elapsed(now, t) <= self.lifetime,
            None => false,
        }
    }

    pub fn new(lifetime: u64) -> (r: Self)
        ensures
            r.wf(),
            r.spec_lifetime() == lifetime,
            forall|n: Seq<char>| r.spec_time_of(n) is None,
    {
        NonceManager { nonces: Vec::new(), lifetime }
    }

    /// Draws 16 random bytes, records their hex spelling as issued `now`, and
    /// returns it: 32 lowercase hex characters, valid right away, leaving
    /// every other nonce as it was.
    pub fn generate_nonce(&mut self, now: u64) -> (r: String)
        requires
            old(self).wf(),
        ensures
            final(self).wf(),
            final(self).spec_lifetime() == old(self).spec_lifetime(),
            r@.len() == 32,
            forall|i: int| 0 <= i < r@.len() ==> is_lower_hex_digit(#[trigger] r@[i]),
            vstd::utf8::encode_utf8(r@).len() == 32,
            final(self).spec_time_of(r@) == Some(now),
            forall|n: Seq<char>|
                n != r@ ==> final(self).spec_time_of(n) == old(self).spec_time_of(n),
    {
        let bytes = crate::rng::random_bytes(16);
        let nonce = hex_string(bytes.as_slice());

        let ghost mid = self.nonces@;
        if let Some(i) = self.find_index(nonce.as_str()) {
            proof {
                lemma_remove_key(self.nonces@, i as int);
            }
            self.nonces.remove(i);
        }
        assert(!has_key(self.nonces@, nonce@));
        let time: u64 = now;
        proof {
            lemma_push_key(self.nonces@, (nonce, time));
        }
        let nonce_copy = nonce.clone();
        self.nonces.push((nonce_copy, time));
        nonce
    }

    /// The index of a nonce in the record, if present.
    fn find_index(&self, nonce: &str) -> (r: Option<usize>)
        requires
            self.wf(),
        ensures
            match r {
                Some(i) => i < self.nonces@.len() && self.nonces@[i as int].0@ == nonce@
                    && has_key(self.nonces@, nonce@) && key_idx(self.nonces@, nonce@) == i,
                None => !has_key(self.nonces@, nonce@),
            },
    {
        let n: usize = self.nonces.len();
        let mut i: usize = 0;
        while i < n
            invariant
                i <= n,
                n == self.nonces@.len(),
                self.wf(),
                forall|j: int| 0 <= j < i ==> self.nonces@[j].0@ != nonce@,
            decreases n - i,
        {
            if str_eq(self.nonces[i].0.as_str(), nonce) {
                proof {
                    assert(has_key(self.nonces@, nonce@));
                    let k = key_idx(self.nonces@, nonce@);
                    assert(0 <= k < self.nonces@.len() && self.nonces@[k].0@ == nonce@);
                    assert(k == i as int);
                }
                return Some(i);
            }
            i = i + 1;
        }
        None
    }

    /// Accepts a nonce that is on record and fresh; rejects, as stale, one
    /// that is unknown or expired, dropping an expired record.
    pub fn validate_nonce(&mut self, nonce: &str, now: u64) -> (r: Result<(), TurnError>)
        requires
            old(self).wf(),
        ensures
            final(self).wf(),
            final(self).spec_lifetime() == old(self).spec_lifetime(),
            (r is Ok) == old(self).spec_valid(nonce@, now),
            r is Ok ==> *final(self) == *old(self),
            r matches Err(e) ==> e == TurnError::StaleNonce && final(self).spec_time_of(nonce@)
                is None && forall|n: Seq<char>|
                n != nonce@ ==> final(self).spec_time_of(n) == old(self).spec_time_of(n),
    {
        match self.find_index(nonce) {
            Some(i) => {
                let t: u64 = self.nonces[i].1;
                let elapsed: u64 = if now >= t {
                    now - t
                } else {
                    0
                };
                if elapsed > self.lifetime {
                    proof {
                        lemma_remove_key(self.nonces@, i as int);
                    }
                    self.nonces.remove(i);
                    Err(TurnError::StaleNonce)
                } else {
                    Ok(())
                }
            },
            None => Err(TurnError::StaleNonce),
        }
    }

    /// Drops every nonce older than the lifetime; fresh ones stay with their
    /// issue times.
    pub fn cleanup_expired(&mut self, now: u64)
        requires
            old(self).wf(),
        ensures
            final(self).wf(),
            final(self).spec_lifetime() == old(self).spec_lifetime(),
            forall|n: Seq<char>|
                final(self).spec_time_of(n) == (match old(self).spec_time_of(n) {
                    Some(t) => if spec_elapsed(now, t) <= old(self).spec_lifetime() {
                        Some(t)
                    } else {
                        None::<u64>
                    },
                    None => None::<u64>,
                }),
    {
        let n: usize = self.nonces.len();
        let mut kept: Vec<(String, u64)> = Vec::new();
        let mut i: usize = 0;
        while i < n
            invariant
                i <= n,
                n == self.nonces@.len(),
                self.wf(),
                self.nonces@ == old(self).nonces@,
                self.lifetime == old(self).lifetime,
                keys_unique(kept@),
                forall|j: int|
                    0 <= j < kept@.len() ==> exists|k: int|
                        0 <= k < i && #[trigger] kept@[j] == #[trigger] self.nonces@[k],
                forall|m: Seq<char>|
                    value_of(kept@, m) == (match #[trigger] value_of(
                        self.nonces@.subrange(0, i as int),
                        m,
                    ) {
                        Some(t) => if spec_elapsed(now, t) <= self.lifetime {
                            Some(t)
                        } else {
                            None::<u64>
                        },
                        None => None::<u64>,
                    }),
            decreases n - i,
        {
            let entry_time: u64 = self.nonces[i].1;
            let elapsed: u64 = if now >= entry_time {
                now - entry_time
            } else {
                0
            };
            let ghost prev_kept = kept@;
            if elapsed <= self.lifetime {
                let key = self.nonces[i].0.clone();
                proof {
                    if has_key(prev_kept, self.nonces@[i as int].0@) {
                        let j = key_idx(prev_kept, self.nonces@[i as int].0@);
                        let k = choose|k: int|
                            0 <= k < i && prev_kept[j] == self.nonces@[k];
                        assert(self.nonces@[k].0@ == self.nonces@[i as int].0@);
                    }
                    lemma_push_key(prev_kept, (key, entry_time));
                }
                kept.push((key, entry_time));
            }
            i = i + 1;
            proof {
                let sub_new = self.nonces@.subrange(0, i as int);
                let sub_old = self.nonces@.subrange(0, i - 1);
                assert(sub_new.drop_last() =~= sub_old);
                assert(sub_new.last() == self.nonces@[i - 1]);
                assert forall|m: Seq<char>|
                    value_of(kept@, m) == (match value_of(sub_new, m) {
                        Some(t) => if spec_elapsed(now, t) <= self.lifetime {
                            Some(t)
                        } else {
                            None::<u64>
                        },
                        None => None::<u64>,
                    }) by {
                    if m == self.nonces@[i - 1].0@ {
                        assert(has_key(sub_new, m)) by {
                            assert(sub_new[i - 1].0@ == m);
                        }
                        let k = key_idx(sub_new, m);
                        assert(0 <= k < sub_new.len() && sub_new[k].0@ == m);
                        assert forall|k2: int| 0 <= k2 < i - 1 implies sub_old[k2].0@ != m by {
                            assert(self.nonces@[k2].0@ != self.nonces@[i - 1].0@);
                        }
                        assert(k == i - 1);
                        assert(value_of(sub_new, m) == Some(self.nonces@[i - 1].1));
                        assert(!has_key(sub_old, m));
                    } else {
                        if has_key(sub_new, m) {
                            let k = key_idx(sub_new, m);
                            assert(k != i - 1);
                            assert(sub_old[k].0@ == m);
                            assert(has_key(sub_old, m));
                            let k0 = key_idx(sub_old, m);
                            assert(sub_new[k0].0@ == m);
                            assert(value_of(sub_new, m) == value_of(sub_old, m));
                        } else {
                            if has_key(sub_old, m) {
                                let k0 = key_idx(sub_old, m);
                                assert(sub_new[k0].0@ == m);
                            }
                        }
                    }
                }
            }
        }
        assert(self.nonces@.subrange(0, n as int) =~= self.nonces@);
        self.nonces = kept;
    }
}

/// The user directory: usernames and their passwords.
#[derive(Debug, Clone)]
pub struct UserDatabase {
    pub users: Vec<(String, String)>,
}

impl UserDatabase {
    /// Each username is recorded once.
    pub open spec fn wf(self) -> bool {
        keys_unique(self.users@)
    }

    /// The password stored for a username, if any.
    pub open spec fn spec_password_of(self, u: Seq<char>) -> Option<Seq<char>> {
        match value_of(self.users@, u) {
            Some(p) => Some(p@),
            None => None,
        }
    }

    pub fn new() -> (r: Self)
        ensures
            r.wf(),
            forall|u: Seq<char>| r.spec_password_of(u) is None,
    {
        UserDatabase { users: Vec::new() }
    }

    /// The index of a username in the directory, if present.
    fn find_index(&self, username: &str) -> (r: Option<usize>)
        requires
            self.wf(),
        ensures
            match r {
                Some(i) => i < self.users@.len() && self.users@[i as int].0@ == username@
                    && has_key(self.users@, username@) && key_idx(self.users@, username@)
                    == i,
                None => !has_key(self.users@, username@),
            },
    {
        let n: usize = self.users.len();
        let mut i: usize = 0;
        while i < n
            invariant
                i <= n,
                n == self.users@.len(),
                self.wf(),
                forall|j: int| 0 <= j < i ==> self.users@[j].0@ != username@,
            decreases n - i,
        {
            if str_eq(self.users[i].0.as_str(), username) {
                proof {
                    assert(has_key(self.users@, username@));
                    let k = key_idx(self.users@, username@);
                    assert(0 <= k < self.users@.len() && self.users@[k].0@ == username@);
                    assert(k == i as int);
                }
                return Some(i);
            }
            i = i + 1;
        }
        None
    }

    /// Stores the password under the username, replacing any previous one.
    pub fn add_user(&mut self, username: String, password: String)
        requires
            old(self).wf(),
        ensures
            final(self).wf(),
            final(self).spec_password_of(username@) == Some(password@),
            forall|u: Seq<char>|
                u != username@ ==> final(self).spec_password_of(u) == old(
                    self,
                ).spec_password_of(u),
    {
        if let Some(i) = self.find_index(username.as_str()) {
            proof {
                lemma_remove_key(self.users@, i as int);
            }
            self.users.remove(i);
        }
        assert(!has_key(self.users@, username@));
        proof {
            lemma_push_key(self.users@, (username, password));
        }
        self.users.push((username, password));
    }

    /// The stored password, or nothing for an unknown username.
    pub fn get_password(&self, username: &str) -> (r: Option<&String>)
        requires
            self.wf(),
        ensures
            match r {
                Some(p) => self.spec_password_of(username@) == Some(p@),
                None => self.spec_password_of(username@) is None,
            },
    {
        match self.find_index(username) {
            Some(i) => Some(&self.users[i].1),
            None => None,
        }
    }

    /// Whether the username is on record with exactly this password.
    pub fn authenticate(&self, username: &str, password: &str) -> (r: bool)
        requires
            self.wf(),
        ensures
            r == (self.spec_password_of(username@) == Some(password@)),
    {
        match self.find_index(username) {
            Some(i) => str_eq(self.users[i].1.as_str(), password),
            None => false,
        }
    }
}

impl Default for UserDatabase {
    fn default() -> (r: Self)
        ensures
            r.wf(),
            forall|u: Seq<char>| r.spec_password_of(u) is None,
    {
        Self::new()
    }
}

} // verus!
