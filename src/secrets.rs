//! Encrypted secrets: where they are kept, the hash that tells whether they
//! changed, and the dotenv text they hold.

use vstd::prelude::*;
use sha2::Digest;
use crate::retention::{lex_le, lex_le_chars, lemma_lex_le_antisym, lemma_lex_le_total, lemma_lex_le_trans};
use crate::text::{chars_of, lines, lines_of, push_all, string_of_range, trim, trim_seq, views};

verus! {

/// `.shipit/secrets` under the project root.
pub fn secrets_dir(project_root: &str) -> (r: String)
    ensures
        r@ == project_root@ + "/.shipit/secrets"@,
{
    let mut r = String::new();
    push_all(&mut r, project_root);
    push_all(&mut r, "/.shipit/secrets");
    r
}

/// The encrypted secrets file of a stage: `<secrets_dir>/<stage>.age`.
pub fn secrets_path(project_root: &str, stage: &str) -> (r: String)
    ensures
        r@ == project_root@ + "/.shipit/secrets"@ + "/"@ + stage@ + ".age"@,
{
    let mut r = secrets_dir(project_root);
    push_all(&mut r, "/");
    push_all(&mut r, stage);
    push_all(&mut r, ".age");
    r
}

/// The SHA-256 digest of some bytes.
pub uninterp spec fn sha256_of(data: Seq<u8>) -> Seq<u8>;

/// Relies on `sha2::Sha256::digest` (the `Digest` trait): the SHA-256
/// digest of the bytes, which is 32 bytes long.
#[verifier::external_body]
fn sha256(data: &[u8]) -> (r: Vec<u8>)
    ensures
        r@ == sha256_of(data@),
        r@.len() == 32,
{
    sha2::Sha256::digest(data).to_vec()
}

pub open spec fn hex_nibble(n: u8) -> char {
    if n < 10 {
        ((n + 48) as u8) as char
    } else {
        ((n + 87) as u8) as char
    }
}

/// Lower-case hex: two digits per byte, high nibble first.
pub open spec fn hex_of(b: Seq<u8>) -> Seq<char>
    decreases b.len(),
{
    if b.len() == 0 {
        seq![]
    } else {
        hex_of(b.drop_last()) + seq![hex_nibble(b.last() / 16), hex_nibble(b.last() % 16)]
    }
}

/// Relies on `hex::encode`: two lower-case hex digits per byte, high
/// nibble first.
#[verifier::external_body]
fn to_hex(b: &[u8]) -> (r: String)
    ensures
        r@ == hex_of(b@),
{
    hex::encode(b)
}

/// The hash recorded for the encrypted secrets: SHA-256 of the file's
/// bytes, in lower-case hex.
pub fn content_hash(data: &Vec<u8>) -> (r: String)
    ensures
        r@ == hex_of(sha256_of(data@)),
{
    let d = sha256(data.as_slice());
    to_hex(d.as_slice())
}

// ---------------------------------------------------------------------------
// Dotenv
// ---------------------------------------------------------------------------

/// The index of the first `=` in `t`, at or after `from`.
pub open spec fn first_eq(t: Seq<char>, from: int) -> Option<int>
    decreases t.len() - from,
{
    if from < 0 || from >= t.len() {
        None
    } else if t[from] == '=' {
        Some(from)
    } else {
        first_eq(t, from + 1)
    }
}

/// `KEY=VALUE` split at the first `=`, both sides trimmed.
pub open spec fn split_pair(t: Seq<char>) -> Option<(Seq<char>, Seq<char>)> {
    match first_eq(t, 0) {
        Some(i) => Some((trim_seq(t.subrange(0, i)), trim_seq(t.subrange(i + 1, t.len() as int)))),
        None => None,
    }
}

/// The entry a dotenv line holds: none for blank lines, comments and lines
/// without `=`.
pub open spec fn dotenv_pair(line: Seq<char>) -> Option<(Seq<char>, Seq<char>)> {
    let t = trim_seq(line);
    if t.len() == 0 || t[0] == '#' {
        None
    } else {
        split_pair(t)
    }
}

/// The entries of dotenv lines; a later entry replaces an earlier one.
pub open spec fn dotenv_map_of(ls: Seq<Seq<char>>) -> Map<Seq<char>, Seq<char>>
    decreases ls.len(),
{
    if ls.len() == 0 {
        Map::empty()
    } else {
        let m = dotenv_map_of(ls.drop_last());
        match dotenv_pair(ls.last()) {
            Some(p) => m.insert(p.0, p.1),
            None => m,
        }
    }
}

pub open spec fn dotenv_map(content: Seq<char>) -> Map<Seq<char>, Seq<char>> {
    dotenv_map_of(lines_of(content))
}

pub open spec fn lex_lt(a: Seq<char>, b: Seq<char>) -> bool {
    lex_le(a, b) && a != b
}

/// Keys strictly increasing.
pub open spec fn is_sorted_entries(s: Seq<(String, String)>) -> bool {
    forall|i: int, j: int| 0 <= i < j < s.len() ==> lex_lt(#[trigger] s[i].0@, #[trigger] s[j].0@)
}

/// The entries hold exactly the map `m`.
pub open spec fn entries_hold(s: Seq<(String, String)>, m: Map<Seq<char>, Seq<char>>) -> bool {
    &&& forall|i: int| 0 <= i < s.len() ==> m.contains_key((#[trigger] s[i]).0@) && m[s[i].0@] == s[i].1@
    &&& forall|k: Seq<char>| #[trigger] m.contains_key(k) ==> exists|i: int| 0 <= i < s.len() && (#[trigger] s[i]).0@ == k
}

/// A sorted entry list: keys strictly increasing, as in an ordered map.
#[derive(Debug)]
pub struct Secrets {
    pub entries: Vec<(String, String)>,
}

impl Secrets {
    pub open spec fn wf(&self) -> bool {
        is_sorted_entries(self.entries@)
    }

    /// The secrets as a map from key to value.
    pub open spec fn holds(&self, m: Map<Seq<char>, Seq<char>>) -> bool {
        entries_hold(self.entries@, m)
    }

    pub fn new() -> (r: Secrets)
        ensures
            r.wf(),
            r.holds(Map::empty()),
    {
        Secrets { entries: Vec::new() }
    }

    /// Sets `key` to `value`, replacing a previous value.
    pub fn insert(&mut self, key: String, value: String)
        requires
            old(self).wf(),
        ensures
            final(self).wf(),
            forall|m: Map<Seq<char>, Seq<char>>| old(self).holds(m) ==> #[trigger] final(self).holds(m.insert(key@, value@)),
    {
        let kc = chars_of(key.as_str());
        let n = self.entries.len();
        let mut j: usize = 0;
        while j < n
            invariant
                n == self.entries@.len(),
                j <= n,
                kc@ == key@,
                self.wf(),
                self.entries@ == old(self).entries@,
                forall|t: int| 0 <= t < j ==> lex_lt(#[trigger] self.entries@[t].0@, key@),
            ensures
                j <= n,
                self.entries@ == old(self).entries@,
                forall|t: int| 0 <= t < j ==> lex_lt(#[trigger] self.entries@[t].0@, key@),
                j < n ==> lex_le(key@, self.entries@[j as int].0@),
            decreases n - j,
        {
            let ec = chars_of(self.entries[j].0.as_str());
            if lex_le_chars(&kc, &ec) {
                break;
            }
            proof {
                lemma_lex_le_total(key@, self.entries@[j as int].0@);
            }
            j = j + 1;
        }
        let ghost old_e = self.entries@;
        if j < n && crate::text::str_eq(self.entries[j].0.as_str(), key.as_str()) {
            self.entries.set(j, (key, value));
            proof {
                assert forall|a: int, b: int| 0 <= a < b < self.entries@.len() implies lex_lt(
                    #[trigger] self.entries@[a].0@,
                    #[trigger] self.entries@[b].0@,
                ) by {
                    assert(lex_lt(old_e[a].0@, old_e[b].0@));
                }
                assert forall|m: Map<Seq<char>, Seq<char>>| old(self).holds(m) implies #[trigger] self.holds(m.insert(key@, value@)) by {
                    let m2 = m.insert(key@, value@);
                    assert forall|k: Seq<char>| #[trigger] m2.contains_key(k) implies exists|i: int| 0 <= i < self.entries@.len() && (#[trigger] self.entries@[i]).0@ == k by {
                        if k == key@ {
                            assert(self.entries@[j as int].0@ == k);
                        } else {
                            let i = choose|i: int| 0 <= i < old_e.len() && (#[trigger] old_e[i]).0@ == k;
                            assert(self.entries@[i].0@ == k);
                        }
                    }
                    assert forall|i: int| 0 <= i < self.entries@.len() implies m2.contains_key((#[trigger] self.entries@[i]).0@) && m2[self.entries@[i].0@] == self.entries@[i].1@ by {
                        if i != j {
                            assert(self.entries@[i] == old_e[i]);
                            assert(old_e[i].0@ != key@) by {
                                if i < j {
                                } else {
                                    assert(lex_lt(old_e[j as int].0@, old_e[i].0@));
                                }
                            }
                        }
                    }
                }
            }
        } else {
            self.entries.insert(j, (key, value));
            proof {
                assert forall|a: int, b: int| 0 <= a < b < self.entries@.len() implies lex_lt(
                    #[trigger] self.entries@[a].0@,
                    #[trigger] self.entries@[b].0@,
                ) by {
                    if b == j {
                        assert(self.entries@[a] == old_e[a]);
                    } else if a == j {
                        assert(self.entries@[b] == old_e[b - 1]);
                        if b - 1 > j {
                            assert(lex_lt(old_e[j as int].0@, old_e[b - 1].0@));
                            lemma_lex_le_trans(key@, old_e[j as int].0@, old_e[b - 1].0@);
                            if key@ == old_e[b - 1].0@ {
                                lemma_lex_le_antisym(key@, old_e[j as int].0@);
                            }
                        }
                    } else if a < j && b > j {
                        assert(self.entries@[a] == old_e[a]);
                        assert(self.entries@[b] == old_e[b - 1]);
                        if b - 1 > a {
                            assert(lex_lt(old_e[a].0@, old_e[b - 1].0@));
                        }
                    } else if a > j {
                        assert(self.entries@[a] == old_e[a - 1]);
                        assert(self.entries@[b] == old_e[b - 1]);
                    } else {
                        assert(self.entries@[a] == old_e[a]);
                        assert(self.entries@[b] == old_e[b]);
                    }
                }
                assert forall|m: Map<Seq<char>, Seq<char>>| old(self).holds(m) implies #[trigger] self.holds(m.insert(key@, value@)) by {
                    let m2 = m.insert(key@, value@);
                    assert forall|k: Seq<char>| #[trigger] m2.contains_key(k) implies exists|i: int| 0 <= i < self.entries@.len() && (#[trigger] self.entries@[i]).0@ == k by {
                        if k == key@ {
                            assert(self.entries@[j as int].0@ == k);
                        } else {
                            let i = choose|i: int| 0 <= i < old_e.len() && (#[trigger] old_e[i]).0@ == k;
                            if i < j {
                                assert(self.entries@[i].0@ == k);
                            } else {
                                assert(self.entries@[i + 1].0@ == k);
                            }
                        }
                    }
                    assert forall|i: int| 0 <= i < self.entries@.len() implies m2.contains_key((#[trigger] self.entries@[i]).0@) && m2[self.entries@[i].0@] == self.entries@[i].1@ by {
                        if i < j {
                            assert(self.entries@[i] == old_e[i]);
                        } else if i > j {
                            assert(self.entries@[i] == old_e[i - 1]);
                            if i - 1 == j {
                                assert(old_e[j as int].0@ != key@);
                            } else {
                                assert(lex_lt(old_e[j as int].0@, old_e[i - 1].0@));
                                if old_e[i - 1].0@ == key@ {
                                    lemma_lex_le_antisym(key@, old_e[j as int].0@);
                                }
                            }
                        }
                    }
                }
            }
        }
    }

    /// Removes `key`; whether it was there.
    pub fn remove(&mut self, key: &str) -> (found: bool)
        requires
            old(self).wf(),
        ensures
            final(self).wf(),
            forall|m: Map<Seq<char>, Seq<char>>| #[trigger] old(self).holds(m) ==> found == m.contains_key(key@) && final(self).holds(m.remove(key@)),
    {
        let n = self.entries.len();
        let mut j: usize = 0;
        while j < n
            invariant
                n == self.entries@.len(),
                j <= n,
                self.wf(),
                self.entries@ == old(self).entries@,
                forall|t: int| 0 <= t < j ==> (#[trigger] self.entries@[t]).0@ != key@,
            decreases n - j,
        {
            if crate::text::str_eq(self.entries[j].0.as_str(), key) {
                let ghost old_e = self.entries@;
                self.entries.remove(j);
                proof {
                    assert forall|a: int, b: int| 0 <= a < b < self.entries@.len() implies lex_lt(
                        #[trigger] self.entries@[a].0@,
                        #[trigger] self.entries@[b].0@,
                    ) by {
                        if a >= j {
                            assert(self.entries@[a] == old_e[a + 1]);
                        }
                        if b >= j {
                            assert(self.entries@[b] == old_e[b + 1]);
                        }
                    }
                    assert forall|m: Map<Seq<char>, Seq<char>>| #[trigger] old(self).holds(m) implies (true == m.contains_key(key@) && self.holds(m.remove(key@))) by {
                        let m2 = m.remove(key@);
                        assert(m.contains_key(old_e[j as int].0@));
                        assert forall|k: Seq<char>| #[trigger] m2.contains_key(k) implies exists|i: int| 0 <= i < self.entries@.len() && (#[trigger] self.entries@[i]).0@ == k by {
                            let i = choose|i: int| 0 <= i < old_e.len() && (#[trigger] old_e[i]).0@ == k;
                            if i < j {
                                assert(self.entries@[i].0@ == k);
                            } else {
                                assert(self.entries@[i - 1].0@ == k);
                            }
                        }
                        assert forall|i: int| 0 <= i < self.entries@.len() implies m2.contains_key((#[trigger] self.entries@[i]).0@) && m2[self.entries@[i].0@] == self.entries@[i].1@ by {
                            if i < j {
                                assert(self.entries@[i] == old_e[i]);
                                assert(lex_lt(old_e[i].0@, old_e[j as int].0@));
                            } else {
                                assert(self.entries@[i] == old_e[i + 1]);
                                assert(lex_lt(old_e[j as int].0@, old_e[i + 1].0@));
                            }
                        }
                    }
                }
                return true;
            }
            j = j + 1;
        }
        proof {
            assert forall|m: Map<Seq<char>, Seq<char>>| #[trigger] old(self).holds(m) implies (false == m.contains_key(key@) && self.holds(m.remove(key@))) by {
                if m.contains_key(key@) {
                    let i = choose|i: int| 0 <= i < self.entries@.len() && (#[trigger] self.entries@[i]).0@ == key@;
                }
                assert(m.remove(key@) =~= m);
            }
        }
        false
    }
}

/// `KEY=VALUE` lines joined by line feeds.
pub open spec fn dotenv_text(s: Seq<(String, String)>) -> Seq<char>
    decreases s.len(),
{
    if s.len() == 0 {
        seq![]
    } else {
        let line = s.last().0@ + seq!['='] + s.last().1@;
        if s.len() == 1 {
            line
        } else {
            dotenv_text(s.drop_last()) + seq!['\n'] + line
        }
    }
}

/// The dotenv text of the secrets: one `KEY=VALUE` line per entry, in
/// key order, joined by line feeds.
pub fn serialize_dotenv(map: &Secrets) -> (r: String)
    ensures
        r@ == dotenv_text(map.entries@),
{
    let mut r = String::new();
    let mut i: usize = 0;
    while i < map.entries.len()
        invariant
            i <= map.entries@.len(),
            r@ == dotenv_text(map.entries@.subrange(0, i as int)),
        decreases map.entries@.len() - i,
    {
        assert(map.entries@.subrange(0, i + 1).drop_last() =~= map.entries@.subrange(0, i as int));
        if i > 0 {
            r.push('\n');
        }
        push_all(&mut r, map.entries[i].0.as_str());
        r.push('=');
        push_all(&mut r, map.entries[i].1.as_str());
        i = i + 1;
        assert(r@ =~= dotenv_text(map.entries@.subrange(0, i as int)));
    }
    assert(map.entries@.subrange(0, map.entries@.len() as int) =~= map.entries@);
    r
}

/// Where an app's private key is kept: `<config_dir>/shipit/keys/<app>.key`.
pub fn key_path(config_dir: &str, app_name: &str) -> (r: String)
    ensures
        r@ == config_dir@ + "/shipit/keys/"@ + app_name@ + ".key"@,
{
    let mut r = String::new();
    push_all(&mut r, config_dir);
    push_all(&mut r, "/shipit/keys/");
    push_all(&mut r, app_name);
    push_all(&mut r, ".key");
    r
}

/// The `=` split of a trimmed line.
fn split_pair_exec(t: &Vec<char>) -> (r: Option<(String, String)>)
    ensures
        match r {
            Some(p) => split_pair(t@) == Some((p.0@, p.1@)),
            None => split_pair(t@) is None,
        },
{
    let mut i: usize = 0;
    while i < t.len()
        invariant
            i <= t@.len(),
            first_eq(t@, 0) == first_eq(t@, i as int),
        decreases t@.len() - i,
    {
        if t[i] == '=' {
            let k = string_of_range(t, 0, i);
            let v = string_of_range(t, i + 1, t.len());
            return Some((trim(k.as_str()), trim(v.as_str())));
        }
        i = i + 1;
    }
    None
}

/// Parses dotenv text into sorted secrets: blank lines and `#` comments
/// are skipped, as are lines without `=`; keys and values are trimmed; a
/// later line for a key replaces an earlier one.
pub fn parse_dotenv(content: &str) -> (r: Secrets)
    ensures
        r.wf(),
        r.holds(dotenv_map(content@)),
{
    let ls = lines(content);
    let mut r = Secrets::new();
    let mut i: usize = 0;
    while i < ls.len()
        invariant
            i <= ls@.len(),
            views(ls@) == lines_of(content@),
            r.wf(),
            r.holds(dotenv_map_of(views(ls@).subrange(0, i as int))),
        decreases ls@.len() - i,
    {
        assert(views(ls@).subrange(0, i + 1).drop_last() =~= views(ls@).subrange(0, i as int));
        let ghost m = dotenv_map_of(views(ls@).subrange(0, i as int));
        let t = chars_of(trim(ls[i].as_str()).as_str());
        if t.len() > 0 && t[0] != '#' {
            match split_pair_exec(&t) {
                Some((k, v)) => {
                    r.insert(k, v);
                },
                None => {},
            }
        }
        i = i + 1;
    }
    assert(views(ls@).subrange(0, ls@.len() as int) =~= views(ls@));
    r
}

/// Why a `KEY=VALUE` argument was refused.
#[derive(Clone, Copy, Debug, PartialEq, Eq, Structural)]
pub enum SecretsError {
    /// The argument has no `=`.
    ExpectedKeyValue,
    /// No recipients are configured to encrypt for.
    NoRecipients,
}

/// Sets a secret from a `KEY=VALUE` argument (split at the first `=`, both
/// sides trimmed); the key set.
pub fn set_from_pair(secrets: &mut Secrets, pair: &str) -> (r: Result<String, SecretsError>)
    requires
        old(secrets).wf(),
    ensures
        final(secrets).wf(),
        match split_pair(pair@) {
            None => r == Err::<String, SecretsError>(SecretsError::ExpectedKeyValue) && *final(secrets) == *old(secrets),
            Some(p) => r matches Ok(k) && k@ == p.0 && forall|m: Map<Seq<char>, Seq<char>>|
                old(secrets).holds(m) ==> #[trigger] final(secrets).holds(m.insert(p.0, p.1)),
        },
{
    let v = chars_of(pair);
    match split_pair_exec(&v) {
        Some((k, val)) => {
            let key = k.clone();
            secrets.insert(k, val);
            Ok(key)
        },
        None => Err(SecretsError::ExpectedKeyValue),
    }
}

/// The `secrets set` decision: the argument must be `KEY=VALUE`, and there
/// must be recipients to encrypt for; then the key is set. The secrets are
/// unchanged on error.
pub fn set(secrets: &mut Secrets, pair: &str, recipients: usize) -> (r: Result<String, SecretsError>)
    requires
        old(secrets).wf(),
    ensures
        final(secrets).wf(),
        match split_pair(pair@) {
            None => r == Err::<String, SecretsError>(SecretsError::ExpectedKeyValue) && *final(secrets) == *old(secrets),
            Some(p) => if recipients == 0 {
                r == Err::<String, SecretsError>(SecretsError::NoRecipients) && *final(secrets) == *old(secrets)
            } else {
                r matches Ok(k) && k@ == p.0 && forall|m: Map<Seq<char>, Seq<char>>|
                    old(secrets).holds(m) ==> #[trigger] final(secrets).holds(m.insert(p.0, p.1))
            },
        },
{
    let v = chars_of(pair);
    match split_pair_exec(&v) {
        Some((k, val)) => {
            if recipients == 0 {
                return Err(SecretsError::NoRecipients);
            }
            let key = k.clone();
            secrets.insert(k, val);
            Ok(key)
        },
        None => Err(SecretsError::ExpectedKeyValue),
    }
}

/// The `secrets unset` decision: there must be recipients to encrypt for;
/// then the key is removed, and the result says whether it was there.
pub fn unset(secrets: &mut Secrets, key: &str, recipients: usize) -> (r: Result<bool, SecretsError>)
    requires
        old(secrets).wf(),
    ensures
        final(secrets).wf(),
        recipients == 0 ==> r == Err::<bool, SecretsError>(SecretsError::NoRecipients) && *final(secrets) == *old(secrets),
        recipients > 0 ==> (r matches Ok(found) && forall|m: Map<Seq<char>, Seq<char>>|
            #[trigger] old(secrets).holds(m) ==> found == m.contains_key(key@) && final(secrets).holds(m.remove(key@))),
{
    if recipients == 0 {
        return Err(SecretsError::NoRecipients);
    }
    let found = secrets.remove(key);
    Ok(found)
}

/// A value masked for display: its first four characters and `****`, or
/// only `****` when it has four or fewer.
pub fn mask_value(value: &str) -> (r: String)
    ensures
        r@ == if value@.len() <= 4 {
            "****"@
        } else {
            value@.subrange(0, 4) + "****"@
        },
{
    let v = chars_of(value);
    if v.len() <= 4 {
        String::from_str("****")
    } else {
        let mut r = string_of_range(&v, 0, 4);
        push_all(&mut r, "****");
        r
    }
}

} // verus!
