//! Registered push-notification devices: one record per FCM token, with the
//! platform it reported and an optional iOS live-activity token.
//!
//! [`DeviceStore`] is the collection the daemon persists; the daemon wraps it
//! in a lock and writes it to disk after each change reported here.

use vstd::prelude::*;
use crate::text::{str_eq, trim, trim_string, trimmed_chars};

verus! {

#[derive(Debug, Clone)]
pub struct DeviceRecord {
    pub fcm_token: String,
    pub platform: String,
    pub live_activity_token: Option<String>,
}

/// The platform recorded when a device does not report one.
pub fn default_platform() -> (s: String)
    ensures
        s@ == "unknown"@,
{
    String::from_str("unknown")
}

impl DeviceRecord {
    /// A field-for-field copy.
    pub fn duplicate(&self) -> (r: Self)
        ensures
            r == *self,
    {
        DeviceRecord {
            fcm_token: self.fcm_token.clone(),
            platform: self.platform.clone(),
            live_activity_token: match &self.live_activity_token {
                Some(t) => Some(t.clone()),
                None => None,
            },
        }
    }
}

/// The live-activity token of a record, as text.
pub open spec fn lat_view(d: DeviceRecord) -> Option<Seq<char>> {
    match d.live_activity_token {
        Some(t) => Some(t@),
        None => None,
    }
}

/// Index of the first record whose FCM token is `token`.
pub open spec fn first_with_token(devs: Seq<DeviceRecord>, token: Seq<char>) -> Option<int>
    decreases devs.len(),
{
    if devs.len() == 0 {
        None
    } else {
        match first_with_token(devs.drop_last(), token) {
            Some(k) => Some(k),
            None => if devs.last().fcm_token@ == token {
                Some(devs.len() - 1)
            } else {
                None
            },
        }
    }
}

/// The records whose FCM token is not `token`, in order.
pub open spec fn without_token(devs: Seq<DeviceRecord>, token: Seq<char>) -> Seq<DeviceRecord>
    decreases devs.len(),
{
    if devs.len() == 0 {
        Seq::empty()
    } else if devs.last().fcm_token@ == token {
        without_token(devs.drop_last(), token)
    } else {
        without_token(devs.drop_last(), token).push(devs.last())
    }
}

/// FCM tokens of the records, in order.
pub open spec fn all_tokens(devs: Seq<DeviceRecord>) -> Seq<Seq<char>> {
    Seq::new(devs.len(), |i: int| devs[i].fcm_token@)
}

/// FCM tokens of the records whose platform is not `"ios"`, in order.
pub open spec fn non_ios_tokens(devs: Seq<DeviceRecord>) -> Seq<Seq<char>>
    decreases devs.len(),
{
    if devs.len() == 0 {
        Seq::empty()
    } else if devs.last().platform@ == "ios"@ {
        non_ios_tokens(devs.drop_last())
    } else {
        non_ios_tokens(devs.drop_last()).push(devs.last().fcm_token@)
    }
}

/// Live-activity tokens of the records that have one, in order.
pub open spec fn live_tokens(devs: Seq<DeviceRecord>) -> Seq<Seq<char>>
    decreases devs.len(),
{
    if devs.len() == 0 {
        Seq::empty()
    } else {
        match lat_view(devs.last()) {
            Some(t) => live_tokens(devs.drop_last()).push(t),
            None => live_tokens(devs.drop_last()),
        }
    }
}

/// Bytes `c` takes in UTF-8.
pub open spec fn utf8_width(c: char) -> nat {
    if (c as u32) < 0x80 {
        1
    } else if (c as u32) < 0x800 {
        2
    } else if (c as u32) < 0x10000 {
        3
    } else {
        4
    }
}

/// Bytes `s` takes in UTF-8 (what `str::len` reports).
pub open spec fn utf8_size(s: Seq<char>) -> nat
    decreases s.len(),
{
    if s.len() == 0 {
        0
    } else {
        utf8_size(s.drop_last()) + utf8_width(s.last())
    }
}

/// Whether `s` takes fewer than `n` bytes in UTF-8.
pub fn utf8_shorter_than(s: &Vec<char>, n: usize) -> (b: bool)
    ensures
        b == (utf8_size(s@) < n),
{
    if n == 0 {
        return false;
    }
    let mut total: usize = 0;
    let mut i: usize = 0;
    while i < s.len()
        invariant
            i <= s@.len(),
            total == utf8_size(s@.subrange(0, i as int)),
            total < n,
        decreases s.len() - i,
    {
        proof {
            lemma_prefix_last(s@, i as int);
        }
        let c = s[i];
        let u = c as u32;
        let w: usize = if u < 0x80 {
            1
        } else if u < 0x800 {
            2
        } else if u < 0x10000 {
            3
        } else {
            4
        };
        if w >= n - total {
            proof {
                lemma_utf8_size_grows(s@, i as int + 1);
            }
            return false;
        }
        total = total + w;
        i = i + 1;
    }
    assert(s@.subrange(0, s@.len() as int) =~= s@);
    true
}

proof fn lemma_utf8_size_grows(s: Seq<char>, i: int)
    requires
        0 <= i <= s.len(),
    ensures
        utf8_size(s.subrange(0, i)) <= utf8_size(s),
    decreases s.len() - i,
{
    if i < s.len() {
        lemma_prefix_last(s, i);
        lemma_utf8_size_grows(s, i + 1);
    } else {
        assert(s.subrange(0, i) =~= s);
    }
}

/// Why a registration was refused.
pub open spec fn register_refusal(token: Seq<char>) -> Option<Seq<char>> {
    let t = trim(token);
    if t.len() == 0 {
        Some("token must not be empty"@)
    } else if utf8_size(t) < 10 {
        Some("token too short"@)
    } else {
        None
    }
}

proof fn lemma_prefix_last<A>(s: Seq<A>, i: int)
    requires
        0 <= i < s.len(),
    ensures
        s.subrange(0, i + 1).drop_last() == s.subrange(0, i),
        s.subrange(0, i + 1).last() == s[i],
{
    assert(s.subrange(0, i + 1).drop_last() =~= s.subrange(0, i));
}

proof fn lemma_first_with_token_found(devs: Seq<DeviceRecord>, token: Seq<char>, k: int)
    requires
        0 <= k < devs.len(),
        devs[k].fcm_token@ == token,
        forall|j: int| 0 <= j < k ==> devs[j].fcm_token@ != token,
    ensures
        first_with_token(devs, token) == Some(k),
    decreases devs.len(),
{
    if k < devs.len() - 1 {
        lemma_first_with_token_found(devs.drop_last(), token, k);
    } else {
        lemma_first_with_token_absent(devs.drop_last(), token);
    }
}

proof fn lemma_first_with_token_absent(devs: Seq<DeviceRecord>, token: Seq<char>)
    requires
        forall|j: int| 0 <= j < devs.len() ==> devs[j].fcm_token@ != token,
    ensures
        first_with_token(devs, token) == None::<int>,
    decreases devs.len(),
{
    if devs.len() > 0 {
        lemma_first_with_token_absent(devs.drop_last(), token);
    }
}

/// No two records share an FCM token.
pub open spec fn tokens_distinct(devs: Seq<DeviceRecord>) -> bool {
    forall|i: int, j: int| 0 <= i < j < devs.len() ==> devs[i].fcm_token@ != devs[j].fcm_token@
}

proof fn lemma_first_with_token_spec(devs: Seq<DeviceRecord>, token: Seq<char>)
    ensures
        match first_with_token(devs, token) {
            Some(k) => 0 <= k < devs.len() && devs[k].fcm_token@ == token,
            None => forall|j: int| 0 <= j < devs.len() ==> devs[j].fcm_token@ != token,
        },
    decreases devs.len(),
{
    if devs.len() > 0 {
        let d = devs.drop_last();
        lemma_first_with_token_spec(d, token);
        assert forall|j: int| 0 <= j < d.len() implies devs[j] == d[j] by {}
    }
}

proof fn lemma_without_token_spec(devs: Seq<DeviceRecord>, token: Seq<char>)
    ensures
        forall|i: int| 0 <= i < without_token(devs, token).len() ==> without_token(devs, token)[i].fcm_token@ != token,
    decreases devs.len(),
{
    if devs.len() > 0 {
        lemma_without_token_spec(devs.drop_last(), token);
    }
}

/// The device records the daemon keeps.
#[derive(Debug, Clone)]
pub struct DeviceStore {
    pub devices: Vec<DeviceRecord>,
}

impl DeviceStore {
    /// An empty store.
    pub fn new() -> (s: Self)
        ensures
            s.devices@.len() == 0,
    {
        DeviceStore { devices: Vec::new() }
    }

    /// A store migrated from the legacy flat token list: one record per token,
    /// platform `"unknown"`, no live-activity token.
    pub fn from_legacy_tokens(tokens: Vec<String>) -> (s: Self)
        ensures
            s.devices@.len() == tokens@.len(),
            forall|i: int|
                0 <= i < tokens@.len() ==> (#[trigger] s.devices@[i]).fcm_token@ == tokens@[i]@
                    && s.devices@[i].platform@ == "unknown"@ && s.devices@[i].live_activity_token
                    is None,
    {
        let mut devices: Vec<DeviceRecord> = Vec::new();
        let mut i: usize = 0;
        while i < tokens.len()
            invariant
                i <= tokens@.len(),
                devices@.len() == i,
                forall|j: int|
                    0 <= j < i ==> (#[trigger] devices@[j]).fcm_token@ == tokens@[j]@
                        && devices@[j].platform@ == "unknown"@ && devices@[j].live_activity_token
                        is None,
            decreases tokens.len() - i,
        {
            devices.push(
                DeviceRecord {
                    fcm_token: tokens[i].clone(),
                    platform: default_platform(),
                    live_activity_token: None,
                },
            );
            i = i + 1;
        }
        DeviceStore { devices }
    }

    /// Index of the first record with FCM token `token`.
    pub fn position(&self, token: &str) -> (r: Option<usize>)
        ensures
            match first_with_token(self.devices@, token@) {
                Some(k) => r matches Some(u) && u as int == k && 0 <= k < self.devices@.len()
                    && self.devices@[k].fcm_token@ == token@,
                None => r == None::<usize>,
            },
    {
        let mut i: usize = 0;
        while i < self.devices.len()
            invariant
                i <= self.devices@.len(),
                forall|j: int| 0 <= j < i ==> self.devices@[j].fcm_token@ != token@,
            decreases self.devices.len() - i,
        {
            if str_eq(self.devices[i].fcm_token.as_str(), token) {
                proof {
                    lemma_first_with_token_found(self.devices@, token@, i as int);
                }
                return Some(i);
            }
            i = i + 1;
        }
        proof {
            lemma_first_with_token_absent(self.devices@, token@);
        }
        None
    }

    /// Register or update a device. The token is trimmed; an empty or short
    /// (under 10 bytes) token is refused. If a record with the token exists,
    /// its platform and live-activity token are replaced by those given (an
    /// absent one keeps the old value); otherwise a record is appended, with
    /// platform `"unknown"` when none is given.
    pub fn register(
        &mut self,
        token: &str,
        platform: Option<String>,
        live_activity_token: Option<String>,
    ) -> (r: Result<(), &'static str>)
        ensures
            match register_refusal(token@) {
                Some(msg) => r matches Err(e) && e@ == msg && final(self).devices@ == old(self).devices@,
                None => r is Ok && ({
                    let t = trim(token@);
                    match first_with_token(old(self).devices@, t) {
                        Some(k) => {
                            &&& final(self).devices@.len() == old(self).devices@.len()
                            &&& forall|j: int|
                                0 <= j < old(self).devices@.len() && j != k ==> #[trigger] final(self).devices@[j] == old(self).devices@[j]
                            &&& final(self).devices@[k].fcm_token@ == t
                            &&& final(self).devices@[k].platform@ == (match platform {
                                Some(p) => p@,
                                None => old(self).devices@[k].platform@,
                            })
                            &&& lat_view(final(self).devices@[k]) == (match live_activity_token {
                                Some(l) => Some(l@),
                                None => lat_view(old(self).devices@[k]),
                            })
                        },
                        None => {
                            &&& final(self).devices@.len() == old(self).devices@.len() + 1
                            &&& final(self).devices@.drop_last() == old(self).devices@
                            &&& final(self).devices@.last().fcm_token@ == t
                            &&& final(self).devices@.last().platform@ == (match platform {
                                Some(p) => p@,
                                None => "unknown"@,
                            })
                            &&& lat_view(final(self).devices@.last()) == (match live_activity_token {
                                Some(l) => Some(l@),
                                None => None,
                            })
                        },
                    }
                }),
            },
            tokens_distinct(old(self).devices@) ==> tokens_distinct(final(self).devices@),
            r is Ok ==> all_tokens(final(self).devices@).contains(trim(token@)),
    {
        let tc = trimmed_chars(token);
        if tc.len() == 0 {
            return Err("token must not be empty");
        }
        if utf8_shorter_than(&tc, 10) {
            return Err("token too short");
        }
        let t = trim_string(token);
        let ts = t.as_str();
        let pos = self.position(ts);
        match pos {
            Some(k) => {
                let mut rec = self.devices[k].duplicate();
                match platform {
                    Some(p) => {
                        rec.platform = p;
                    },
                    None => {},
                }
                match live_activity_token {
                    Some(l) => {
                        rec.live_activity_token = Some(l);
                    },
                    None => {},
                }
                let ghost before = self.devices@;
                let ghost recv = rec;
                self.devices.set(k, rec);
                assert(self.devices@ == before.update(k as int, recv));
                proof {
                    assert(all_tokens(self.devices@)[k as int] == t@);
                }
                Ok(())
            },
            None => {
                let p = match platform {
                    Some(p) => p,
                    None => default_platform(),
                };
                let ghost before = self.devices@;
                self.devices.push(
                    DeviceRecord { fcm_token: t, platform: p, live_activity_token: live_activity_token },
                );
                assert(self.devices@.drop_last() =~= before);
                proof {
                    lemma_first_with_token_spec(before, t@);
                    assert(all_tokens(self.devices@)[before.len() as int] == t@);
                }
                Ok(())
            },
        }
    }

    /// Remove every record with FCM token `token`; true when any was removed.
    pub fn remove(&mut self, token: &str) -> (changed: bool)
        ensures
            final(self).devices@ == without_token(old(self).devices@, token@),
            changed == (final(self).devices@.len() < old(self).devices@.len()),
            !all_tokens(final(self).devices@).contains(token@),
    {
        let ghost old_devs = self.devices@;
        let mut kept: Vec<DeviceRecord> = Vec::new();
        let mut i: usize = 0;
        while i < self.devices.len()
            invariant
                i <= self.devices@.len(),
                self.devices@ == old_devs,
                kept@ == without_token(old_devs.subrange(0, i as int), token@),
                kept@.len() <= i,
            decreases self.devices.len() - i,
        {
            proof {
                lemma_prefix_last(old_devs, i as int);
            }
            if !str_eq(self.devices[i].fcm_token.as_str(), token) {
                kept.push(self.devices[i].duplicate());
            }
            i = i + 1;
        }
        assert(old_devs.subrange(0, old_devs.len() as int) =~= old_devs);
        let changed = kept.len() < self.devices.len();
        self.devices = kept;
        proof {
            lemma_without_token_spec(old_devs, token@);
            assert forall|i: int| 0 <= i < self.devices@.len() implies all_tokens(self.devices@)[i] != token@ by {}
        }
        changed
    }

    /// Clear the live-activity token of every record holding `la_token`; true
    /// when any record changed.
    pub fn remove_live_activity_token(&mut self, la_token: &str) -> (changed: bool)
        ensures
            final(self).devices@.len() == old(self).devices@.len(),
            forall|i: int|
                0 <= i < old(self).devices@.len() ==> {
                    let o = old(self).devices@[i];
                    let n = #[trigger] final(self).devices@[i];
                    &&& n.fcm_token@ == o.fcm_token@
                    &&& n.platform@ == o.platform@
                    &&& lat_view(n) == (if lat_view(o) == Some(la_token@) {
                        None
                    } else {
                        lat_view(o)
                    })
                },
            changed == exists|i: int|
                0 <= i < old(self).devices@.len() && lat_view(old(self).devices@[i]) == Some(
                    la_token@,
                ),
    {
        let ghost old_devs = self.devices@;
        let mut changed = false;
        let mut i: usize = 0;
        while i < self.devices.len()
            invariant
                i <= self.devices@.len(),
                self.devices@.len() == old_devs.len(),
                forall|j: int|
                    i <= j < old_devs.len() ==> #[trigger] self.devices@[j] == old_devs[j],
                forall|j: int|
                    0 <= j < i ==> {
                        let o = old_devs[j];
                        let n = #[trigger] self.devices@[j];
                        &&& n.fcm_token@ == o.fcm_token@
                        &&& n.platform@ == o.platform@
                        &&& lat_view(n) == (if lat_view(o) == Some(la_token@) {
                            None
                        } else {
                            lat_view(o)
                        })
                    },
                changed == exists|j: int| 0 <= j < i && lat_view(old_devs[j]) == Some(la_token@),
            decreases self.devices.len() - i,
        {
            let matches = match &self.devices[i].live_activity_token {
                Some(t) => str_eq(t.as_str(), la_token),
                None => false,
            };
            if matches {
                let mut rec = self.devices[i].duplicate();
                rec.live_activity_token = None;
                self.devices.set(i, rec);
                changed = true;
            }
            i = i + 1;
        }
        changed
    }

    /// All FCM tokens, in record order.
    pub fn tokens(&self) -> (v: Vec<String>)
        ensures
            v@.map_values(|s: String| s@) == all_tokens(self.devices@),
    {
        let mut v: Vec<String> = Vec::new();
        let mut i: usize = 0;
        while i < self.devices.len()
            invariant
                i <= self.devices@.len(),
                v@.len() == i,
                forall|j: int| 0 <= j < i ==> (#[trigger] v@[j])@ == self.devices@[j].fcm_token@,
            decreases self.devices.len() - i,
        {
            v.push(self.devices[i].fcm_token.clone());
            i = i + 1;
        }
        assert(v@.map_values(|s: String| s@) =~= all_tokens(self.devices@));
        v
    }

    /// FCM tokens of the devices whose platform is not `"ios"`, in record order.
    pub fn android_tokens(&self) -> (v: Vec<String>)
        ensures
            v@.map_values(|s: String| s@) == non_ios_tokens(self.devices@),
    {
        let mut v: Vec<String> = Vec::new();
        let mut i: usize = 0;
        while i < self.devices.len()
            invariant
                i <= self.devices@.len(),
                v@.map_values(|s: String| s@) == non_ios_tokens(self.devices@.subrange(0, i as int)),
            decreases self.devices.len() - i,
        {
            proof {
                lemma_prefix_last(self.devices@, i as int);
            }
            if !str_eq(self.devices[i].platform.as_str(), "ios") {
                v.push(self.devices[i].fcm_token.clone());
            }
            i = i + 1;
            assert(v@.map_values(|s: String| s@) =~= non_ios_tokens(
                self.devices@.subrange(0, i as int),
            ));
        }
        assert(self.devices@.subrange(0, self.devices@.len() as int) =~= self.devices@);
        v
    }

    /// The live-activity tokens of the devices that have one, in record order.
    pub fn live_activity_tokens(&self) -> (v: Vec<String>)
        ensures
            v@.map_values(|s: String| s@) == live_tokens(self.devices@),
    {
        let mut v: Vec<String> = Vec::new();
        let mut i: usize = 0;
        while i < self.devices.len()
            invariant
                i <= self.devices@.len(),
                v@.map_values(|s: String| s@) == live_tokens(self.devices@.subrange(0, i as int)),
            decreases self.devices.len() - i,
        {
            proof {
                lemma_prefix_last(self.devices@, i as int);
            }
            match &self.devices[i].live_activity_token {
                Some(t) => v.push(t.clone()),
                None => {},
            }
            i = i + 1;
            assert(v@.map_values(|s: String| s@) =~= live_tokens(self.devices@.subrange(0, i as int)));
        }
        assert(self.devices@.subrange(0, self.devices@.len() as int) =~= self.devices@);
        v
    }
}

} // verus!
