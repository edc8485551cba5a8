//! Licence state: the cached licence, its freshness, and the machine id that
//! activation sends along.
use vstd::prelude::*;
use crate::types::{LicenseInfo, features_include};
use crate::text::{chars_of, append_chars, string_from_chars};
use hmac::Mac;

verus! {

/// How long a cached licence stays valid: 24 hours.
pub const CACHE_TTL_MS: u64 = 86_400_000;

/// A licence cached at `cached_at_ms` is still fresh at `now`.
pub open spec fn is_fresh(now: u64, cached_at_ms: u64) -> bool {
    (if now >= cached_at_ms { now - cached_at_ms } else { 0 }) < CACHE_TTL_MS
}

pub fn cache_is_fresh(now: u64, cached_at_ms: u64) -> (r: bool)
    ensures
        r == is_fresh(now, cached_at_ms),
{
    now.saturating_sub(cached_at_ms) < CACHE_TTL_MS
}

/// Two licence records that say the same: tier, validity, features, expiry
/// and the time they were cached.
pub open spec fn same_licence(a: LicenseInfo, b: LicenseInfo) -> bool {
    &&& a.tier == b.tier
    &&& a.valid == b.valid
    &&& a.features@ == b.features@
    &&& a.expires_ms == b.expires_ms
    &&& a.cached_at_ms == b.cached_at_ms
}

/// The licence in force at `now`: the one read from the cache file when it
/// is fresh, else the one held in memory.
pub open spec fn in_force(cached: LicenseInfo, from_disk: Option<LicenseInfo>, now: u64) -> LicenseInfo {
    match from_disk {
        Some(info) if is_fresh(now, info.cached_at_ms) => info,
        _ => cached,
    }
}

/// A licence the server returned, stamped with the time it was received.
pub open spec fn activated(info: LicenseInfo, now: u64) -> LicenseInfo {
    LicenseInfo { cached_at_ms: now, ..info }
}

/// The licence the application works with.
pub struct LicenseState {
    pub cached: LicenseInfo,
}

impl LicenseState {
    /// Starts on the free tier.
    pub fn new() -> (r: LicenseState)
        ensures
            r.cached.tier@ == "free"@,
            !r.cached.valid,
            r.cached.features@.len() == 0,
            r.cached.expires_ms is None,
            r.cached.cached_at_ms == 0,
    {
        LicenseState { cached: LicenseInfo::free() }
    }

    /// The licence in force at `now`; a fresh one read from the cache file
    /// also replaces the one held in memory.
    pub fn get_license_info(&mut self, from_disk: Option<LicenseInfo>, now: u64) -> (r: LicenseInfo)
        ensures
            same_licence(r, in_force(old(self).cached, from_disk, now)),
            same_licence(final(self).cached, in_force(old(self).cached, from_disk, now)),
            !(from_disk matches Some(info) && is_fresh(now, info.cached_at_ms)) ==> final(self).cached == old(self).cached,
    {
        if let Some(info) = from_disk {
            if cache_is_fresh(now, info.cached_at_ms) {
                self.cached = info.clone();
                return info;
            }
        }
        self.cached.clone()
    }

    /// Whether the licence in force at `now` grants `feature`; the licence
    /// held in memory is brought up to date as `get_license_info` does.
    pub fn has_feature(&mut self, from_disk: Option<LicenseInfo>, now: u64, feature: &str) -> (r: bool)
        ensures
            r == features_include(in_force(old(self).cached, from_disk, now).features@, feature@),
            same_licence(final(self).cached, in_force(old(self).cached, from_disk, now)),
    {
        let info = self.get_license_info(from_disk, now);
        info.has_feature(feature)
    }

    /// Takes the licence the server returned, stamped with the time `now`;
    /// it becomes the one held in memory and is returned for saving.
    pub fn activate_license(&mut self, info: LicenseInfo, now: u64) -> (r: LicenseInfo)
        ensures
            same_licence(r, activated(info, now)),
            same_licence(final(self).cached, activated(info, now)),
    {
        let mut info = info;
        info.cached_at_ms = now;
        self.cached = info.clone();
        info
    }

    /// Drops the licence: back to the free tier.
    pub fn deactivate_license(&mut self)
        ensures
            final(self).cached.tier@ == "free"@,
            !final(self).cached.valid,
            final(self).cached.features@.len() == 0,
            final(self).cached.expires_ms is None,
            final(self).cached.cached_at_ms == 0,
    {
        self.cached = LicenseInfo::free();
    }
}

/// What activation hands back is what is read back afterwards: with the
/// activated licence in memory, and the cache file either missing or holding
/// that same licence, the licence in force at any later time is the
/// activated one.
pub proof fn law_activation_read_back(
    held: LicenseInfo,
    info: LicenseInfo,
    t: u64,
    disk: Option<LicenseInfo>,
    now: u64,
)
    requires
        same_licence(held, activated(info, t)),
        disk matches Some(d) ==> same_licence(d, activated(info, t)),
    ensures
        same_licence(in_force(held, disk, now), activated(info, t)),
{
}

/// A licence activated at `t` is served from the cache for the following
/// 24 hours and no longer.
pub proof fn law_cache_lifetime(t: u64, now: u64)
    requires
        t <= now,
    ensures
        is_fresh(now, t) <==> now - t < CACHE_TTL_MS,
{
}

// ── Machine id ────────────────────────────────────────────────────────────────

pub open spec fn hex_digit(d: int) -> char {
    if d < 10 { (('0' as int) + d) as char } else { (('a' as int) + d - 10) as char }
}

/// Lower-case hexadecimal, two digits per byte, high nibble first.
pub open spec fn hex_lower(b: Seq<u8>) -> Seq<char>
    decreases b.len(),
{
    if b.len() == 0 {
        Seq::empty()
    } else {
        hex_lower(b.drop_last()).push(hex_digit(b.last() as int / 16)).push(hex_digit(b.last() as int % 16))
    }
}

/// Calls `hex::encode`, which writes each byte as two lower-case hexadecimal
/// digits, high nibble first.
#[verifier::external_body]
fn hex_encode(bytes: &[u8]) -> (r: String)
    ensures
        r@ == hex_lower(bytes@),
{
    hex::encode(bytes)
}

/// HMAC-SHA256 of `msg` under `key`.
pub uninterp spec fn hmac_sha256_spec(key: Seq<u8>, msg: Seq<u8>) -> Seq<u8>;

/// Computes HMAC-SHA256 with the `hmac` and `sha2` crates; the result is
/// named, not stated, and is 32 bytes long.
#[verifier::external_body]
fn hmac_sha256(key: &[u8], msg: &[u8]) -> (r: Vec<u8>)
    ensures
        r@ == hmac_sha256_spec(key@, msg@),
        r@.len() == 32,
{
    let mut mac = <hmac::Hmac<sha2::Sha256> as Mac>::new_from_slice(key).unwrap();
    mac.update(msg);
    mac.finalize().into_bytes().to_vec()
}

/// The key that the fallback machine id is derived with.
pub open spec fn machine_id_salt() -> Seq<u8> {
    "machine-id-salt"@.map_values(|c: char| c as u8)
}

/// The machine id: the MAC address in hexadecimal when there is one, else the
/// hexadecimal HMAC-SHA256, under a fixed salt, of `<user>-<host>` in UTF-8.
pub open spec fn machine_id(mac: Option<Seq<u8>>, user: Seq<char>, host: Seq<char>) -> Seq<char> {
    match mac {
        Some(m) => hex_lower(m),
        None => hex_lower(hmac_sha256_spec(machine_id_salt(), vstd::utf8::encode_utf8(user + "-"@ + host))),
    }
}

/// Derives the machine id from what the system reports: its MAC address if
/// it has one, and the user and host names.
pub fn machine_id_from(mac: Option<Vec<u8>>, user: &str, host: &str) -> (r: String)
    ensures
        r@ == machine_id(
            match mac {
                Some(m) => Some(m@),
                None => None,
            },
            user@,
            host@,
        ),
{
    match mac {
        Some(m) => hex_encode(m.as_slice()),
        None => {
            let mut input = chars_of(user);
            append_chars(&mut input, &chars_of("-"));
            append_chars(&mut input, &chars_of(host));
            let input_str = string_from_chars(&input);
            let salt = "machine-id-salt".as_bytes();
            proof {
                reveal_strlit("machine-id-salt");
                vstd::string::is_ascii_spec_bytes("machine-id-salt");
            }
            let msg = input_str.as_str().as_bytes();
            assert(input_str@ == user@ + "-"@ + host@);
            assert(msg@ == vstd::utf8::encode_utf8(user@ + "-"@ + host@));
            assert(vstd::string::is_ascii("machine-id-salt"));
            assert(salt@ == machine_id_salt());
            let digest = hmac_sha256(salt, msg);
            hex_encode(digest.as_slice())
        },
    }
}

} // verus!
