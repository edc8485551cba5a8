//! Profiles: the built-in default, the ones stored by the user, and the
//! active one.
use vstd::prelude::*;
use crate::types::{Profile, is_default_profile};
use crate::text::{owned, str_eq, chars_of, string_from_chars, append_chars};

verus! {

/// The profiles offered: the built-in default first, then the stored ones
/// in the order given, leaving out any stored under the name "Default".
pub open spec fn offered_profiles(default: Profile, stored: Seq<Profile>) -> Seq<Profile> {
    seq![default] + stored.filter(not_default())
}

/// Profiles not named "Default".
pub open spec fn not_default() -> spec_fn(Profile) -> bool {
    |p: Profile| p.name@ != "Default"@
}

/// Puts the built-in default in front of the profiles read from disk.
pub fn list_profiles(stored: Vec<Profile>) -> (res: Vec<Profile>)
    ensures
        res@.len() >= 1,
        is_default_profile(res@[0]),
        res@ == offered_profiles(res@[0], stored@),
{
    let mut res: Vec<Profile> = Vec::new();
    let d = Profile::default();
    res.push(d);
    let ghost first = res@[0];
    let mut i: usize = 0;
    while i < stored.len()
        invariant
            i <= stored.len(),
            res@.len() >= 1,
            res@[0] == first,
            is_default_profile(first),
            res@ == seq![first] + stored@.take(i as int).filter(not_default()),
        decreases stored.len() - i,
    {
        let p = stored[i].clone();
        proof {
            reveal(Seq::filter);
            assert(stored@.take(i + 1).drop_last() == stored@.take(i as int));
            assert(stored@.take(i + 1).last() == p);
        }
        if !str_eq(p.name.as_str(), "Default") {
            res.push(p);
        }
        i = i + 1;
    }
    assert(stored@.take(stored@.len() as int) == stored@);
    res
}

/// The index of the first profile with this name, or the number of profiles
/// if none has it.
pub open spec fn index_of_profile(profiles: Seq<Profile>, name: Seq<char>) -> int
    decreases profiles.len(),
{
    if profiles.len() == 0 {
        0
    } else if profiles[0].name@ == name {
        0
    } else {
        1 + index_of_profile(profiles.skip(1), name)
    }
}

proof fn lemma_index_of_profile(profiles: Seq<Profile>, name: Seq<char>, i: int)
    requires
        0 <= i <= profiles.len(),
        forall|k: int| 0 <= k < i ==> profiles[k].name@ != name,
        i < profiles.len() ==> profiles[i].name@ == name,
    ensures
        index_of_profile(profiles, name) == i,
    decreases i,
{
    if i > 0 {
        lemma_index_of_profile(profiles.skip(1), name, i - 1);
    }
}

/// `Profile '<name>' not found`
pub open spec fn profile_not_found_message(name: Seq<char>) -> Seq<char> {
    "Profile '"@ + name + "' not found"@
}

/// The first profile with this name.
pub fn find_profile(profiles: &Vec<Profile>, name: &str) -> (res: Result<Profile, String>)
    ensures
        index_of_profile(profiles@, name@) < profiles@.len() ==> res == Ok::<Profile, String>(
            profiles@[index_of_profile(profiles@, name@)],
        ),
        index_of_profile(profiles@, name@) >= profiles@.len() ==> res is Err
            && res->Err_0@ == profile_not_found_message(name@),
{
    let mut i: usize = 0;
    while i < profiles.len()
        invariant
            i <= profiles.len(),
            forall|k: int| 0 <= k < i ==> profiles@[k].name@ != name@,
        decreases profiles.len() - i,
    {
        if str_eq(profiles[i].name.as_str(), name) {
            proof { lemma_index_of_profile(profiles@, name@, i as int); }
            return Ok(profiles[i].clone());
        }
        i = i + 1;
    }
    proof { lemma_index_of_profile(profiles@, name@, i as int); }
    let mut msg = chars_of("Profile '");
    append_chars(&mut msg, &chars_of(name));
    append_chars(&mut msg, &chars_of("' not found"));
    Err(string_from_chars(&msg))
}

pub open spec fn cannot_delete_default_message() -> Seq<char> {
    "Cannot delete the Default profile"@
}

/// Whether a profile may be deleted: every one but "Default".
pub fn check_deletable(name: &str) -> (res: Result<(), String>)
    ensures
        name@ == "Default"@ ==> res is Err && res->Err_0@ == cannot_delete_default_message(),
        name@ != "Default"@ ==> res is Ok,
{
    if str_eq(name, "Default") {
        return Err(owned("Cannot delete the Default profile"));
    }
    Ok(())
}

/// The profile in use.
pub struct ActiveProfile {
    pub profile: Profile,
}

impl ActiveProfile {
    /// Starts with the built-in default.
    pub fn new() -> (r: ActiveProfile)
        ensures
            is_default_profile(r.profile),
    {
        ActiveProfile { profile: Profile::default() }
    }

    /// Makes the first offered profile with this name the active one and
    /// returns it; the active profile stays when there is none.
    pub fn apply_profile(&mut self, offered: &Vec<Profile>, name: &str) -> (res: Result<Profile, String>)
        ensures
            index_of_profile(offered@, name@) < offered@.len() ==> res == Ok::<Profile, String>(
                offered@[index_of_profile(offered@, name@)],
            ) && final(self).profile == offered@[index_of_profile(offered@, name@)],
            index_of_profile(offered@, name@) >= offered@.len() ==> res is Err
                && res->Err_0@ == profile_not_found_message(name@) && final(self).profile == old(self).profile,
    {
        let found = find_profile(offered, name);
        match found {
            Ok(p) => {
                self.profile = p.clone();
                Ok(p)
            },
            Err(e) => Err(e),
        }
    }

    pub fn get_active_profile(&self) -> (r: Profile)
        ensures
            r == self.profile,
    {
        self.profile.clone()
    }
}

/// Applying a name that some offered profile has activates a profile with
/// exactly that name.
pub proof fn law_applied_profile_has_name(offered: Seq<Profile>, name: Seq<char>)
    ensures
        0 <= index_of_profile(offered, name) <= offered.len(),
        index_of_profile(offered, name) < offered.len() ==> offered[index_of_profile(offered, name)].name@ == name,
    decreases offered.len(),
{
    if offered.len() > 0 && offered[0].name@ != name {
        law_applied_profile_has_name(offered.skip(1), name);
        let j = index_of_profile(offered.skip(1), name);
        if j < offered.len() - 1 {
            assert(offered[1 + j] == offered.skip(1)[j]);
        }
    }
}

} // verus!
