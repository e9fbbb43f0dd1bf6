//! Names of the saved settings profiles.
use vstd::prelude::*;

verus! {

/// The extension that profile files carry.
pub open spec fn profile_extension() -> Seq<char> {
    ".toml"@
}

/// `text` ends with `suffix`.
pub open spec fn ends_with(text: Seq<char>, suffix: Seq<char>) -> bool {
    suffix.len() <= text.len() && text.subrange(text.len() - suffix.len(), text.len() as int)
        == suffix
}

/// Whether `name` ends with `suffix`.
fn text_ends_with(name: &str, suffix: &str) -> (found: bool)
    ensures
        found == ends_with(name@, suffix@),
{
    let n = name.unicode_len();
    let m = suffix.unicode_len();
    if m > n {
        return false;
    }
    let mut i: usize = 0;
    while i < m
        invariant
            m <= n,
            n == name@.len(),
            m == suffix@.len(),
            i <= m,
            forall|k: int| 0 <= k < i ==> name@[n - m + k] == suffix@[k],
        decreases m - i,
    {
        if name.get_char(n - m + i) != suffix.get_char(i) {
            assert(name@.subrange(n - m, n as int)[i as int] != suffix@[i as int]);
            return false;
        }
        i = i + 1;
    }
    assert(name@.subrange(n - m, n as int) =~= suffix@);
    true
}

/// Whether a file of this name is a settings profile.
pub fn is_profile_file(name: &str) -> (profile: bool)
    ensures
        profile == ends_with(name@, profile_extension()),
{
    text_ends_with(name, ".toml")
}

/// The file name for a new profile called `name`: none for an empty name;
/// otherwise the name, with the profile extension added when missing.
pub fn profile_file_name(name: &str) -> (file: Option<String>)
    ensures
        name@.len() == 0 ==> file is None,
        name@.len() > 0 ==> (file matches Some(f) && f@ == (if ends_with(name@, profile_extension()) {
            name@
        } else {
            name@ + profile_extension()
        })),
{
    if name.is_empty() {
        return None;
    }
    let mut file = name.to_owned();
    if !is_profile_file(name) {
        let extension = ".toml";
        proof {
            reveal_strlit(".toml");
        }
        file.append(extension);
    }
    Some(file)
}

/// A profile file name chosen by [`profile_file_name`] is itself a profile file.
pub proof fn law_new_profiles_are_profile_files(name: Seq<char>)
    requires
        name.len() > 0,
    ensures
        ends_with(
            if ends_with(name, profile_extension()) {
                name
            } else {
                name + profile_extension()
            },
            profile_extension(),
        ),
{
    reveal_strlit(".toml");
    if !ends_with(name, profile_extension()) {
        let joined = name + profile_extension();
        assert(joined.subrange(joined.len() - 5, joined.len() as int) =~= profile_extension());
    }
}

} // verus!
