//! Where tools are installed, and what an update may have left there.
use vstd::prelude::*;

use crate::text;
use crate::text::{ends_with, to_chars};
use crate::update;
use crate::update::Job;

verus! {

/// The directory that tools are installed in unless another one is given, as the
/// parts of a path, each below the one before it: on Windows that of Chocolatey
/// or, without it, one in the user's profile; elsewhere one in the home
/// directory; and `bin` where none of these is known.
pub open spec fn install_parts(
    windows: bool,
    chocolatey: Option<Seq<char>>,
    profile: Option<Seq<char>>,
    home: Option<Seq<char>>,
) -> Seq<Seq<char>> {
    if windows && chocolatey is Some {
        seq![chocolatey->0, "bin"@]
    } else if windows && profile is Some {
        seq![profile->0, ".local"@, "bin"@]
    } else if !windows && home is Some {
        seq![home->0, ".local"@, "bin"@]
    } else {
        seq!["bin"@]
    }
}

/// The directory that tools are installed in unless another one is given, as the
/// parts of a path.
pub fn default_install_dir(
    windows: bool,
    chocolatey: Option<String>,
    profile: Option<String>,
    home: Option<String>,
) -> (r: Vec<String>)
    ensures
        text::texts(r@) == install_parts(
            windows,
            text::text_of(chocolatey),
            text::text_of(profile),
            text::text_of(home),
        ),
{
    let mut parts: Vec<String> = Vec::new();
    if windows {
        match chocolatey {
            Some(dir) => {
                parts.push(dir);
                parts.push("bin".to_string());
                assert(text::texts(parts@) =~= seq![dir@, "bin"@]);
                return parts;
            },
            None => {},
        }
    }
    match if windows {
        profile
    } else {
        home
    } {
        Some(dir) => {
            parts.push(dir);
            parts.push(".local".to_string());
            parts.push("bin".to_string());
            assert(text::texts(parts@) =~= seq![dir@, ".local"@, "bin"@]);
        },
        None => {
            parts.push("bin".to_string());
            assert(text::texts(parts@) =~= seq!["bin"@]);
        },
    }
    parts
}

/// The configuration that is read unless another one is given, as the parts of a
/// path: `tools.json` in the directory of the program, or in the current one where
/// that is not known.
pub open spec fn config_parts(dir: Option<Seq<char>>) -> Seq<Seq<char>> {
    match dir {
        Some(d) => seq![d, "tools.json"@],
        None => seq!["tools.json"@],
    }
}

/// The configuration that is read unless another one is given, as the parts of a
/// path.
pub fn default_config_parts(dir: Option<String>) -> (r: Vec<String>)
    ensures
        text::texts(r@) == config_parts(text::text_of(dir)),
{
    let mut parts: Vec<String> = Vec::new();
    if let Some(d) = dir {
        parts.push(d);
    }
    parts.push("tools.json".to_string());
    assert(text::texts(parts@) =~= config_parts(text::text_of(dir)));
    parts
}

/// A file name with the extension `old`.
pub open spec fn leftover(file_name: Seq<char>) -> bool {
    text::has_suffix(file_name, ".old"@) && file_name.len() > 4
}

/// Whether a file in the directory of the tools is left over from an update: its
/// name has the extension `old`.
pub fn is_leftover(file_name: &str) -> (r: bool)
    ensures
        r == leftover(file_name@),
{
    ends_with(file_name, ".old") && to_chars(file_name).len() > 4
}

/// The former executable, where an update could not remove it, is taken for a
/// leftover; the new one beside the installed one is not.
pub proof fn former_executable_is_leftover(job: Job)
    requires
        job.tool.spec_exe_file(job.platform).len() > 0,
    ensures
        leftover(update::old_file(job)),
        !leftover(update::tmp_file(job)),
{
    reveal_strlit(".old");
    reveal_strlit(".tmp");
    let old = update::old_file(job);
    let tmp = update::tmp_file(job);
    assert(old.subrange(old.len() - 4, old.len() as int) =~= ".old"@);
    assert(tmp.subrange(tmp.len() - 4, tmp.len() as int)[1] == 't');
    assert(".old"@[1] == 'o');
}

/// Tools are installed in the directory that the system is known for; each variable
/// counts only on its own system, and only where nothing comes before it.
pub proof fn tools_have_their_place(
    chocolatey: Seq<char>,
    profile: Seq<char>,
    home: Seq<char>,
    any: Option<Seq<char>>,
    other: Option<Seq<char>>,
)
    ensures
        install_parts(true, Some(chocolatey), any, other) == seq![chocolatey, "bin"@],
        install_parts(true, None, Some(profile), any) == seq![profile, ".local"@, "bin"@],
        install_parts(true, None, None, any) == seq!["bin"@],
        install_parts(false, any, other, Some(home)) == seq![home, ".local"@, "bin"@],
        install_parts(false, any, other, None) == seq!["bin"@],
        config_parts(Some(home)) == seq![home, "tools.json"@],
        config_parts(None) == seq!["tools.json"@],
{
}

/// A file is a leftover exactly where its name is some stem and the extension
/// `old`.
pub proof fn leftovers_have_a_stem(name: Seq<char>)
    ensures
        leftover(name) <==> exists|stem: Seq<char>|
            stem.len() > 0 && name == #[trigger] (stem + ".old"@),
{
    reveal_strlit(".old");
    text::suffixes_stand_at_the_end(name, name, ".old"@);
    if leftover(name) {
        let stem = choose|stem: Seq<char>| name == #[trigger] (stem + ".old"@);
        assert(stem.len() > 0);
    }
}

} // verus!
