//! The tools that are kept up to date, and where their releases are found.
use vstd::prelude::*;

use crate::platform;
use crate::platform::{get_exe_suffix, Platform};
use crate::template;
use crate::template::expand_template;
use crate::text;
use crate::text::{eq_ignore_case, join};

verus! {

/// One tool of the configuration. The templates may hold the variables
/// `{VERSION}`, `{OS}`, `{ARCH}`, `{TARGET}`, `{EXE}` and `{EXT}`.
#[derive(Debug, Clone)]
pub struct ToolDef {
    /// The name that is displayed, and that command line arguments give.
    pub name: String,
    /// Template of the file name of the installed executable.
    pub exe_name: String,
    /// The arguments with which the executable prints its version.
    pub version_args: Vec<String>,
    /// Regular expression with one capture group for the version in that output.
    pub version_regex: String,
    /// The GitHub repository, as `owner/repo`.
    pub repo: String,
    /// Template of the file name of the release asset.
    pub asset_template: String,
    /// Template of the entry to extract from the asset. Without it the asset
    /// itself is the executable.
    pub archive_entry_template: Option<String>,
}

/// Where GitHub serves an asset of a release.
pub open spec fn asset_url(repo: Seq<char>, version: Seq<char>, asset: Seq<char>) -> Seq<char> {
    "https://github.com/"@ + repo + "/releases/download/v"@ + version + "/"@ + asset
}

impl ToolDef {
    /// The file name of the asset of release `version`.
    pub open spec fn spec_asset_name(self, version: Seq<char>, p: Platform) -> Seq<char> {
        template::expanded(self.asset_template@, version, p)
    }

    /// The entry to extract from the asset of release `version`.
    pub open spec fn spec_archive_entry(self, version: Seq<char>, p: Platform) -> Option<
        Seq<char>,
    > {
        match self.archive_entry_template {
            Some(t) => Some(template::expanded(t@, version, p)),
            None => None,
        }
    }

    /// Where the asset of release `version` is downloaded from.
    pub open spec fn spec_download_url(self, version: Seq<char>, p: Platform) -> Seq<char> {
        asset_url(self.repo@, version, self.spec_asset_name(version, p))
    }

    /// The file name of the installed executable.
    pub open spec fn spec_exe_file(self, p: Platform) -> Seq<char> {
        template::expanded(self.exe_name@, ""@, p)
    }

    /// The file name of the asset of release `version`.
    pub fn asset_name(&self, version: &str, platform: &Platform) -> (r: String)
        ensures
            r@ == self.spec_asset_name(version@, *platform),
    {
        expand_template(self.asset_template.as_str(), version, platform)
    }

    /// The entry to extract from the asset of release `version`, if any.
    pub fn archive_entry(&self, version: &str, platform: &Platform) -> (r: Option<String>)
        ensures
            text::text_of(r) == self.spec_archive_entry(version@, *platform),
    {
        match &self.archive_entry_template {
            Some(t) => Some(expand_template(t.as_str(), version, platform)),
            None => None,
        }
    }

    /// Where the asset of release `version` is downloaded from.
    pub fn download_url(&self, version: &str, platform: &Platform) -> (r: String)
        ensures
            r@ == self.spec_download_url(version@, *platform),
    {
        let mut r: String = "https://github.com/".to_string();
        r.append(self.repo.as_str());
        r.append("/releases/download/v");
        r.append(version);
        r.append("/");
        r.append(self.asset_name(version, platform).as_str());
        r
    }

    /// The file name of the installed executable.
    pub fn exe_file(&self, platform: &Platform) -> (r: String)
        ensures
            r@ == self.spec_exe_file(*platform),
    {
        expand_template(self.exe_name.as_str(), "", platform)
    }
}

/// The repository of the updater itself: the one it was built for, if any.
pub fn get_own_repo(baked: Option<&str>) -> (r: String)
    ensures
        r@ == (match baked {
            Some(repo) => repo@,
            None => "Noob-Lol/clipdate"@,
        }),
{
    match baked {
        Some(repo) => repo.to_string(),
        None => "Noob-Lol/clipdate".to_string(),
    }
}

/// A tool is the updater itself: its assets are named
/// `clipdate_<version>_<os>_<arch>.<ext>` and hold the executable.
pub open spec fn is_own_tool(tool: ToolDef, repo: Seq<char>, windows: bool) -> bool {
    &&& tool.name@ == "clipdate"@
    &&& tool.exe_name@ == "clipdate"@ + platform::exe_suffix(windows)
    &&& tool.version_args@.len() == 0
    &&& tool.version_regex@ == ""@
    &&& tool.repo@ == repo
    &&& tool.asset_template@ == "clipdate_{VERSION}_{OS}_{ARCH}.{EXT}"@
    &&& text::text_of(tool.archive_entry_template) == Some(
        "clipdate"@ + platform::exe_suffix(windows),
    )
}

/// The updater itself as a tool.
pub fn own_tool(repo: &str, windows: bool) -> (r: ToolDef)
    ensures
        is_own_tool(r, repo@, windows),
{
    let mut exe: String = "clipdate".to_string();
    exe.append(get_exe_suffix(windows));
    ToolDef {
        name: "clipdate".to_string(),
        exe_name: exe.clone(),
        version_args: Vec::new(),
        version_regex: "".to_string(),
        repo: repo.to_string(),
        asset_template: "clipdate_{VERSION}_{OS}_{ARCH}.{EXT}".to_string(),
        archive_entry_template: Some(exe),
    }
}

/// A tool was asked for that the configuration does not name.
#[derive(Debug)]
pub struct UnknownTool {
    /// The name that was asked for.
    pub name: String,
    /// The names of the configuration, separated by commas.
    pub available: String,
}

impl UnknownTool {
    /// Tells the user.
    pub fn message(&self) -> (r: String)
        ensures
            r@ == "unknown tool '"@ + self.name@ + "'. Available: "@ + self.available@,
    {
        let mut r: String = "unknown tool '".to_string();
        r.append(self.name.as_str());
        r.append("'. Available: ");
        r.append(self.available.as_str());
        r
    }
}

/// `tools[i]` is the first tool that is named `name`, up to the case of letters.
pub open spec fn first_named(tools: Seq<ToolDef>, name: Seq<char>, i: int) -> bool {
    &&& 0 <= i < tools.len()
    &&& text::same_ignoring_case(tools[i].name@, name)
    &&& forall|j: int| 0 <= j < i ==> !text::same_ignoring_case(#[trigger] tools[j].name@, name)
}

/// No tool is named `name`.
pub open spec fn none_named(tools: Seq<ToolDef>, name: Seq<char>) -> bool {
    forall|j: int|
        0 <= j < tools.len() ==> !text::same_ignoring_case(#[trigger] tools[j].name@, name)
}

/// The names of the tools.
pub open spec fn names_of(tools: Seq<ToolDef>) -> Seq<Seq<char>> {
    tools.map_values(|t: ToolDef| t.name@)
}

/// The position of the first tool that is named `name`, up to the case of
/// letters.
pub fn find_tool(tools: &Vec<ToolDef>, name: &str) -> (r: Option<usize>)
    ensures
        match r {
            Some(i) => first_named(tools@, name@, i as int),
            None => none_named(tools@, name@),
        },
{
    let mut i: usize = 0;
    while i < tools.len()
        invariant
            i <= tools@.len(),
            forall|j: int|
                0 <= j < i ==> !text::same_ignoring_case(#[trigger] tools@[j].name@, name@),
        decreases tools@.len() - i,
    {
        if eq_ignore_case(tools[i].name.as_str(), name) {
            return Some(i);
        }
        i = i + 1;
    }
    None
}

/// The names of the tools, separated by commas.
fn available_names(tools: &Vec<ToolDef>) -> (r: String)
    ensures
        r@ == text::joined(names_of(tools@), ", "@),
{
    let mut names: Vec<String> = Vec::new();
    let mut i: usize = 0;
    while i < tools.len()
        invariant
            i <= tools@.len(),
            text::texts(names@) == names_of(tools@).take(i as int),
        decreases tools@.len() - i,
    {
        let ghost before = names@;
        names.push(tools[i].name.clone());
        assert(text::texts(names@) =~= text::texts(before).push(tools@[i as int].name@));
        assert(names_of(tools@).take(i + 1) =~= names_of(tools@).take(i as int).push(
            tools@[i as int].name@,
        ));
        i = i + 1;
    }
    assert(names_of(tools@).take(i as int) =~= names_of(tools@));
    join(&names, ", ")
}

/// The positions of the tools to update. Without names these are all tools, in
/// order; with names, for each of them the first tool that has it. The first
/// name that no tool has is an error.
pub fn select_tools(tools: &Vec<ToolDef>, names: &Vec<String>) -> (r: Result<
    Vec<usize>,
    UnknownTool,
>)
    ensures
        match r {
            Ok(chosen) => if names@.len() == 0 {
                chosen@ == Seq::new(tools@.len(), |i: int| i as usize)
            } else {
                &&& chosen@.len() == names@.len()
                &&& forall|k: int|
                    0 <= k < names@.len() ==> first_named(
                        tools@,
                        #[trigger] names@[k]@,
                        chosen@[k] as int,
                    )
            },
            Err(e) => exists|k: int|
                {
                    &&& 0 <= k < names@.len()
                    &&& e.name@ == #[trigger] names@[k]@
                    &&& none_named(tools@, names@[k]@)
                    &&& forall|j: int| 0 <= j < k ==> !none_named(tools@, #[trigger] names@[j]@)
                    &&& e.available@ == text::joined(names_of(tools@), ", "@)
                },
        },
        r is Err <==> exists|k: int|
            0 <= k < names@.len() && none_named(tools@, #[trigger] names@[k]@),
{
    let mut chosen: Vec<usize> = Vec::new();
    let mut k: usize = 0;
    if names.len() == 0 {
        while k < tools.len()
            invariant
                k <= tools.len(),
                chosen@ == Seq::new(k as nat, |i: int| i as usize),
            decreases tools@.len() - k,
        {
            chosen.push(k);
            k = k + 1;
        }
        return Ok(chosen);
    }
    while k < names.len()
        invariant
            k <= names@.len(),
            chosen@.len() == k,
            forall|j: int|
                0 <= j < k ==> first_named(tools@, #[trigger] names@[j]@, chosen@[j] as int),
        decreases names@.len() - k,
    {
        let name: &String = &names[k];
        match find_tool(tools, name.as_str()) {
            Some(i) => {
                chosen.push(i);
            },
            None => {
                assert(none_named(tools@, names@[k as int]@));
                assert forall|j: int| 0 <= j < k implies !none_named(
                    tools@,
                    #[trigger] names@[j]@,
                ) by {
                    let i = chosen@[j] as int;
                    assert(first_named(tools@, names@[j]@, i));
                    assert(text::same_ignoring_case(tools@[i].name@, names@[j]@));
                }
                return Err(UnknownTool { name: name.clone(), available: available_names(tools) });
            },
        }
        k = k + 1;
    }
    assert forall|j: int| 0 <= j < names@.len() implies !none_named(
        tools@,
        #[trigger] names@[j]@,
    ) by {
        let i = chosen@[j] as int;
        assert(first_named(tools@, names@[j]@, i));
        assert(text::same_ignoring_case(tools@[i].name@, names@[j]@));
    }
    Ok(chosen)
}

/// GitHub serves the assets of a release under its tag, which is the version with
/// `v` before it, on every machine.
pub proof fn assets_are_served_under_their_tag(tool: ToolDef, version: Seq<char>, p: Platform)
    ensures
        tool.spec_download_url(version, p) == "https://github.com/"@ + tool.repo@
            + "/releases/download/v"@ + version + "/"@ + tool.spec_asset_name(version, p),
{
}

/// The URLs of one release on two machines differ in the name of the asset only.
pub proof fn urls_of_a_release_differ_in_the_asset(
    tool: ToolDef,
    version: Seq<char>,
    p: Platform,
    q: Platform,
)
    ensures
        exists|common: Seq<char>|
            {
                &&& tool.spec_download_url(version, p) == #[trigger] (common
                    + tool.spec_asset_name(version, p))
                &&& tool.spec_download_url(version, q) == common + tool.spec_asset_name(version, q)
            },
{
    let common = "https://github.com/"@ + tool.repo@ + "/releases/download/v"@ + version + "/"@;
    assert(tool.spec_download_url(version, p) =~= common + tool.spec_asset_name(version, p));
    assert(tool.spec_download_url(version, q) =~= common + tool.spec_asset_name(version, q));
}

/// The names of the asset, of its entry and of the executable are what their
/// templates say; only the first two know the version.
pub proof fn names_follow_their_templates(
    tool: ToolDef,
    before: Seq<char>,
    after: Seq<char>,
    version: Seq<char>,
    p: Platform,
)
    requires
        template::brace_free(before),
        template::brace_free(after),
        template::brace_free(version),
        template::plain_platform(p),
    ensures
        tool.asset_template@ == before + "{VERSION}"@ + after ==> tool.spec_asset_name(version, p)
            == before + version + after,
        tool.archive_entry_template is None <==> tool.spec_archive_entry(version, p) is None,
        tool.archive_entry_template is Some && tool.archive_entry_template->0@ == before
            + "{VERSION}"@ + after ==> tool.spec_archive_entry(version, p) == Some(
            before + version + after,
        ),
        tool.exe_name@ == before + "{EXE}"@ + after ==> tool.spec_exe_file(p) == before + (
        if p.windows {
            ".exe"@
        } else {
            ""@
        }) + after,
        tool.asset_template@ == before ==> tool.spec_asset_name(version, p) == before,
        tool.exe_name@ == before ==> tool.spec_exe_file(p) == before,
        tool.archive_entry_template is Some && tool.archive_entry_template->0@ == before
            ==> tool.spec_archive_entry(version, p) == Some(before),
{
    template::each_variable_has_its_value(before, after, version, p);
    reveal_strlit("");
    template::each_variable_has_its_value(before, after, ""@, p);
    plain_template(before, version, p);
    plain_template(before, ""@, p);
}

proof fn plain_template(t: Seq<char>, version: Seq<char>, p: Platform)
    requires
        template::brace_free(t),
        template::brace_free(version),
        template::plain_platform(p),
    ensures
        template::expanded(t, version, p) == t,
{
    let pieces = seq![template::Piece::Text(t)];
    reveal_with_fuel(template::written, 3);
    reveal_with_fuel(template::filled, 3);
    assert(template::written(pieces) =~= t);
    assert(template::filled(pieces, version, p) =~= t);
    template::expansion_fills_the_pieces(pieces, version, p);
}

/// Each of the names is expanded from its template by the rules for templates, for
/// every template.
pub proof fn names_are_expansions(tool: ToolDef, version: Seq<char>, p: Platform)
    ensures
        tool.spec_asset_name(version, p) == template::expanded(tool.asset_template@, version, p),
        tool.archive_entry_template is Some ==> tool.spec_archive_entry(version, p) == Some(
            template::expanded(tool.archive_entry_template->0@, version, p),
        ),
        tool.spec_exe_file(p) == template::expanded(tool.exe_name@, ""@, p),
{
}

/// A tool that has the name that is asked for, in whatever case, is found; and what
/// is found has the name, and no tool before it does.
pub proof fn tools_are_found_by_name(tools: Seq<ToolDef>, name: Seq<char>, i: int, j: int)
    requires
        0 <= i < tools.len(),
        text::same_ignoring_case(tools[i].name@, name),
    ensures
        !none_named(tools, name),
        first_named(tools, name, j) ==> 0 <= j <= i && text::same_ignoring_case(
            tools[j].name@,
            name,
        ),
        (forall|k: int| 0 <= k < i ==> !text::same_ignoring_case(#[trigger] tools[k].name@, name))
            ==> first_named(tools, name, i),
        names_of(tools).len() == tools.len(),
        names_of(tools)[i] == tools[i].name@,
{
    assert(text::same_ignoring_case(tools[i].name@, name));
}

/// Where no tool has the name, none is found.
pub proof fn unnamed_tools_are_not_found(tools: Seq<ToolDef>, name: Seq<char>)
    requires
        forall|k: int|
            0 <= k < tools.len() ==> !text::same_ignoring_case(#[trigger] tools[k].name@, name),
    ensures
        none_named(tools, name),
        forall|j: int| !first_named(tools, name, j),
{
    assert forall|j: int| !first_named(tools, name, j) by {
        if first_named(tools, name, j) {
            assert(text::same_ignoring_case(tools[j].name@, name));
        }
    }
}

} // verus!
