//! The layered configuration: its data model, the documented default,
//! and the resolution of a run's sources — the legacy flat fields, or a
//! profile named on the command line.

use crate::error::FatalError;
use vstd::prelude::*;

verus! {

/// Tree-rendering settings for a project: its path and an optional depth
/// bound.
pub struct Project {
    pub path: String,
    pub tree_level: Option<u32>,
}

/// A self-contained set of files, directories and project settings.
pub struct Profile {
    pub files: Option<Vec<String>>,
    pub directories: Option<Vec<String>>,
    pub project: Option<Project>,
}

/// A profile under its configured name.
pub struct NamedProfile {
    pub name: String,
    pub profile: Profile,
}

/// The whole configuration: the legacy flat fields kept for backward
/// compatibility, plus the named profiles.
pub struct Config {
    pub files: Option<Vec<String>>,
    pub directories: Option<Vec<String>>,
    pub project: Option<Project>,
    pub profiles: Option<Vec<NamedProfile>>,
}

/// What one run works from: the explicit files, the directories to walk,
/// and the optional project whose tree is rendered.
pub struct Selection {
    pub files: Vec<String>,
    pub directories: Vec<String>,
    pub project: Option<Project>,
}

/// The paths of an optional list; empty when the list is absent.
pub open spec fn opt_paths(o: Option<Vec<String>>) -> Seq<Seq<char>> {
    match o {
        Option::Some(v) => v.deep_view(),
        Option::None => Seq::empty(),
    }
}

/// Whether some profile of `ps` bears `name`.
pub open spec fn has_profile(ps: Seq<NamedProfile>, name: Seq<char>) -> bool {
    exists|i: int| 0 <= i < ps.len() && ps[i].name@ == name
}

/// The index of the first profile of `ps` bearing `name`.
pub open spec fn profile_index(ps: Seq<NamedProfile>, name: Seq<char>) -> int
    decreases ps.len(),
{
    if ps.len() == 0 {
        0
    } else if ps[0].name@ == name {
        0
    } else {
        1 + profile_index(ps.skip(1), name)
    }
}

proof fn lemma_profile_index(ps: Seq<NamedProfile>, name: Seq<char>, i: int)
    requires
        0 <= i < ps.len(),
        ps[i].name@ == name,
        forall|k: int| 0 <= k < i ==> ps[k].name@ != name,
    ensures
        profile_index(ps, name) == i,
    decreases i,
{
    if i == 0 {
    } else {
        assert(ps[0].name@ != name);
        assert forall|k: int| 0 <= k < i - 1 implies ps.skip(1)[k].name@ != name by {
            assert(ps.skip(1)[k] == ps[k + 1]);
        }
        assert(ps.skip(1)[i - 1] == ps[i]);
        lemma_profile_index(ps.skip(1), name, i - 1);
    }
}

/// The list itself, or a fresh empty one when absent.
fn paths_or_empty(o: Option<Vec<String>>) -> (r: Vec<String>)
    ensures
        r.deep_view() == opt_paths(o),
{
    match o {
        Option::Some(v) => v,
        Option::None => {
            let r: Vec<String> = Vec::new();
            proof {
                assert(r.deep_view() =~= Seq::<Seq<char>>::empty());
            }
            r
        },
    }
}

/// Resolves what a run works from. With no profile named, the legacy
/// flat fields are taken, each treated as empty when absent. With a
/// profile named, that profile's fields are taken; a name with no
/// profiles defined, or one not among them, is fatal.
pub fn select_source(config: Config, profile_name: Option<String>) -> (r: Result<
    Selection,
    FatalError,
>)
    ensures
        profile_name is None ==> r is Ok && r->Ok_0.files.deep_view() == opt_paths(config.files)
            && r->Ok_0.directories.deep_view() == opt_paths(config.directories)
            && r->Ok_0.project == config.project,
        profile_name is Some && config.profiles is None ==> (r matches Result::Err(e) && e
            is NoProfiles),
        profile_name is Some && config.profiles is Some && !has_profile(
            config.profiles->0@,
            profile_name->0@,
        ) ==> (r matches Result::Err(e) && e matches FatalError::ProfileNotFound(n) && n@
            == profile_name->0@),
        profile_name is Some && config.profiles is Some && has_profile(
            config.profiles->0@,
            profile_name->0@,
        ) ==> r is Ok && {
            let p = config.profiles->0@[profile_index(
                config.profiles->0@,
                profile_name->0@,
            )].profile;
            r->Ok_0.files.deep_view() == opt_paths(p.files) && r->Ok_0.directories.deep_view()
                == opt_paths(p.directories) && r->Ok_0.project == p.project
        },
{
    if profile_name.is_none() {
        return Result::Ok(
            Selection {
                files: paths_or_empty(config.files),
                directories: paths_or_empty(config.directories),
                project: config.project,
            },
        );
    }
    let name = profile_name.unwrap();
    match config.profiles {
        Option::None => Result::Err(FatalError::NoProfiles),
        Option::Some(mut ps) => {
            let n = ps.len();
            let mut i: usize = 0;
            while i < n
                invariant
                    i <= n,
                    n == ps@.len(),
                    config.profiles is Some,
                    ps@ == config.profiles->0@,
                    profile_name is Some,
                    name@ == profile_name->0@,
                    forall|k: int| 0 <= k < i ==> ps@[k].name@ != name@,
                decreases n - i,
            {
                if ps[i].name == name {
                    proof {
                        lemma_profile_index(ps@, name@, i as int);
                        assert(has_profile(ps@, name@));
                    }
                    let np = ps.remove(i);
                    return Result::Ok(
                        Selection {
                            files: paths_or_empty(np.profile.files),
                            directories: paths_or_empty(np.profile.directories),
                            project: np.profile.project,
                        },
                    );
                }
                i += 1;
            }
            proof {
                assert(!has_profile(ps@, name@));
            }
            Result::Err(FatalError::ProfileNotFound(name))
        },
    }
}

/// Merges the explicit file entries with the files the walk found, in
/// that order. An empty merged set is fatal: the run has nothing to do.
pub fn resolved_file_set(explicit: Vec<String>, collected: Vec<String>) -> (r: Result<
    Vec<String>,
    FatalError,
>)
    ensures
        explicit@.len() + collected@.len() == 0 ==> (r matches Result::Err(e) && e
            is NoFilesResolved),
        explicit@.len() + collected@.len() > 0 ==> r is Ok && r->Ok_0.deep_view()
            == explicit.deep_view() + collected.deep_view(),
{
    let mut v = explicit;
    let mut c = collected;
    v.append(&mut c);
    if v.len() == 0 {
        Result::Err(FatalError::NoFilesResolved)
    } else {
        proof {
            assert(v.deep_view() =~= explicit.deep_view() + collected.deep_view());
        }
        Result::Ok(v)
    }
}

/// The default configuration document, written out on first run when no
/// configuration file exists yet.
pub open spec fn default_config_text_view() -> Seq<char> {
    "# Default configuration (used when no profile is specified)
files = [\"~/Desktop/my_test_file.txt\"]
directories = [\"~/example_dir\"]

[project]
path = \"\"
tree_level = 3

# Example profile configurations
[profiles.project1]
files = [\"~/project1/main.rs\"]
directories = [\"~/project1/src\"]

[profiles.project1.project]
path = \"~/project1\"
tree_level = 2

[profiles.project2]
files = [\"~/project2/app.js\"]
directories = [\"~/project2/lib\"]

[profiles.project2.project]
path = \"~/project2\"
tree_level = 3
"@
}

/// Renders the default configuration document.
pub fn default_config_text() -> (r: String)
    ensures
        r@ == default_config_text_view(),
{
    String::from_str(
        "# Default configuration (used when no profile is specified)
files = [\"~/Desktop/my_test_file.txt\"]
directories = [\"~/example_dir\"]

[project]
path = \"\"
tree_level = 3

# Example profile configurations
[profiles.project1]
files = [\"~/project1/main.rs\"]
directories = [\"~/project1/src\"]

[profiles.project1.project]
path = \"~/project1\"
tree_level = 2

[profiles.project2]
files = [\"~/project2/app.js\"]
directories = [\"~/project2/lib\"]

[profiles.project2.project]
path = \"~/project2\"
tree_level = 3
",
    )
}

/// A list holding the one path `s`.
fn one_path(s: &str) -> (r: Vec<String>)
    ensures
        r.deep_view() == seq![s@],
{
    let mut v: Vec<String> = Vec::new();
    v.push(String::from_str(s));
    proof {
        assert(v.deep_view() =~= seq![s@]);
    }
    v
}

/// The configuration that the default document describes, as data: the
/// legacy fields, the empty-path project, and the two example profiles.
pub fn default_config() -> (r: Config)
    ensures
        r.files is Some && r.files->0.deep_view() == seq!["~/Desktop/my_test_file.txt"@],
        r.directories is Some && r.directories->0.deep_view() == seq!["~/example_dir"@],
        r.project is Some && r.project->0.path@ == ""@ && r.project->0.tree_level == Option::Some(
            3u32,
        ),
        r.profiles is Some && r.profiles->0@.len() == 2,
        r.profiles->0@[0].name@ == "project1"@,
        r.profiles->0@[0].profile.files is Some && r.profiles->0@[0].profile.files->0.deep_view()
            == seq!["~/project1/main.rs"@],
        r.profiles->0@[0].profile.directories is Some
            && r.profiles->0@[0].profile.directories->0.deep_view() == seq!["~/project1/src"@],
        r.profiles->0@[0].profile.project is Some && r.profiles->0@[0].profile.project->0.path@
            == "~/project1"@ && r.profiles->0@[0].profile.project->0.tree_level == Option::Some(
            2u32,
        ),
        r.profiles->0@[1].name@ == "project2"@,
        r.profiles->0@[1].profile.files is Some && r.profiles->0@[1].profile.files->0.deep_view()
            == seq!["~/project2/app.js"@],
        r.profiles->0@[1].profile.directories is Some
            && r.profiles->0@[1].profile.directories->0.deep_view() == seq!["~/project2/lib"@],
        r.profiles->0@[1].profile.project is Some && r.profiles->0@[1].profile.project->0.path@
            == "~/project2"@ && r.profiles->0@[1].profile.project->0.tree_level == Option::Some(
            3u32,
        ),
{
    let profile1 = NamedProfile {
        name: String::from_str("project1"),
        profile: Profile {
            files: Option::Some(one_path("~/project1/main.rs")),
            directories: Option::Some(one_path("~/project1/src")),
            project: Option::Some(
                Project { path: String::from_str("~/project1"), tree_level: Option::Some(2u32) },
            ),
        },
    };
    let profile2 = NamedProfile {
        name: String::from_str("project2"),
        profile: Profile {
            files: Option::Some(one_path("~/project2/app.js")),
            directories: Option::Some(one_path("~/project2/lib")),
            project: Option::Some(
                Project { path: String::from_str("~/project2"), tree_level: Option::Some(3u32) },
            ),
        },
    };
    let mut profiles: Vec<NamedProfile> = Vec::new();
    profiles.push(profile1);
    profiles.push(profile2);
    Config {
        files: Option::Some(one_path("~/Desktop/my_test_file.txt")),
        directories: Option::Some(one_path("~/example_dir")),
        project: Option::Some(
            Project { path: String::from_str(""), tree_level: Option::Some(3u32) },
        ),
        profiles: Option::Some(profiles),
    }
}

/// The per-user directory that holds the configuration file.
pub fn config_dir_path(home: &str) -> (r: String)
    ensures
        r@ == home@ + "/fdllm"@,
{
    let mut s = String::from_str(home);
    s.append("/fdllm");
    s
}

/// The fixed per-user path of the configuration file.
pub fn config_file_path(home: &str) -> (r: String)
    ensures
        r@ == home@ + "/fdllm/config.toml"@,
{
    let mut s = String::from_str(home);
    s.append("/fdllm/config.toml");
    s
}

} // verus!
