//! The administration answers: what this server is ("about") and status codes.
use vstd::prelude::*;

use crate::status::INTERNAL_SERVER_ERROR;
use crate::text::{lower, to_lowercase};

verus! {

/// A status code as HTTP has it: 100 to 999, else 500 (Internal Server Error).
pub open spec fn spec_status_code(code: u16) -> u16 {
    if 100 <= code < 1000 {
        code
    } else {
        INTERNAL_SERVER_ERROR
    }
}

/// The status code answered for a requested status code.
pub fn status_code_of(code: u16) -> (status: u16)
    ensures
        status == spec_status_code(code),
{
    if 100 <= code && code < 1000 {
        code
    } else {
        INTERNAL_SERVER_ERROR
    }
}

/// Version control information of the build.
#[derive(Debug)]
pub struct GitInfo {
    /// Commit ID.
    pub commit_id: String,
    /// Commit timestamp.
    pub commit_timestamp: String,
    /// Branch.
    pub branch: Option<String>,
    /// Tags.
    pub tags: Vec<String>,
    /// Whether the working tree was dirty.
    pub dirty: bool,
}

/// What is known of the build of this server.
#[derive(Debug)]
pub struct AboutInfo {
    /// Library version.
    pub version: String,
    /// Version control, if known.
    pub git: Option<GitInfo>,
    /// CPU architecture.
    pub cpu_arch: String,
    /// CPU pointer width.
    pub cpu_pointer_width: String,
    /// CPU endianness.
    pub cpu_endianness: String,
    /// CPU features.
    pub cpu_features: Vec<String>,
    /// Operating system.
    pub os: String,
    /// Target triple.
    pub triple: String,
    /// Compilation timestamp.
    pub timestamp: String,
    /// Compilation profile.
    pub profile: String,
    /// Optimization level.
    pub optimization_level: String,
    /// Compiler version.
    pub compiler_version: String,
    /// Compiler channel.
    pub compiler_channel: String,
    /// Compiler commit ID, if known.
    pub compiler_commit_id: Option<String>,
    /// Compiler commit date, if known.
    pub compiler_commit_date: Option<String>,
}

/// A "key: value" line.
pub open spec fn line(key: Seq<char>, value: Seq<char>) -> Seq<char> {
    key + ": "@ + value + "\n"@
}

/// Items joined with a separator.
pub open spec fn join_with(items: Seq<Seq<char>>, separator: Seq<char>) -> Seq<char>
    decreases items.len(),
{
    if items.len() == 0 {
        Seq::empty()
    } else if items.len() == 1 {
        items[0]
    } else {
        join_with(items.drop_last(), separator) + separator + items.last()
    }
}

/// Strings as plain values.
pub open spec fn texts(items: Seq<String>) -> Seq<Seq<char>> {
    items.map_values(|item: String| item@)
}

/// The version control section.
pub open spec fn git_section(git: GitInfo) -> Seq<char> {
    "\n"@ + line("git-commit-id"@, git.commit_id@) + line("git-commit-timestamp"@, git.commit_timestamp@) + match git.branch {
        Some(branch) => line("git-commit-branch"@, branch@),
        None => Seq::empty(),
    } + if git.tags@.len() > 0 {
        line("git-commit-tags"@, join_with(texts(git.tags@), ","@))
    } else {
        Seq::empty()
    } + "git-dirty: "@ + (if git.dirty {
        "true"@
    } else {
        "false"@
    }) + "]\n"@
}

/// The target section.
pub open spec fn target_section(info: AboutInfo) -> Seq<char> {
    "\n"@ + line("binary-cpu"@, info.cpu_arch@) + "binary-cpu-bits: "@ + info.cpu_pointer_width@ + "]\n"@ + line(
        "binary-cpu-endianness"@,
        lower(info.cpu_endianness@),
    ) + (if info.cpu_features@.len() > 0 {
        line("binary-cpu-features"@, join_with(texts(info.cpu_features@), ","@))
    } else {
        Seq::empty()
    }) + line("binary-os"@, info.os@) + line("binary-architecture"@, info.triple@)
}

/// The compilation and compiler sections.
pub open spec fn compiler_section(info: AboutInfo) -> Seq<char> {
    "\n"@ + line("compilation-timestamp"@, info.timestamp@) + line("compilation-profile"@, info.profile@) + line(
        "compilation-optimization-level"@,
        info.optimization_level@,
    ) + "\n"@ + "compiler: rustc\n"@ + line("compiler-version"@, info.compiler_version@) + line(
        "compiler-channel"@,
        lower(info.compiler_channel@),
    ) + match info.compiler_commit_id {
        Some(id) => line("compiler-git-commit-id"@, id@),
        None => Seq::empty(),
    } + match info.compiler_commit_date {
        Some(date) => line("compiler-git-commit-date"@, date@),
        None => Seq::empty(),
    }
}

/// The "about" text.
pub open spec fn spec_about(info: AboutInfo) -> Seq<char> {
    line("credence-lib"@, info.version@) + match info.git {
        Some(git) => git_section(git),
        None => Seq::empty(),
    } + target_section(info) + compiler_section(info)
}

/// A "key: value" line.
fn line_of(key: &str, value: &str) -> (text: String)
    ensures
        text@ == line(key@, value@),
{
    proof {
        reveal_strlit(": ");
        reveal_strlit("\n");
    }
    String::from_str(key).concat(": ").concat(value).concat("\n")
}

/// Items joined with a separator.
fn join_of(items: &Vec<String>, separator: &str) -> (joined: String)
    ensures
        joined@ == join_with(texts(items@), separator@),
{
    let mut joined = String::new();
    let mut i: usize = 0;
    assert(texts(items@.take(0)) =~= Seq::<Seq<char>>::empty());
    while i < items.len()
        invariant
            i <= items@.len(),
            joined@ == join_with(texts(items@.take(i as int)), separator@),
        decreases items@.len() - i,
    {
        proof {
            assert(texts(items@.take(i + 1)).drop_last() =~= texts(items@.take(i as int)));
            assert(texts(items@.take(i + 1)).last() == items@[i as int]@);
        }
        if i == 0 {
            joined = String::from_str(items[i].as_str());
        } else {
            joined = joined.concat(separator).concat(items[i].as_str());
        }
        i = i + 1;
    }
    assert(items@.take(items@.len() as int) =~= items@);
    joined
}

/// The version control section.
fn git_text(git: &GitInfo) -> (text: String)
    ensures
        text@ == git_section(*git),
{
    proof {
        reveal_strlit("\n");
        reveal_strlit(",");
        reveal_strlit("git-dirty: ");
        reveal_strlit("true");
        reveal_strlit("false");
        reveal_strlit("]\n");
    }
    let mut text = String::from_str("\n").concat(line_of("git-commit-id", git.commit_id.as_str()).as_str()).concat(
        line_of("git-commit-timestamp", git.commit_timestamp.as_str()).as_str(),
    );
    match &git.branch {
        Some(branch) => {
            text = text.concat(line_of("git-commit-branch", branch.as_str()).as_str());
        },
        None => {},
    }
    if git.tags.len() > 0 {
        text = text.concat(line_of("git-commit-tags", join_of(&git.tags, ",").as_str()).as_str());
    }
    let dirty = if git.dirty {
        "true"
    } else {
        "false"
    };
    text.concat("git-dirty: ").concat(dirty).concat("]\n")
}

/// The target section.
fn target_text(info: &AboutInfo) -> (text: String)
    ensures
        text@ == target_section(*info),
{
    proof {
        reveal_strlit("\n");
        reveal_strlit(",");
        reveal_strlit("binary-cpu-bits: ");
        reveal_strlit("]\n");
    }
    let mut text = String::from_str("\n").concat(line_of("binary-cpu", info.cpu_arch.as_str()).as_str()).concat(
        "binary-cpu-bits: ",
    ).concat(info.cpu_pointer_width.as_str()).concat("]\n").concat(
        line_of("binary-cpu-endianness", to_lowercase(info.cpu_endianness.as_str()).as_str()).as_str(),
    );
    if info.cpu_features.len() > 0 {
        text = text.concat(line_of("binary-cpu-features", join_of(&info.cpu_features, ",").as_str()).as_str());
    }
    text.concat(line_of("binary-os", info.os.as_str()).as_str()).concat(line_of("binary-architecture", info.triple.as_str()).as_str())
}

/// The compilation and compiler sections.
fn compiler_text(info: &AboutInfo) -> (text: String)
    ensures
        text@ == compiler_section(*info),
{
    proof {
        reveal_strlit("\n");
        reveal_strlit("compiler: rustc\n");
    }
    let mut text = String::from_str("\n").concat(line_of("compilation-timestamp", info.timestamp.as_str()).as_str()).concat(
        line_of("compilation-profile", info.profile.as_str()).as_str(),
    ).concat(line_of("compilation-optimization-level", info.optimization_level.as_str()).as_str()).concat("\n").concat(
        "compiler: rustc\n",
    ).concat(line_of("compiler-version", info.compiler_version.as_str()).as_str()).concat(
        line_of("compiler-channel", to_lowercase(info.compiler_channel.as_str()).as_str()).as_str(),
    );
    match &info.compiler_commit_id {
        Some(id) => {
            text = text.concat(line_of("compiler-git-commit-id", id.as_str()).as_str());
        },
        None => {},
    }
    match &info.compiler_commit_date {
        Some(date) => {
            text = text.concat(line_of("compiler-git-commit-date", date.as_str()).as_str());
        },
        None => {},
    }
    text
}

/// The "about" text: the library's version, then what is known of its build.
pub fn about_text(info: &AboutInfo) -> (text: String)
    ensures
        text@ == spec_about(*info),
{
    let mut text = line_of("credence-lib", info.version.as_str());
    match &info.git {
        Some(git) => {
            text = text.concat(git_text(git).as_str());
        },
        None => {},
    }
    text.concat(target_text(info).as_str()).concat(compiler_text(info).as_str())
}

} // verus!
