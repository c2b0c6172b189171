//! The source repositories a build needs, the commit references a release
//! names for them, and the release descriptions they come from.

use vstd::prelude::*;
use crate::text::{append_chars, chars_of, string_of};

verus! {

/// Commit references of the repositories of one release.
pub struct VersionRefs {
    pub build_data: String,
    pub bukkit: String,
    pub craft_bukkit: String,
    pub spigot: String,
}

/// A release description as published for each buildable version.
pub struct SpigotVersion {
    pub name: String,
    pub description: String,
    pub refs: VersionRefs,
    /// Information relating to the version
    pub information: Option<String>,
    /// Warnings for this version
    pub warning: Option<String>,
    pub tools_version: Option<u16>,
    pub java_versions: Option<Vec<u16>>,
}

/// The newest release and snapshot of the game.
pub struct LatestVersion {
    pub release: String,
    pub snapshot: String,
}

/// The kind of a game version in the version manifest.
#[derive(PartialEq, Eq, Structural, Clone, Copy, Debug)]
pub enum VersionType {
    Release,
    Snapshot,
    OldBeta,
    OldAlpha,
    Unknown,
}

/// The repositories that can be cloned for a build.
#[derive(PartialEq, Eq, Structural, Clone, Copy, Debug)]
pub enum Repo {
    BuildData,
    Spigot,
    Bukkit,
    CraftBukkit,
}

/// The git URL of a repository.
pub open spec fn repo_url(r: Repo) -> Seq<char> {
    match r {
        Repo::BuildData => "https://hub.spigotmc.org/stash/scm/spigot/builddata.git"@,
        Repo::Spigot => "https://hub.spigotmc.org/stash/scm/spigot/spigot.git"@,
        Repo::Bukkit => "https://hub.spigotmc.org/stash/scm/spigot/bukkit.git"@,
        Repo::CraftBukkit => "https://hub.spigotmc.org/stash/scm/spigot/craftbukkit.git"@,
    }
}

/// The name of a repository.
pub open spec fn repo_name(r: Repo) -> Seq<char> {
    match r {
        Repo::BuildData => "BuildData"@,
        Repo::Spigot => "Spigot"@,
        Repo::Bukkit => "Bukkit"@,
        Repo::CraftBukkit => "CraftBukkit"@,
    }
}

/// The commit reference that `refs` names for a repository.
pub open spec fn repo_ref(r: Repo, refs: VersionRefs) -> Seq<char> {
    match r {
        Repo::BuildData => refs.build_data@,
        Repo::Spigot => refs.spigot@,
        Repo::Bukkit => refs.bukkit@,
        Repo::CraftBukkit => refs.craft_bukkit@,
    }
}

impl Repo {
    /// The git URL of this repository.
    pub fn get_url(&self) -> (r: &'static str)
        ensures
            r@ == repo_url(*self),
    {
        match self {
            Repo::BuildData => "https://hub.spigotmc.org/stash/scm/spigot/builddata.git",
            Repo::Spigot => "https://hub.spigotmc.org/stash/scm/spigot/spigot.git",
            Repo::Bukkit => "https://hub.spigotmc.org/stash/scm/spigot/bukkit.git",
            Repo::CraftBukkit => "https://hub.spigotmc.org/stash/scm/spigot/craftbukkit.git",
        }
    }

    /// The git URL of this repository.
    pub fn get_repo_url(&self) -> (r: &'static str)
        ensures
            r@ == repo_url(*self),
    {
        self.get_url()
    }

    /// The commit reference that `refs` names for this repository.
    pub fn get_commit_ref<'a>(&self, refs: &'a VersionRefs) -> (r: &'a str)
        ensures
            r@ == repo_ref(*self, *refs),
    {
        match self {
            Repo::BuildData => refs.build_data.as_str(),
            Repo::Spigot => refs.spigot.as_str(),
            Repo::Bukkit => refs.bukkit.as_str(),
            Repo::CraftBukkit => refs.craft_bukkit.as_str(),
        }
    }

    /// The commit reference that `refs` names for this repository.
    pub fn get_repo_ref<'a>(&self, refs: &'a VersionRefs) -> (r: &'a str)
        ensures
            r@ == repo_ref(*self, *refs),
    {
        self.get_commit_ref(refs)
    }

    /// The repository written as `NAME(URL)`.
    pub fn label(&self) -> (r: String)
        ensures
            r@ == repo_name(*self) + "("@ + repo_url(*self) + ")"@,
    {
        let name = match self {
            Repo::BuildData => "BuildData",
            Repo::Spigot => "Spigot",
            Repo::Bukkit => "Bukkit",
            Repo::CraftBukkit => "CraftBukkit",
        };
        let mut out = chars_of(name);
        append_chars(&mut out, &chars_of("("));
        append_chars(&mut out, &chars_of(self.get_url()));
        append_chars(&mut out, &chars_of(")"));
        string_of(&out)
    }
}

} // verus!
