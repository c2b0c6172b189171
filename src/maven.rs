//! The arguments of the maven invocations that install artifacts and build
//! the server projects.

use vstd::prelude::*;
use crate::build_data::BuildDataInfo;
use crate::command::str_views;
use crate::mapping::str_opt_view;
use crate::repo::SpigotVersion;
use crate::text::concat_str;

verus! {

/// What maven runs with: the release being built, its build configuration,
/// and the path of the maven launcher script.
pub struct MavenContext<'a> {
    pub spigot_version: &'a SpigotVersion,
    pub build_info: &'a BuildDataInfo,
    /// The path to the maven scripts that are used to run maven commands
    pub script_path: String,
}

/// The version an installed mapping file is published under.
pub open spec fn mapping_version(spigot_version: Option<Seq<char>>) -> Seq<char> {
    match spigot_version {
        Some(v) => v,
        None => "null"@,
    }
}

/// The version the mapped server jar is published under.
pub open spec fn jar_version(spigot_version: Option<Seq<char>>, minecraft_version: Seq<char>) -> Seq<
    char,
> {
    match spigot_version {
        Some(v) => v,
        None => minecraft_version + "-SNAPSHOT"@,
    }
}

impl<'a> MavenContext<'a> {
    /// The full argument list of a maven run: the build name property, then `args`.
    pub fn execute_args(&self, args: &[String]) -> (r: Vec<String>)
        ensures
            str_views(r@) == seq!["-Dbt.name="@ + self.spigot_version.name@] + str_views(args@),
    {
        let mut out: Vec<String> = Vec::new();
        out.push(concat_str("-Dbt.name=", self.spigot_version.name.as_str()));
        let mut k: usize = 0;
        while k < args.len()
            invariant
                k <= args.len(),
                str_views(out@) == seq!["-Dbt.name="@ + self.spigot_version.name@] + str_views(
                    args@,
                ).subrange(0, k as int),
            decreases args.len() - k,
        {
            let ghost before = str_views(out@);
            let a = args[k].clone();
            out.push(a);
            assert(str_views(out@) =~= before.push(args@[k as int]@));
            assert(str_views(args@).subrange(0, k + 1) =~= str_views(args@).subrange(
                0,
                k as int,
            ).push(args@[k as int]@));
            k = k + 1;
        }
        assert(str_views(args@).subrange(0, args.len() as int) =~= str_views(args@));
        out
    }

    /// The goal and properties that install a mapping file into the local
    /// repository.
    pub fn install_file_args(&self, file: &str, packaging: &str, classifier: &str) -> (r: Vec<
        String,
    >)
        ensures
            str_views(r@) == seq![
                "install:install-file"@,
                "-Dfile="@ + file@,
                "-Dpackaging="@ + packaging@,
                "-DgroupId=org.spigotmc"@,
                "-DartifactId=minecraft-server"@,
                "-Dversion="@ + mapping_version(str_opt_view(self.build_info.spigot_version)),
                "-Dclassifier="@ + classifier@,
                "-DgeneratePom=false"@,
            ],
    {
        let version_arg = match &self.build_info.spigot_version {
            Some(v) => v.as_str(),
            None => "null",
        };
        let mut out: Vec<String> = Vec::new();
        out.push("install:install-file".to_owned());
        out.push(concat_str("-Dfile=", file));
        out.push(concat_str("-Dpackaging=", packaging));
        out.push("-DgroupId=org.spigotmc".to_owned());
        out.push("-DartifactId=minecraft-server".to_owned());
        out.push(concat_str("-Dversion=", version_arg));
        out.push(concat_str("-Dclassifier=", classifier));
        out.push("-DgeneratePom=false".to_owned());
        assert(str_views(out@) =~= seq![
            "install:install-file"@,
            "-Dfile="@ + file@,
            "-Dpackaging="@ + packaging@,
            "-DgroupId=org.spigotmc"@,
            "-DartifactId=minecraft-server"@,
            "-Dversion="@ + mapping_version(str_opt_view(self.build_info.spigot_version)),
            "-Dclassifier="@ + classifier@,
            "-DgeneratePom=false"@,
        ]);
        out
    }

    /// The goal and properties that install the mapped server jar into the
    /// local repository.
    pub fn install_jar_args(&self, file: &str, bd_info: &BuildDataInfo) -> (r: Vec<String>)
        ensures
            str_views(r@) == seq![
                "install:install-file"@,
                "-Dfile="@ + file@,
                "-Dpackaging=jar"@,
                "-DgroupId=org.spigotmc"@,
                "-DartifactId=minecraft-server"@,
                "-Dversion="@ + jar_version(
                    str_opt_view(self.build_info.spigot_version),
                    bd_info.minecraft_version@,
                ),
            ],
    {
        let version_arg = match &self.build_info.spigot_version {
            Some(v) => v.clone(),
            None => concat_str(bd_info.minecraft_version.as_str(), "-SNAPSHOT"),
        };
        let mut out: Vec<String> = Vec::new();
        out.push("install:install-file".to_owned());
        out.push(concat_str("-Dfile=", file));
        out.push("-Dpackaging=jar".to_owned());
        out.push("-DgroupId=org.spigotmc".to_owned());
        out.push("-DartifactId=minecraft-server".to_owned());
        out.push(concat_str("-Dversion=", version_arg.as_str()));
        assert(str_views(out@) =~= seq![
            "install:install-file"@,
            "-Dfile="@ + file@,
            "-Dpackaging=jar"@,
            "-DgroupId=org.spigotmc"@,
            "-DartifactId=minecraft-server"@,
            "-Dversion="@ + jar_version(
                str_opt_view(self.build_info.spigot_version),
                bd_info.minecraft_version@,
            ),
        ]);
        out
    }

    /// The goals of a clean build and install.
    pub fn clean_install_args(&self) -> (r: Vec<String>)
        ensures
            str_views(r@) == seq!["clean"@, "install"@],
    {
        let mut out: Vec<String> = Vec::new();
        out.push("clean".to_owned());
        out.push("install".to_owned());
        assert(str_views(out@) =~= seq!["clean"@, "install"@]);
        out
    }
}

} // verus!
