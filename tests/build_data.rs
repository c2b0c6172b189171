use jars::build_data::{replace_dir_names, select_server_hash, BuildDataInfo, ServerHash};
use jars::hash::{mappings_hash, HashType};
use jars::maven::MavenContext;
use jars::repo::{Repo, SpigotVersion, VersionRefs};
use jars::patches::{parse_patch, patch_target, patch_text, Hunk, HunkLine, PatchError, PatchFile};

const JAR_URL: &str = "https://piston-data.mojang.com/v1/objects/8dd1a28015f51b1803213892b50b7b4fc76e594d/server.jar";

#[test]
fn default_build_data_is_legacy_config() {
    let info = BuildDataInfo::default();
    assert_eq!(info.minecraft_version, "1.8");
    assert_eq!(info.class_mappings, "bukkit-1.8-cl.csrg");
    assert_eq!(info.member_mappings.as_deref(), Some("bukkit-1.8-members.csrg"));
    assert_eq!(info.package_mappings.as_deref(), Some("package.srg"));
    assert!(info.server_url.is_none());
    assert_eq!(
        info.get_download_url(),
        "https://s3.amazonaws.com/Minecraft.Download/versions/1.8/minecraft_server.1.8.jar"
    );
    assert!(info.get_server_hash().is_none());
    BuildDataInfo::is_hash_match();
}

#[test]
fn server_url_wins_for_download_and_hash() {
    let mut info = BuildDataInfo::default();
    info.server_url = Some(JAR_URL.to_string());
    info.minecraft_hash = Some("abc".to_string());
    assert_eq!(info.get_download_url(), JAR_URL);
    match info.get_server_hash() {
        Some(ServerHash::SHA1(h)) => assert_eq!(h, "8dd1a28015f51b1803213892b50b7b4fc76e594d"),
        _ => panic!("expected the digest of the url"),
    }
    info.server_url = Some("https://example.com/server.jar".to_string());
    match info.get_server_hash() {
        Some(ServerHash::MD5(h)) => assert_eq!(h, "abc"),
        _ => panic!("expected the configured hash"),
    }
}

#[test]
fn hash_from_url() {
    assert_eq!(
        BuildDataInfo::get_hash_from_url("https://launcher.mojang.com/v1/objects/0123456789abcdef0123456789abcdef01234567/server.jar"),
        Some("0123456789abcdef0123456789abcdef01234567".to_string())
    );
    assert_eq!(BuildDataInfo::get_hash_from_url("https://launcher.mojang.com/v1/objects/short/server.jar"), None);
}

#[test]
fn select_hash_prefers_url_digest() {
    let mc = Some("m".to_string());
    assert!(matches!(select_server_hash(Some("u".to_string()), &mc), Some(ServerHash::SHA1(h)) if h == "u"));
    assert!(matches!(select_server_hash(None, &mc), Some(ServerHash::MD5(h)) if h == "m"));
    assert!(select_server_hash(None, &None).is_none());
}

#[test]
fn hashes_match_known_digests() {
    let data = b"hello";
    assert!(HashType::MD5.is_match("5d41402abc4b2a76b9719d911017c592", data));
    assert!(HashType::SHA1.is_match("aaf4c61ddcc5e8a2dabede0f3b482cd9aea9434d", data));
    assert!(HashType::SHA256.is_match("2cf24dba5fb0a30e26e83b2ac5b9e29e1b161e5c1fa7425e73043362938b9824", data));
    assert!(!HashType::MD5.is_match("hello", data));
    assert!(!HashType::SHA1.is_match("5d41402abc4b2a76b9719d911017c592", data));
    assert!(!HashType::SHA256.is_match("", data));
}

#[test]
fn mappings_hash_is_md5_tail() {
    assert_eq!(mappings_hash("hello"), "1017c592");
}

#[test]
fn directory_names_replaced() {
    assert_eq!(
        replace_dir_names("java -jar BuildData/bin/SpecialSource.jar map"),
        "java -jar build/build_data/bin/SpecialSource.jar map"
    );
    assert_eq!(
        replace_dir_names("CraftBukkit/a Bukkit/b Spigot/c"),
        "build/craftbukkit/a build/bukkit/b build/spigot/c"
    );
    assert_eq!(replace_dir_names("nothing here"), "nothing here");
}

fn refs() -> VersionRefs {
    VersionRefs {
        build_data: "059e48d0b4666138c4a8330ee38310d74824a848".to_string(),
        bukkit: "b".to_string(),
        craft_bukkit: "cb".to_string(),
        spigot: "s".to_string(),
    }
}

#[test]
fn repository_urls_and_refs() {
    let r = refs();
    assert_eq!(Repo::BuildData.get_url(), "https://hub.spigotmc.org/stash/scm/spigot/builddata.git");
    assert_eq!(Repo::CraftBukkit.get_repo_url(), "https://hub.spigotmc.org/stash/scm/spigot/craftbukkit.git");
    assert_eq!(Repo::BuildData.get_commit_ref(&r), "059e48d0b4666138c4a8330ee38310d74824a848");
    assert_eq!(Repo::Bukkit.get_repo_ref(&r), "b");
    assert_eq!(Repo::CraftBukkit.get_commit_ref(&r), "cb");
    assert_eq!(Repo::Spigot.get_commit_ref(&r), "s");
    assert_eq!(Repo::Spigot.label(), "Spigot(https://hub.spigotmc.org/stash/scm/spigot/spigot.git)");
}

#[test]
fn maven_arguments() {
    let version = SpigotVersion {
        name: "3456".to_string(),
        description: String::new(),
        refs: refs(),
        information: None,
        warning: None,
        tools_version: Some(149),
        java_versions: None,
    };
    let mut info = BuildDataInfo::default();
    let ctx = MavenContext { spigot_version: &version, build_info: &info, script_path: "mvn".to_string() };
    assert_eq!(ctx.execute_args(&["clean".to_string()]), vec!["-Dbt.name=3456", "clean"]);
    assert_eq!(ctx.clean_install_args(), vec!["clean", "install"]);
    assert_eq!(
        ctx.install_file_args("f.csrg", "csrg", "maps-spigot"),
        vec![
            "install:install-file",
            "-Dfile=f.csrg",
            "-Dpackaging=csrg",
            "-DgroupId=org.spigotmc",
            "-DartifactId=minecraft-server",
            "-Dversion=null",
            "-Dclassifier=maps-spigot",
            "-DgeneratePom=false",
        ]
    );
    assert_eq!(
        ctx.install_jar_args("m.jar", &info),
        vec![
            "install:install-file",
            "-Dfile=m.jar",
            "-Dpackaging=jar",
            "-DgroupId=org.spigotmc",
            "-DartifactId=minecraft-server",
            "-Dversion=1.8-SNAPSHOT",
        ]
    );
    info.spigot_version = Some("1.19-R0.1".to_string());
    let ctx = MavenContext { spigot_version: &version, build_info: &info, script_path: "mvn".to_string() };
    assert_eq!(ctx.install_jar_args("m.jar", &info)[5], "-Dversion=1.19-R0.1");
    assert_eq!(ctx.install_file_args("f", "txt", "maps-mojang")[5], "-Dversion=1.19-R0.1");
}

const DIFF: &str = "--- a/net/minecraft/Foo.java\n+++ b/net/minecraft/Foo.java\n@@ -2,2 +2,3 @@\n two\n-three\n+THREE\n+three and a half\n";

#[test]
fn patches_apply_to_text() {
    let patch = parse_patch(DIFF).expect("a valid diff");
    assert_eq!(patch.old_path, "a/net/minecraft/Foo.java");
    assert_eq!(patch.hunks.len(), 1);
    assert_eq!(patch.hunks[0].old_start, 2);
    assert_eq!(patch.hunks[0].old_count, 2);
    assert_eq!(patch_target(&patch.old_path).ok().as_deref(), Some("net/minecraft/Foo.java"));
    assert!(matches!(patch_target("a/"), Err(PatchError::InvalidPath)));
    let out = patch_text("one\ntwo\nthree\nfour\n", &patch).ok().expect("patched");
    assert_eq!(out, "one\ntwo\nTHREE\nthree and a half\nfour");
}

#[test]
fn patches_out_of_range_are_invalid() {
    let far = PatchFile {
        old_path: "a/x".to_string(),
        hunks: vec![Hunk { old_start: 10, old_count: 1, lines: vec![HunkLine::Add("x".to_string())] }],
    };
    assert!(matches!(patch_text("one\ntwo", &far), Err(PatchError::Invalid)));
    let zero = PatchFile {
        old_path: "a/x".to_string(),
        hunks: vec![Hunk { old_start: 0, old_count: 0, lines: vec![HunkLine::Add("x".to_string())] }],
    };
    assert!(matches!(patch_text("one", &zero), Err(PatchError::Invalid)));
    let none = PatchFile { old_path: "a/x".to_string(), hunks: vec![] };
    assert_eq!(patch_text("one\r\ntwo\n", &none).ok().as_deref(), Some("one\ntwo"));
    assert!(parse_patch("not a diff").is_none());
}

#[test]
fn diffs_outside_the_plain_form_are_refused() {
    let header = "--- a/x\n+++ b/x\n";
    // accepted: hunks, the no-newline marker, trailing empty lines
    assert!(parse_patch(&format!("{header}@@ -1 +1 @@\n-a\n+b\n\\ No newline at end of file\n\n")).is_some());
    assert!(parse_patch(&format!("preamble\n{header}@@ -1,1 +1,1 @@ hint\n a\n@@ -3 +3 @@\n-c\n")).is_some());
    // last line without a line ending
    assert!(parse_patch(&format!("{header}@@ -1 +1 @@\n-a\n+b")).is_none());
    // a line that is no hunk line after the hunk
    assert!(parse_patch(&format!("{header}@@ -1 +1 @@\n-a\nstray\n")).is_none());
    // a second file
    assert!(parse_patch(&format!("{header}@@ -1 +1 @@\n-a\n{header}@@ -1 +1 @@\n-a\n")).is_none());
    // a range number of 21 digits
    assert!(parse_patch(&format!("{header}@@ -123456789012345678901 +1 @@\n-a\n")).is_none());
    // carriage returns
    assert!(parse_patch(&format!("--- a/x\r\n+++ b/x\r\n@@ -1 +1 @@\r\n-a\r\n")).is_none());
    // a hunk without lines, and a header after the marker
    assert!(parse_patch(&format!("{header}@@ -1 +1 @@\n@@ -2 +2 @@\n-a\n")).is_none());
    assert!(parse_patch(&format!("{header}@@ -1 +1 @@\n-a\n\\ No newline at end of file\n@@ -2 +2 @@\n-a\n")).is_none());
}
