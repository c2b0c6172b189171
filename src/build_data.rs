//! The build configuration a release ships (`info.json` of the build data
//! repository): where the vanilla server jar comes from, which checksum
//! identifies it, and the custom tool commands it names.

use vstd::prelude::*;
use crate::hash::{digest_hex, HashType};
use crate::mapping::str_opt_view;
use crate::text::{append_chars, chars_of, has_seq, replace_all, replace_chars, find_seq, string_of};

verus! {

/// Group 1 of the leftmost match of the regular expression `pattern` in
/// `text`; none when the pattern does not compile, nothing matches, or the
/// group took no part in the match.
pub uninterp spec fn regex_group1(pattern: Seq<char>, text: Seq<char>) -> Option<Seq<char>>;

/// Relies on `regex::Regex::new` and `regex::Regex::captures`: group 1 of the
/// leftmost match of `pattern` in `text`.
#[verifier::external_body]
fn first_group(pattern: &str, text: &str) -> (r: Option<String>)
    ensures
        str_opt_view(r) == regex_group1(pattern@, text@),
{
    let re = regex::Regex::new(pattern).ok()?;
    let caps = re.captures(text)?;
    caps.get(1).map(|m| m.as_str().to_owned())
}

/// The URLs of server jars published with their SHA-1 digest in the path;
/// group 1 is the digest.
pub const SERVER_JAR_PATTERN: &'static str =
    r"https://(?:launcher|piston-data).mojang.com/v1/objects/([\da-f]{40})/.*";

/// Configuration for building one game version.
pub struct BuildDataInfo {
    /// The minecraft version this build data is for
    pub minecraft_version: String,
    /// The hash of the minecraft version
    pub minecraft_hash: Option<String>,
    /// The name of the access transforms file
    pub access_transforms: String,
    /// The name of the class mappings file
    pub class_mappings: String,
    /// The name of the member mappings file
    pub member_mappings: Option<String>,
    /// The name of the package mappings file
    pub package_mappings: Option<String>,
    /// An optional custom command for decompiling
    pub decompile_command: Option<String>,
    /// An optional custom command for class map
    pub class_map_command: Option<String>,
    /// An optional custom command for member map
    pub member_map_command: Option<String>,
    /// An optional custom command for final map
    pub final_map_command: Option<String>,
    /// An optional tool version
    pub tools_version: Option<u16>,
    /// Optional URL to the server jar
    pub server_url: Option<String>,
    /// Optional spigot version
    pub spigot_version: Option<String>,
}

/// The checksum that identifies a vanilla server jar.
pub enum ServerHash {
    SHA1(String),
    MD5(String),
}

/// The method and expected digest of an optional server hash.
pub open spec fn server_hash_view(h: Option<ServerHash>) -> Option<(HashType, Seq<char>)> {
    match h {
        Some(ServerHash::SHA1(s)) => Some((HashType::SHA1, s@)),
        Some(ServerHash::MD5(s)) => Some((HashType::MD5, s@)),
        None => None,
    }
}

/// The checksum chosen from the digest found in the server URL, if any, and
/// the configured MD5 hash: the URL digest wins.
pub open spec fn chosen_hash(url_hash: Option<Seq<char>>, minecraft_hash: Option<Seq<char>>) -> Option<
    (HashType, Seq<char>),
> {
    match url_hash {
        Some(h) => Some((HashType::SHA1, h)),
        None => match minecraft_hash {
            Some(h) => Some((HashType::MD5, h)),
            None => None,
        },
    }
}

/// The download URL of the vanilla server jar of a version without a
/// configured server URL.
pub open spec fn default_jar_url(version: Seq<char>) -> Seq<char> {
    "https://s3.amazonaws.com/Minecraft.Download/versions/"@ + version + "/minecraft_server."@
        + version + ".jar"@
}

/// A tool command with the tool's own directory names replaced by this
/// project's, in the order the replacements are made.
pub open spec fn dir_names_replaced(s: Seq<char>) -> Seq<char> {
    let a = if has_seq(s, "BuildData"@) {
        replace_all(s, "BuildData"@, "build/build_data"@)
    } else {
        s
    };
    let b = if has_seq(a, "Bukkit"@) {
        replace_all(a, "CraftBukkit"@, "build/craftbukkit"@)
    } else {
        a
    };
    let c = if has_seq(b, "Spigot"@) {
        replace_all(b, "Spigot"@, "build/spigot"@)
    } else {
        b
    };
    if has_seq(c, "Bukkit"@) {
        replace_all(c, "Bukkit"@, "build/bukkit"@)
    } else {
        c
    }
}

/// Replaces `p` by `r` in `s` when `s` holds `guard`.
fn replace_if_present(s: Vec<char>, guard: &str, p: &str, r: &str) -> (out: Vec<char>)
    requires
        p@.len() > 0,
    ensures
        out@ == if has_seq(s@, guard@) {
            replace_all(s@, p@, r@)
        } else {
            s@
        },
{
    let g = chars_of(guard);
    if find_seq(&s, g.as_slice()).is_some() {
        replace_chars(&s, &chars_of(p), &chars_of(r))
    } else {
        s
    }
}

/// Replaces the directory names of the upstream build tool in a command by
/// the directory names of this project.
pub fn replace_dir_names(value: &str) -> (r: String)
    ensures
        r@ == dir_names_replaced(value@),
{
    proof {
        reveal_strlit("BuildData");
        reveal_strlit("CraftBukkit");
        reveal_strlit("Spigot");
        reveal_strlit("Bukkit");
    }
    let out = chars_of(value);
    let out = replace_if_present(out, "BuildData", "BuildData", "build/build_data");
    let out = replace_if_present(out, "Bukkit", "CraftBukkit", "build/craftbukkit");
    let out = replace_if_present(out, "Spigot", "Spigot", "build/spigot");
    let out = replace_if_present(out, "Bukkit", "Bukkit", "build/bukkit");
    string_of(&out)
}

/// The class mapping command of configurations that name none.
pub const DEFAULT_CLASS_MAP_COMMAND: &'static str =
    "java -jar build/build_data/bin/SpecialSource-2.jar map -i {0} -m {1} -o {2}";

/// The final mapping command of configurations that name none.
pub const DEFAULT_FINAL_MAP_COMMAND: &'static str =
    "java -jar build/build_data/bin/SpecialSource.jar --kill-lvt -i {0} --access-transformer {1} -m {2} -o {3}";

/// The decompile command of configurations that name none.
pub const DEFAULT_DECOMPILE_COMMAND: &'static str =
    "java -jar build/build_data/bin/fernflower.jar -dgs=1 -hdc=0 -rbr=0 -asc=1 -udv=0 {0} {1}";

/// A configured tool command with this project's directory names, or
/// `default` when none is configured.
pub fn command_or_default(custom: &Option<String>, default: &str) -> (r: String)
    ensures
        r@ == match custom {
            Some(c) => dir_names_replaced(c@),
            None => default@,
        },
{
    match custom {
        Some(c) => replace_dir_names(c.as_str()),
        None => default.to_owned(),
    }
}

/// The checksum to check a server jar against, given the digest found in
/// its URL, if any.
pub fn select_server_hash(url_hash: Option<String>, minecraft_hash: &Option<String>) -> (r: Option<
    ServerHash,
>)
    ensures
        server_hash_view(r) == chosen_hash(str_opt_view(url_hash), str_opt_view(*minecraft_hash)),
{
    match url_hash {
        Some(h) => Some(ServerHash::SHA1(h)),
        None => match minecraft_hash {
            Some(h) => Some(ServerHash::MD5(h.clone())),
            None => None,
        },
    }
}

/// Whether a local server jar can be used: with an expected checksum, the
/// jar must exist, be readable and have that digest; without one, it must
/// exist. `contents` is what reading the jar gave, if it could be read.
pub fn jar_is_valid(expected: &Option<ServerHash>, exists: bool, contents: &Option<Vec<u8>>) -> (r:
    bool)
    ensures
        r == match server_hash_view(*expected) {
            Some((t, h)) => exists && match contents {
                Some(data) => digest_hex(t, data@) == h,
                None => false,
            },
            None => exists,
        },
{
    match expected {
        Some(hash) => {
            if !exists {
                return false;
            }
            match contents {
                Some(data) => match hash {
                    ServerHash::SHA1(h) => HashType::SHA1.is_match(h.as_str(), data.as_slice()),
                    ServerHash::MD5(h) => HashType::MD5.is_match(h.as_str(), data.as_slice()),
                },
                None => false,
            }
        },
        None => exists,
    }
}

impl BuildDataInfo {
    /// The download URL of the vanilla server jar: the configured server URL,
    /// else the legacy download location of the version.
    pub fn get_download_url(&self) -> (r: String)
        ensures
            r@ == match self.server_url {
                Some(u) => u@,
                None => default_jar_url(self.minecraft_version@),
            },
    {
        match &self.server_url {
            Some(url) => url.clone(),
            None => {
                let version = chars_of(self.minecraft_version.as_str());
                let mut out = chars_of("https://s3.amazonaws.com/Minecraft.Download/versions/");
                append_chars(&mut out, &version);
                append_chars(&mut out, &chars_of("/minecraft_server."));
                append_chars(&mut out, &version);
                append_chars(&mut out, &chars_of(".jar"));
                string_of(&out)
            },
        }
    }

    /// Kept for callers of the configuration; checks nothing.
    pub fn is_hash_match() {
    }

    /// The checksum a downloaded server jar must have: the SHA-1 digest in
    /// the server URL where the URL carries one, else the configured MD5 hash.
    pub fn get_server_hash(&self) -> (r: Option<ServerHash>)
        ensures
            server_hash_view(r) == chosen_hash(
                match self.server_url {
                    Some(u) => regex_group1(SERVER_JAR_PATTERN@, u@),
                    None => None,
                },
                str_opt_view(self.minecraft_hash),
            ),
    {
        let url_hash = match &self.server_url {
            Some(url) => Self::get_hash_from_url(url.as_str()),
            None => None,
        };
        select_server_hash(url_hash, &self.minecraft_hash)
    }

    /// The SHA-1 digest that a server jar URL carries, if it has the form of
    /// `SERVER_JAR_PATTERN`.
    pub fn get_hash_from_url(url: &str) -> (r: Option<String>)
        ensures
            str_opt_view(r) == regex_group1(SERVER_JAR_PATTERN@, url@),
    {
        first_group(SERVER_JAR_PATTERN, url)
    }
}

/// Creates the configuration of the 1.8 build tools, used where a release
/// ships none.
impl Default for BuildDataInfo {
    fn default() -> (r: BuildDataInfo)
        ensures
            r.minecraft_version@ == "1.8"@,
            r.minecraft_hash is None,
            r.access_transforms@ == "bukkit-1.8.at"@,
            r.class_mappings@ == "bukkit-1.8-cl.csrg"@,
            str_opt_view(r.member_mappings) == Some("bukkit-1.8-members.csrg"@),
            str_opt_view(r.package_mappings) == Some("package.srg"@),
            r.decompile_command is None,
            r.class_map_command is None,
            r.member_map_command is None,
            r.final_map_command is None,
            r.tools_version is None,
            r.server_url is None,
            r.spigot_version is None,
    {
        BuildDataInfo {
            minecraft_version: "1.8".to_owned(),
            minecraft_hash: None,
            access_transforms: "bukkit-1.8.at".to_owned(),
            class_mappings: "bukkit-1.8-cl.csrg".to_owned(),
            member_mappings: Some("bukkit-1.8-members.csrg".to_owned()),
            package_mappings: Some("package.srg".to_owned()),
            decompile_command: None,
            class_map_command: None,
            member_map_command: None,
            final_map_command: None,
            tools_version: None,
            server_url: None,
            spigot_version: None,
        }
    }
}

/// Problems with the Java installation.
#[derive(PartialEq, Eq, Structural, Clone, Copy, Debug)]
pub enum JavaError {
    MissingJava,
    UnsupportedJava,
}

} // verus!
