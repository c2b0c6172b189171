//! Tools for reproducing a patched server build. The core is name mapping:
//! merging obfuscated, intermediate and public class names into one renaming
//! table and rewriting JVM type descriptors across it (`mapping`). Around it
//! stand the build configuration (`build_data`), checksums (`hash`), source
//! repositories (`repo`), external commands (`command`, `maven`) and source
//! patches (`patches`).

pub mod table;
pub mod text;
pub mod ordering;
pub mod mapping;
pub mod command;
pub mod repo;
pub mod hash;
pub mod build_data;
pub mod maven;
pub mod patches;
