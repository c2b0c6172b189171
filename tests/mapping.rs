use jars::mapping::{MappedMember, Mapper};
use jars::table::NameTable;

fn table(pairs: &[(&str, &str)]) -> NameTable {
    let mut t = NameTable::new();
    for (k, v) in pairs {
        t.insert(k.to_string(), v.to_string());
    }
    t
}

const MEMBERS: &str = "net.minecraft.Entity -> a:\n    int health -> b\n    void tick() -> c\nnet.minecraft.Unknown -> z:\n    int x -> y\n";

#[test]
fn resolve_exact_key_returns_value() {
    let t = table(&[("a", "Entity"), ("a$b", "Inner")]);
    assert_eq!(Mapper::mapped_value("a", &t), Some("Entity".to_string()));
    assert_eq!(Mapper::mapped_value("a$b", &t), Some("Inner".to_string()));
}

#[test]
fn resolve_absent_plain_name_fails() {
    let t = table(&[("a", "Entity")]);
    assert_eq!(Mapper::mapped_value("b", &t), None);
    assert_eq!(Mapper::mapped_value("", &t), None);
}

#[test]
fn resolve_nested_outer_prefix() {
    let t = table(&[("Outer", "O")]);
    assert_eq!(Mapper::mapped_value("Outer$1$2", &t), Some("O$1$2".to_string()));
}

#[test]
fn resolve_nested_prefers_longest_prefix() {
    let t = table(&[("Outer", "O"), ("Outer$Inner", "OI")]);
    assert_eq!(Mapper::mapped_value("Outer$Inner$Deep", &t), Some("OI$Deep".to_string()));
    assert_eq!(Mapper::mapped_value("Outer$Other$Deep", &t), Some("O$Other$Deep".to_string()));
}

#[test]
fn resolve_nested_without_any_prefix_fails() {
    let t = table(&[("Outer$Inner", "OI")]);
    assert_eq!(Mapper::mapped_value("Outer$1", &t), None);
    assert_eq!(Mapper::mapped_value("X$Y$Z", &t), None);
}

#[test]
fn table_last_write_wins() {
    let t = table(&[("a", "First"), ("a", "Second")]);
    assert_eq!(t.get("a"), Some("Second".to_string()));
    assert_eq!(t.get("b"), None);
}

#[test]
fn primitive_descriptors() {
    let m = Mapper::new("");
    let aux = NameTable::new();
    assert_eq!(m.convert_type("int", &aux), "I");
    assert_eq!(m.convert_type("void", &aux), "V");
    assert_eq!(m.convert_type("boolean[]", &aux), "[Z");
    assert_eq!(m.convert_type("[]", &aux), "[]");
    assert_eq!(m.convert_type("long[][]", &aux), "[[J");
    for (name, code) in [
        ("byte", 'B'),
        ("char", 'C'),
        ("double", 'D'),
        ("float", 'F'),
        ("int", 'I'),
        ("long", 'J'),
        ("short", 'S'),
        ("boolean", 'Z'),
        ("void", 'V'),
    ] {
        assert_eq!(Mapper::get_jvm_type(name), Some(code));
    }
    assert_eq!(Mapper::get_jvm_type("Integer"), None);
}

#[test]
fn class_descriptor_fallback() {
    let m = Mapper::new("");
    let aux = NameTable::new();
    assert_eq!(m.convert_type("com.example.Foo", &aux), "Lcom/example/Foo;");
    assert_eq!(m.convert_type("com.example.Foo[]", &aux), "[Lcom/example/Foo;");
}

#[test]
fn class_descriptor_translated() {
    let m = Mapper::new("a net/minecraft/server/Entity\n");
    let aux = table(&[("net/minecraft/world/Entity", "a")]);
    assert_eq!(m.convert_type("net.minecraft.world.Entity", &aux), "Lnet/minecraft/server/Entity;");
    assert_eq!(
        m.translate_name("net/minecraft/world/Entity", &aux),
        Some("net/minecraft/server/Entity".to_string())
    );
    assert_eq!(m.translate_name("net/minecraft/world/Other", &aux), None);
}

#[test]
fn descriptor_skips_empty_segments() {
    let mut m = Mapper::new("");
    let aux = NameTable::new();
    assert_eq!(m.make_csrg_descriptor("int,java.lang.String,", "void", &aux), "(ILjava/lang/String;)V");
    assert_eq!(m.make_csrg_descriptor("", "boolean", &aux), "()Z");
    assert_eq!(m.make_csrg_descriptor(",,", "int[]", &aux), "()[I");
}

#[test]
fn class_line_parsing() {
    assert_eq!(
        Mapper::try_parse_class_line("net.minecraft.Util$5 -> ad$4:"),
        Some(("net/minecraft/Util$5".to_string(), "ad$4".to_string()))
    );
    assert_eq!(Mapper::try_parse_class_line("net.minecraft.Util"), None);
    assert_eq!(Mapper::try_parse_class_line("no separator:"), None);
    assert_eq!(Mapper::try_parse_class_line("a.b -> :"), None);
    assert_eq!(Mapper::try_parse_class_line("a.b -> c.d:"), Some(("a/b".to_string(), "c/d".to_string())));
    assert_eq!(Mapper::try_parse_class_line(" a -> b:  "), Some((" a".to_string(), "b".to_string())));
    assert_eq!(Mapper::try_parse_class_line("a -> b: x"), None);
}

#[test]
fn member_line_parsing() {
    match Mapper::try_parse_member_line("    1:3:int health -> b", false) {
        Some(MappedMember::Field { field_type, name, obf_name }) => {
            assert_eq!(field_type, "int");
            assert_eq!(name, "health");
            assert_eq!(obf_name, "b");
        }
        _ => panic!("expected a field"),
    }
    match Mapper::try_parse_member_line("    12:14:void tick(int,long) -> c", true) {
        Some(MappedMember::Method { return_type, name, args, obf_name }) => {
            assert_eq!(return_type, "void");
            assert_eq!(name, "tick");
            assert_eq!(args, "int,long");
            assert_eq!(obf_name, "c");
        }
        _ => panic!("expected a method"),
    }
    assert!(Mapper::try_parse_member_line("    void tick() -> c", false).is_none());
    assert!(Mapper::try_parse_member_line("    void <init>() -> <init>", true).is_none());
    assert!(Mapper::try_parse_member_line("    void init() -> <clinit>", true).is_none());
    assert!(Mapper::try_parse_member_line("    int same -> same", true).is_none());
    assert!(Mapper::try_parse_member_line("    int this$0 -> a", true).is_none());
    assert!(Mapper::try_parse_member_line("    int health b", true).is_none());
    assert!(Mapper::try_parse_member_line("    int health => b", true).is_none());
    assert!(Mapper::try_parse_member_line("    int f( -> a", true).is_none());
    assert!(Mapper::try_parse_member_line("    int f(ab -> a", true).is_none());
    match Mapper::try_parse_member_line("    int f() -> a", true) {
        Some(MappedMember::Method { args, .. }) => assert_eq!(args, ""),
        _ => panic!("expected a method"),
    }
}

#[test]
fn keyword_vendor_name_gets_suffix() {
    let mut m = Mapper::new("a Entity");
    let members = "net.minecraft.Entity -> a:\n    int health -> do\n    int age -> if\n";
    assert_eq!(m.make_csrg(members, false), "Entity do_ health\nEntity if_ age");
    assert_eq!(m.make_csrg(members, true), "Entity do health\nEntity if age");
}

#[test]
fn constructors_never_emitted() {
    let mut m = Mapper::new("a Entity");
    let members = "net.minecraft.Entity -> a:\n    void <init>() -> <init>\n    void <clinit>() -> <clinit>\n    void make() -> <init>\n";
    assert_eq!(m.make_csrg(members, true), "");
    assert_eq!(m.make_csrg(members, false), "");
}

#[test]
fn output_is_deterministic() {
    let bukkit = "# header\nb Player\na Entity\n";
    let mut m = Mapper::new(bukkit);
    let first = m.make_csrg(MEMBERS, true);
    let second = m.make_csrg(MEMBERS, true);
    assert_eq!(first, second);
    let mut other = Mapper::new(bukkit);
    assert_eq!(other.make_csrg(MEMBERS, true), first);
}

#[test]
fn end_to_end_members() {
    let mut m = Mapper::new("a Entity\nb Player");
    let out = m.make_csrg(MEMBERS, true);
    assert_eq!(out, "Entity b health\nEntity c ()V tick");
    assert!(!out.contains("Unknown"));
    assert!(!out.contains(" y "));
}

#[test]
fn end_to_end_fields_only() {
    let mut m = Mapper::new("a Entity\nb Player");
    assert_eq!(m.make_csrg(MEMBERS, false), "Entity b health");
}

#[test]
fn comments_lead_in_their_order() {
    let mut m = Mapper::new("# zeta\na Entity\n# alpha\nbad line with three\n");
    let members = "net.minecraft.Entity -> a:\n    int health -> b\n    int age -> c\n";
    assert_eq!(m.make_csrg(members, false), "# zeta\n# alpha\nEntity b health\nEntity c age");
    let mut n = Mapper::new("#b\n#a\n");
    assert_eq!(n.make_csrg("", true), "#b\n#a");
}

#[test]
fn primary_lines_need_exactly_two_tokens() {
    let m = Mapper::new("a Entity extra\nb Player\n");
    assert_eq!(m.get_bukkit_name("a"), None);
    assert_eq!(m.get_bukkit_name("b"), Some("Player".to_string()));
    assert_eq!(m.get_bukkit_name("b$1"), Some("Player$1".to_string()));
}

#[test]
fn members_of_unmapped_classes_are_dropped() {
    let mut m = Mapper::new("a Entity");
    let members = "    int orphan -> q\nnet.minecraft.Unknown -> z:\n    int x -> y\nnet.minecraft.Entity -> a:\n    int health -> b\n";
    assert_eq!(m.make_csrg(members, false), "Entity b health");
}

#[test]
fn nested_class_context_and_descriptors() {
    let mut m = Mapper::new("a Entity\nb Player\n");
    let members = "net.minecraft.Entity$Inner -> a$1:\r\n    net.minecraft.Player[] all(int,net.minecraft.Entity$Inner) -> d\r\nnet.minecraft.Player -> b:\r\n";
    assert_eq!(
        m.make_csrg(members, true),
        "Entity$1 d (ILEntity$1;)[LPlayer; all"
    );
}

#[test]
fn empty_inputs() {
    let mut m = Mapper::new("");
    assert_eq!(m.make_csrg("", true), "");
    assert_eq!(m.make_csrg("", false), "");
}

#[test]
fn load_mojang_collects_headers() {
    let mut aux = NameTable::new();
    Mapper::load_mojang("net.minecraft.A -> a:\n    int x -> y\nnet.minecraft.B$C -> b$c:\n", &mut aux);
    assert_eq!(aux.get("net/minecraft/A"), Some("a".to_string()));
    assert_eq!(aux.get("net/minecraft/B$C"), Some("b$c".to_string()));
    assert_eq!(aux.get("net/minecraft/D"), None);
}
