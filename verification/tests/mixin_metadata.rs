use quartz_launcher::classfile::{
    collect_mixin_targets_from_class, descriptor_to_class_name, read_u16, read_u32, skip_attributes, ConstantPool,
};
use quartz_launcher::mixin::{
    class_file_path, collect_mixin_classes_from_config, mixin_classes_of_configs, mixin_config_paths,
    mixin_entry_name, sorted_mixin_targets, ArchiveEntry, JsonEntry, JsonField, MixinConfig,
};

#[test]
fn descriptor_to_class_name_works() {
    assert_eq!(
        descriptor_to_class_name("Lnet/minecraft/class_437;"),
        Some("net.minecraft.class_437".to_string())
    );
}

#[test]
fn descriptor_to_class_name_rejects_other_shapes() {
    assert_eq!(descriptor_to_class_name("net/minecraft/class_437;"), None);
    assert_eq!(descriptor_to_class_name("Lnet/minecraft/class_437"), None);
    assert_eq!(descriptor_to_class_name("L;"), None);
    assert_eq!(descriptor_to_class_name("La/b;"), Some("a.b".to_string()));
}

#[test]
fn reads_big_endian_numbers() {
    let bytes = [0x12, 0x34, 0x56, 0x78, 0x9a];
    let mut offset = 0;
    assert_eq!(read_u16(&bytes, &mut offset), Some(0x1234));
    assert_eq!(offset, 2);
    assert_eq!(read_u16(&bytes, &mut offset), Some(0x5678));
    assert_eq!(offset, 4);
    assert_eq!(read_u16(&bytes, &mut offset), None);
    assert_eq!(offset, 4);
    let mut offset = 0;
    assert_eq!(read_u32(&bytes, &mut offset), Some(0x12345678));
    assert_eq!(offset, 4);
    let mut offset = 2;
    assert_eq!(read_u32(&bytes, &mut offset), None);
}

#[test]
fn skips_attribute_lists() {
    // two attributes: one of 3 bytes, one of 0 bytes
    let bytes = [0, 2, 0, 9, 0, 0, 0, 3, 1, 2, 3, 0, 9, 0, 0, 0, 0, 0xff];
    assert_eq!(skip_attributes(&bytes, 0), Some(17));
    assert_eq!(skip_attributes(&bytes[..3], 0), None);
}

fn utf8_entry(out: &mut Vec<u8>, text: &str) {
    out.push(1);
    out.extend_from_slice(&(text.len() as u16).to_be_bytes());
    out.extend_from_slice(text.as_bytes());
}

/// A class file annotated `@Mixin({net.minecraft.class_437.class, net.minecraft.class_5.class})`.
fn mixin_class(targets: &[&str]) -> Vec<u8> {
    mixin_class_with(targets, false)
}

/// The same class, with a `NameAndType` entry at the end of its constant pool when asked.
fn mixin_class_with(targets: &[&str], name_and_type: bool) -> Vec<u8> {
    let mut b = vec![0xCA, 0xFE, 0xBA, 0xBE, 0, 0, 0, 52];
    let count = 4 + targets.len() as u16 + if name_and_type { 1 } else { 0 };
    b.extend_from_slice(&count.to_be_bytes());
    utf8_entry(&mut b, "Lorg/spongepowered/asm/mixin/Mixin;"); // 1
    utf8_entry(&mut b, "value"); // 2
    utf8_entry(&mut b, "RuntimeVisibleAnnotations"); // 3
    for t in targets {
        utf8_entry(&mut b, t); // 4..
    }
    if name_and_type {
        b.extend_from_slice(&[12, 0, 2, 0, 1]);
    }
    b.extend_from_slice(&[0, 1, 0, 1, 0, 2]); // access, this, super
    b.extend_from_slice(&[0, 0]); // interfaces
    b.extend_from_slice(&[0, 0]); // fields
    b.extend_from_slice(&[0, 0]); // methods
    b.extend_from_slice(&[0, 1]); // attributes
    b.extend_from_slice(&[0, 3]);
    let mut body = vec![0, 1, 0, 1, 0, 1, 0, 2, b'['];
    body.extend_from_slice(&(targets.len() as u16).to_be_bytes());
    for i in 0..targets.len() {
        body.push(b'c');
        body.extend_from_slice(&(4 + i as u16).to_be_bytes());
    }
    b.extend_from_slice(&(body.len() as u32).to_be_bytes());
    b.extend_from_slice(&body);
    b
}

#[test]
fn parses_the_constant_pool() {
    let class = mixin_class(&["Lnet/minecraft/class_437;"]);
    let pool = ConstantPool::parse(&class).expect("a class file");
    assert_eq!(pool.utf8(2).map(|s| s.as_str()), Some("value"));
    assert_eq!(pool.utf8(0).map(|s| s.as_str()), Some(""));
    assert_eq!(pool.utf8(9), None);
    assert!(ConstantPool::parse(&class[..9]).is_none());
    let mut bad = class.clone();
    bad[0] = 0;
    assert!(ConstantPool::parse(&bad).is_none());
}

#[test]
fn reads_class_annotations() {
    let class = mixin_class(&["Lnet/minecraft/class_437;"]);
    let pool = ConstantPool::parse(&class).unwrap();
    assert_eq!(
        pool.runtime_visible_class_annotations(&class),
        Some(vec![
            "Lorg/spongepowered/asm/mixin/Mixin;".to_string(),
            "Lnet/minecraft/class_437;".to_string()
        ])
    );
}

#[test]
fn collects_mixin_targets() {
    let class = mixin_class(&["Lnet/minecraft/class_437;", "Lnet/minecraft/class_5;"]);
    let mut out = vec!["already".to_string()];
    collect_mixin_targets_from_class(&class, &mut out);
    assert_eq!(out, vec!["already", "net.minecraft.class_437", "net.minecraft.class_5"]);
    let mut none = Vec::new();
    collect_mixin_targets_from_class(&[1, 2, 3], &mut none);
    assert!(none.is_empty());
}

#[test]
fn sorts_targets_of_many_classes() {
    let a = mixin_class(&["Lnet/minecraft/class_9;", "Lnet/minecraft/class_1;"]);
    let b = mixin_class(&["Lnet/minecraft/class_1;"]);
    let targets = sorted_mixin_targets(&vec![a, b, vec![0]]);
    assert_eq!(targets, vec!["net.minecraft.class_1", "net.minecraft.class_9"]);
}

#[test]
fn reads_mixin_entry_names() {
    assert_eq!(mixin_entry_name(&JsonEntry::Text("A".into())).map(|s| s.as_str()), Some("A"));
    let obj = JsonEntry::Object { name: JsonField::Absent, config: JsonField::Text("c.json".into()) };
    assert_eq!(mixin_entry_name(&obj).map(|s| s.as_str()), Some("c.json"));
    let obj = JsonEntry::Object { name: JsonField::NotText, config: JsonField::Text("c.json".into()) };
    assert_eq!(mixin_entry_name(&obj), None);
    assert_eq!(mixin_entry_name(&JsonEntry::Other), None);
}

#[test]
fn collects_mixin_classes_from_a_config() {
    let config = MixinConfig {
        package: Some(".com.example.mixin.".into()),
        mixins: Some(vec![JsonEntry::Text("TitleMixin".into()), JsonEntry::Text("other.pkg.Thing".into())]),
        client: Some(vec![JsonEntry::Text("Inner$Mixin".into())]),
        server: None,
    };
    let mut out = Vec::new();
    collect_mixin_classes_from_config(&Some(config), &mut out);
    assert_eq!(
        out,
        vec!["com/example/mixin/TitleMixin", "other/pkg/Thing", "com/example/mixin/Inner$Mixin"]
    );
    let mut untouched = vec!["x".to_string()];
    collect_mixin_classes_from_config(&None, &mut untouched);
    assert_eq!(untouched, vec!["x"]);
}

#[test]
fn mixin_classes_of_configs_counts_each_once() {
    let c = |name: &str| MixinConfig {
        package: None,
        mixins: Some(vec![JsonEntry::Text(name.into())]),
        client: None,
        server: None,
    };
    let classes = mixin_classes_of_configs(&vec![Some(c("A")), None, Some(c("A")), Some(c("B"))]);
    assert_eq!(classes, vec!["A", "B"]);
}

#[test]
fn finds_mixin_config_paths() {
    let fabric = Some(vec![JsonEntry::Text("a.mixins.json".into()), JsonEntry::Other]);
    let archive = vec![
        ArchiveEntry { name: "b.mixins.json".into(), is_file: true },
        ArchiveEntry { name: "a.mixins.json".into(), is_file: true },
        ArchiveEntry { name: "dir.mixins.json".into(), is_file: false },
        ArchiveEntry { name: "c.json".into(), is_file: true },
    ];
    assert_eq!(mixin_config_paths(&fabric, &archive), vec!["a.mixins.json", "b.mixins.json"]);
    assert_eq!(class_file_path("com/x/A"), "com/x/A.class");
}

#[test]
fn parses_a_pool_with_a_name_and_type_entry() {
    let bytes = [
        0xCA, 0xFE, 0xBA, 0xBE, 0, 0, 0, 0x34, 0, 3, 1, 0, 1, b'A', 12, 0, 1, 0, 1,
    ];
    let pool = ConstantPool::parse(&bytes).unwrap();
    assert_eq!(pool.utf8(0).map(|s| s.as_str()), Some(""));
    assert_eq!(pool.utf8(1).map(|s| s.as_str()), Some("A"));
    assert_eq!(pool.utf8(2).map(|s| s.as_str()), Some(""));
    assert_eq!(pool.utf8(3), None);
}

#[test]
fn reads_targets_of_a_class_with_method_references() {
    let class = mixin_class_with(&["Lnet/minecraft/class_437;"], true);
    let mut out = Vec::new();
    collect_mixin_targets_from_class(&class, &mut out);
    assert_eq!(out, vec!["net.minecraft.class_437"]);
}
