use rlass::pool::ConstantPoolEntry;
use rlass::version::ClassFileVersion;
use rlass::ClassParser;

fn utf8(bytes: &mut Vec<u8>, text: &str) {
    bytes.push(1);
    bytes.extend_from_slice(&(text.len() as u16).to_be_bytes());
    bytes.extend_from_slice(text.as_bytes());
}

/// The class file of
///
/// ```java
/// public class Add {
///     public static int sum(int a, int b) { return a + b; }
/// }
/// ```
///
/// up to the end of its constant pool, followed by the access flags and the
/// indices of the class and its superclass.
fn add_class() -> Vec<u8> {
    let mut bytes = vec![0xCA, 0xFE, 0xBA, 0xBE, 0x00, 0x00, 0x00, 0x37, 0x00, 0x0F];
    bytes.extend_from_slice(&[10, 0, 3, 0, 12]); // #1 java/lang/Object.<init>:()V
    bytes.extend_from_slice(&[7, 0, 13]); // #2 Add
    bytes.extend_from_slice(&[7, 0, 14]); // #3 java/lang/Object
    utf8(&mut bytes, "<init>"); // #4
    utf8(&mut bytes, "()V"); // #5
    utf8(&mut bytes, "Code"); // #6
    utf8(&mut bytes, "LineNumberTable"); // #7
    utf8(&mut bytes, "sum"); // #8
    utf8(&mut bytes, "(II)I"); // #9
    utf8(&mut bytes, "SourceFile"); // #10
    utf8(&mut bytes, "Add.java"); // #11
    bytes.extend_from_slice(&[12, 0, 4, 0, 5]); // #12 <init>:()V
    utf8(&mut bytes, "Add"); // #13
    utf8(&mut bytes, "java/lang/Object"); // #14
    bytes.extend_from_slice(&[0x00, 0x21, 0x00, 0x02, 0x00, 0x03, 0x00, 0x00]);
    bytes
}

#[test]
fn parse_add_java() {
    let data = add_class();

    let mut parser = ClassParser::new(&data[..]);
    let result = parser.parse().unwrap();
    println!("{:?}", result);

    assert_eq!(result.version, ClassFileVersion::new(55, 0));
    let pool = &result.constant_pool;
    assert_eq!(pool.len(), 14);
    match pool.get(1) {
        Some(ConstantPoolEntry::MethodRef(init)) => {
            assert_eq!(init.class.bytes, "java/lang/Object");
            assert_eq!(init.name_and_ty.name.bytes, "<init>");
            assert_eq!(init.name_and_ty.descriptor.bytes, "()V");
        }
        other => panic!("{:?}", other),
    }
    assert!(matches!(pool.get(2), Some(ConstantPoolEntry::Class(name)) if name.bytes == "Add"));
    assert!(matches!(
        pool.get(3),
        Some(ConstantPoolEntry::Class(name)) if name.bytes == "java/lang/Object"
    ));
    let texts = [
        (4, "<init>"),
        (5, "()V"),
        (6, "Code"),
        (7, "LineNumberTable"),
        (8, "sum"),
        (9, "(II)I"),
        (10, "SourceFile"),
        (11, "Add.java"),
        (13, "Add"),
        (14, "java/lang/Object"),
    ];
    for (index, text) in texts {
        assert!(matches!(pool.get(index), Some(ConstantPoolEntry::Utf8(t)) if t.bytes == text));
    }
    assert!(matches!(
        pool.get(12),
        Some(ConstantPoolEntry::NameAndType(n)) if n.name.bytes == "<init>" && n.descriptor.bytes == "()V"
    ));
    assert!(pool.get(15).is_none());
    assert_eq!(parser.into_inner(), &[0x00, 0x21, 0x00, 0x02, 0x00, 0x03, 0x00, 0x00][..]);
}
