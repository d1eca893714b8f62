use minecrevy::error::IoError;
use minecrevy::io::mc::{McRead, McWrite};
use minecrevy::key::{Key, KeyArgs, KeyError};
use std::io::Cursor;

#[test]
fn keys_are_built_from_allowed_characters() {
    let key = Key::new("minecraft", "entity.firework_rocket.blast").unwrap();
    assert_eq!(key.namespace(), "minecraft");
    assert_eq!(key.path(), "entity.firework_rocket.blast");
    assert_eq!(Key::new("my-plugin_1.0", "a/b/c").unwrap().path(), "a/b/c");
}

#[test]
fn namespace_is_checked_before_path() {
    assert_eq!(Key::new("Bad", "also bad"), Err(KeyError::InvalidNamespace(String::from("Bad"))));
    assert_eq!(Key::new("ok", "not ok"), Err(KeyError::InvalidPath(String::from("not ok"))));
    assert_eq!(Key::new("a/b", "c"), Err(KeyError::InvalidNamespace(String::from("a/b"))));
}

#[test]
fn parse_splits_at_the_first_separator() {
    let key = Key::parse("foo:bar:baz", ':');
    assert_eq!(key, Err(KeyError::InvalidPath(String::from("bar:baz"))));
    let key = Key::parse("foo:bar/baz", ':').unwrap();
    assert_eq!(key.namespace(), "foo");
    assert_eq!(key.path(), "bar/baz");
}

#[test]
fn parse_defaults_to_the_minecraft_namespace() {
    let key = Key::parse("stone", ':').unwrap();
    assert_eq!(key.namespace(), "minecraft");
    assert_eq!(key.path(), "stone");
    let parsed: Key = "dirt".parse().unwrap();
    assert_eq!(parsed, Key::new("minecraft", "dirt").unwrap());
}

#[test]
fn as_string_joins_with_the_separator() {
    let key = Key::new("minecraft", "stone").unwrap();
    assert_eq!(key.as_string(':'), "minecraft:stone");
    assert_eq!(key.as_string('$'), "minecraft$stone");
}

#[test]
fn parse_gives_back_what_as_string_wrote() {
    let key = Key::new("ns", "a/b.c").unwrap();
    assert_eq!(Key::parse(&key.as_string(':'), ':').unwrap(), key);
    assert_eq!(Key::parse(&key.as_string('/'), '/').unwrap(), key);
    // A separator that namespaces may hold splits too early.
    let key = Key::new("a.b", "c").unwrap();
    let parsed = Key::parse(&key.as_string('.'), '.').unwrap();
    assert_eq!(parsed.namespace(), "a");
    assert_eq!(parsed.path(), "b.c");
}

#[test]
fn keys_are_read_and_written_as_strings() {
    let key = Key::new("minecraft", "overworld").unwrap();
    let mut out = Vec::new();
    key.write(&mut out, &KeyArgs::default()).unwrap();
    assert_eq!(out[0] as usize, "minecraft:overworld".len());
    assert_eq!(&out[1..], b"minecraft:overworld");
    let mut c = Cursor::new(&out[..]);
    assert_eq!(Key::read(&mut c, &KeyArgs::default()).unwrap(), key);

    let mut out = Vec::new();
    key.write(&mut out, &KeyArgs { separator: ':', skip_namespace: true }).unwrap();
    assert_eq!(&out[..], b"\x09overworld");
}

#[test]
fn reading_a_string_that_is_no_key_is_invalid_data() {
    let mut c = Cursor::new(&b"\x03A:b"[..]);
    assert_eq!(Key::read(&mut c, &KeyArgs::default()), Err(IoError::InvalidData));
}

#[test]
fn key_args_default() {
    let args = KeyArgs::default();
    assert_eq!(args.separator, ':');
    assert!(!args.skip_namespace);
}
