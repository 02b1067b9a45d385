use dkr::tag::{establish_namespace, Reference, Tag, TagError};

#[test]
fn bare_name_takes_the_namespace() {
    let tag = Tag::resolve("foo", "ns").unwrap();
    assert_eq!(tag.as_str(), "ns/foo");
    assert_eq!(tag.namespace(), "ns");
    assert_eq!(tag.name(), "foo");
}

#[test]
fn qualified_name_in_the_namespace_resolves() {
    let tag = Tag::resolve("ns/foo", "ns").unwrap();
    assert_eq!(tag.to_string(), "ns/foo");
    assert_eq!(tag.namespace(), "ns");
    assert_eq!(tag.name(), "foo");
}

#[test]
fn other_namespace_is_rejected() {
    assert_eq!(
        Tag::resolve("other/foo", "ns"),
        Err(TagError::InvalidTagFormat("other/foo".to_string()))
    );
}

#[test]
fn longer_namespace_with_the_same_start_is_rejected() {
    assert_eq!(
        Tag::resolve("nsx/foo", "ns"),
        Err(TagError::InvalidTagFormat("nsx/foo".to_string()))
    );
    assert_eq!(
        Tag::resolve("n/foo", "ns"),
        Err(TagError::InvalidTagFormat("n/foo".to_string()))
    );
}

#[test]
fn empty_parts_are_rejected() {
    assert_eq!(Tag::resolve("", "ns"), Err(TagError::InvalidTagFormat(String::new())));
    assert_eq!(Tag::resolve("ns/", "ns"), Err(TagError::InvalidTagFormat("ns/".to_string())));
    assert_eq!(Tag::resolve("foo", ""), Err(TagError::InvalidTagFormat("foo".to_string())));
    assert_eq!(Tag::resolve("/foo", ""), Err(TagError::InvalidTagFormat("/foo".to_string())));
}

#[test]
fn a_name_with_a_slash_is_rejected() {
    assert_eq!(
        Tag::resolve("ns/a/b", "ns"),
        Err(TagError::InvalidTagFormat("ns/a/b".to_string()))
    );
    assert_eq!(
        Tag::resolve("foo", "a/b"),
        Err(TagError::InvalidTagFormat("foo".to_string()))
    );
}

#[test]
fn resolving_a_canonical_tag_gives_it_back() {
    let first = Tag::resolve("foo", "ns").unwrap();
    let second = Tag::resolve(first.as_str(), first.namespace()).unwrap();
    assert_eq!(first, second);
    assert!(first.same(&second));
    let third = Tag::resolve(second.as_str(), "ns").unwrap();
    assert_eq!(second, third);
}

#[test]
fn tags_compare_by_their_parts() {
    let foo = Tag::resolve("foo", "ns").unwrap();
    let bar = Tag::resolve("bar", "ns").unwrap();
    assert!(!foo.same(&bar));
    assert!(foo.same(&foo.clone()));
}

#[test]
fn non_ascii_names_resolve() {
    let tag = Tag::resolve("größe/bär", "größe").unwrap();
    assert_eq!(tag.name(), "bär");
    assert_eq!(tag.as_str(), "größe/bär");
}

#[test]
fn configured_namespace_wins() {
    assert_eq!(establish_namespace(Some("cfg"), "ns/app"), Ok("cfg".to_string()));
    assert_eq!(establish_namespace(Some("cfg"), "app"), Ok("cfg".to_string()));
}

#[test]
fn namespace_is_inferred_from_the_root() {
    assert_eq!(establish_namespace(None, "ns/app"), Ok("ns".to_string()));
    assert_eq!(establish_namespace(None, "a/b/c"), Ok("a".to_string()));
}

#[test]
fn missing_namespace_is_reported() {
    assert_eq!(
        establish_namespace(None, "app"),
        Err(TagError::MissingNamespace("app".to_string()))
    );
}

#[test]
fn references_in_the_namespace_are_managed() {
    let reference = Reference::classify("ns/base", "ns").unwrap();
    assert_eq!(reference.as_str(), "ns/base");
    let tag = reference.managed().unwrap();
    assert_eq!(tag.name(), "base");
    assert_eq!(reference, Reference::Managed(Tag::resolve("base", "ns").unwrap()));
}

#[test]
fn references_outside_the_namespace_are_opaque() {
    for raw in ["debian:stable", "debian", "other/base", "registry.example.com/ns/base", "nsx/a"] {
        let reference = Reference::classify(raw, "ns").unwrap();
        assert_eq!(reference, Reference::Opaque(raw.to_string()));
        assert_eq!(reference.as_str(), raw);
        assert!(reference.managed().is_none());
    }
}

#[test]
fn malformed_reference_in_the_namespace_is_an_error() {
    assert_eq!(
        Reference::classify("ns/a/b", "ns"),
        Err(TagError::InvalidTagFormat("ns/a/b".to_string()))
    );
    assert_eq!(
        Reference::classify("ns/", "ns"),
        Err(TagError::InvalidTagFormat("ns/".to_string()))
    );
}

#[test]
fn tag_errors_have_messages() {
    assert_eq!(
        TagError::InvalidTagFormat("a/b".to_string()).to_string(),
        "Can't create image for invalid tag: a/b"
    );
    assert_eq!(
        TagError::MissingNamespace("app".to_string()).to_string(),
        "Missing image tag namespace in the config file or in the image tag: app"
    );
}
