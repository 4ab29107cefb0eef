use mailbox::mailbox::{Mailbox, MailboxError};

#[test]
fn test_iter_ancestors() {
    let mailbox: Mailbox = "a/b/c".try_into().unwrap();
    assert_eq!(
        mailbox.iter_ancestors(),
        vec![
            "a".try_into().unwrap(),
            "a/b".try_into().unwrap(),
            "a/b/c".try_into().unwrap()
        ]
    );
}

#[test]
fn test_get_leaf_name() {
    let mailbox: Mailbox = "a/b/c".try_into().unwrap();
    assert_eq!(mailbox.get_leaf_name(), "c");
}

#[test]
fn test_try_into() {
    assert!(TryInto::<Mailbox>::try_into("parent/child").is_ok());
    assert!(TryInto::<Mailbox>::try_into("").is_err());
    assert!(TryInto::<Mailbox>::try_into("mailbox/").is_err());
    assert!(TryInto::<Mailbox>::try_into("/mailbox").is_err());
    assert!(TryInto::<Mailbox>::try_into("parent//child").is_err());
    assert!(TryInto::<Mailbox>::try_into("parent/%").is_err());
}

#[test]
fn test_mailbox_errors_in_order() {
    assert_eq!(Mailbox::parse("").unwrap_err(), MailboxError::Empty);
    assert_eq!(Mailbox::parse("/").unwrap_err(), MailboxError::LeadingSlash);
    assert_eq!(Mailbox::parse("/a//%").unwrap_err(), MailboxError::LeadingSlash);
    assert_eq!(Mailbox::parse("a//%/").unwrap_err(), MailboxError::TrailingSlash);
    assert_eq!(Mailbox::parse("a//%").unwrap_err(), MailboxError::DoubleSlash);
    assert_eq!(Mailbox::parse("a/%").unwrap_err(), MailboxError::Percent);
    assert_eq!(
        Mailbox::new(String::from("a//b")).unwrap_err().message(),
        "mailbox must not contain //"
    );
}

#[test]
fn test_mailbox_from_str() {
    let mailbox: Mailbox = "a/b".parse().unwrap();
    assert_eq!(mailbox.as_str(), "a/b");
    assert!("a/".parse::<Mailbox>().is_err());
}

#[test]
fn test_leaf_name_of_a_root() {
    let mailbox = Mailbox::parse("root").unwrap();
    assert_eq!(mailbox.get_leaf_name(), "root");
    assert_eq!(mailbox.iter_ancestors(), vec![Mailbox::parse("root").unwrap()]);
}

#[test]
fn test_ancestors_with_wide_characters() {
    let mailbox = Mailbox::parse("é/⭐x/z").unwrap();
    let names: Vec<String> = mailbox
        .iter_ancestors()
        .iter()
        .map(|m| m.as_str().to_string())
        .collect();
    assert_eq!(names, vec!["é", "é/⭐x", "é/⭐x/z"]);
    assert_eq!(mailbox.get_leaf_name(), "z");
}

#[test]
fn test_is_ancestor_of() {
    let a = Mailbox::parse("a").unwrap();
    let ab = Mailbox::parse("a/b").unwrap();
    let abc = Mailbox::parse("a/b/c").unwrap();
    let ax = Mailbox::parse("ab").unwrap();
    assert!(a.is_ancestor_of(&a));
    assert!(a.is_ancestor_of(&ab));
    assert!(a.is_ancestor_of(&abc));
    assert!(ab.is_ancestor_of(&abc));
    assert!(!a.is_ancestor_of(&ax));
    assert!(!ab.is_ancestor_of(&a));
    assert!(!abc.is_ancestor_of(&ab));
}

#[test]
fn test_precedes_is_the_order_of_strings() {
    let names = ["a", "a/b", "ab", "b", "B", "é", "a/é"];
    for x in names {
        for y in names {
            let mx = Mailbox::parse(x).unwrap();
            let my = Mailbox::parse(y).unwrap();
            assert_eq!(mx.precedes(&my), x < y);
            assert_eq!(mx.same(&my), x == y);
            assert_eq!(mx < my, x < y);
        }
    }
}
