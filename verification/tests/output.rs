use kopium::defaults::derive_default_table;
use kopium::rename::{apply_name, choose_escape, tell_apart};
use kopium::{Container, Member, Output};

fn name_only_enum_member(name: &str) -> Member {
    Member {
        name: name.to_string(),
        type_: "".to_string(),
        serde_annot: vec![],
        extra_annot: vec![],
        docs: None,
    }
}

fn name_only_int_member(name: &str) -> Member {
    Member {
        name: name.to_string(),
        type_: "u32".to_string(),
        serde_annot: vec![],
        extra_annot: vec![],
        docs: None,
    }
}

fn typed_member(name: &str, type_: &str) -> Member {
    Member {
        name: name.to_string(),
        type_: type_.to_string(),
        ..Member::default()
    }
}

#[test]
fn rename_avoids_producing_name_clashes() {
    let mut c = Container {
        name: "EndpointRelabelingsAction".to_string(),
        level: 1,
        members: vec![
            name_only_enum_member("replace"),
            name_only_enum_member("Replace"),
            name_only_enum_member("hashmod"),
            name_only_enum_member("HashMod"),
            // deliberately contrarian examples
            name_only_enum_member("jwks_uri"),
            name_only_enum_member("jwks-uri"),
            name_only_enum_member("jwksUri"),
            name_only_enum_member("JwksUri"),
        ],
        is_enum: true,
        ..Container::default()
    };

    c.rename();
    assert_eq!(&c.members[0].name, "Replace");
    assert_eq!(&c.members[1].name, "ReplaceX");
    assert_eq!(&c.members[2].name, "Hashmod");
    assert_eq!(&c.members[3].name, "HashMod");
    assert_eq!(&c.members[4].name, "JwksUri");
    assert_eq!(&c.members[5].name, "JwksUriX");
    assert_eq!(&c.members[6].name, "JwksUriXX");
    assert_eq!(&c.members[7].name, "JwksUriXXX");
    assert_eq!(c.members.len(), 8);
    // ditto for a struct
    let mut cs = Container {
        name: "FakeStruct".to_string(),
        level: 1,
        members: vec![
            // deliberately contrarian examples
            name_only_int_member("jwks_uri"),
            name_only_int_member("jwks-uri"),
            name_only_int_member("jwksUri"),
            name_only_int_member("JwksUri"),
        ],
        ..Container::default()
    };
    cs.rename();
    assert_eq!(&cs.members[0].name, "jwks_uri");
    assert_eq!(&cs.members[1].name, "jwks_uri_x");
    assert_eq!(&cs.members[2].name, "jwks_uri_x_x");
    assert_eq!(&cs.members[3].name, "jwks_uri_x_x_x");
}

#[test]
fn can_derive_default() {
    let containers = vec![
        Container {
            name: "Simple".to_string(),
            level: 1,
            ..Container::default()
        },
        Container {
            name: "Enum".to_string(),
            level: 1,
            is_enum: true,
            ..Container::default()
        },
        Container {
            name: "Nested".to_string(),
            level: 1,
            members: vec![Member {
                name: "simple".to_string(),
                type_: "Simple".to_string(),
                ..Member::default()
            }],
            ..Container::default()
        },
        Container {
            name: "ReferencesEnum".to_string(),
            level: 1,
            members: vec![Member {
                name: "enum".to_string(),
                type_: "Enum".to_string(),
                ..Member::default()
            }],
            ..Container::default()
        },
        Container {
            name: "ReferencesEnumNested".to_string(),
            level: 1,
            members: vec![Member {
                name: "references_enum".to_string(),
                type_: "ReferencesEnum".to_string(),
                ..Member::default()
            }],
            ..Container::default()
        },
        Container {
            name: "ReferencesEnumOption".to_string(),
            level: 1,
            members: vec![Member {
                name: "maybe_enum".to_string(),
                type_: "Option<Enum>".to_string(),
                ..Member::default()
            }],
            ..Container::default()
        },
        Container {
            name: "ReferencesEnumVec".to_string(),
            level: 1,
            members: vec![Member {
                name: "enum_list".to_string(),
                type_: "Vec<Enum>".to_string(),
                ..Member::default()
            }],
            ..Container::default()
        },
        Container {
            name: "ReferencesEnumNestedOption".to_string(),
            level: 1,
            members: vec![Member {
                name: "maybe_references_enum".to_string(),
                type_: "Option<ReferencesEnum>".to_string(),
                ..Member::default()
            }],
            ..Container::default()
        },
    ];
    assert!(containers[0].can_derive_default(&containers)); // Simple
    assert!(!containers[1].can_derive_default(&containers)); // Enum
    assert!(containers[2].can_derive_default(&containers)); // Nested
    assert!(!containers[3].can_derive_default(&containers)); // ReferencesEnum
    assert!(!containers[4].can_derive_default(&containers)); // ReferencesEnumNested
    assert!(containers[5].can_derive_default(&containers)); // ReferencesEnumOption
    assert!(containers[6].can_derive_default(&containers)); // ReferencesEnumVec
    assert!(containers[7].can_derive_default(&containers)); // ReferencesEnumNestedOption
    assert_eq!(
        derive_default_table(&containers),
        vec![true, false, true, false, false, true, true, true]
    );
}

#[test]
fn default_derivation_ends_on_a_circle_of_references() {
    let circle = vec![
        Container {
            name: "A".to_string(),
            members: vec![typed_member("b", "B")],
            ..Container::default()
        },
        Container {
            name: "B".to_string(),
            members: vec![typed_member("a", "A")],
            ..Container::default()
        },
    ];
    assert!(circle[0].can_derive_default(&circle));
    assert!(circle[1].can_derive_default(&circle));

    let circle_with_enum = vec![
        Container {
            name: "A".to_string(),
            members: vec![typed_member("b", "B"), typed_member("e", "E")],
            ..Container::default()
        },
        Container {
            name: "B".to_string(),
            members: vec![typed_member("a", "A")],
            ..Container::default()
        },
        Container {
            name: "E".to_string(),
            is_enum: true,
            ..Container::default()
        },
    ];
    assert_eq!(derive_default_table(&circle_with_enum), vec![false, false, false]);
}

#[test]
fn default_derivation_looks_only_at_bare_names_of_definitions() {
    let containers = vec![
        Container {
            name: "Enum".to_string(),
            is_enum: true,
            ..Container::default()
        },
        Container {
            name: "lower".to_string(),
            is_enum: true,
            ..Container::default()
        },
        Container {
            name: "String".to_string(),
            is_enum: true,
            ..Container::default()
        },
    ];
    let with = |type_: &str| Container {
        name: "Holder".to_string(),
        members: vec![typed_member("m", type_)],
        ..Container::default()
    };
    assert!(!with("Enum").can_derive_default(&containers));
    assert!(with("lower").can_derive_default(&containers));
    assert!(with("String").can_derive_default(&containers));
    assert!(with("BTreeMap<String, Enum>").can_derive_default(&containers));
    assert!(with("Missing").can_derive_default(&containers));
    assert!(with("").can_derive_default(&containers));
    assert!(with("Enum").can_derive_default(&[]));
}

#[test]
fn insert_keeps_the_first_definition_of_a_name() {
    let mut out = Output::default();
    let first = Container {
        name: "Same".to_string(),
        level: 1,
        ..Container::default()
    };
    let second = Container {
        name: "Same".to_string(),
        level: 2,
        members: vec![name_only_int_member("x")],
        ..Container::default()
    };
    let other = Container {
        name: "Other".to_string(),
        ..Container::default()
    };
    assert!(out.insert(first));
    assert_eq!(out.0.len(), 1);
    assert!(!out.insert(second));
    assert_eq!(out.0.len(), 1);
    assert_eq!(out.0[0].level, 1);
    assert!(out.0[0].members.is_empty());
    assert!(out.insert(other));
    assert_eq!(out.0.len(), 2);
    assert!(out.holds("Other"));
    assert!(!out.holds("other"));
}

#[test]
fn extend_offers_every_definition_in_order() {
    let named = |name: &str, level: u8| Container {
        name: name.to_string(),
        level,
        ..Container::default()
    };
    let mut out = Output(vec![named("A", 0), named("B", 1)]);
    out.extend(Output(vec![named("C", 2), named("A", 3), named("C", 4), named("D", 5)]));
    let listed: Vec<(String, u8)> = out.output().into_iter().map(|c| (c.name, c.level)).collect();
    assert_eq!(
        listed,
        vec![
            ("A".to_string(), 0),
            ("B".to_string(), 1),
            ("C".to_string(), 2),
            ("D".to_string(), 5)
        ]
    );
}

#[test]
fn rename_keeps_the_wire_name_in_an_annotation() {
    let mut c = Container {
        name: "Spec".to_string(),
        members: vec![
            name_only_int_member("fooBar"),
            name_only_int_member("plain"),
            name_only_int_member("type"),
            name_only_int_member("-"),
            name_only_int_member("_"),
        ],
        ..Container::default()
    };
    assert!(c.can_rename());
    c.rename();
    assert_eq!(c.members[0].name, "foo_bar");
    assert_eq!(c.members[0].serde_annot, vec!["rename = \"fooBar\"".to_string()]);
    assert_eq!(c.members[1].name, "plain");
    assert!(c.members[1].serde_annot.is_empty());
    assert_eq!(c.members[2].name, "r#type");
    assert_eq!(c.members[2].serde_annot, vec!["rename = \"type\"".to_string()]);
    assert_eq!(c.members[3].name, "kopium_dash");
    assert_eq!(c.members[4].name, "kopium_underscore");
}

#[test]
fn rename_names_degenerate_variants() {
    let mut c = Container {
        name: "Op".to_string(),
        is_enum: true,
        members: vec![
            name_only_enum_member(""),
            name_only_enum_member("-"),
            name_only_enum_member("_"),
            name_only_enum_member("mod"),
            name_only_enum_member("301"),
            name_only_enum_member("!="),
            name_only_enum_member("=="),
        ],
        ..Container::default()
    };
    assert!(c.try_rename());
    let names: Vec<&str> = c.members.iter().map(|m| m.name.as_str()).collect();
    assert_eq!(
        names,
        vec![
            "KopiumEmpty",
            "KopiumDash",
            "KopiumUnderscore",
            "Mod",
            "r#_301",
            "KopiumVariant5",
            "KopiumVariant6"
        ]
    );
    assert_eq!(c.members[4].serde_annot, vec!["rename = \"301\"".to_string()]);
}

#[test]
fn a_field_that_cannot_be_named_leaves_the_definition_as_it_is() {
    let mut c = Container {
        name: "Spec".to_string(),
        members: vec![name_only_int_member("ok"), name_only_int_member("")],
        ..Container::default()
    };
    assert!(!c.can_rename());
    assert!(!c.try_rename());
    assert_eq!(c.members[0].name, "ok");
    assert_eq!(c.members[1].name, "");
    assert!(c.members[0].serde_annot.is_empty());

    let out = Output(vec![c]);
    assert!(!out.can_rename());
    let back = out.try_rename().unwrap_err();
    assert_eq!(back.0.len(), 1);
    assert_eq!(back.0[0].members[1].name, "");
}

#[test]
fn rename_of_a_catalog_renames_every_definition() {
    let out = Output(vec![
        Container {
            name: "A".to_string(),
            members: vec![name_only_int_member("fooBar")],
            ..Container::default()
        },
        Container {
            name: "B".to_string(),
            is_enum: true,
            members: vec![name_only_enum_member("foo-bar")],
            ..Container::default()
        },
    ]);
    let renamed = out.rename();
    assert_eq!(renamed.0[0].members[0].name, "foo_bar");
    assert_eq!(renamed.0[1].members[0].name, "FooBar");
}

#[test]
fn escape_is_chosen_in_order() {
    assert_eq!(choose_escape("a".to_string(), true, true, true), Some("a".to_string()));
    assert_eq!(choose_escape("a".to_string(), false, true, true), Some("r#a".to_string()));
    assert_eq!(choose_escape("a".to_string(), false, false, true), Some("r#_a".to_string()));
    assert_eq!(choose_escape("a".to_string(), false, false, false), None);
}

#[test]
fn tell_apart_adds_the_suffix_until_the_name_is_new() {
    let seen = vec!["a".to_string(), "aX".to_string(), "aXXX".to_string()];
    assert_eq!(tell_apart("a".to_string(), &seen, "X"), "aXX");
    assert_eq!(tell_apart("b".to_string(), &seen, "X"), "b");
    assert_eq!(tell_apart("aXXX".to_string(), &seen, "_x"), "aXXX_x");
    assert_eq!(tell_apart("a".to_string(), &[].to_vec(), "X"), "a");
    assert_eq!(tell_apart("a".to_string(), &seen, ""), "a");
}

#[test]
fn apply_name_changes_nothing_for_the_same_name() {
    let same = apply_name(name_only_int_member("a"), "a".to_string());
    assert_eq!(same.name, "a");
    assert!(same.serde_annot.is_empty());
    let mut before = name_only_int_member("a-b");
    before.serde_annot.push("default".to_string());
    let changed = apply_name(before, "a_b".to_string());
    assert_eq!(changed.name, "a_b");
    assert_eq!(changed.type_, "u32");
    assert_eq!(
        changed.serde_annot,
        vec!["default".to_string(), "rename = \"a-b\"".to_string()]
    );
}

#[test]
fn builder_fields_mark_members_that_may_be_left_out() {
    let mut c = Container {
        name: "Spec".to_string(),
        members: vec![
            typed_member("a", "Option<String>"),
            typed_member("b", "Vec<String>"),
            typed_member("c", "BTreeMap<String, String>"),
            typed_member("d", "HashMap<String, String>"),
            typed_member("e", "String"),
        ],
        ..Container::default()
    };
    c.builder_fields();
    assert_eq!(
        c.members[0].extra_annot,
        vec!["#[builder(default, setter(strip_option))]".to_string()]
    );
    assert_eq!(c.members[1].extra_annot, vec!["#[builder(default)]".to_string()]);
    assert_eq!(c.members[2].extra_annot, vec!["#[builder(default)]".to_string()]);
    assert!(c.members[3].extra_annot.is_empty());
    assert!(c.members[4].extra_annot.is_empty());

    let untouched = Output(vec![Container {
        members: vec![typed_member("a", "Option<String>")],
        ..Container::default()
    }])
    .builder_fields(false);
    assert!(untouched.0[0].members[0].extra_annot.is_empty());
    let touched = untouched.builder_fields(true);
    assert_eq!(touched.0[0].members[0].extra_annot.len(), 1);
}

#[test]
fn container_predicates() {
    let c = Container {
        name: "FooSpec".to_string(),
        level: 1,
        members: vec![
            typed_member("a", "Option<BTreeMap<String, String>>"),
            typed_member("b", "Option<DateTime<Utc>>"),
            typed_member("c", "NaiveDate"),
            typed_member("d", "Vec<IntOrString>"),
            typed_member("e", "Option<Vec<Condition>>"),
            typed_member("f", "ObjectReference"),
        ],
        ..Container::default()
    };
    assert!(c.uses_btreemaps());
    assert!(!c.uses_hashmaps());
    assert!(c.uses_datetime());
    assert!(c.uses_date());
    assert!(c.uses_int_or_string());
    assert!(c.contains_conditions());
    assert!(c.contains_object_ref());
    assert!(!c.is_root());
    assert!(c.is_main_container());
    assert!(!c.is_status_container());
    let status = Container {
        name: "FooStatus".to_string(),
        level: 1,
        members: vec![typed_member("m", "HashMap<String, Condition>")],
        ..Container::default()
    };
    assert!(status.is_status_container());
    assert!(!status.is_main_container());
    assert!(status.uses_hashmaps());
    assert!(!status.contains_conditions());
    let root = Container {
        name: "FooSpec".to_string(),
        level: 0,
        ..Container::default()
    };
    assert!(root.is_root());
    assert!(!root.is_main_container());
}
