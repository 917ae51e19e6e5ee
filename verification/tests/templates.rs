use deb_toolkit::templates::{
    control_properties, format_control_file, format_policy_file, push_list, push_scalar,
    DebianControl, PolicyFileInput, Property,
};

/// A control input with every optional field unset, so each test can set
/// just the one it cares about.
fn bare() -> DebianControl {
    DebianControl {
        package_name: "mina-daemon".into(),
        version: "1.2.3".into(),
        vendor: String::new(),
        package_authors: String::new(),
        package_maintainer: "O(1)Labs <build@o1labs.org>".into(),
        package_description: "Mina daemon".into(),
        package_section: "base".into(),
        package_priority: "optional".into(),
        package_homepage: "https://minaprotocol.com/".into(),
        package_installed_size: String::new(),
        package_source: String::new(),
        architecture: "amd64".into(),
        suite: "stable".into(),
        codename: "bookworm".into(),
        depends: None,
        suggested_depends: None,
        recommended_depends: None,
        pre_depends: None,
        conflicts: None,
        replaces: None,
        provides: None,
        license: "Apache-2.0".into(),
        githash: "abc1234".into(),
        buildurl: "https://ci.example/1".into(),
    }
}

fn field(out: &str, name: &str) -> Option<String> {
    out.lines()
        .find(|l| l.starts_with(&format!("{}: ", name)) || l.trim_end() == format!("{}:", name))
        .map(|l| l[name.len() + 1..].trim().to_string())
}

#[test]
fn emits_depends_when_set() {
    let mut input = bare();
    input.depends = Some(vec!["libssl3".into(), "libgmp10".into()]);

    let out = format_control_file(&input).unwrap();

    assert_eq!(field(&out, "Depends").as_deref(), Some("libssl3, libgmp10"));
}

#[test]
fn emits_every_relationship_field() {
    let mut input = bare();
    input.depends = Some(vec!["a".into()]);
    input.pre_depends = Some(vec!["b".into()]);
    input.recommended_depends = Some(vec!["c".into()]);
    input.suggested_depends = Some(vec!["d".into()]);
    input.conflicts = Some(vec!["e".into()]);
    input.replaces = Some(vec!["f".into()]);
    input.provides = Some(vec!["g".into()]);
    input.vendor = "O(1)Labs".into();
    input.package_authors = "Mina".into();

    let out = format_control_file(&input).unwrap();

    for (name, expected) in [
        ("Depends", "a"),
        ("Pre-Depends", "b"),
        ("Recommends", "c"),
        ("Suggests", "d"),
        ("Conflicts", "e"),
        ("Replaces", "f"),
        ("Provides", "g"),
        ("Vendor", "O(1)Labs"),
        ("Authors", "Mina"),
    ] {
        assert_eq!(
            field(&out, name).as_deref(),
            Some(expected),
            "{} wrong in:\n{}",
            name,
            out
        );
    }
}

#[test]
fn omits_unset_optional_fields() {
    let out = format_control_file(&bare()).unwrap();

    for name in [
        "Depends",
        "Pre-Depends",
        "Recommends",
        "Suggests",
        "Conflicts",
        "Replaces",
        "Provides",
        "Vendor",
        "Authors",
    ] {
        assert!(
            !out.contains(&format!("{}:", name)),
            "{} should be absent from:\n{}",
            name,
            out
        );
    }
}

/// An empty list is "caller set it to nothing", which must not produce a
/// bare `Depends:` — dpkg rejects a relationship field with no value.
#[test]
fn omits_empty_and_blank_only_lists() {
    let mut input = bare();
    input.depends = Some(vec![]);
    input.conflicts = Some(vec!["".into(), "   ".into()]);

    let out = format_control_file(&input).unwrap();

    assert!(!out.contains("Depends:"), "got:\n{}", out);
    assert!(!out.contains("Conflicts:"), "got:\n{}", out);
}

#[test]
fn trims_entries_and_drops_blanks() {
    let mut input = bare();
    input.depends = Some(vec!["  libssl3 ".into(), "".into(), "libgmp10".into()]);

    let out = format_control_file(&input).unwrap();

    assert_eq!(field(&out, "Depends").as_deref(), Some("libssl3, libgmp10"));
}

/// The twelve fixed fields must keep appearing even when
/// blank, so existing packages keep byte-identical stanzas.
#[test]
fn always_emits_the_original_fields() {
    let out = format_control_file(&bare()).unwrap();

    for name in [
        "Package",
        "Version",
        "Architecture",
        "Maintainer",
        "Section",
        "Priority",
        "Homepage",
        "Installed-Size",
        "Source",
        "Suite",
        "Codename",
        "License",
    ] {
        assert!(
            out.contains(&format!("{}:", name)),
            "{} missing from:\n{}",
            name,
            out
        );
    }
}

/// The separator this writes must survive a reader that splits on `,`
/// and trims — otherwise writing and reading disagree about the same
/// package.
#[test]
fn list_separator_round_trips_through_the_verifier_split() {
    let mut input = bare();
    input.depends = Some(vec!["libssl3".into(), "libgmp10".into(), "tzdata".into()]);

    let out = format_control_file(&input).unwrap();
    let rendered = field(&out, "Depends").unwrap();

    let parsed: Vec<String> = rendered
        .split(',')
        .map(|s| s.trim().to_string())
        .filter(|s| !s.is_empty())
        .collect();

    assert_eq!(parsed, vec!["libssl3", "libgmp10", "tzdata"]);
}

#[test]
fn bare_stanza_is_exactly_the_fixed_fields_and_description() {
    let out = format_control_file(&bare()).unwrap();
    assert_eq!(
        out,
        "Package: mina-daemon\n\
         Version: 1.2.3\n\
         Architecture: amd64\n\
         Maintainer: O(1)Labs <build@o1labs.org>\n\
         Section: base\n\
         Priority: optional\n\
         Homepage: https://minaprotocol.com/\n\
         Installed-Size: \n\
         Source: \n\
         Suite: stable\n\
         Codename: bookworm\n\
         License: Apache-2.0\n\
         Description:\n \
         Mina daemon\n \
         Built from abc1234 by https://ci.example/1\n"
    );
}

#[test]
fn policy_file_names_the_key_everywhere() {
    let out = format_policy_file(&PolicyFileInput {
        key_filename: "k.gpg",
        key_id: "ABC",
        description: "d",
    })
    .unwrap();
    assert_eq!(
        out,
        "<?xml version=\"1.0\"?>\n\
         <!DOCTYPE Policy SYSTEM \"https://www.debian.org/debsig/1.0/policy.dtd\">\n\
         <Policy xmlns=\"https://www.debian.org/debsig/1.0/\">\n\
         \n  <!-- Here name and description can be anything. -->\n  \
         <Origin Name=\"Verification\" id=\"ABC\" Description=\"d\" />\n\
         \n  <Selection>\n    \
         <Required Type=\"origin\" File=\"k.gpg\" id=\"ABC\"/>\n  \
         </Selection>\n\
         \n  <Verification MinOptional=\"0\">\n    \
         <Required Type=\"origin\" File=\"k.gpg\" id=\"ABC\"/>\n  \
         </Verification>\n\
         \n</Policy>"
    );
}

fn pairs(props: &[Property]) -> Vec<(String, String)> {
    props.iter().map(|p| (p.name.clone(), p.value.clone())).collect()
}

#[test]
fn control_properties_follow_the_documented_order() {
    let mut input = bare();
    input.vendor = " O(1)Labs ".into();
    input.depends = Some(vec![" libssl3".into(), " ".into()]);
    input.provides = Some(vec!["mina".into()]);
    let got = pairs(&control_properties(&input));
    let want: Vec<(String, String)> = [
        ("Package", "mina-daemon"),
        ("Version", "1.2.3"),
        ("Architecture", "amd64"),
        ("Maintainer", "O(1)Labs <build@o1labs.org>"),
        ("Vendor", " O(1)Labs "),
        ("Section", "base"),
        ("Priority", "optional"),
        ("Homepage", "https://minaprotocol.com/"),
        ("Installed-Size", ""),
        ("Depends", "libssl3"),
        ("Provides", "mina"),
        ("Source", ""),
        ("Suite", "stable"),
        ("Codename", "bookworm"),
        ("License", "Apache-2.0"),
    ]
    .iter()
    .map(|(n, v)| (n.to_string(), v.to_string()))
    .collect();
    assert_eq!(got, want);
}

#[test]
fn push_scalar_skips_blank_values_only() {
    let mut props = Vec::new();
    push_scalar(&mut props, "Vendor", " \t\u{a0}");
    assert!(props.is_empty());
    push_scalar(&mut props, "Authors", " Mina ");
    assert_eq!(pairs(&props), vec![("Authors".to_string(), " Mina ".to_string())]);
}

#[test]
fn push_list_joins_trimmed_entries() {
    let mut props = Vec::new();
    push_list(&mut props, "Depends", &None);
    push_list(&mut props, "Conflicts", &Some(vec!["\u{3000}".into()]));
    assert!(props.is_empty());
    push_list(
        &mut props,
        "Suggests",
        &Some(vec![" a ".into(), "".into(), "b (>= 1.0)".into(), " c".into()]),
    );
    assert_eq!(
        pairs(&props),
        vec![("Suggests".to_string(), "a, b (>= 1.0), c".to_string())]
    );
}
