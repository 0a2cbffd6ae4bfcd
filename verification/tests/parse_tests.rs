use sysxml::Channel;
use sysxml::KernelArch;
use sysxml::KernelConfig;
use sysxml::ParseError;
use sysxml::PlatformDescription;
use sysxml::parse;

fn plat() -> PlatformDescription {
    PlatformDescription::new(&KernelConfig { arch: KernelArch::Aarch64 })
}

const MINIMAL_PD: &str =
    r#"<system><protection_domain name="A"><program_image path="a.elf"/></protection_domain></system>"#;

#[test]
fn determinism_same_text_twice() {
    let text = r#"<system>
        <protection_domain name="A" priority="7"><program_image path="a.elf"/></protection_domain>
        <protection_domain name="B"><program_image path="b.elf"/></protection_domain>
        <channel><end pd="A" id="3"/><end pd="B" id="5"/></channel>
    </system>"#;
    let first = parse(text, plat()).unwrap();
    let second = parse(text, plat()).unwrap();
    assert_eq!(first.protection_domains, second.protection_domains);
    assert_eq!(first.memory_regions, second.memory_regions);
    assert_eq!(first.channels, second.channels);
}

#[test]
fn priority_max_accepted() {
    let text = r#"<system><protection_domain name="A" priority="254"><program_image path="a.elf"/></protection_domain></system>"#;
    let sys = parse(text, plat()).unwrap();
    assert_eq!(sys.protection_domains[0].priority, 254);
}

#[test]
fn priority_above_max_rejected() {
    let text = r#"<system><protection_domain name="A" priority="255"><program_image path="a.elf"/></protection_domain></system>"#;
    let err = parse(text, plat()).unwrap_err();
    assert_eq!(
        err,
        ParseError::OutOfRange {
            element: "protection_domain".to_string(),
            attribute: "priority".to_string(),
            min: 0,
            max: 254,
            actual: "255".to_string(),
        }
    );
}

#[test]
fn priority_absent_defaults_to_zero() {
    let sys = parse(MINIMAL_PD, plat()).unwrap();
    assert_eq!(sys.protection_domains[0].priority, 0);
}

#[test]
fn badge_id_max_accepted() {
    let text = r#"<system>
        <protection_domain name="A"><program_image path="a.elf"/></protection_domain>
        <protection_domain name="B"><program_image path="b.elf"/></protection_domain>
        <channel><end pd="A" id="62"/><end pd="B" id="0"/></channel>
    </system>"#;
    let sys = parse(text, plat()).unwrap();
    assert_eq!(sys.channels[0].id_a, 62);
}

#[test]
fn badge_id_above_max_rejected() {
    let text = r#"<system>
        <protection_domain name="A"><program_image path="a.elf"/></protection_domain>
        <protection_domain name="B"><program_image path="b.elf"/></protection_domain>
        <channel><end pd="A" id="63"/><end pd="B" id="0"/></channel>
    </system>"#;
    let err = parse(text, plat()).unwrap_err();
    assert_eq!(
        err,
        ParseError::OutOfRange {
            element: "end".to_string(),
            attribute: "id".to_string(),
            min: 0,
            max: 62,
            actual: "63".to_string(),
        }
    );
}

#[test]
fn channel_with_one_end_rejected() {
    let text = r#"<system>
        <protection_domain name="A"><program_image path="a.elf"/></protection_domain>
        <channel><end pd="A" id="1"/></channel>
    </system>"#;
    let err = parse(text, plat()).unwrap_err();
    assert_eq!(
        err,
        ParseError::CardinalityError {
            element: "channel".to_string(),
            expected: 2,
            actual: 1,
        }
    );
}

#[test]
fn channel_with_three_ends_rejected() {
    let text = r#"<system>
        <protection_domain name="A"><program_image path="a.elf"/></protection_domain>
        <channel><end pd="A" id="1"/><end pd="A" id="2"/><end pd="A" id="3"/></channel>
    </system>"#;
    let err = parse(text, plat()).unwrap_err();
    assert_eq!(
        err,
        ParseError::CardinalityError {
            element: "channel".to_string(),
            expected: 2,
            actual: 3,
        }
    );
}

#[test]
fn channel_with_two_ends_accepted() {
    let text = r#"<system>
        <protection_domain name="A"><program_image path="a.elf"/></protection_domain>
        <channel><end pd="A" id="1"/><end pd="A" id="2"/></channel>
    </system>"#;
    let sys = parse(text, plat()).unwrap();
    assert_eq!(sys.channels.len(), 1);
}

#[test]
fn forward_reference_rejected() {
    let text = r#"<system>
        <channel><end pd="X" id="1"/><end pd="X" id="2"/></channel>
        <protection_domain name="X"><program_image path="x.elf"/></protection_domain>
    </system>"#;
    let err = parse(text, plat()).unwrap_err();
    assert_eq!(
        err,
        ParseError::UnresolvedReference {
            kind: "protection_domain".to_string(),
            name: "X".to_string(),
        }
    );
}

#[test]
fn unknown_attribute_rejected() {
    let text = r#"<system><protection_domain name="A" typoo="x"><program_image path="a.elf"/></protection_domain></system>"#;
    let err = parse(text, plat()).unwrap_err();
    assert_eq!(
        err,
        ParseError::UnknownAttribute {
            element: "protection_domain".to_string(),
            attribute: "typoo".to_string(),
        }
    );
}

#[test]
fn index_stability_across_channels() {
    let text = r#"<system>
        <protection_domain name="A"><program_image path="a.elf"/></protection_domain>
        <protection_domain name="B"><program_image path="b.elf"/></protection_domain>
        <channel><end pd="A" id="1"/><end pd="B" id="2"/></channel>
        <channel><end pd="A" id="3"/><end pd="B" id="4"/></channel>
        <protection_domain name="C"><program_image path="c.elf"/></protection_domain>
        <channel><end pd="B" id="5"/><end pd="C" id="6"/></channel>
    </system>"#;
    let sys = parse(text, plat()).unwrap();
    assert_eq!(sys.protection_domains.len(), 3);
    assert_eq!(sys.protection_domains[1].name, "B");
    // The third channel names B: index 1, however many channels came first.
    assert_eq!(sys.channels[2].pd_a, 1);
    assert_eq!(sys.channels[2].pd_b, 2);
}

#[test]
fn end_to_end_two_domains_and_channel() {
    let text = r#"<system>
        <protection_domain name="A"><program_image path="a.elf"/></protection_domain>
        <protection_domain name="B"><program_image path="b.elf"/></protection_domain>
        <channel><end pd="A" id="3"/><end pd="B" id="5"/></channel>
    </system>"#;
    let sys = parse(text, plat()).unwrap();
    assert_eq!(sys.channels.len(), 1);
    assert_eq!(
        sys.channels[0],
        Channel { pd_a: 0, id_a: 3, pd_b: 1, id_b: 5 }
    );
}

#[test]
fn end_to_end_domain_fields() {
    let text = r#"<system><protection_domain name="A" priority="254"><program_image path="a.elf"/></protection_domain></system>"#;
    let sys = parse(text, plat()).unwrap();
    let pd = &sys.protection_domains[0];
    assert_eq!(pd.name, "A");
    assert_eq!(pd.priority, 254);
    assert_eq!(pd.budget, 1000);
    assert_eq!(pd.period, 1000);
    assert!(!pd.pp);
    assert!(!pd.passive);
    assert_eq!(pd.program_image, "a.elf");
    assert!(pd.maps.is_empty());
    assert!(pd.irqs.is_empty());
    assert!(pd.setvars.is_empty());
}

#[test]
fn unrecognized_top_level_element_rejected() {
    let text = r#"<system>
        <protection_domain name="A"><program_image path="a.elf"/></protection_domain>
        <bogus/>
    </system>"#;
    let err = parse(text, plat()).unwrap_err();
    assert_eq!(err, ParseError::UnsupportedElement { tag: "bogus".to_string() });
}

#[test]
fn malformed_document_rejected() {
    let err = parse("<system><unclosed>", plat()).unwrap_err();
    assert_eq!(err, ParseError::MalformedDocument);
    let err = parse("not xml at all", plat()).unwrap_err();
    assert_eq!(err, ParseError::MalformedDocument);
}

#[test]
fn empty_document_accepted() {
    let sys = parse("<system/>", plat()).unwrap();
    assert!(sys.protection_domains.is_empty());
    assert!(sys.memory_regions.is_empty());
    assert!(sys.channels.is_empty());
}

#[test]
fn text_and_comments_are_skipped() {
    let text = "<system> stray text <!-- a comment -->
        <protection_domain name=\"A\"> more text
        <!-- note --><program_image path=\"a.elf\"/></protection_domain>
    </system>";
    let sys = parse(text, plat()).unwrap();
    assert_eq!(sys.protection_domains.len(), 1);
    assert_eq!(sys.protection_domains[0].program_image, "a.elf");
}

#[test]
fn budget_upper_boundary() {
    let ok = r#"<system><protection_domain name="A" budget="4294967295"><program_image path="a.elf"/></protection_domain></system>"#;
    let sys = parse(ok, plat()).unwrap();
    assert_eq!(sys.protection_domains[0].budget, u32::MAX);
    let too_big = r#"<system><protection_domain name="A" budget="4294967296"><program_image path="a.elf"/></protection_domain></system>"#;
    let err = parse(too_big, plat()).unwrap_err();
    assert!(matches!(err, ParseError::OutOfRange { .. }));
}

#[test]
fn duplicate_domain_name_rejected() {
    let text = r#"<system>
        <protection_domain name="A"><program_image path="a1.elf"/></protection_domain>
        <protection_domain name="A"><program_image path="a2.elf"/></protection_domain>
    </system>"#;
    let err = parse(text, plat()).unwrap_err();
    assert_eq!(
        err,
        ParseError::DuplicateName {
            kind: "protection_domain".to_string(),
            name: "A".to_string(),
        }
    );
}

#[test]
fn badge_collision_in_one_channel_rejected() {
    let text = r#"<system>
        <protection_domain name="A"><program_image path="a.elf"/></protection_domain>
        <channel><end pd="A" id="5"/><end pd="A" id="5"/></channel>
    </system>"#;
    let err = parse(text, plat()).unwrap_err();
    assert_eq!(err, ParseError::DuplicateBadge { pd: 0, id: 5 });
}

#[test]
fn badge_collision_across_channels_rejected() {
    let text = r#"<system>
        <protection_domain name="A"><program_image path="a.elf"/></protection_domain>
        <protection_domain name="B"><program_image path="b.elf"/></protection_domain>
        <channel><end pd="A" id="1"/><end pd="B" id="2"/></channel>
        <channel><end pd="A" id="1"/><end pd="B" id="3"/></channel>
    </system>"#;
    let err = parse(text, plat()).unwrap_err();
    assert_eq!(err, ParseError::DuplicateBadge { pd: 0, id: 1 });
}

#[test]
fn same_badge_on_different_domains_accepted() {
    let text = r#"<system>
        <protection_domain name="A"><program_image path="a.elf"/></protection_domain>
        <protection_domain name="B"><program_image path="b.elf"/></protection_domain>
        <channel><end pd="A" id="1"/><end pd="B" id="1"/></channel>
    </system>"#;
    let sys = parse(text, plat()).unwrap();
    assert_eq!(sys.channels.len(), 1);
}

#[test]
fn distinct_badges_on_one_domain_accepted() {
    let text = r#"<system>
        <protection_domain name="A"><program_image path="a.elf"/></protection_domain>
        <channel><end pd="A" id="1"/><end pd="A" id="2"/></channel>
        <channel><end pd="A" id="3"/><end pd="A" id="4"/></channel>
    </system>"#;
    let sys = parse(text, plat()).unwrap();
    assert_eq!(sys.channels.len(), 2);
}

#[test]
fn unknown_domain_child_is_ignored() {
    let text = r#"<system><protection_domain name="A"><stray/><program_image path="a.elf"/></protection_domain></system>"#;
    let sys = parse(text, plat()).unwrap();
    assert_eq!(sys.protection_domains[0].program_image, "a.elf");
}

#[test]
fn root_tag_name_is_free() {
    let text = r#"<anything><protection_domain name="A"><program_image path="a.elf"/></protection_domain></anything>"#;
    let sys = parse(text, plat()).unwrap();
    assert_eq!(sys.protection_domains.len(), 1);
}

#[test]
fn missing_name_rejected() {
    let text = r#"<system><protection_domain><program_image path="a.elf"/></protection_domain></system>"#;
    let err = parse(text, plat()).unwrap_err();
    assert_eq!(
        err,
        ParseError::MissingAttribute {
            element: "protection_domain".to_string(),
            attribute: "name".to_string(),
        }
    );
}

#[test]
fn missing_program_image_rejected() {
    let text = r#"<system><protection_domain name="A"/></system>"#;
    let err = parse(text, plat()).unwrap_err();
    assert_eq!(
        err,
        ParseError::CardinalityError {
            element: "program_image".to_string(),
            expected: 1,
            actual: 0,
        }
    );
}

#[test]
fn two_program_images_rejected() {
    let text = r#"<system><protection_domain name="A"><program_image path="a.elf"/><program_image path="b.elf"/></protection_domain></system>"#;
    let err = parse(text, plat()).unwrap_err();
    assert_eq!(
        err,
        ParseError::CardinalityError {
            element: "program_image".to_string(),
            expected: 1,
            actual: 2,
        }
    );
}

#[test]
fn program_image_without_path_rejected() {
    let text = r#"<system><protection_domain name="A"><program_image/></protection_domain></system>"#;
    let err = parse(text, plat()).unwrap_err();
    assert_eq!(
        err,
        ParseError::MissingAttribute {
            element: "program_image".to_string(),
            attribute: "path".to_string(),
        }
    );
}

#[test]
fn scheduling_attributes_parsed_and_stored() {
    let text = r#"<system><protection_domain name="A" budget="500" period="2000" pp="true" passive="true"><program_image path="a.elf"/></protection_domain></system>"#;
    let sys = parse(text, plat()).unwrap();
    let pd = &sys.protection_domains[0];
    assert_eq!(pd.budget, 500);
    assert_eq!(pd.period, 2000);
    assert!(pd.pp);
    assert!(pd.passive);
}

#[test]
fn zero_budget_rejected() {
    let text = r#"<system><protection_domain name="A" budget="0"><program_image path="a.elf"/></protection_domain></system>"#;
    let err = parse(text, plat()).unwrap_err();
    assert!(matches!(err, ParseError::OutOfRange { .. }));
}

#[test]
fn non_numeric_priority_rejected() {
    let text = r#"<system><protection_domain name="A" priority="abc"><program_image path="a.elf"/></protection_domain></system>"#;
    let err = parse(text, plat()).unwrap_err();
    assert_eq!(
        err,
        ParseError::OutOfRange {
            element: "protection_domain".to_string(),
            attribute: "priority".to_string(),
            min: 0,
            max: 254,
            actual: "abc".to_string(),
        }
    );
}

#[test]
fn non_boolean_passive_rejected() {
    let text = r#"<system><protection_domain name="A" passive="maybe"><program_image path="a.elf"/></protection_domain></system>"#;
    let err = parse(text, plat()).unwrap_err();
    assert!(matches!(err, ParseError::OutOfRange { .. }));
}

#[test]
fn channel_attribute_rejected() {
    let text = r#"<system>
        <protection_domain name="A"><program_image path="a.elf"/></protection_domain>
        <channel name="c"><end pd="A" id="1"/><end pd="A" id="2"/></channel>
    </system>"#;
    let err = parse(text, plat()).unwrap_err();
    assert_eq!(
        err,
        ParseError::UnknownAttribute {
            element: "channel".to_string(),
            attribute: "name".to_string(),
        }
    );
}

#[test]
fn channel_with_non_end_child_rejected() {
    let text = r#"<system>
        <protection_domain name="A"><program_image path="a.elf"/></protection_domain>
        <channel><end pd="A" id="1"/><stray/></channel>
    </system>"#;
    let err = parse(text, plat()).unwrap_err();
    assert_eq!(err, ParseError::UnsupportedElement { tag: "stray".to_string() });
}

#[test]
fn end_with_unknown_attribute_rejected() {
    let text = r#"<system>
        <protection_domain name="A"><program_image path="a.elf"/></protection_domain>
        <channel><end pd="A" id="1" extra="y"/><end pd="A" id="2"/></channel>
    </system>"#;
    let err = parse(text, plat()).unwrap_err();
    assert_eq!(
        err,
        ParseError::UnknownAttribute {
            element: "end".to_string(),
            attribute: "extra".to_string(),
        }
    );
}

#[test]
fn end_missing_id_rejected() {
    let text = r#"<system>
        <protection_domain name="A"><program_image path="a.elf"/></protection_domain>
        <channel><end pd="A"/><end pd="A" id="2"/></channel>
    </system>"#;
    let err = parse(text, plat()).unwrap_err();
    assert_eq!(
        err,
        ParseError::MissingAttribute {
            element: "end".to_string(),
            attribute: "id".to_string(),
        }
    );
}
