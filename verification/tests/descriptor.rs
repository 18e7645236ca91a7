use starfish::descriptor::{Descriptor, DescriptorError, Version};

#[test]
fn test_list_descriptors() {
    let names = ["CommitLog-1-13.log", "CommitLog-1-1234.log"];
    let descriptors: Vec<Descriptor> = names
        .iter()
        .map(|n| Descriptor::try_create(n).map_err(|_| "Oops".to_owned()).unwrap())
        .collect();
    assert_eq!(descriptors, vec![Descriptor::create(13), Descriptor::create(1234)]);
}

#[test]
fn create_names_the_segment() {
    let d = Descriptor::create(1234);
    assert_eq!(d.filename(), "CommitLog-1-1234.log");
    assert_eq!(d.segment_id(), 1234);
    assert_eq!(d.version(), Version::V1);
    assert_eq!(Descriptor::create(0).filename(), "CommitLog-1-0.log");
    assert_eq!(
        Descriptor::create(u64::MAX).filename(),
        "CommitLog-1-18446744073709551615.log"
    );
}

#[test]
fn try_create_reads_back_create() {
    for id in [0u64, 7, 10, 99, 100, 65535, u64::MAX] {
        let d = Descriptor::create(id);
        let back = Descriptor::try_create(d.filename()).unwrap();
        assert_eq!(back, d);
        assert_eq!(back.segment_id(), id);
    }
}

#[test]
fn try_create_normalises_leading_zeros() {
    let d = Descriptor::try_create("CommitLog-001-0042.log").unwrap();
    assert_eq!(d.segment_id(), 42);
    assert_eq!(d.filename(), "CommitLog-1-42.log");
}

#[test]
fn try_create_refuses_other_names() {
    for name in [
        "",
        "CommitLog-1-13.lo",
        "CommitLog-1-13.logx",
        "commitlog-1-13.log",
        "CommitLog--13.log",
        "CommitLog-1-.log",
        "CommitLog-1-1a.log",
        "CommitLog-+1-13.log",
        "CommitLog-1_13.log",
        "xCommitLog-1-13.log",
        "CommitLog-1-13-1.log",
    ] {
        assert_eq!(Descriptor::try_create(name), Err(DescriptorError::Malformed), "{}", name);
    }
}

#[test]
fn try_create_checks_the_numbers() {
    assert_eq!(
        Descriptor::try_create("CommitLog-256-1.log"),
        Err(DescriptorError::InvalidVersion)
    );
    assert_eq!(
        Descriptor::try_create("CommitLog-2-1.log"),
        Err(DescriptorError::UnsupportedVersion(2))
    );
    assert_eq!(
        Descriptor::try_create("CommitLog-0-1.log"),
        Err(DescriptorError::UnsupportedVersion(0))
    );
    assert_eq!(
        Descriptor::try_create("CommitLog-1-18446744073709551616.log"),
        Err(DescriptorError::InvalidSegmentId)
    );
    // The version is checked before the segment id.
    assert_eq!(
        Descriptor::try_create("CommitLog-3-18446744073709551616.log"),
        Err(DescriptorError::UnsupportedVersion(3))
    );
}

#[test]
fn version_parse() {
    assert_eq!(Version::parse("1"), Ok(Version::V1));
    assert_eq!(Version::parse("+1"), Ok(Version::V1));
    assert_eq!(Version::parse("001"), Ok(Version::V1));
    assert_eq!(Version::parse("2"), Err(DescriptorError::UnsupportedVersion(2)));
    assert_eq!(Version::parse("255"), Err(DescriptorError::UnsupportedVersion(255)));
    assert_eq!(Version::parse("256"), Err(DescriptorError::InvalidVersion));
    assert_eq!(Version::parse(""), Err(DescriptorError::InvalidVersion));
    assert_eq!(Version::parse("+"), Err(DescriptorError::InvalidVersion));
    assert_eq!(Version::parse("-1"), Err(DescriptorError::InvalidVersion));
    assert_eq!(Version::parse("1 "), Err(DescriptorError::InvalidVersion));
    assert_eq!(Version::V1.number(), 1);
}

#[test]
fn created_name_reads_back_to_the_same_descriptor() {
    for id in [0u64, 13, 1234, u64::MAX] {
        let d = Descriptor::create(id);
        assert_eq!(Descriptor::try_create(d.filename()).unwrap(), d);
    }
}
