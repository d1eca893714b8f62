use minecrevy::io::version::{ProtocolVersion, VersionRangeIter};
use minecrevy::net::version::{
    ProtocolVersion as NetVersion, ReleaseVersion, SnapshotVersion, TryIntoReleaseError, TryIntoSnapshotError,
};

#[test]
fn protocol_version_numbers() {
    assert_eq!(ProtocolVersion::V1_7_2.get(), 4);
    assert_eq!(ProtocolVersion::V1_8.get(), 47);
    assert_eq!(ProtocolVersion::V1_19_4.get(), 762);
    assert_eq!(ProtocolVersion::from_repr(340), Some(ProtocolVersion::V1_12_2));
    assert_eq!(ProtocolVersion::from_repr(341), None);
}

#[test]
fn protocol_version_bounds() {
    assert_eq!(ProtocolVersion::min(), ProtocolVersion::V1_7_2);
    assert_eq!(ProtocolVersion::max(), ProtocolVersion::V1_19_4);
    let all = ProtocolVersion::all();
    assert_eq!(all.len(), 37);
    assert!(all.windows(2).all(|w| w[0].get() < w[1].get()));
}

#[test]
fn protocol_version_names() {
    assert_eq!(ProtocolVersion::V1_7_2.name(), "1.7.2");
    assert_eq!(ProtocolVersion::V1_19_4.name(), "1.19.4");
    assert_eq!(ProtocolVersion::V1_10.name(), "1.10");
}

#[test]
fn version_ranges() {
    let range = (ProtocolVersion::V1_16_4, ProtocolVersion::V1_18);
    assert_eq!(
        range.iter(),
        vec![ProtocolVersion::V1_16_4, ProtocolVersion::V1_17, ProtocolVersion::V1_17_1, ProtocolVersion::V1_18]
    );
    assert!((ProtocolVersion::V1_18, ProtocolVersion::V1_16_4).iter().is_empty());
}

#[test]
fn release_versions() {
    assert_eq!(ReleaseVersion::min(), ReleaseVersion::V1_7_2);
    assert_eq!(ReleaseVersion::max(), ReleaseVersion::V1_19_4);
    assert_eq!(ReleaseVersion::V1_19_4.v(), NetVersion(762));
    assert_eq!(ReleaseVersion::try_from_version(NetVersion(47)), Ok(ReleaseVersion::V1_8));
    assert_eq!(ReleaseVersion::try_from_version(NetVersion(48)), Err(TryIntoReleaseError(NetVersion(48))));
    for r in ReleaseVersion::all() {
        assert_eq!(ReleaseVersion::try_from_version(r.v()), Ok(r));
    }
}

#[test]
fn snapshot_versions() {
    assert_eq!(SnapshotVersion(5).v(), NetVersion(0x4000_0005));
    assert_eq!(SnapshotVersion::try_from_version(NetVersion(0x4000_0005)), Ok(SnapshotVersion(5)));
    assert_eq!(SnapshotVersion::try_from_version(NetVersion(5)), Err(TryIntoSnapshotError(NetVersion(5))));
    // Negative numbers keep their other bits, so they do not come back.
    assert_eq!(SnapshotVersion(-1).v(), NetVersion(-1));
    assert_eq!(SnapshotVersion::try_from_version(NetVersion(-1)), Ok(SnapshotVersion(-1 & !0x4000_0000)));
}
