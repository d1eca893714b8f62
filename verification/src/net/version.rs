//! Release and snapshot versions, and the protocol numbers they stand for.

use vstd::prelude::*;

verus! {

/// A protocol version number, as sent during the handshake.
#[derive(Clone, Copy, PartialEq, Eq, Structural, PartialOrd, Ord, Debug, Hash)]
pub struct ProtocolVersion(pub i32);

/// A Minecraft release and its protocol version.
#[derive(Clone, Copy, PartialEq, Eq, Structural, PartialOrd, Ord, Debug, Hash)]
pub enum ReleaseVersion {
    V1_7_2,
    V1_7_6,
    V1_8,
    V1_9,
    V1_9_1,
    V1_9_2,
    V1_9_4,
    V1_10,
    V1_11,
    V1_11_1,
    V1_12,
    V1_12_1,
    V1_12_2,
    V1_13,
    V1_13_1,
    V1_13_2,
    V1_14,
    V1_14_1,
    V1_14_2,
    V1_14_3,
    V1_14_4,
    V1_15,
    V1_15_1,
    V1_15_2,
    V1_16,
    V1_16_1,
    V1_16_2,
    V1_16_3,
    V1_16_4,
    V1_17,
    V1_17_1,
    V1_18,
    V1_18_2,
    V1_19,
    V1_19_1,
    V1_19_3,
    V1_19_4,
}

impl ReleaseVersion {
    /// The protocol version number.
    pub open spec fn number(self) -> i32 {
        match self {
            ReleaseVersion::V1_7_2 => 4,
            ReleaseVersion::V1_7_6 => 5,
            ReleaseVersion::V1_8 => 47,
            ReleaseVersion::V1_9 => 107,
            ReleaseVersion::V1_9_1 => 108,
            ReleaseVersion::V1_9_2 => 109,
            ReleaseVersion::V1_9_4 => 110,
            ReleaseVersion::V1_10 => 210,
            ReleaseVersion::V1_11 => 315,
            ReleaseVersion::V1_11_1 => 316,
            ReleaseVersion::V1_12 => 335,
            ReleaseVersion::V1_12_1 => 338,
            ReleaseVersion::V1_12_2 => 340,
            ReleaseVersion::V1_13 => 393,
            ReleaseVersion::V1_13_1 => 401,
            ReleaseVersion::V1_13_2 => 404,
            ReleaseVersion::V1_14 => 477,
            ReleaseVersion::V1_14_1 => 480,
            ReleaseVersion::V1_14_2 => 485,
            ReleaseVersion::V1_14_3 => 490,
            ReleaseVersion::V1_14_4 => 498,
            ReleaseVersion::V1_15 => 573,
            ReleaseVersion::V1_15_1 => 575,
            ReleaseVersion::V1_15_2 => 578,
            ReleaseVersion::V1_16 => 735,
            ReleaseVersion::V1_16_1 => 736,
            ReleaseVersion::V1_16_2 => 751,
            ReleaseVersion::V1_16_3 => 753,
            ReleaseVersion::V1_16_4 => 754,
            ReleaseVersion::V1_17 => 755,
            ReleaseVersion::V1_17_1 => 756,
            ReleaseVersion::V1_18 => 757,
            ReleaseVersion::V1_18_2 => 758,
            ReleaseVersion::V1_19 => 759,
            ReleaseVersion::V1_19_1 => 760,
            ReleaseVersion::V1_19_3 => 761,
            ReleaseVersion::V1_19_4 => 762,
        }
    }

    /// The version with the given number, if any.
    pub open spec fn from_number(v: i32) -> Option<ReleaseVersion> {
        if v == 4 {
            Some(ReleaseVersion::V1_7_2)
        } else if v == 5 {
            Some(ReleaseVersion::V1_7_6)
        } else if v == 47 {
            Some(ReleaseVersion::V1_8)
        } else if v == 107 {
            Some(ReleaseVersion::V1_9)
        } else if v == 108 {
            Some(ReleaseVersion::V1_9_1)
        } else if v == 109 {
            Some(ReleaseVersion::V1_9_2)
        } else if v == 110 {
            Some(ReleaseVersion::V1_9_4)
        } else if v == 210 {
            Some(ReleaseVersion::V1_10)
        } else if v == 315 {
            Some(ReleaseVersion::V1_11)
        } else if v == 316 {
            Some(ReleaseVersion::V1_11_1)
        } else if v == 335 {
            Some(ReleaseVersion::V1_12)
        } else if v == 338 {
            Some(ReleaseVersion::V1_12_1)
        } else if v == 340 {
            Some(ReleaseVersion::V1_12_2)
        } else if v == 393 {
            Some(ReleaseVersion::V1_13)
        } else if v == 401 {
            Some(ReleaseVersion::V1_13_1)
        } else if v == 404 {
            Some(ReleaseVersion::V1_13_2)
        } else if v == 477 {
            Some(ReleaseVersion::V1_14)
        } else if v == 480 {
            Some(ReleaseVersion::V1_14_1)
        } else if v == 485 {
            Some(ReleaseVersion::V1_14_2)
        } else if v == 490 {
            Some(ReleaseVersion::V1_14_3)
        } else if v == 498 {
            Some(ReleaseVersion::V1_14_4)
        } else if v == 573 {
            Some(ReleaseVersion::V1_15)
        } else if v == 575 {
            Some(ReleaseVersion::V1_15_1)
        } else if v == 578 {
            Some(ReleaseVersion::V1_15_2)
        } else if v == 735 {
            Some(ReleaseVersion::V1_16)
        } else if v == 736 {
            Some(ReleaseVersion::V1_16_1)
        } else if v == 751 {
            Some(ReleaseVersion::V1_16_2)
        } else if v == 753 {
            Some(ReleaseVersion::V1_16_3)
        } else if v == 754 {
            Some(ReleaseVersion::V1_16_4)
        } else if v == 755 {
            Some(ReleaseVersion::V1_17)
        } else if v == 756 {
            Some(ReleaseVersion::V1_17_1)
        } else if v == 757 {
            Some(ReleaseVersion::V1_18)
        } else if v == 758 {
            Some(ReleaseVersion::V1_18_2)
        } else if v == 759 {
            Some(ReleaseVersion::V1_19)
        } else if v == 760 {
            Some(ReleaseVersion::V1_19_1)
        } else if v == 761 {
            Some(ReleaseVersion::V1_19_3)
        } else if v == 762 {
            Some(ReleaseVersion::V1_19_4)
        } else {
            None
        }
    }

    /// All versions, oldest first.
    pub open spec fn all_spec() -> Seq<ReleaseVersion> {
        seq![ReleaseVersion::V1_7_2, ReleaseVersion::V1_7_6, ReleaseVersion::V1_8, ReleaseVersion::V1_9, ReleaseVersion::V1_9_1, ReleaseVersion::V1_9_2, ReleaseVersion::V1_9_4, ReleaseVersion::V1_10, ReleaseVersion::V1_11, ReleaseVersion::V1_11_1, ReleaseVersion::V1_12, ReleaseVersion::V1_12_1, ReleaseVersion::V1_12_2, ReleaseVersion::V1_13, ReleaseVersion::V1_13_1, ReleaseVersion::V1_13_2, ReleaseVersion::V1_14, ReleaseVersion::V1_14_1, ReleaseVersion::V1_14_2, ReleaseVersion::V1_14_3, ReleaseVersion::V1_14_4, ReleaseVersion::V1_15, ReleaseVersion::V1_15_1, ReleaseVersion::V1_15_2, ReleaseVersion::V1_16, ReleaseVersion::V1_16_1, ReleaseVersion::V1_16_2, ReleaseVersion::V1_16_3, ReleaseVersion::V1_16_4, ReleaseVersion::V1_17, ReleaseVersion::V1_17_1, ReleaseVersion::V1_18, ReleaseVersion::V1_18_2, ReleaseVersion::V1_19, ReleaseVersion::V1_19_1, ReleaseVersion::V1_19_3, ReleaseVersion::V1_19_4]
    }

    /// The version with the given number, if any.
    pub fn from_repr(v: i32) -> (r: Option<ReleaseVersion>)
        ensures
            r == ReleaseVersion::from_number(v),
    {
        match v {
            4 => Some(ReleaseVersion::V1_7_2),
            5 => Some(ReleaseVersion::V1_7_6),
            47 => Some(ReleaseVersion::V1_8),
            107 => Some(ReleaseVersion::V1_9),
            108 => Some(ReleaseVersion::V1_9_1),
            109 => Some(ReleaseVersion::V1_9_2),
            110 => Some(ReleaseVersion::V1_9_4),
            210 => Some(ReleaseVersion::V1_10),
            315 => Some(ReleaseVersion::V1_11),
            316 => Some(ReleaseVersion::V1_11_1),
            335 => Some(ReleaseVersion::V1_12),
            338 => Some(ReleaseVersion::V1_12_1),
            340 => Some(ReleaseVersion::V1_12_2),
            393 => Some(ReleaseVersion::V1_13),
            401 => Some(ReleaseVersion::V1_13_1),
            404 => Some(ReleaseVersion::V1_13_2),
            477 => Some(ReleaseVersion::V1_14),
            480 => Some(ReleaseVersion::V1_14_1),
            485 => Some(ReleaseVersion::V1_14_2),
            490 => Some(ReleaseVersion::V1_14_3),
            498 => Some(ReleaseVersion::V1_14_4),
            573 => Some(ReleaseVersion::V1_15),
            575 => Some(ReleaseVersion::V1_15_1),
            578 => Some(ReleaseVersion::V1_15_2),
            735 => Some(ReleaseVersion::V1_16),
            736 => Some(ReleaseVersion::V1_16_1),
            751 => Some(ReleaseVersion::V1_16_2),
            753 => Some(ReleaseVersion::V1_16_3),
            754 => Some(ReleaseVersion::V1_16_4),
            755 => Some(ReleaseVersion::V1_17),
            756 => Some(ReleaseVersion::V1_17_1),
            757 => Some(ReleaseVersion::V1_18),
            758 => Some(ReleaseVersion::V1_18_2),
            759 => Some(ReleaseVersion::V1_19),
            760 => Some(ReleaseVersion::V1_19_1),
            761 => Some(ReleaseVersion::V1_19_3),
            762 => Some(ReleaseVersion::V1_19_4),
            _ => None,
        }
    }

    /// The version's name, such as `1.19.4`.
    pub open spec fn spec_name(self) -> &'static str {
        match self {
            ReleaseVersion::V1_7_2 => "1.7.2",
            ReleaseVersion::V1_7_6 => "1.7.6",
            ReleaseVersion::V1_8 => "1.8",
            ReleaseVersion::V1_9 => "1.9",
            ReleaseVersion::V1_9_1 => "1.9.1",
            ReleaseVersion::V1_9_2 => "1.9.2",
            ReleaseVersion::V1_9_4 => "1.9.4",
            ReleaseVersion::V1_10 => "1.10",
            ReleaseVersion::V1_11 => "1.11",
            ReleaseVersion::V1_11_1 => "1.11.1",
            ReleaseVersion::V1_12 => "1.12",
            ReleaseVersion::V1_12_1 => "1.12.1",
            ReleaseVersion::V1_12_2 => "1.12.2",
            ReleaseVersion::V1_13 => "1.13",
            ReleaseVersion::V1_13_1 => "1.13.1",
            ReleaseVersion::V1_13_2 => "1.13.2",
            ReleaseVersion::V1_14 => "1.14",
            ReleaseVersion::V1_14_1 => "1.14.1",
            ReleaseVersion::V1_14_2 => "1.14.2",
            ReleaseVersion::V1_14_3 => "1.14.3",
            ReleaseVersion::V1_14_4 => "1.14.4",
            ReleaseVersion::V1_15 => "1.15",
            ReleaseVersion::V1_15_1 => "1.15.1",
            ReleaseVersion::V1_15_2 => "1.15.2",
            ReleaseVersion::V1_16 => "1.16",
            ReleaseVersion::V1_16_1 => "1.16.1",
            ReleaseVersion::V1_16_2 => "1.16.2",
            ReleaseVersion::V1_16_3 => "1.16.3",
            ReleaseVersion::V1_16_4 => "1.16.4",
            ReleaseVersion::V1_17 => "1.17",
            ReleaseVersion::V1_17_1 => "1.17.1",
            ReleaseVersion::V1_18 => "1.18",
            ReleaseVersion::V1_18_2 => "1.18.2",
            ReleaseVersion::V1_19 => "1.19",
            ReleaseVersion::V1_19_1 => "1.19.1",
            ReleaseVersion::V1_19_3 => "1.19.3",
            ReleaseVersion::V1_19_4 => "1.19.4",
        }
    }

    /// The version's name, such as `1.19.4`.
    pub fn name(&self) -> (s: &'static str)
        ensures
            s == self.spec_name(),
    {
        match self {
            ReleaseVersion::V1_7_2 => "1.7.2",
            ReleaseVersion::V1_7_6 => "1.7.6",
            ReleaseVersion::V1_8 => "1.8",
            ReleaseVersion::V1_9 => "1.9",
            ReleaseVersion::V1_9_1 => "1.9.1",
            ReleaseVersion::V1_9_2 => "1.9.2",
            ReleaseVersion::V1_9_4 => "1.9.4",
            ReleaseVersion::V1_10 => "1.10",
            ReleaseVersion::V1_11 => "1.11",
            ReleaseVersion::V1_11_1 => "1.11.1",
            ReleaseVersion::V1_12 => "1.12",
            ReleaseVersion::V1_12_1 => "1.12.1",
            ReleaseVersion::V1_12_2 => "1.12.2",
            ReleaseVersion::V1_13 => "1.13",
            ReleaseVersion::V1_13_1 => "1.13.1",
            ReleaseVersion::V1_13_2 => "1.13.2",
            ReleaseVersion::V1_14 => "1.14",
            ReleaseVersion::V1_14_1 => "1.14.1",
            ReleaseVersion::V1_14_2 => "1.14.2",
            ReleaseVersion::V1_14_3 => "1.14.3",
            ReleaseVersion::V1_14_4 => "1.14.4",
            ReleaseVersion::V1_15 => "1.15",
            ReleaseVersion::V1_15_1 => "1.15.1",
            ReleaseVersion::V1_15_2 => "1.15.2",
            ReleaseVersion::V1_16 => "1.16",
            ReleaseVersion::V1_16_1 => "1.16.1",
            ReleaseVersion::V1_16_2 => "1.16.2",
            ReleaseVersion::V1_16_3 => "1.16.3",
            ReleaseVersion::V1_16_4 => "1.16.4",
            ReleaseVersion::V1_17 => "1.17",
            ReleaseVersion::V1_17_1 => "1.17.1",
            ReleaseVersion::V1_18 => "1.18",
            ReleaseVersion::V1_18_2 => "1.18.2",
            ReleaseVersion::V1_19 => "1.19",
            ReleaseVersion::V1_19_1 => "1.19.1",
            ReleaseVersion::V1_19_3 => "1.19.3",
            ReleaseVersion::V1_19_4 => "1.19.4",
        }
    }

    /// All versions, oldest first.
    pub fn all() -> (v: Vec<ReleaseVersion>)
        ensures
            v@ == ReleaseVersion::all_spec(),
    {
        let mut v: Vec<ReleaseVersion> = Vec::new();
        v.push(ReleaseVersion::V1_7_2);
        v.push(ReleaseVersion::V1_7_6);
        v.push(ReleaseVersion::V1_8);
        v.push(ReleaseVersion::V1_9);
        v.push(ReleaseVersion::V1_9_1);
        v.push(ReleaseVersion::V1_9_2);
        v.push(ReleaseVersion::V1_9_4);
        v.push(ReleaseVersion::V1_10);
        v.push(ReleaseVersion::V1_11);
        v.push(ReleaseVersion::V1_11_1);
        v.push(ReleaseVersion::V1_12);
        v.push(ReleaseVersion::V1_12_1);
        v.push(ReleaseVersion::V1_12_2);
        v.push(ReleaseVersion::V1_13);
        v.push(ReleaseVersion::V1_13_1);
        v.push(ReleaseVersion::V1_13_2);
        v.push(ReleaseVersion::V1_14);
        v.push(ReleaseVersion::V1_14_1);
        v.push(ReleaseVersion::V1_14_2);
        v.push(ReleaseVersion::V1_14_3);
        v.push(ReleaseVersion::V1_14_4);
        v.push(ReleaseVersion::V1_15);
        v.push(ReleaseVersion::V1_15_1);
        v.push(ReleaseVersion::V1_15_2);
        v.push(ReleaseVersion::V1_16);
        v.push(ReleaseVersion::V1_16_1);
        v.push(ReleaseVersion::V1_16_2);
        v.push(ReleaseVersion::V1_16_3);
        v.push(ReleaseVersion::V1_16_4);
        v.push(ReleaseVersion::V1_17);
        v.push(ReleaseVersion::V1_17_1);
        v.push(ReleaseVersion::V1_18);
        v.push(ReleaseVersion::V1_18_2);
        v.push(ReleaseVersion::V1_19);
        v.push(ReleaseVersion::V1_19_1);
        v.push(ReleaseVersion::V1_19_3);
        v.push(ReleaseVersion::V1_19_4);
        assert(v@ =~= ReleaseVersion::all_spec());
        v
    }

    /// The oldest supported version.
    pub fn min() -> (v: ReleaseVersion)
        ensures
            v == ReleaseVersion::all_spec()[0],
            forall|i: int| 0 <= i < ReleaseVersion::all_spec().len() ==> v.number() <= #[trigger] ReleaseVersion::all_spec()[i].number(),
    {
        ReleaseVersion::V1_7_2
    }

    /// The most recent supported version.
    pub fn max() -> (v: ReleaseVersion)
        ensures
            v == ReleaseVersion::all_spec().last(),
            forall|i: int| 0 <= i < ReleaseVersion::all_spec().len() ==> #[trigger] ReleaseVersion::all_spec()[i].number() <= v.number(),
    {
        ReleaseVersion::V1_19_4
    }

    /// The protocol version of this release.
    pub fn v(self) -> (p: ProtocolVersion)
        ensures
            p == ProtocolVersion(self.number()),
    {
        let n: i32 = match self {
            ReleaseVersion::V1_7_2 => 4,
            ReleaseVersion::V1_7_6 => 5,
            ReleaseVersion::V1_8 => 47,
            ReleaseVersion::V1_9 => 107,
            ReleaseVersion::V1_9_1 => 108,
            ReleaseVersion::V1_9_2 => 109,
            ReleaseVersion::V1_9_4 => 110,
            ReleaseVersion::V1_10 => 210,
            ReleaseVersion::V1_11 => 315,
            ReleaseVersion::V1_11_1 => 316,
            ReleaseVersion::V1_12 => 335,
            ReleaseVersion::V1_12_1 => 338,
            ReleaseVersion::V1_12_2 => 340,
            ReleaseVersion::V1_13 => 393,
            ReleaseVersion::V1_13_1 => 401,
            ReleaseVersion::V1_13_2 => 404,
            ReleaseVersion::V1_14 => 477,
            ReleaseVersion::V1_14_1 => 480,
            ReleaseVersion::V1_14_2 => 485,
            ReleaseVersion::V1_14_3 => 490,
            ReleaseVersion::V1_14_4 => 498,
            ReleaseVersion::V1_15 => 573,
            ReleaseVersion::V1_15_1 => 575,
            ReleaseVersion::V1_15_2 => 578,
            ReleaseVersion::V1_16 => 735,
            ReleaseVersion::V1_16_1 => 736,
            ReleaseVersion::V1_16_2 => 751,
            ReleaseVersion::V1_16_3 => 753,
            ReleaseVersion::V1_16_4 => 754,
            ReleaseVersion::V1_17 => 755,
            ReleaseVersion::V1_17_1 => 756,
            ReleaseVersion::V1_18 => 757,
            ReleaseVersion::V1_18_2 => 758,
            ReleaseVersion::V1_19 => 759,
            ReleaseVersion::V1_19_1 => 760,
            ReleaseVersion::V1_19_3 => 761,
            ReleaseVersion::V1_19_4 => 762,
        };
        ProtocolVersion(n)
    }

    /// The release with the given protocol version; a number that belongs
    /// to no release is refused.
    pub fn try_from_version(version: ProtocolVersion) -> (r: Result<ReleaseVersion, TryIntoReleaseError>)
        ensures
            match ReleaseVersion::from_number(version.0) {
                Some(rel) => r == Ok::<ReleaseVersion, TryIntoReleaseError>(rel),
                None => r == Err::<ReleaseVersion, TryIntoReleaseError>(TryIntoReleaseError(version)),
            },
    {
        match ReleaseVersion::from_repr(version.0) {
            Some(rel) => Ok(rel),
            None => Err(TryIntoReleaseError(version)),
        }
    }
}

/// A protocol version that belongs to no release.
#[derive(Clone, Copy, PartialEq, Eq, Structural, Debug)]
pub struct TryIntoReleaseError(pub ProtocolVersion);

/// A snapshot, by its number; its protocol version is that number with the
/// snapshot bit (bit 30) set.
#[derive(Clone, Copy, PartialEq, Eq, Structural, PartialOrd, Ord, Debug, Hash)]
pub struct SnapshotVersion(pub i32);

/// A protocol version without the snapshot bit.
#[derive(Clone, Copy, PartialEq, Eq, Structural, Debug)]
pub struct TryIntoSnapshotError(pub ProtocolVersion);

/// The bit that marks a snapshot's protocol version.
pub const SNAPSHOT_BIT: i32 = 0x4000_0000;

impl SnapshotVersion {
    /// The protocol version of this snapshot: its number with the snapshot
    /// bit set.
    pub fn v(self) -> (p: ProtocolVersion)
        ensures
            p == ProtocolVersion(self.0 | SNAPSHOT_BIT),
    {
        ProtocolVersion(self.0 | SNAPSHOT_BIT)
    }

    /// The snapshot with the given protocol version: the number without the
    /// snapshot bit; a version without that bit is refused.
    pub fn try_from_version(version: ProtocolVersion) -> (r: Result<SnapshotVersion, TryIntoSnapshotError>)
        ensures
            version.0 & SNAPSHOT_BIT != 0 ==> r == Ok::<SnapshotVersion, TryIntoSnapshotError>(
                SnapshotVersion(version.0 & !SNAPSHOT_BIT),
            ),
            version.0 & SNAPSHOT_BIT == 0 ==> r == Err::<SnapshotVersion, TryIntoSnapshotError>(
                TryIntoSnapshotError(version),
            ),
    {
        if version.0 & SNAPSHOT_BIT != 0 {
            Ok(SnapshotVersion(version.0 & !SNAPSHOT_BIT))
        } else {
            Err(TryIntoSnapshotError(version))
        }
    }
}

/// A release's protocol version gives the release back.
pub proof fn lemma_release_roundtrip(r: ReleaseVersion)
    ensures
        ReleaseVersion::from_number(r.number()) == Some(r),
{
}

/// A snapshot whose number fits below the snapshot bit is given back by its
/// protocol version.
pub proof fn lemma_snapshot_roundtrip(n: i32)
    requires
        0 <= n < SNAPSHOT_BIT,
    ensures
        (n | SNAPSHOT_BIT) & SNAPSHOT_BIT != 0,
        (n | SNAPSHOT_BIT) & !SNAPSHOT_BIT == n,
{
    assert((n | 0x4000_0000i32) & 0x4000_0000i32 != 0 && (n | 0x4000_0000i32) & !0x4000_0000i32 == n) by (bit_vector)
        requires
            0 <= n < 0x4000_0000i32,
    ;
}

/// The protocol number Minecraft assigns to each release.
pub proof fn lemma_release_numbers()
    ensures
        ReleaseVersion::V1_7_2.number() == 4,
        ReleaseVersion::V1_7_6.number() == 5,
        ReleaseVersion::V1_8.number() == 47,
        ReleaseVersion::V1_9.number() == 107,
        ReleaseVersion::V1_9_1.number() == 108,
        ReleaseVersion::V1_9_2.number() == 109,
        ReleaseVersion::V1_9_4.number() == 110,
        ReleaseVersion::V1_10.number() == 210,
        ReleaseVersion::V1_11.number() == 315,
        ReleaseVersion::V1_11_1.number() == 316,
        ReleaseVersion::V1_12.number() == 335,
        ReleaseVersion::V1_12_1.number() == 338,
        ReleaseVersion::V1_12_2.number() == 340,
        ReleaseVersion::V1_13.number() == 393,
        ReleaseVersion::V1_13_1.number() == 401,
        ReleaseVersion::V1_13_2.number() == 404,
        ReleaseVersion::V1_14.number() == 477,
        ReleaseVersion::V1_14_1.number() == 480,
        ReleaseVersion::V1_14_2.number() == 485,
        ReleaseVersion::V1_14_3.number() == 490,
        ReleaseVersion::V1_14_4.number() == 498,
        ReleaseVersion::V1_15.number() == 573,
        ReleaseVersion::V1_15_1.number() == 575,
        ReleaseVersion::V1_15_2.number() == 578,
        ReleaseVersion::V1_16.number() == 735,
        ReleaseVersion::V1_16_1.number() == 736,
        ReleaseVersion::V1_16_2.number() == 751,
        ReleaseVersion::V1_16_3.number() == 753,
        ReleaseVersion::V1_16_4.number() == 754,
        ReleaseVersion::V1_17.number() == 755,
        ReleaseVersion::V1_17_1.number() == 756,
        ReleaseVersion::V1_18.number() == 757,
        ReleaseVersion::V1_18_2.number() == 758,
        ReleaseVersion::V1_19.number() == 759,
        ReleaseVersion::V1_19_1.number() == 760,
        ReleaseVersion::V1_19_3.number() == 761,
        ReleaseVersion::V1_19_4.number() == 762,
{
}

/// A number stands for a release exactly when it is that release's number.
pub proof fn lemma_from_number_exact(n: i32, v: ReleaseVersion)
    ensures
        ReleaseVersion::from_number(n) == Some(v) <==> v.number() == n,
{
}

/// The name of each release.
pub proof fn lemma_release_names()
    ensures
        ReleaseVersion::V1_7_2.spec_name()@ == "1.7.2"@,
        ReleaseVersion::V1_7_6.spec_name()@ == "1.7.6"@,
        ReleaseVersion::V1_8.spec_name()@ == "1.8"@,
        ReleaseVersion::V1_9.spec_name()@ == "1.9"@,
        ReleaseVersion::V1_9_1.spec_name()@ == "1.9.1"@,
        ReleaseVersion::V1_9_2.spec_name()@ == "1.9.2"@,
        ReleaseVersion::V1_9_4.spec_name()@ == "1.9.4"@,
        ReleaseVersion::V1_10.spec_name()@ == "1.10"@,
        ReleaseVersion::V1_11.spec_name()@ == "1.11"@,
        ReleaseVersion::V1_11_1.spec_name()@ == "1.11.1"@,
        ReleaseVersion::V1_12.spec_name()@ == "1.12"@,
        ReleaseVersion::V1_12_1.spec_name()@ == "1.12.1"@,
        ReleaseVersion::V1_12_2.spec_name()@ == "1.12.2"@,
        ReleaseVersion::V1_13.spec_name()@ == "1.13"@,
        ReleaseVersion::V1_13_1.spec_name()@ == "1.13.1"@,
        ReleaseVersion::V1_13_2.spec_name()@ == "1.13.2"@,
        ReleaseVersion::V1_14.spec_name()@ == "1.14"@,
        ReleaseVersion::V1_14_1.spec_name()@ == "1.14.1"@,
        ReleaseVersion::V1_14_2.spec_name()@ == "1.14.2"@,
        ReleaseVersion::V1_14_3.spec_name()@ == "1.14.3"@,
        ReleaseVersion::V1_14_4.spec_name()@ == "1.14.4"@,
        ReleaseVersion::V1_15.spec_name()@ == "1.15"@,
        ReleaseVersion::V1_15_1.spec_name()@ == "1.15.1"@,
        ReleaseVersion::V1_15_2.spec_name()@ == "1.15.2"@,
        ReleaseVersion::V1_16.spec_name()@ == "1.16"@,
        ReleaseVersion::V1_16_1.spec_name()@ == "1.16.1"@,
        ReleaseVersion::V1_16_2.spec_name()@ == "1.16.2"@,
        ReleaseVersion::V1_16_3.spec_name()@ == "1.16.3"@,
        ReleaseVersion::V1_16_4.spec_name()@ == "1.16.4"@,
        ReleaseVersion::V1_17.spec_name()@ == "1.17"@,
        ReleaseVersion::V1_17_1.spec_name()@ == "1.17.1"@,
        ReleaseVersion::V1_18.spec_name()@ == "1.18"@,
        ReleaseVersion::V1_18_2.spec_name()@ == "1.18.2"@,
        ReleaseVersion::V1_19.spec_name()@ == "1.19"@,
        ReleaseVersion::V1_19_1.spec_name()@ == "1.19.1"@,
        ReleaseVersion::V1_19_3.spec_name()@ == "1.19.3"@,
        ReleaseVersion::V1_19_4.spec_name()@ == "1.19.4"@,
{
}

/// A snapshot's protocol version is its number with bit 30 set.
pub proof fn lemma_snapshot_bit()
    ensures
        SNAPSHOT_BIT == 0x4000_0000,
{
}

} // verus!
