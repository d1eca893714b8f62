//! Protocol versions: the version numbers of Minecraft releases.

use vstd::prelude::*;

verus! {

/// The Minecraft protocol version sent during protocol handshake.
#[derive(Clone, Copy, PartialEq, Eq, Structural, PartialOrd, Ord, Debug, Hash)]
pub enum ProtocolVersion {
    /// Minecraft 1.7.2
    V1_7_2,
    /// Minecraft 1.7.6
    V1_7_6,
    /// Minecraft 1.8
    V1_8,
    /// Minecraft 1.9
    V1_9,
    /// Minecraft 1.9.1
    V1_9_1,
    /// Minecraft 1.9.2
    V1_9_2,
    /// Minecraft 1.9.4
    V1_9_4,
    /// Minecraft 1.10
    V1_10,
    /// Minecraft 1.11
    V1_11,
    /// Minecraft 1.11.1
    V1_11_1,
    /// Minecraft 1.12
    V1_12,
    /// Minecraft 1.12.1
    V1_12_1,
    /// Minecraft 1.12.2
    V1_12_2,
    /// Minecraft 1.13
    V1_13,
    /// Minecraft 1.13.1
    V1_13_1,
    /// Minecraft 1.13.2
    V1_13_2,
    /// Minecraft 1.14
    V1_14,
    /// Minecraft 1.14.1
    V1_14_1,
    /// Minecraft 1.14.2
    V1_14_2,
    /// Minecraft 1.14.3
    V1_14_3,
    /// Minecraft 1.14.4
    V1_14_4,
    /// Minecraft 1.15
    V1_15,
    /// Minecraft 1.15.1
    V1_15_1,
    /// Minecraft 1.15.2
    V1_15_2,
    /// Minecraft 1.16
    V1_16,
    /// Minecraft 1.16.1
    V1_16_1,
    /// Minecraft 1.16.2
    V1_16_2,
    /// Minecraft 1.16.3
    V1_16_3,
    /// Minecraft 1.16.4
    V1_16_4,
    /// Minecraft 1.17
    V1_17,
    /// Minecraft 1.17.1
    V1_17_1,
    /// Minecraft 1.18
    V1_18,
    /// Minecraft 1.18.2
    V1_18_2,
    /// Minecraft 1.19
    V1_19,
    /// Minecraft 1.19.1
    V1_19_1,
    /// Minecraft 1.19.3
    V1_19_3,
    /// Minecraft 1.19.4
    V1_19_4,
}

impl ProtocolVersion {
    /// The protocol version number.
    pub open spec fn number(self) -> i32 {
        match self {
            ProtocolVersion::V1_7_2 => 4,
            ProtocolVersion::V1_7_6 => 5,
            ProtocolVersion::V1_8 => 47,
            ProtocolVersion::V1_9 => 107,
            ProtocolVersion::V1_9_1 => 108,
            ProtocolVersion::V1_9_2 => 109,
            ProtocolVersion::V1_9_4 => 110,
            ProtocolVersion::V1_10 => 210,
            ProtocolVersion::V1_11 => 315,
            ProtocolVersion::V1_11_1 => 316,
            ProtocolVersion::V1_12 => 335,
            ProtocolVersion::V1_12_1 => 338,
            ProtocolVersion::V1_12_2 => 340,
            ProtocolVersion::V1_13 => 393,
            ProtocolVersion::V1_13_1 => 401,
            ProtocolVersion::V1_13_2 => 404,
            ProtocolVersion::V1_14 => 477,
            ProtocolVersion::V1_14_1 => 480,
            ProtocolVersion::V1_14_2 => 485,
            ProtocolVersion::V1_14_3 => 490,
            ProtocolVersion::V1_14_4 => 498,
            ProtocolVersion::V1_15 => 573,
            ProtocolVersion::V1_15_1 => 575,
            ProtocolVersion::V1_15_2 => 578,
            ProtocolVersion::V1_16 => 735,
            ProtocolVersion::V1_16_1 => 736,
            ProtocolVersion::V1_16_2 => 751,
            ProtocolVersion::V1_16_3 => 753,
            ProtocolVersion::V1_16_4 => 754,
            ProtocolVersion::V1_17 => 755,
            ProtocolVersion::V1_17_1 => 756,
            ProtocolVersion::V1_18 => 757,
            ProtocolVersion::V1_18_2 => 758,
            ProtocolVersion::V1_19 => 759,
            ProtocolVersion::V1_19_1 => 760,
            ProtocolVersion::V1_19_3 => 761,
            ProtocolVersion::V1_19_4 => 762,
        }
    }

    /// The version with the given number, if any.
    pub open spec fn from_number(v: i32) -> Option<ProtocolVersion> {
        if v == 4 {
            Some(ProtocolVersion::V1_7_2)
        } else if v == 5 {
            Some(ProtocolVersion::V1_7_6)
        } else if v == 47 {
            Some(ProtocolVersion::V1_8)
        } else if v == 107 {
            Some(ProtocolVersion::V1_9)
        } else if v == 108 {
            Some(ProtocolVersion::V1_9_1)
        } else if v == 109 {
            Some(ProtocolVersion::V1_9_2)
        } else if v == 110 {
            Some(ProtocolVersion::V1_9_4)
        } else if v == 210 {
            Some(ProtocolVersion::V1_10)
        } else if v == 315 {
            Some(ProtocolVersion::V1_11)
        } else if v == 316 {
            Some(ProtocolVersion::V1_11_1)
        } else if v == 335 {
            Some(ProtocolVersion::V1_12)
        } else if v == 338 {
            Some(ProtocolVersion::V1_12_1)
        } else if v == 340 {
            Some(ProtocolVersion::V1_12_2)
        } else if v == 393 {
            Some(ProtocolVersion::V1_13)
        } else if v == 401 {
            Some(ProtocolVersion::V1_13_1)
        } else if v == 404 {
            Some(ProtocolVersion::V1_13_2)
        } else if v == 477 {
            Some(ProtocolVersion::V1_14)
        } else if v == 480 {
            Some(ProtocolVersion::V1_14_1)
        } else if v == 485 {
            Some(ProtocolVersion::V1_14_2)
        } else if v == 490 {
            Some(ProtocolVersion::V1_14_3)
        } else if v == 498 {
            Some(ProtocolVersion::V1_14_4)
        } else if v == 573 {
            Some(ProtocolVersion::V1_15)
        } else if v == 575 {
            Some(ProtocolVersion::V1_15_1)
        } else if v == 578 {
            Some(ProtocolVersion::V1_15_2)
        } else if v == 735 {
            Some(ProtocolVersion::V1_16)
        } else if v == 736 {
            Some(ProtocolVersion::V1_16_1)
        } else if v == 751 {
            Some(ProtocolVersion::V1_16_2)
        } else if v == 753 {
            Some(ProtocolVersion::V1_16_3)
        } else if v == 754 {
            Some(ProtocolVersion::V1_16_4)
        } else if v == 755 {
            Some(ProtocolVersion::V1_17)
        } else if v == 756 {
            Some(ProtocolVersion::V1_17_1)
        } else if v == 757 {
            Some(ProtocolVersion::V1_18)
        } else if v == 758 {
            Some(ProtocolVersion::V1_18_2)
        } else if v == 759 {
            Some(ProtocolVersion::V1_19)
        } else if v == 760 {
            Some(ProtocolVersion::V1_19_1)
        } else if v == 761 {
            Some(ProtocolVersion::V1_19_3)
        } else if v == 762 {
            Some(ProtocolVersion::V1_19_4)
        } else {
            None
        }
    }

    /// All versions, oldest first.
    pub open spec fn all_spec() -> Seq<ProtocolVersion> {
        seq![ProtocolVersion::V1_7_2, ProtocolVersion::V1_7_6, ProtocolVersion::V1_8, ProtocolVersion::V1_9, ProtocolVersion::V1_9_1, ProtocolVersion::V1_9_2, ProtocolVersion::V1_9_4, ProtocolVersion::V1_10, ProtocolVersion::V1_11, ProtocolVersion::V1_11_1, ProtocolVersion::V1_12, ProtocolVersion::V1_12_1, ProtocolVersion::V1_12_2, ProtocolVersion::V1_13, ProtocolVersion::V1_13_1, ProtocolVersion::V1_13_2, ProtocolVersion::V1_14, ProtocolVersion::V1_14_1, ProtocolVersion::V1_14_2, ProtocolVersion::V1_14_3, ProtocolVersion::V1_14_4, ProtocolVersion::V1_15, ProtocolVersion::V1_15_1, ProtocolVersion::V1_15_2, ProtocolVersion::V1_16, ProtocolVersion::V1_16_1, ProtocolVersion::V1_16_2, ProtocolVersion::V1_16_3, ProtocolVersion::V1_16_4, ProtocolVersion::V1_17, ProtocolVersion::V1_17_1, ProtocolVersion::V1_18, ProtocolVersion::V1_18_2, ProtocolVersion::V1_19, ProtocolVersion::V1_19_1, ProtocolVersion::V1_19_3, ProtocolVersion::V1_19_4]
    }

    /// The version with the given number, if any.
    pub fn from_repr(v: i32) -> (r: Option<ProtocolVersion>)
        ensures
            r == ProtocolVersion::from_number(v),
    {
        match v {
            4 => Some(ProtocolVersion::V1_7_2),
            5 => Some(ProtocolVersion::V1_7_6),
            47 => Some(ProtocolVersion::V1_8),
            107 => Some(ProtocolVersion::V1_9),
            108 => Some(ProtocolVersion::V1_9_1),
            109 => Some(ProtocolVersion::V1_9_2),
            110 => Some(ProtocolVersion::V1_9_4),
            210 => Some(ProtocolVersion::V1_10),
            315 => Some(ProtocolVersion::V1_11),
            316 => Some(ProtocolVersion::V1_11_1),
            335 => Some(ProtocolVersion::V1_12),
            338 => Some(ProtocolVersion::V1_12_1),
            340 => Some(ProtocolVersion::V1_12_2),
            393 => Some(ProtocolVersion::V1_13),
            401 => Some(ProtocolVersion::V1_13_1),
            404 => Some(ProtocolVersion::V1_13_2),
            477 => Some(ProtocolVersion::V1_14),
            480 => Some(ProtocolVersion::V1_14_1),
            485 => Some(ProtocolVersion::V1_14_2),
            490 => Some(ProtocolVersion::V1_14_3),
            498 => Some(ProtocolVersion::V1_14_4),
            573 => Some(ProtocolVersion::V1_15),
            575 => Some(ProtocolVersion::V1_15_1),
            578 => Some(ProtocolVersion::V1_15_2),
            735 => Some(ProtocolVersion::V1_16),
            736 => Some(ProtocolVersion::V1_16_1),
            751 => Some(ProtocolVersion::V1_16_2),
            753 => Some(ProtocolVersion::V1_16_3),
            754 => Some(ProtocolVersion::V1_16_4),
            755 => Some(ProtocolVersion::V1_17),
            756 => Some(ProtocolVersion::V1_17_1),
            757 => Some(ProtocolVersion::V1_18),
            758 => Some(ProtocolVersion::V1_18_2),
            759 => Some(ProtocolVersion::V1_19),
            760 => Some(ProtocolVersion::V1_19_1),
            761 => Some(ProtocolVersion::V1_19_3),
            762 => Some(ProtocolVersion::V1_19_4),
            _ => None,
        }
    }

    /// The version's name, such as `1.19.4`.
    pub open spec fn spec_name(self) -> &'static str {
        match self {
            ProtocolVersion::V1_7_2 => "1.7.2",
            ProtocolVersion::V1_7_6 => "1.7.6",
            ProtocolVersion::V1_8 => "1.8",
            ProtocolVersion::V1_9 => "1.9",
            ProtocolVersion::V1_9_1 => "1.9.1",
            ProtocolVersion::V1_9_2 => "1.9.2",
            ProtocolVersion::V1_9_4 => "1.9.4",
            ProtocolVersion::V1_10 => "1.10",
            ProtocolVersion::V1_11 => "1.11",
            ProtocolVersion::V1_11_1 => "1.11.1",
            ProtocolVersion::V1_12 => "1.12",
            ProtocolVersion::V1_12_1 => "1.12.1",
            ProtocolVersion::V1_12_2 => "1.12.2",
            ProtocolVersion::V1_13 => "1.13",
            ProtocolVersion::V1_13_1 => "1.13.1",
            ProtocolVersion::V1_13_2 => "1.13.2",
            ProtocolVersion::V1_14 => "1.14",
            ProtocolVersion::V1_14_1 => "1.14.1",
            ProtocolVersion::V1_14_2 => "1.14.2",
            ProtocolVersion::V1_14_3 => "1.14.3",
            ProtocolVersion::V1_14_4 => "1.14.4",
            ProtocolVersion::V1_15 => "1.15",
            ProtocolVersion::V1_15_1 => "1.15.1",
            ProtocolVersion::V1_15_2 => "1.15.2",
            ProtocolVersion::V1_16 => "1.16",
            ProtocolVersion::V1_16_1 => "1.16.1",
            ProtocolVersion::V1_16_2 => "1.16.2",
            ProtocolVersion::V1_16_3 => "1.16.3",
            ProtocolVersion::V1_16_4 => "1.16.4",
            ProtocolVersion::V1_17 => "1.17",
            ProtocolVersion::V1_17_1 => "1.17.1",
            ProtocolVersion::V1_18 => "1.18",
            ProtocolVersion::V1_18_2 => "1.18.2",
            ProtocolVersion::V1_19 => "1.19",
            ProtocolVersion::V1_19_1 => "1.19.1",
            ProtocolVersion::V1_19_3 => "1.19.3",
            ProtocolVersion::V1_19_4 => "1.19.4",
        }
    }

    /// The version's name, such as `1.19.4`.
    pub fn name(&self) -> (s: &'static str)
        ensures
            s == self.spec_name(),
    {
        match self {
            ProtocolVersion::V1_7_2 => "1.7.2",
            ProtocolVersion::V1_7_6 => "1.7.6",
            ProtocolVersion::V1_8 => "1.8",
            ProtocolVersion::V1_9 => "1.9",
            ProtocolVersion::V1_9_1 => "1.9.1",
            ProtocolVersion::V1_9_2 => "1.9.2",
            ProtocolVersion::V1_9_4 => "1.9.4",
            ProtocolVersion::V1_10 => "1.10",
            ProtocolVersion::V1_11 => "1.11",
            ProtocolVersion::V1_11_1 => "1.11.1",
            ProtocolVersion::V1_12 => "1.12",
            ProtocolVersion::V1_12_1 => "1.12.1",
            ProtocolVersion::V1_12_2 => "1.12.2",
            ProtocolVersion::V1_13 => "1.13",
            ProtocolVersion::V1_13_1 => "1.13.1",
            ProtocolVersion::V1_13_2 => "1.13.2",
            ProtocolVersion::V1_14 => "1.14",
            ProtocolVersion::V1_14_1 => "1.14.1",
            ProtocolVersion::V1_14_2 => "1.14.2",
            ProtocolVersion::V1_14_3 => "1.14.3",
            ProtocolVersion::V1_14_4 => "1.14.4",
            ProtocolVersion::V1_15 => "1.15",
            ProtocolVersion::V1_15_1 => "1.15.1",
            ProtocolVersion::V1_15_2 => "1.15.2",
            ProtocolVersion::V1_16 => "1.16",
            ProtocolVersion::V1_16_1 => "1.16.1",
            ProtocolVersion::V1_16_2 => "1.16.2",
            ProtocolVersion::V1_16_3 => "1.16.3",
            ProtocolVersion::V1_16_4 => "1.16.4",
            ProtocolVersion::V1_17 => "1.17",
            ProtocolVersion::V1_17_1 => "1.17.1",
            ProtocolVersion::V1_18 => "1.18",
            ProtocolVersion::V1_18_2 => "1.18.2",
            ProtocolVersion::V1_19 => "1.19",
            ProtocolVersion::V1_19_1 => "1.19.1",
            ProtocolVersion::V1_19_3 => "1.19.3",
            ProtocolVersion::V1_19_4 => "1.19.4",
        }
    }

    /// All versions, oldest first.
    pub fn all() -> (v: Vec<ProtocolVersion>)
        ensures
            v@ == ProtocolVersion::all_spec(),
    {
        let mut v: Vec<ProtocolVersion> = Vec::new();
        v.push(ProtocolVersion::V1_7_2);
        v.push(ProtocolVersion::V1_7_6);
        v.push(ProtocolVersion::V1_8);
        v.push(ProtocolVersion::V1_9);
        v.push(ProtocolVersion::V1_9_1);
        v.push(ProtocolVersion::V1_9_2);
        v.push(ProtocolVersion::V1_9_4);
        v.push(ProtocolVersion::V1_10);
        v.push(ProtocolVersion::V1_11);
        v.push(ProtocolVersion::V1_11_1);
        v.push(ProtocolVersion::V1_12);
        v.push(ProtocolVersion::V1_12_1);
        v.push(ProtocolVersion::V1_12_2);
        v.push(ProtocolVersion::V1_13);
        v.push(ProtocolVersion::V1_13_1);
        v.push(ProtocolVersion::V1_13_2);
        v.push(ProtocolVersion::V1_14);
        v.push(ProtocolVersion::V1_14_1);
        v.push(ProtocolVersion::V1_14_2);
        v.push(ProtocolVersion::V1_14_3);
        v.push(ProtocolVersion::V1_14_4);
        v.push(ProtocolVersion::V1_15);
        v.push(ProtocolVersion::V1_15_1);
        v.push(ProtocolVersion::V1_15_2);
        v.push(ProtocolVersion::V1_16);
        v.push(ProtocolVersion::V1_16_1);
        v.push(ProtocolVersion::V1_16_2);
        v.push(ProtocolVersion::V1_16_3);
        v.push(ProtocolVersion::V1_16_4);
        v.push(ProtocolVersion::V1_17);
        v.push(ProtocolVersion::V1_17_1);
        v.push(ProtocolVersion::V1_18);
        v.push(ProtocolVersion::V1_18_2);
        v.push(ProtocolVersion::V1_19);
        v.push(ProtocolVersion::V1_19_1);
        v.push(ProtocolVersion::V1_19_3);
        v.push(ProtocolVersion::V1_19_4);
        assert(v@ =~= ProtocolVersion::all_spec());
        v
    }

    /// The oldest supported version.
    pub fn min() -> (v: ProtocolVersion)
        ensures
            v == ProtocolVersion::all_spec()[0],
            forall|i: int| 0 <= i < ProtocolVersion::all_spec().len() ==> v.number() <= #[trigger] ProtocolVersion::all_spec()[i].number(),
    {
        ProtocolVersion::V1_7_2
    }

    /// The most recent supported version.
    pub fn max() -> (v: ProtocolVersion)
        ensures
            v == ProtocolVersion::all_spec().last(),
            forall|i: int| 0 <= i < ProtocolVersion::all_spec().len() ==> #[trigger] ProtocolVersion::all_spec()[i].number() <= v.number(),
    {
        ProtocolVersion::V1_19_4
    }

    /// Gets the protocol version number.
    pub fn get(&self) -> (v: i32)
        ensures
            v == self.number(),
    {
        match self {
            ProtocolVersion::V1_7_2 => 4,
            ProtocolVersion::V1_7_6 => 5,
            ProtocolVersion::V1_8 => 47,
            ProtocolVersion::V1_9 => 107,
            ProtocolVersion::V1_9_1 => 108,
            ProtocolVersion::V1_9_2 => 109,
            ProtocolVersion::V1_9_4 => 110,
            ProtocolVersion::V1_10 => 210,
            ProtocolVersion::V1_11 => 315,
            ProtocolVersion::V1_11_1 => 316,
            ProtocolVersion::V1_12 => 335,
            ProtocolVersion::V1_12_1 => 338,
            ProtocolVersion::V1_12_2 => 340,
            ProtocolVersion::V1_13 => 393,
            ProtocolVersion::V1_13_1 => 401,
            ProtocolVersion::V1_13_2 => 404,
            ProtocolVersion::V1_14 => 477,
            ProtocolVersion::V1_14_1 => 480,
            ProtocolVersion::V1_14_2 => 485,
            ProtocolVersion::V1_14_3 => 490,
            ProtocolVersion::V1_14_4 => 498,
            ProtocolVersion::V1_15 => 573,
            ProtocolVersion::V1_15_1 => 575,
            ProtocolVersion::V1_15_2 => 578,
            ProtocolVersion::V1_16 => 735,
            ProtocolVersion::V1_16_1 => 736,
            ProtocolVersion::V1_16_2 => 751,
            ProtocolVersion::V1_16_3 => 753,
            ProtocolVersion::V1_16_4 => 754,
            ProtocolVersion::V1_17 => 755,
            ProtocolVersion::V1_17_1 => 756,
            ProtocolVersion::V1_18 => 757,
            ProtocolVersion::V1_18_2 => 758,
            ProtocolVersion::V1_19 => 759,
            ProtocolVersion::V1_19_1 => 760,
            ProtocolVersion::V1_19_3 => 761,
            ProtocolVersion::V1_19_4 => 762,
        }
    }
}

/// Every version number belongs to one version at most.
pub proof fn lemma_number_roundtrip(v: ProtocolVersion)
    ensures
        ProtocolVersion::from_number(v.number()) == Some(v),
{
}

/// A trait for listing the [`ProtocolVersion`]s in a range.
pub trait VersionRangeIter {
    /// Whether a version lies in the range.
    spec fn holds(&self, v: ProtocolVersion) -> bool;

    /// The versions in the range, oldest first.
    fn iter(&self) -> (r: Vec<ProtocolVersion>)
        ensures
            r@ == ProtocolVersion::all_spec().filter(|v: ProtocolVersion| self.holds(v)),
    ;
}

/// An inclusive range of versions, from its first to its second version.
impl VersionRangeIter for (ProtocolVersion, ProtocolVersion) {
    open spec fn holds(&self, v: ProtocolVersion) -> bool {
        self.0.number() <= v.number() && v.number() <= self.1.number()
    }

    fn iter(&self) -> (r: Vec<ProtocolVersion>) {
        let all = ProtocolVersion::all();
        let lo = self.0.get();
        let hi = self.1.get();
        let mut r: Vec<ProtocolVersion> = Vec::new();
        let mut i: usize = 0;
        assert(all@.take(0) =~= Seq::<ProtocolVersion>::empty());
        while i < all.len()
            invariant
                all@ == ProtocolVersion::all_spec(),
                lo == self.0.number(),
                hi == self.1.number(),
                i <= all@.len(),
                r@ == all@.take(i as int).filter(|v: ProtocolVersion| self.holds(v)),
            decreases all.len() - i,
        {
            let v = all[i];
            let n = v.get();
            proof {
                assert(all@.take((i + 1) as int).drop_last() =~= all@.take(i as int));
                reveal(Seq::filter);
                assert(all@.take((i + 1) as int).last() == v);
            }
            if lo <= n && n <= hi {
                r.push(v);
            }
            i = i + 1;
        }
        assert(all@.take(i as int) =~= all@);
        r
    }
}

/// The protocol number Minecraft assigns to each version.
pub proof fn lemma_protocol_numbers()
    ensures
        ProtocolVersion::V1_7_2.number() == 4,
        ProtocolVersion::V1_7_6.number() == 5,
        ProtocolVersion::V1_8.number() == 47,
        ProtocolVersion::V1_9.number() == 107,
        ProtocolVersion::V1_9_1.number() == 108,
        ProtocolVersion::V1_9_2.number() == 109,
        ProtocolVersion::V1_9_4.number() == 110,
        ProtocolVersion::V1_10.number() == 210,
        ProtocolVersion::V1_11.number() == 315,
        ProtocolVersion::V1_11_1.number() == 316,
        ProtocolVersion::V1_12.number() == 335,
        ProtocolVersion::V1_12_1.number() == 338,
        ProtocolVersion::V1_12_2.number() == 340,
        ProtocolVersion::V1_13.number() == 393,
        ProtocolVersion::V1_13_1.number() == 401,
        ProtocolVersion::V1_13_2.number() == 404,
        ProtocolVersion::V1_14.number() == 477,
        ProtocolVersion::V1_14_1.number() == 480,
        ProtocolVersion::V1_14_2.number() == 485,
        ProtocolVersion::V1_14_3.number() == 490,
        ProtocolVersion::V1_14_4.number() == 498,
        ProtocolVersion::V1_15.number() == 573,
        ProtocolVersion::V1_15_1.number() == 575,
        ProtocolVersion::V1_15_2.number() == 578,
        ProtocolVersion::V1_16.number() == 735,
        ProtocolVersion::V1_16_1.number() == 736,
        ProtocolVersion::V1_16_2.number() == 751,
        ProtocolVersion::V1_16_3.number() == 753,
        ProtocolVersion::V1_16_4.number() == 754,
        ProtocolVersion::V1_17.number() == 755,
        ProtocolVersion::V1_17_1.number() == 756,
        ProtocolVersion::V1_18.number() == 757,
        ProtocolVersion::V1_18_2.number() == 758,
        ProtocolVersion::V1_19.number() == 759,
        ProtocolVersion::V1_19_1.number() == 760,
        ProtocolVersion::V1_19_3.number() == 761,
        ProtocolVersion::V1_19_4.number() == 762,
{
}

/// A number stands for a version exactly when it is that version's number.
pub proof fn lemma_from_number_exact(n: i32, v: ProtocolVersion)
    ensures
        ProtocolVersion::from_number(n) == Some(v) <==> v.number() == n,
{
}

/// The name of each version.
pub proof fn lemma_protocol_names()
    ensures
        ProtocolVersion::V1_7_2.spec_name()@ == "1.7.2"@,
        ProtocolVersion::V1_7_6.spec_name()@ == "1.7.6"@,
        ProtocolVersion::V1_8.spec_name()@ == "1.8"@,
        ProtocolVersion::V1_9.spec_name()@ == "1.9"@,
        ProtocolVersion::V1_9_1.spec_name()@ == "1.9.1"@,
        ProtocolVersion::V1_9_2.spec_name()@ == "1.9.2"@,
        ProtocolVersion::V1_9_4.spec_name()@ == "1.9.4"@,
        ProtocolVersion::V1_10.spec_name()@ == "1.10"@,
        ProtocolVersion::V1_11.spec_name()@ == "1.11"@,
        ProtocolVersion::V1_11_1.spec_name()@ == "1.11.1"@,
        ProtocolVersion::V1_12.spec_name()@ == "1.12"@,
        ProtocolVersion::V1_12_1.spec_name()@ == "1.12.1"@,
        ProtocolVersion::V1_12_2.spec_name()@ == "1.12.2"@,
        ProtocolVersion::V1_13.spec_name()@ == "1.13"@,
        ProtocolVersion::V1_13_1.spec_name()@ == "1.13.1"@,
        ProtocolVersion::V1_13_2.spec_name()@ == "1.13.2"@,
        ProtocolVersion::V1_14.spec_name()@ == "1.14"@,
        ProtocolVersion::V1_14_1.spec_name()@ == "1.14.1"@,
        ProtocolVersion::V1_14_2.spec_name()@ == "1.14.2"@,
        ProtocolVersion::V1_14_3.spec_name()@ == "1.14.3"@,
        ProtocolVersion::V1_14_4.spec_name()@ == "1.14.4"@,
        ProtocolVersion::V1_15.spec_name()@ == "1.15"@,
        ProtocolVersion::V1_15_1.spec_name()@ == "1.15.1"@,
        ProtocolVersion::V1_15_2.spec_name()@ == "1.15.2"@,
        ProtocolVersion::V1_16.spec_name()@ == "1.16"@,
        ProtocolVersion::V1_16_1.spec_name()@ == "1.16.1"@,
        ProtocolVersion::V1_16_2.spec_name()@ == "1.16.2"@,
        ProtocolVersion::V1_16_3.spec_name()@ == "1.16.3"@,
        ProtocolVersion::V1_16_4.spec_name()@ == "1.16.4"@,
        ProtocolVersion::V1_17.spec_name()@ == "1.17"@,
        ProtocolVersion::V1_17_1.spec_name()@ == "1.17.1"@,
        ProtocolVersion::V1_18.spec_name()@ == "1.18"@,
        ProtocolVersion::V1_18_2.spec_name()@ == "1.18.2"@,
        ProtocolVersion::V1_19.spec_name()@ == "1.19"@,
        ProtocolVersion::V1_19_1.spec_name()@ == "1.19.1"@,
        ProtocolVersion::V1_19_3.spec_name()@ == "1.19.3"@,
        ProtocolVersion::V1_19_4.spec_name()@ == "1.19.4"@,
{
}

} // verus!
