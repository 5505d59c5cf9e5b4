//! Columns of the icicle export layout.

use vstd::prelude::*;

verus! {

/// A column of the icicle table.
#[derive(Debug, Clone, Copy, PartialEq, Eq, Structural)]
pub enum IcicleColumnKey {
    Idx,
    Zone,
    Server,
    Ip,
    Proto,
    Rcode,
    Rtt,
    Badge,
    Detail,
}

/// The header of each column.
pub open spec fn column_label(key: IcicleColumnKey) -> Seq<char> {
    match key {
        IcicleColumnKey::Idx => "hop"@,
        IcicleColumnKey::Zone => "zone"@,
        IcicleColumnKey::Server => "server"@,
        IcicleColumnKey::Ip => "address"@,
        IcicleColumnKey::Proto => "proto"@,
        IcicleColumnKey::Rcode => "rcode"@,
        IcicleColumnKey::Rtt => "rtt"@,
        IcicleColumnKey::Badge => "outcome"@,
        IcicleColumnKey::Detail => "detail"@,
    }
}

impl IcicleColumnKey {
    /// Every column, left to right.
    pub fn all() -> (r: [IcicleColumnKey; 9])
        ensures
            r@ == seq![
                IcicleColumnKey::Idx, IcicleColumnKey::Zone, IcicleColumnKey::Server, IcicleColumnKey::Ip,
                IcicleColumnKey::Proto, IcicleColumnKey::Rcode, IcicleColumnKey::Rtt, IcicleColumnKey::Badge,
                IcicleColumnKey::Detail,
            ],
    {
        let r = [
            IcicleColumnKey::Idx,
            IcicleColumnKey::Zone,
            IcicleColumnKey::Server,
            IcicleColumnKey::Ip,
            IcicleColumnKey::Proto,
            IcicleColumnKey::Rcode,
            IcicleColumnKey::Rtt,
            IcicleColumnKey::Badge,
            IcicleColumnKey::Detail,
        ];
        assert(r@ =~= seq![
            IcicleColumnKey::Idx, IcicleColumnKey::Zone, IcicleColumnKey::Server, IcicleColumnKey::Ip,
            IcicleColumnKey::Proto, IcicleColumnKey::Rcode, IcicleColumnKey::Rtt, IcicleColumnKey::Badge,
            IcicleColumnKey::Detail,
        ]);
        r
    }

    /// The column's header text.
    pub fn header_label(self) -> (s: &'static str)
        ensures
            s@ == column_label(self),
    {
        match self {
            IcicleColumnKey::Idx => "hop",
            IcicleColumnKey::Zone => "zone",
            IcicleColumnKey::Server => "server",
            IcicleColumnKey::Ip => "address",
            IcicleColumnKey::Proto => "proto",
            IcicleColumnKey::Rcode => "rcode",
            IcicleColumnKey::Rtt => "rtt",
            IcicleColumnKey::Badge => "outcome",
            IcicleColumnKey::Detail => "detail",
        }
    }
}

/// Whether a node lies on the primary path: first child at every level.
pub fn is_primary_path(path: &Vec<usize>) -> (r: bool)
    ensures
        r == (forall|i: int| 0 <= i < path@.len() ==> path@[i] == 0),
{
    let mut i: usize = 0;
    while i < path.len()
        invariant
            i <= path.len(),
            forall|k: int| 0 <= k < i ==> path@[k] == 0,
        decreases path.len() - i,
    {
        if path[i] != 0 {
            return false;
        }
        i = i + 1;
    }
    true
}

} // verus!
