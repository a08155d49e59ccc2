use vstd::prelude::*;

verus! {

/// Largest size that fits in the low 46 bits.
pub const MAX_SIZE: u64 = 0x3fff_ffff_ffff;

/// The kind of a file system node.
#[derive(Debug, Clone, Copy, PartialEq, Eq, Structural)]
pub enum NodeFileType {
    File,
    Dir,
    Symlink,
    Unknown,
}

impl NodeFileType {
    /// The numeric code of the kind (its `repr(u8)` value).
    pub open spec fn spec_code(self) -> u8 {
        match self {
            NodeFileType::File => 0,
            NodeFileType::Dir => 1,
            NodeFileType::Symlink => 2,
            NodeFileType::Unknown => 3,
        }
    }

    /// The numeric code of the kind.
    pub fn code(self) -> (r: u8)
        ensures
            r == self.spec_code(),
    {
        match self {
            NodeFileType::File => 0,
            NodeFileType::Dir => 1,
            NodeFileType::Symlink => 2,
            NodeFileType::Unknown => 3,
        }
    }

    /// The kind of a node from what `std::fs::FileType` answers: a file
    /// first, then a directory, then a symlink.
    pub fn from_kind(is_file: bool, is_dir: bool, is_symlink: bool) -> (r: NodeFileType)
        ensures
            r == (if is_file {
                NodeFileType::File
            } else if is_dir {
                NodeFileType::Dir
            } else if is_symlink {
                NodeFileType::Symlink
            } else {
                NodeFileType::Unknown
            }),
    {
        if is_file {
            NodeFileType::File
        } else if is_dir {
            NodeFileType::Dir
        } else if is_symlink {
            NodeFileType::Symlink
        } else {
            NodeFileType::Unknown
        }
    }

    /// The kind with the given numeric code, if there is one.
    pub fn n(value: u8) -> (r: Option<NodeFileType>)
        ensures
            value < 4 <==> r is Some,
            r matches Some(t) ==> t.spec_code() == value,
    {
        match value {
            0 => Some(NodeFileType::File),
            1 => Some(NodeFileType::Dir),
            2 => Some(NodeFileType::Symlink),
            3 => Some(NodeFileType::Unknown),
            _ => None,
        }
    }
}

/// Node kind in the high 2 bits, size in the low 46 bits (saturated), stored
/// as six little-endian bytes.
#[derive(Debug, Clone, Copy)]
pub struct TypeAndSize(pub [u8; 6]);

pub open spec fn packed_of(bytes: Seq<u8>) -> u64 {
    (bytes[0] as u64) | ((bytes[1] as u64) << 8u64) | ((bytes[2] as u64) << 16u64) | ((
    bytes[3] as u64) << 24u64) | ((bytes[4] as u64) << 32u64) | ((bytes[5] as u64) << 40u64)
}

pub open spec fn min_u64(a: u64, b: u64) -> u64 {
    if a < b {
        a
    } else {
        b
    }
}

impl TypeAndSize {
    /// The 48-bit number the six bytes encode.
    pub open spec fn packed(self) -> u64 {
        packed_of(self.0@)
    }

    /// The stored size: the low 46 bits.
    pub open spec fn spec_size(self) -> u64 {
        self.packed() & MAX_SIZE
    }

    /// The code of the stored kind: the high 2 bits.
    pub open spec fn spec_type_code(self) -> u8 {
        self.0@[5] >> 6u8
    }

    pub fn new(file_type: NodeFileType, size: u64) -> (r: Self)
        ensures
            r.spec_type_code() == file_type.spec_code(),
            r.spec_size() == min_u64(size, MAX_SIZE),
            r.packed() == min_u64(size, MAX_SIZE) | ((file_type.spec_code() as u64) << 46u64),
    {
        let clamped: u64 = if size < MAX_SIZE {
            size
        } else {
            MAX_SIZE
        };
        let code: u64 = file_type.code() as u64;
        let v: u64 = clamped | (code << 46u64);
        let b0: u8 = (v & 0xff) as u8;
        let b1: u8 = ((v >> 8u64) & 0xff) as u8;
        let b2: u8 = ((v >> 16u64) & 0xff) as u8;
        let b3: u8 = ((v >> 24u64) & 0xff) as u8;
        let b4: u8 = ((v >> 32u64) & 0xff) as u8;
        let b5: u8 = ((v >> 40u64) & 0xff) as u8;
        let r = TypeAndSize([b0, b1, b2, b3, b4, b5]);
        proof {
            assert(r.0@ =~= seq![b0, b1, b2, b3, b4, b5]);
            lemma_pack_roundtrip(clamped, code, v, b0, b1, b2, b3, b4, b5);
        }
        r
    }

    pub fn file_type(&self) -> (r: NodeFileType)
        ensures
            r.spec_code() == self.spec_type_code(),
    {
        let b5: u8 = self.0[5];
        assert(b5 >> 6u8 < 4) by (bit_vector);
        match NodeFileType::n(b5 >> 6u8) {
            Some(t) => t,
            None => NodeFileType::Unknown,
        }
    }

    pub fn size(&self) -> (r: u64)
        ensures
            r == self.spec_size(),
    {
        let value: u64 = (self.0[0] as u64) | ((self.0[1] as u64) << 8u64) | ((self.0[2] as u64)
            << 16u64) | ((self.0[3] as u64) << 24u64) | ((self.0[4] as u64) << 32u64) | ((
        self.0[5] as u64) << 40u64);
        value & MAX_SIZE
    }
}

proof fn lemma_pack_roundtrip(
    clamped: u64,
    code: u64,
    v: u64,
    b0: u8,
    b1: u8,
    b2: u8,
    b3: u8,
    b4: u8,
    b5: u8,
)
    requires
        clamped <= MAX_SIZE,
        code < 4,
        v == clamped | (code << 46u64),
        b0 == (v & 0xff) as u8,
        b1 == ((v >> 8u64) & 0xff) as u8,
        b2 == ((v >> 16u64) & 0xff) as u8,
        b3 == ((v >> 24u64) & 0xff) as u8,
        b4 == ((v >> 32u64) & 0xff) as u8,
        b5 == ((v >> 40u64) & 0xff) as u8,
    ensures
        (b0 as u64) | ((b1 as u64) << 8u64) | ((b2 as u64) << 16u64) | ((b3 as u64) << 24u64) | ((
        b4 as u64) << 32u64) | ((b5 as u64) << 40u64) == v,
        v & MAX_SIZE == clamped,
        b5 >> 6u8 == code as u8,
{
    assert((b0 as u64) | ((b1 as u64) << 8u64) | ((b2 as u64) << 16u64) | ((b3 as u64) << 24u64)
        | ((b4 as u64) << 32u64) | ((b5 as u64) << 40u64) == v) by (bit_vector)
        requires
            clamped <= 0x3fff_ffff_ffffu64,
            code < 4,
            v == clamped | (code << 46u64),
            b0 == (v & 0xff) as u8,
            b1 == ((v >> 8u64) & 0xff) as u8,
            b2 == ((v >> 16u64) & 0xff) as u8,
            b3 == ((v >> 24u64) & 0xff) as u8,
            b4 == ((v >> 32u64) & 0xff) as u8,
            b5 == ((v >> 40u64) & 0xff) as u8,
    ;
    assert(v & 0x3fff_ffff_ffffu64 == clamped) by (bit_vector)
        requires
            clamped <= 0x3fff_ffff_ffffu64,
            code < 4,
            v == clamped | (code << 46u64),
    ;
    assert(b5 >> 6u8 == code as u8) by (bit_vector)
        requires
            clamped <= 0x3fff_ffff_ffffu64,
            code < 4,
            v == clamped | (code << 46u64),
            b5 == ((v >> 40u64) & 0xff) as u8,
    ;
}

} // verus!
