//! The metadata header at the start of a FLAC stream: the `fLaC` marker,
//! then metadata blocks, each with a one-byte kind (its top bit marking the
//! last block) and a 24-bit big-endian length.
use vstd::prelude::*;

verus! {

#[derive(Clone, Copy, Debug, PartialEq, Eq, Structural)]
pub enum FlacError {
    /// The stream does not begin with `fLaC`.
    InvalidMagicNumber,
    /// The stream ends inside the marker or a block.
    UnexpectedEnd,
    /// The first block is not the stream information.
    FirstBlockNotStreamInfo,
}

/// The stream information block.
#[derive(Debug)]
pub struct BlockStreamInfo {
    pub min_block_size: u16,
    pub max_block_size: u16,
    pub min_frame_size: u32,
    pub max_frame_size: u32,
    pub sample_rate: u32,
    pub channels: u8,
    pub bits_per_sample: u8,
    pub total_samples: u64,
    pub md5_signature: Vec<u8>,
}

/// The content of a metadata block. Blocks other than the stream
/// information and padding keep their bytes as stored.
#[derive(Debug)]
pub enum MetadataBlockData {
    StreamInfo(BlockStreamInfo),
    Padding(usize),
    Application(Vec<u8>),
    SeekTable(Vec<u8>),
    Comment(Vec<u8>),
    CueSheet(Vec<u8>),
    Picture(Vec<u8>),
    Reserved((u8, Vec<u8>)),
}

#[derive(Debug)]
pub struct MetadataBlock {
    pub is_last: bool,
    pub length: usize,
    pub data: MetadataBlockData,
}

#[derive(Debug)]
pub struct FlacHeader {
    pub blocks: Vec<MetadataBlock>,
}

pub open spec fn stream_info_len() -> int {
    34
}

pub open spec fn kind_at(b: Seq<u8>, pos: int) -> int {
    b[pos] as int % 128
}

pub open spec fn last_at(b: Seq<u8>, pos: int) -> bool {
    b[pos] >= 128
}

pub open spec fn len_at(b: Seq<u8>, pos: int) -> int {
    b[pos + 1] as int * 65536 + b[pos + 2] as int * 256 + b[pos + 3] as int
}

/// A whole block stands at `pos`, its stream information long enough if it is one.
pub open spec fn block_fits(b: Seq<u8>, pos: int) -> bool {
    &&& 0 <= pos && pos + 4 <= b.len()
    &&& pos + 4 + len_at(b, pos) <= b.len()
    &&& kind_at(b, pos) == 0 ==> len_at(b, pos) >= stream_info_len()
}

/// Where the blocks from `pos` on start, up to and including the last one.
pub open spec fn block_starts(b: Seq<u8>, pos: int) -> Option<Seq<int>>
    decreases b.len() - pos,
{
    if !block_fits(b, pos) {
        None
    } else if last_at(b, pos) {
        Some(seq![pos])
    } else {
        match block_starts(b, pos + 4 + len_at(b, pos)) {
            Some(ps) => Some(seq![pos] + ps),
            None => None,
        }
    }
}

pub open spec fn magic() -> Seq<u8> {
    seq![0x66u8, 0x4cu8, 0x61u8, 0x43u8]
}

/// What reading the marker from position `k` on finds: `None` if it is whole.
pub open spec fn magic_error(b: Seq<u8>, k: int) -> Option<FlacError>
    decreases 4 - k,
{
    if k >= 4 || k < 0 {
        None
    } else if k >= b.len() {
        Some(FlacError::UnexpectedEnd)
    } else if b[k] != magic()[k] {
        Some(FlacError::InvalidMagicNumber)
    } else {
        magic_error(b, k + 1)
    }
}

pub open spec fn be16(b: Seq<u8>, o: int) -> int {
    b[o] as int * 256 + b[o + 1] as int
}

pub open spec fn be24(b: Seq<u8>, o: int) -> int {
    b[o] as int * 65536 + b[o + 1] as int * 256 + b[o + 2] as int
}

/// The stream information stored at `o`, field by field.
pub open spec fn stream_info_at(b: Seq<u8>, o: int, si: BlockStreamInfo) -> bool {
    &&& si.min_block_size as int == be16(b, o)
    &&& si.max_block_size as int == be16(b, o + 2)
    &&& si.min_frame_size as int == be24(b, o + 4)
    &&& si.max_frame_size as int == be24(b, o + 7)
    &&& si.sample_rate as int == b[o + 10] as int * 4096 + b[o + 11] as int * 16 + b[o + 12] as int
        / 16
    &&& si.channels as int == (b[o + 12] as int / 2) % 8 + 1
    &&& si.bits_per_sample as int == (b[o + 12] as int % 2) * 16 + b[o + 13] as int / 16 + 1
    &&& si.total_samples as int == (b[o + 13] as int % 16) * 0x1_0000_0000 + b[o + 14] as int
        * 0x100_0000 + b[o + 15] as int * 0x1_0000 + b[o + 16] as int * 0x100 + b[o + 17] as int
    &&& si.md5_signature@ == b.subrange(o + 18, o + 34)
}

/// `blk` is what the bytes of the block at `pos` say.
pub open spec fn block_read(b: Seq<u8>, pos: int, blk: MetadataBlock) -> bool {
    let body = b.subrange(pos + 4, pos + 4 + len_at(b, pos));
    &&& blk.is_last == last_at(b, pos)
    &&& blk.length as int == len_at(b, pos)
    &&& match blk.data {
        MetadataBlockData::StreamInfo(si) => kind_at(b, pos) == 0 && stream_info_at(b, pos + 4, si),
        MetadataBlockData::Padding(n) => kind_at(b, pos) == 1 && n as int == len_at(b, pos),
        MetadataBlockData::Application(v) => kind_at(b, pos) == 2 && v@ == body,
        MetadataBlockData::SeekTable(v) => kind_at(b, pos) == 3 && v@ == body,
        MetadataBlockData::Comment(v) => kind_at(b, pos) == 4 && v@ == body,
        MetadataBlockData::CueSheet(v) => kind_at(b, pos) == 5 && v@ == body,
        MetadataBlockData::Picture(v) => kind_at(b, pos) == 6 && v@ == body,
        MetadataBlockData::Reserved((t, v)) => kind_at(b, pos) >= 7 && t as int == kind_at(b, pos)
            && v@ == body,
    }
}

/// `blocks` are what the bytes say of the blocks from `start` on.
pub open spec fn blocks_read(b: Seq<u8>, start: int, blocks: Seq<MetadataBlock>) -> bool {
    match block_starts(b, start) {
        Some(ps) => ps.len() == blocks.len() && forall|i: int|
            0 <= i < ps.len() ==> block_read(b, ps[i], #[trigger] blocks[i]),
        None => false,
    }
}

fn copy_range(b: &[u8], from: usize, to: usize) -> (r: Vec<u8>)
    requires
        from <= to <= b@.len(),
    ensures
        r@ == b@.subrange(from as int, to as int),
{
    let mut r: Vec<u8> = Vec::new();
    let mut i = from;
    while i < to
        invariant
            from <= i <= to <= b@.len(),
            r@ == b@.subrange(from as int, i as int),
        decreases to - i,
    {
        r.push(b[i]);
        i = i + 1;
        assert(r@ =~= b@.subrange(from as int, i as int));
    }
    r
}

fn read_stream_info(b: &[u8], o: usize) -> (r: BlockStreamInfo)
    requires
        o + 34 <= b@.len(),
    ensures
        stream_info_at(b@, o as int, r),
{
    let n = b.len();
    let b12 = b[o + 12];
    let b13 = b[o + 13];
    BlockStreamInfo {
        min_block_size: (b[o] as u16) * 256 + b[o + 1] as u16,
        max_block_size: (b[o + 2] as u16) * 256 + b[o + 3] as u16,
        min_frame_size: (b[o + 4] as u32) * 65536 + (b[o + 5] as u32) * 256 + b[o + 6] as u32,
        max_frame_size: (b[o + 7] as u32) * 65536 + (b[o + 8] as u32) * 256 + b[o + 9] as u32,
        sample_rate: (b[o + 10] as u32) * 4096 + (b[o + 11] as u32) * 16 + (b12 / 16) as u32,
        channels: (b12 / 2) % 8 + 1,
        bits_per_sample: (b12 % 2) * 16 + b13 / 16 + 1,
        total_samples: ((b13 % 16) as u64) * 0x1_0000_0000 + (b[o + 14] as u64) * 0x100_0000 + (b[o
            + 15] as u64) * 0x1_0000 + (b[o + 16] as u64) * 0x100 + b[o + 17] as u64,
        md5_signature: copy_range(b, o + 18, o + 34),
    }
}

/// Reads the block at `pos`, which fits.
fn read_block(b: &[u8], pos: usize) -> (r: MetadataBlock)
    requires
        block_fits(b@, pos as int),
    ensures
        block_read(b@, pos as int, r),
{
    let first = b[pos];
    let kind = first % 128;
    let length = (b[pos + 1] as usize) * 65536 + (b[pos + 2] as usize) * 256 + b[pos + 3] as usize;
    let start = pos + 4;
    let end = start + length;
    let data = if kind == 0 {
        MetadataBlockData::StreamInfo(read_stream_info(b, start))
    } else if kind == 1 {
        MetadataBlockData::Padding(length)
    } else if kind == 2 {
        MetadataBlockData::Application(copy_range(b, start, end))
    } else if kind == 3 {
        MetadataBlockData::SeekTable(copy_range(b, start, end))
    } else if kind == 4 {
        MetadataBlockData::Comment(copy_range(b, start, end))
    } else if kind == 5 {
        MetadataBlockData::CueSheet(copy_range(b, start, end))
    } else if kind == 6 {
        MetadataBlockData::Picture(copy_range(b, start, end))
    } else {
        MetadataBlockData::Reserved((kind, copy_range(b, start, end)))
    };
    MetadataBlock { is_last: first >= 128, length, data }
}

/// Whether a whole block stands at `pos`.
fn fits_at(b: &[u8], pos: usize) -> (r: bool)
    ensures
        r == block_fits(b@, pos as int),
{
    if pos > b.len() || b.len() - pos < 4 {
        return false;
    }
    let length = (b[pos + 1] as usize) * 65536 + (b[pos + 2] as usize) * 256 + b[pos + 3] as usize;
    if b.len() - pos - 4 < length {
        return false;
    }
    !(b[pos] % 128 == 0 && length < 34)
}

/// Reads the blocks from `start` on.
fn read_blocks(b: &[u8], start: usize) -> (r: Result<Vec<MetadataBlock>, FlacError>)
    ensures
        block_starts(b@, start as int) is Some <==> r is Ok,
        r is Ok ==> blocks_read(b@, start as int, r->Ok_0@),
        r is Err ==> r->Err_0 == FlacError::UnexpectedEnd,
{
    let n = b.len();
    let mut blocks: Vec<MetadataBlock> = Vec::new();
    let mut pos = start;
    let ghost mut done: Seq<int> = Seq::empty();
    loop
        invariant
            n == b@.len(),
            pos <= b@.len() || !block_fits(b@, pos as int),
            block_starts(b@, start as int) is Some <==> block_starts(b@, pos as int) is Some,
            block_starts(b@, pos as int) is Some ==> block_starts(b@, start as int)->0 == done
                + block_starts(b@, pos as int)->0,
            done.len() == blocks@.len(),
            forall|i: int| 0 <= i < done.len() ==> block_read(b@, done[i], #[trigger] blocks@[i]),
        decreases b@.len() - pos,
    {
        if !fits_at(b, pos) {
            return Err(FlacError::UnexpectedEnd);
        }
        let blk = read_block(b, pos);
        let last = blk.is_last;
        let next = pos + 4 + blk.length;
        proof {
            done = done.push(pos as int);
        }
        blocks.push(blk);
        if last {
            proof {
                assert(block_starts(b@, start as int)->0 =~= done);
            }
            return Ok(blocks);
        }
        proof {
            assert(block_starts(b@, pos as int) is Some <==> block_starts(b@, next as int) is Some);
            if block_starts(b@, next as int) is Some {
                let rest = block_starts(b@, next as int)->0;
                assert(block_starts(b@, pos as int)->0 == seq![pos as int] + rest);
                assert(done.drop_last() + (seq![pos as int] + rest) =~= done + rest);
            }
        }
        pos = next;
    }
}

fn check_magic(b: &[u8]) -> (r: Option<FlacError>)
    ensures
        r == magic_error(b@, 0),
{
    let m: [u8; 4] = [0x66, 0x4c, 0x61, 0x43];
    assert(m@ == magic());
    let mut k: usize = 0;
    while k < 4
        invariant
            k <= 4,
            m@ == magic(),
            magic_error(b@, 0) == magic_error(b@, k as int),
        decreases 4 - k,
    {
        if k >= b.len() {
            return Some(FlacError::UnexpectedEnd);
        }
        if b[k] != m[k] {
            return Some(FlacError::InvalidMagicNumber);
        }
        k = k + 1;
    }
    None
}

impl FlacHeader {
    /// Reads a header: the marker, then blocks up to the one marked last.
    pub fn parse(b: &[u8]) -> (r: Result<FlacHeader, FlacError>)
        ensures
            magic_error(b@, 0) is Some ==> r == Err::<FlacHeader, FlacError>(
                magic_error(b@, 0)->0,
            ),
            magic_error(b@, 0) is None ==> (r is Ok <==> block_starts(b@, 4) is Some),
            magic_error(b@, 0) is None && r is Err ==> r->Err_0 == FlacError::UnexpectedEnd,
            r is Ok ==> blocks_read(b@, 4, r->Ok_0.blocks@),
    {
        if let Some(e) = check_magic(b) {
            return Err(e);
        }
        match read_blocks(b, 4) {
            Ok(blocks) => Ok(FlacHeader { blocks }),
            Err(e) => Err(e),
        }
    }
}

pub open spec fn type_code(d: MetadataBlockData) -> int {
    match d {
        MetadataBlockData::StreamInfo(_) => 0,
        MetadataBlockData::Padding(_) => 1,
        MetadataBlockData::Application(_) => 2,
        MetadataBlockData::SeekTable(_) => 3,
        MetadataBlockData::Comment(_) => 4,
        MetadataBlockData::CueSheet(_) => 5,
        MetadataBlockData::Picture(_) => 6,
        MetadataBlockData::Reserved((t, _)) => t as int,
    }
}

impl MetadataBlockData {
    /// The block kind as stored in the stream.
    pub fn type_code(&self) -> (r: u8)
        ensures
            r as int == type_code(*self),
    {
        match self {
            MetadataBlockData::StreamInfo(_) => 0,
            MetadataBlockData::Padding(_) => 1,
            MetadataBlockData::Application(_) => 2,
            MetadataBlockData::SeekTable(_) => 3,
            MetadataBlockData::Comment(_) => 4,
            MetadataBlockData::CueSheet(_) => 5,
            MetadataBlockData::Picture(_) => 6,
            MetadataBlockData::Reserved((t, _)) => *t,
        }
    }

    pub fn as_str(&self) -> (r: &'static str)
        ensures
            r@ == match *self {
                MetadataBlockData::StreamInfo(_) => "STREAMINFO"@,
                MetadataBlockData::Padding(_) => "PADDING"@,
                MetadataBlockData::Application(_) => "APPLICATION"@,
                MetadataBlockData::SeekTable(_) => "SEEKTABLE"@,
                MetadataBlockData::Comment(_) => "VORBIS_COMMENT"@,
                MetadataBlockData::CueSheet(_) => "CUESHEET"@,
                MetadataBlockData::Picture(_) => "PICTURE"@,
                MetadataBlockData::Reserved(_) => "RESERVED"@,
            },
    {
        match self {
            MetadataBlockData::StreamInfo(_) => "STREAMINFO",
            MetadataBlockData::Padding(_) => "PADDING",
            MetadataBlockData::Application(_) => "APPLICATION",
            MetadataBlockData::SeekTable(_) => "SEEKTABLE",
            MetadataBlockData::Comment(_) => "VORBIS_COMMENT",
            MetadataBlockData::CueSheet(_) => "CUESHEET",
            MetadataBlockData::Picture(_) => "PICTURE",
            MetadataBlockData::Reserved(_) => "RESERVED",
        }
    }
}

/// Reads a header whose marker has been read already when `skip_magic_number`
/// holds; its first block must be the stream information.
pub fn decode_header(b: &[u8], skip_magic_number: bool) -> (r: Result<FlacHeader, FlacError>)
    ensures
        ({
            let start: int = if skip_magic_number { 0 } else { 4 };
            &&& !skip_magic_number && magic_error(b@, 0) is Some ==> r == Err::<
                FlacHeader,
                FlacError,
            >(magic_error(b@, 0)->0)
            &&& (skip_magic_number || magic_error(b@, 0) is None) ==> {
                &&& block_starts(b@, start) is None ==> r == Err::<FlacHeader, FlacError>(
                    FlacError::UnexpectedEnd,
                )
                &&& block_starts(b@, start) is Some && kind_at(b@, start) != 0 ==> r == Err::<
                    FlacHeader,
                    FlacError,
                >(FlacError::FirstBlockNotStreamInfo)
                &&& block_starts(b@, start) is Some && kind_at(b@, start) == 0 ==> r is Ok
                    && blocks_read(b@, start, r->Ok_0.blocks@)
            }
        }),
        r is Ok ==> r->Ok_0.has_stream_info(),
{
    let start: usize = if skip_magic_number {
        0
    } else {
        if let Some(e) = check_magic(b) {
            return Err(e);
        }
        4
    };
    match read_blocks(b, start) {
        Ok(blocks) => {
            proof {
                let ps = block_starts(b@, start as int)->0;
                assert(ps[0] == start as int);
                assert(block_read(b@, ps[0], blocks@[0]));
            }
            if let MetadataBlockData::StreamInfo(_) = &blocks[0].data {
                Ok(FlacHeader { blocks })
            } else {
                Err(FlacError::FirstBlockNotStreamInfo)
            }
        },
        Err(e) => Err(e),
    }
}

impl FlacHeader {
    pub open spec fn has_stream_info(&self) -> bool {
        self.blocks@.len() > 0 && self.blocks@[0].data is StreamInfo
    }

    /// The stream information, which the first block holds.
    pub fn stream_info(&self) -> (r: &BlockStreamInfo)
        requires
            self.has_stream_info(),
        ensures
            self.blocks@[0].data == MetadataBlockData::StreamInfo(*r),
    {
        match &self.blocks[0].data {
            MetadataBlockData::StreamInfo(i) => i,
            _ => vstd::pervasive::unreached(),
        }
    }

    /// The first block of kind `id`.
    fn block_of(&self, id: u8) -> (r: Option<&MetadataBlock>)
        ensures
            match r {
                Some(blk) => exists|i: int|
                    0 <= i < self.blocks@.len() && self.blocks@[i] == *blk && type_code(
                        blk.data,
                    ) == id && forall|j: int|
                        0 <= j < i ==> type_code(#[trigger] self.blocks@[j].data) != id,
                None => forall|j: int|
                    0 <= j < self.blocks@.len() ==> type_code(#[trigger] self.blocks@[j].data)
                        != id,
            },
    {
        let mut i: usize = 0;
        while i < self.blocks.len()
            invariant
                i <= self.blocks@.len(),
                forall|j: int| 0 <= j < i ==> type_code(#[trigger] self.blocks@[j].data) != id,
            decreases self.blocks@.len() - i,
        {
            if self.blocks[i].data.type_code() == id {
                return Some(&self.blocks[i]);
            }
            i = i + 1;
        }
        None
    }

    /// The bytes of the Vorbis comment block, if the first block of that kind is one.
    pub fn comments(&self) -> (r: Option<&Vec<u8>>)
        ensures
            r is Some ==> exists|i: int|
                0 <= i < self.blocks@.len() && self.blocks@[i].data == MetadataBlockData::Comment(
                    *r->0,
                ) && forall|j: int| 0 <= j < i ==> type_code(#[trigger] self.blocks@[j].data) != 4,
            r is None ==> forall|i: int|
                0 <= i < self.blocks@.len() ==> !(#[trigger] self.blocks@[i].data is Comment) || exists|
                    j: int,
                | 0 <= j < i && type_code(#[trigger] self.blocks@[j].data) == 4,
    {
        match self.block_of(4) {
            Some(b) => match &b.data {
                MetadataBlockData::Comment(c) => Some(c),
                _ => None,
            },
            None => None,
        }
    }
}

} // verus!
