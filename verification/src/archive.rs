//! In-memory model of a parsed 7z archive: the packed-stream table, the
//! folders (coder chains) with their bind pairs and sizes, the file
//! entries, and the derived stream map that ties files to folders and
//! folders to packed byte ranges.

use vstd::prelude::*;

use crate::bitset::{bits_of, Bits};

verus! {

/// The 20-byte start header: where the next header (the archive metadata)
/// lives and its declared CRC-32.
pub struct StartHeader {
    pub next_header_offset: u64,
    pub next_header_size: u64,
    pub next_header_crc: u64,
}

/// A wiring edge from one coder's output stream to another coder's input.
pub struct BindPair {
    pub in_index: u64,
    pub out_index: u64,
}

/// One transform of a folder's chain: method id bytes, stream counts, and
/// opaque properties.
pub struct Coder {
    pub id: Vec<u8>,
    pub num_in_streams: u64,
    pub num_out_streams: u64,
    pub properties: Vec<u8>,
}

/// A linear chain of coders producing one decompressed stream, possibly
/// split into several substreams (one per file).
pub struct Folder {
    pub coders: Vec<Coder>,
    pub total_input_streams: usize,
    pub total_output_streams: usize,
    pub bind_pairs: Vec<BindPair>,
    pub packed_streams: Vec<u64>,
    pub unpack_sizes: Vec<u64>,
    pub has_crc: bool,
    pub crc: u64,
    pub num_unpack_sub_streams: usize,
}

/// Whether coder output stream `i` of the folder is consumed by some bind
/// pair (a non-sink output).
pub open spec fn out_stream_bound(f: Folder, i: int) -> bool {
    exists|k: int| 0 <= k < f.bind_pairs@.len() && f.bind_pairs@[k].out_index == i
}

/// Whether coder input stream `i` of the folder is fed by some bind pair
/// (rather than by a packed stream).
pub open spec fn in_stream_bound(f: Folder, i: int) -> bool {
    exists|k: int| 0 <= k < f.bind_pairs@.len() && f.bind_pairs@[k].in_index == i
}

/// Whether `n` is the folder's unpack size: the size of the first output
/// stream that no bind pair consumes, or 0 when every output is bound.
pub open spec fn is_unpack_size(f: Folder, n: int) -> bool {
    (exists|i: int|
        0 <= i < f.total_output_streams && !out_stream_bound(f, i) && n == f.unpack_sizes@[i] && (
        forall|j: int| 0 <= j < i ==> out_stream_bound(f, j))) || ((forall|i: int|
        0 <= i < f.total_output_streams ==> out_stream_bound(f, i)) && n == 0)
}

/// Structural facts the parser establishes for every folder it returns.
pub open spec fn folder_shape_wf(f: Folder) -> bool {
    &&& f.total_output_streams >= 1
    &&& f.bind_pairs@.len() == f.total_output_streams - 1
    &&& f.packed_streams@.len() + f.bind_pairs@.len() == f.total_input_streams
}

/// A folder whose per-output unpack sizes have been read as well.
pub open spec fn folder_wf(f: Folder) -> bool {
    &&& folder_shape_wf(f)
    &&& f.unpack_sizes@.len() == f.total_output_streams
}

impl Folder {
    /// The index of the bind pair consuming input stream `in_stream_index`.
    pub fn find_bind_pair_for_in_stream(&self, in_stream_index: usize) -> (r: Option<usize>)
        ensures
            match r {
                Some(k) => 0 <= k < self.bind_pairs@.len() && self.bind_pairs@[k as int].in_index
                    == in_stream_index,
                None => !in_stream_bound(*self, in_stream_index as int),
            },
    {
        let mut k: usize = 0;
        while k < self.bind_pairs.len()
            invariant
                0 <= k <= self.bind_pairs@.len(),
                forall|j: int|
                    0 <= j < k ==> #[trigger] self.bind_pairs@[j].in_index != in_stream_index,
            decreases self.bind_pairs@.len() - k,
        {
            if self.bind_pairs[k].in_index == in_stream_index as u64 {
                return Some(k);
            }
            k += 1;
        }
        None
    }

    /// The index of the bind pair consuming output stream `out_stream_index`.
    pub fn find_bind_pair_for_out_stream(&self, out_stream_index: usize) -> (r: Option<usize>)
        ensures
            match r {
                Some(k) => 0 <= k < self.bind_pairs@.len() && self.bind_pairs@[k as int].out_index
                    == out_stream_index,
                None => !out_stream_bound(*self, out_stream_index as int),
            },
    {
        let mut k: usize = 0;
        while k < self.bind_pairs.len()
            invariant
                0 <= k <= self.bind_pairs@.len(),
                forall|j: int|
                    0 <= j < k ==> #[trigger] self.bind_pairs@[j].out_index != out_stream_index,
            decreases self.bind_pairs@.len() - k,
        {
            if self.bind_pairs[k].out_index == out_stream_index as u64 {
                return Some(k);
            }
            k += 1;
        }
        None
    }

    /// The folder's unpack size: the size of the first output stream that no
    /// bind pair consumes (the chain's sink), or 0 if every output is bound.
    pub fn get_unpack_size(&self) -> (r: u64)
        requires
            folder_wf(*self),
        ensures
            is_unpack_size(*self, r as int),
    {
        let mut i: usize = 0;
        while i < self.total_output_streams
            invariant
                folder_wf(*self),
                0 <= i <= self.total_output_streams,
                forall|j: int| 0 <= j < i ==> out_stream_bound(*self, j),
            decreases self.total_output_streams - i,
        {
            if self.find_bind_pair_for_out_stream(i).is_none() {
                return self.unpack_sizes[i];
            }
            i += 1;
        }
        0
    }

    /// The unpack size of output stream `index`, or 0 when out of range.
    pub fn get_unpack_size_at_index(&self, index: usize) -> (r: u64)
        ensures
            r == if index < self.unpack_sizes@.len() {
                self.unpack_sizes@[index as int]
            } else {
                0u64
            },
    {
        if index < self.unpack_sizes.len() {
            self.unpack_sizes[index]
        } else {
            0
        }
    }

    /// The coder indices of the chain in execution order, starting at the
    /// coder fed by the first packed stream and following each output's
    /// bind pair.  Valid for folders whose coders all have one input and
    /// one output, where stream indices and coder indices coincide; fails
    /// with `CorruptInput` if the walk leaves the chain or cycles.
    pub fn ordered_coder_indices(&self) -> (r: Result<Vec<usize>, crate::error::Error>)
        ensures
            r matches Ok(v) ==> 1 <= v@.len() <= self.coders@.len() && forall|j: int|
                0 <= j < v@.len() ==> 0 <= #[trigger] v@[j] < self.coders@.len(),
    {
        if self.packed_streams.len() == 0 {
            return Err(crate::error::Error::corrupt("folder has no packed stream"));
        }
        let first = self.packed_streams[0];
        if first >= self.coders.len() as u64 {
            return Err(crate::error::Error::corrupt("packed stream index out of range"));
        }
        let mut order: Vec<usize> = Vec::new();
        let mut current: usize = first as usize;
        let mut steps: usize = 0;
        loop
            invariant
                0 <= current < self.coders@.len(),
                order@.len() == steps,
                steps <= self.coders@.len(),
                forall|j: int| 0 <= j < order@.len() ==> 0 <= #[trigger] order@[j]
                    < self.coders@.len(),
            decreases self.coders@.len() - steps,
        {
            if steps >= self.coders.len() {
                return Err(crate::error::Error::corrupt("coder chain does not terminate"));
            }
            order.push(current);
            steps += 1;
            match self.find_bind_pair_for_out_stream(current) {
                Some(k) => {
                    let next = self.bind_pairs[k].in_index;
                    if next >= self.coders.len() as u64 {
                        return Err(crate::error::Error::corrupt("bind pair index out of range"));
                    }
                    current = next as usize;
                },
                None => {
                    return Ok(order);
                },
            }
        }
    }
}

/// One archive member: name, flags, optional timestamps (Windows FILETIME
/// units), optional attributes, optional CRC-32, and its decompressed size.
pub struct SevenZArchiveEntry {
    pub name: String,
    pub has_stream: bool,
    pub is_directory: bool,
    pub is_anti_item: bool,
    pub has_creation_date: bool,
    pub has_last_modified_date: bool,
    pub has_access_date: bool,
    pub creation_date: i64,
    pub last_modified_date: i64,
    pub access_date: i64,
    pub has_windows_attributes: bool,
    pub windows_attributes: u32,
    pub has_crc: bool,
    pub crc: u64,
    pub size: u64,
}

impl SevenZArchiveEntry {
    /// An entry with no name, no stream, no dates, and size 0.
    pub fn empty() -> (r: SevenZArchiveEntry)
        ensures
            r.name@ == Seq::<char>::empty(),
            !r.has_stream && !r.is_directory && !r.is_anti_item,
            !r.has_creation_date && !r.has_last_modified_date && !r.has_access_date,
            !r.has_windows_attributes && !r.has_crc,
            r.size == 0 && r.crc == 0,
    {
        SevenZArchiveEntry {
            name: String::new(),
            has_stream: false,
            is_directory: false,
            is_anti_item: false,
            has_creation_date: false,
            has_last_modified_date: false,
            has_access_date: false,
            creation_date: 0,
            last_modified_date: 0,
            access_date: 0,
            has_windows_attributes: false,
            windows_attributes: 0,
            has_crc: false,
            crc: 0,
            size: 0,
        }
    }

    pub fn name(&self) -> (r: &String)
        ensures
            r@ == self.name@,
    {
        &self.name
    }

    pub fn is_directory(&self) -> (r: bool)
        ensures
            r == self.is_directory,
    {
        self.is_directory
    }

    pub fn size(&self) -> (r: u64)
        ensures
            r == self.size,
    {
        self.size
    }
}

/// Per-substream sizes and CRC flags, read from the sub-streams-info
/// section (or defaulted from the folders).
pub struct SubStreamsInfo {
    pub unpack_sizes: Vec<u64>,
    pub has_crc: Bits,
    pub crcs: Vec<u64>,
}

/// The number of substreams of the folders before `k`.
pub open spec fn sum_sub_streams(folders: Seq<Folder>, k: int) -> int
    decreases k,
{
    if k <= 0 {
        0
    } else {
        sum_sub_streams(folders, k - 1) + folders[k - 1].num_unpack_sub_streams
    }
}

/// The number of folders before `k` with at least one substream.
pub open spec fn count_nonempty_folders(folders: Seq<Folder>, k: int) -> int
    decreases k,
{
    if k <= 0 {
        0
    } else {
        count_nonempty_folders(folders, k - 1) + (if folders[k - 1].num_unpack_sub_streams > 0 {
            1int
        } else {
            0int
        })
    }
}

/// The sum of the sizes in `sizes[a..b)`.
pub open spec fn sum_sizes(sizes: Seq<u64>, a: int, b: int) -> int
    decreases b - a,
{
    if b <= a {
        0
    } else {
        sum_sizes(sizes, a, b - 1) + sizes[b - 1]
    }
}

pub proof fn lemma_sum_sub_streams_mono(folders: Seq<Folder>, a: int, b: int)
    requires
        0 <= a <= b,
    ensures
        sum_sub_streams(folders, a) <= sum_sub_streams(folders, b),
    decreases b - a,
{
    if a < b {
        lemma_sum_sub_streams_mono(folders, a, b - 1);
    }
}

pub proof fn lemma_count_nonempty_folders_mono(folders: Seq<Folder>, a: int, b: int)
    requires
        0 <= a <= b,
    ensures
        count_nonempty_folders(folders, a) <= count_nonempty_folders(folders, b),
    decreases b - a,
{
    if a < b {
        lemma_count_nonempty_folders_mono(folders, a, b - 1);
    }
}

/// Appending a size leaves every sum over the existing entries unchanged.
pub proof fn lemma_sum_sizes_push(sizes: Seq<u64>, v: u64, a: int, b: int)
    requires
        0 <= a,
        b <= sizes.len(),
    ensures
        sum_sizes(sizes.push(v), a, b) == sum_sizes(sizes, a, b),
    decreases b - a,
{
    if a < b {
        lemma_sum_sizes_push(sizes, v, a, b - 1);
        assert(sizes.push(v)[b - 1] == sizes[b - 1]);
    }
}

/// The substream sizes laid out one block per folder (a block of
/// `num_unpack_sub_streams` entries), each folder's block summing to that
/// folder's unpack size: the layout the sizes section produces, with the
/// last entry of a block inferred as the remainder.
pub open spec fn sub_sizes_aligned(folders: Seq<Folder>, sizes: Seq<u64>) -> bool {
    &&& sizes.len() == sum_sub_streams(folders, folders.len() as int)
    &&& forall|i: int|
        0 <= i < folders.len() && (#[trigger] folders[i]).num_unpack_sub_streams > 0
            ==> is_unpack_size(
            folders[i],
            sum_sizes(sizes, sum_sub_streams(folders, i), sum_sub_streams(folders, i + 1)),
        )
}

/// The substream sizes read without a sizes section: one entry per folder
/// with substreams, equal to that folder's whole unpack size.
pub open spec fn sub_sizes_collapsed(folders: Seq<Folder>, sizes: Seq<u64>) -> bool {
    &&& sizes.len() == count_nonempty_folders(folders, folders.len() as int)
    &&& forall|i: int|
        0 <= i < folders.len() && (#[trigger] folders[i]).num_unpack_sub_streams > 0
            ==> is_unpack_size(folders[i], sizes[count_nonempty_folders(folders, i)] as int)
}

/// The number of entries before `k` that carry a stream.
pub open spec fn count_streamed(files: Seq<SevenZArchiveEntry>, k: int) -> int
    decreases k,
{
    if k <= 0 {
        0
    } else {
        count_streamed(files, k - 1) + (if files[k - 1].has_stream {
            1int
        } else {
            0int
        })
    }
}

pub proof fn lemma_count_streamed_mono(files: Seq<SevenZArchiveEntry>, a: int, b: int)
    requires
        0 <= a <= b,
    ensures
        count_streamed(files, a) <= count_streamed(files, b),
    decreases b - a,
{
    if a < b {
        lemma_count_streamed_mono(files, a, b - 1);
    }
}

/// Appending an entry leaves the streamed count of every existing prefix
/// unchanged.
pub proof fn lemma_count_streamed_push(files: Seq<SevenZArchiveEntry>, e: SevenZArchiveEntry, k: int)
    requires
        k <= files.len(),
    ensures
        count_streamed(files.push(e), k) == count_streamed(files, k),
    decreases k,
{
    if k > 0 {
        lemma_count_streamed_push(files, e, k - 1);
        assert(files.push(e)[k - 1] == files[k - 1]);
    }
}

/// Every folder with a single substream and a declared folder CRC has
/// passed that CRC on to its substream's entry.
pub open spec fn folder_crcs_passed(folders: Seq<Folder>, ssi: SubStreamsInfo) -> bool {
    forall|i: int|
        0 <= i < folders.len() && (#[trigger] folders[i]).num_unpack_sub_streams == 1
            && folders[i].has_crc ==> {
            let p = sum_sub_streams(folders, i);
            &&& 0 <= p < ssi.crcs@.len()
            &&& bits_of(ssi.has_crc).contains(p)
            &&& ssi.crcs@[p] == folders[i].crc
        }
}

/// Derived table mapping folders to packed streams and files to folders.
pub struct StreamMap {
    pub folder_first_pack_stream_index: Vec<usize>,
    pub pack_stream_offsets: Vec<u64>,
    pub folder_first_file_index: Vec<usize>,
    pub file_folder_index: Vec<Option<usize>>,
}

impl StreamMap {
    pub fn empty() -> (r: StreamMap)
        ensures
            r.folder_first_pack_stream_index@.len() == 0,
            r.pack_stream_offsets@.len() == 0,
            r.folder_first_file_index@.len() == 0,
            r.file_folder_index@.len() == 0,
    {
        StreamMap {
            folder_first_pack_stream_index: Vec::new(),
            pack_stream_offsets: Vec::new(),
            folder_first_file_index: Vec::new(),
            file_folder_index: Vec::new(),
        }
    }
}

/// The number of packed streams feeding the folders before `k`.
pub open spec fn sum_packed_streams(folders: Seq<Folder>, k: int) -> int
    decreases k,
{
    if k <= 0 {
        0
    } else {
        sum_packed_streams(folders, k - 1) + folders[k - 1].packed_streams@.len()
    }
}

/// The byte offset of packed stream `k`: the sum of the earlier sizes.
pub open spec fn sum_pack_sizes(sizes: Seq<u64>, k: int) -> int
    decreases k,
{
    if k <= 0 {
        0
    } else {
        sum_pack_sizes(sizes, k - 1) + sizes[k - 1]
    }
}

/// The derived stream map covers every file, and each assigned folder
/// index is in range.
pub open spec fn stream_map_covers_files(a: Archive) -> bool {
    &&& a.stream_map.file_folder_index@.len() == a.files@.len()
    &&& forall|j: int|
        0 <= j < a.stream_map.file_folder_index@.len() ==> ((
        #[trigger] a.stream_map.file_folder_index@[j]) matches Some(f) ==> 0 <= f
            < a.folders@.len())
}

/// The root aggregate: everything parsed from the archive's headers.
pub struct Archive {
    pub pack_pos: u64,
    pub pack_sizes: Vec<u64>,
    pub pack_crcs_defined: Bits,
    pub pack_crcs: Vec<u64>,
    pub folders: Vec<Folder>,
    pub sub_streams_info: Option<SubStreamsInfo>,
    pub files: Vec<SevenZArchiveEntry>,
    pub stream_map: StreamMap,
}

impl Archive {
    /// An archive with no packed streams, folders, or files.
    pub fn empty() -> (r: Archive)
        ensures
            r.pack_pos == 0,
            r.pack_sizes@.len() == 0,
            r.folders@.len() == 0,
            r.files@.len() == 0,
            r.sub_streams_info is None,
            r.stream_map.file_folder_index@.len() == 0,
            stream_map_covers_files(r),
    {
        Archive {
            pack_pos: 0,
            pack_sizes: Vec::new(),
            pack_crcs_defined: Bits::with_capacity(0),
            pack_crcs: Vec::new(),
            folders: Vec::new(),
            sub_streams_info: None,
            files: Vec::new(),
            stream_map: StreamMap::empty(),
        }
    }
}

} // verus!
