//! Packing named byte entries into one compressed archive, and keeping the
//! finished archive until it is released.

use vstd::prelude::*;
use zip::result::ZipError;
use crate::codec::{
    archive_entries, archive_image, archive_open, finish_archive, new_archive, start_entry,
    within_limit, write_entry, ENTRY_LIMIT,
};

verus! {

/// The permission bits that every entry of a result archive carries.
pub const ENTRY_MODE: u32 = 0o755;

/// Why no archive was built.
#[derive(Clone, Copy, Debug, PartialEq, Eq, Structural)]
pub enum ArchiveError {
    /// The content of the entry with this index is longer than
    /// [`ENTRY_LIMIT`]; the codec was not asked.
    TooLarge(usize),
    /// The codec could not start the entry with this index.
    Start(usize),
    /// The codec could not take the content of the entry with this index.
    Write(usize),
    /// The codec could not close the archive.
    Finish,
}

/// One named member of an archive.
pub struct ArchiveEntry {
    pub name: String,
    pub content: Vec<u8>,
}

/// What the codec is asked to hold for `entries`: each name with
/// [`ENTRY_MODE`] and its content, in order.
pub open spec fn stored(entries: Seq<ArchiveEntry>) -> Seq<(Seq<char>, u32, Seq<u8>)> {
    entries.map_values(|e: ArchiveEntry| (e.name@, ENTRY_MODE, e.content@))
}

/// What packing makes of the entries `layout`: the codec's image of exactly
/// these entries where every content is within [`ENTRY_LIMIT`], and else
/// the index of the first content that is not.
pub open spec fn packs_to(
    layout: Seq<(Seq<char>, u32, Seq<u8>)>,
    packed: Result<Vec<u8>, ArchiveError>,
) -> bool {
    match packed {
        Ok(bytes) => within_limit(layout) && bytes@ == archive_image(layout),
        Err(error) => {
            &&& error matches ArchiveError::TooLarge(i)
            &&& i < layout.len()
            &&& layout[i as int].2.len() > ENTRY_LIMIT
            &&& forall|k: int| 0 <= k < i ==> (#[trigger] layout[k]).2.len() <= ENTRY_LIMIT
        },
    }
}

/// What becomes of the codec's answer to starting entry `index`: success
/// stays success, and a refusal is a [`ArchiveError::Start`] of that entry.
pub fn started(outcome: Result<(), ZipError>, index: usize) -> (mapped: Result<(), ArchiveError>)
    ensures
        mapped == match outcome {
            Ok(_) => Ok::<(), ArchiveError>(()),
            Err(_) => Err::<(), ArchiveError>(ArchiveError::Start(index)),
        },
{
    match outcome {
        Ok(_) => Ok(()),
        Err(_) => Err(ArchiveError::Start(index)),
    }
}

/// What becomes of the codec's answer to writing the content of entry
/// `index`: success stays success, and a refusal is a
/// [`ArchiveError::Write`] of that entry.
pub fn written(outcome: Result<(), std::io::Error>, index: usize) -> (mapped: Result<
    (),
    ArchiveError,
>)
    ensures
        mapped == match outcome {
            Ok(_) => Ok::<(), ArchiveError>(()),
            Err(_) => Err::<(), ArchiveError>(ArchiveError::Write(index)),
        },
{
    match outcome {
        Ok(_) => Ok(()),
        Err(_) => Err(ArchiveError::Write(index)),
    }
}

/// What becomes of the codec's answer to closing the archive: the bytes as
/// they are, and a refusal is [`ArchiveError::Finish`].
pub fn finished(outcome: Result<Vec<u8>, ZipError>) -> (mapped: Result<Vec<u8>, ArchiveError>)
    ensures
        mapped == match outcome {
            Ok(bytes) => Ok::<Vec<u8>, ArchiveError>(bytes),
            Err(_) => Err::<Vec<u8>, ArchiveError>(ArchiveError::Finish),
        },
{
    match outcome {
        Ok(bytes) => Ok(bytes),
        Err(_) => Err(ArchiveError::Finish),
    }
}

/// The index of the first entry whose content is longer than
/// [`ENTRY_LIMIT`], if there is one.
pub fn first_oversized(entries: &Vec<ArchiveEntry>) -> (found: Option<usize>)
    ensures
        found is None <==> within_limit(stored(entries@)),
        found matches Some(i) ==> {
            &&& i < entries@.len()
            &&& entries@[i as int].content@.len() > ENTRY_LIMIT
            &&& forall|k: int| 0 <= k < i ==> (#[trigger] entries@[k]).content@.len() <= ENTRY_LIMIT
        },
{
    let mut i: usize = 0;
    while i < entries.len()
        invariant
            i <= entries@.len(),
            forall|k: int| 0 <= k < i ==> (#[trigger] entries@[k]).content@.len() <= ENTRY_LIMIT,
        decreases entries@.len() - i,
    {
        if entries[i].content.len() > ENTRY_LIMIT {
            assert(stored(entries@)[i as int].2.len() > ENTRY_LIMIT);
            return Some(i);
        }
        i += 1;
    }
    assert forall|k: int| 0 <= k < stored(entries@).len() implies (#[trigger] stored(
        entries@,
    )[k]).2.len() <= ENTRY_LIMIT by {
        assert(entries@[k].content@.len() <= ENTRY_LIMIT);
    }
    None
}

/// Compresses `entries`, in order, into one archive.
///
/// An archive is owed exactly where every content is within
/// [`ENTRY_LIMIT`]; it is then the codec's image of these entries, each
/// started under its name with [`ENTRY_MODE`] and given its content in one
/// piece. Where a content is longer, the codec is not asked and the error
/// names the first such entry.
pub fn pack(entries: &Vec<ArchiveEntry>) -> (packed: Result<Vec<u8>, ArchiveError>)
    ensures
        packs_to(stored(entries@), packed),
{
    match first_oversized(entries) {
        Some(i) => {
            assert(stored(entries@)[i as int].2 == entries@[i as int].content@);
            assert forall|k: int| 0 <= k < i implies (#[trigger] stored(entries@)[k]).2.len()
                <= ENTRY_LIMIT by {
                assert(entries@[k].content@.len() <= ENTRY_LIMIT);
            }
            return Err(ArchiveError::TooLarge(i));
        },
        None => {},
    }
    let mut writer = new_archive();
    let mut i: usize = 0;
    while i < entries.len()
        invariant
            i <= entries@.len(),
            within_limit(stored(entries@)),
            archive_open(writer),
            archive_entries(writer) == stored(entries@.take(i as int)),
        decreases entries@.len() - i,
    {
        let entry = &entries[i];
        proof {
            assert forall|k: int| 0 <= k < i implies (#[trigger] stored(
                entries@.take(i as int),
            )[k]).2.len() <= ENTRY_LIMIT by {
                assert(stored(entries@.take(i as int))[k] == stored(entries@)[k]);
            }
            assert(stored(entries@)[i as int].2 == entry.content@);
        }
        let begun = start_entry(&mut writer, entry.name.as_str(), ENTRY_MODE);
        match started(begun, i) {
            Ok(_) => {},
            Err(error) => {
                return Err(error);
            },
        }
        let filled = write_entry(&mut writer, entry.content.as_slice());
        match written(filled, i) {
            Ok(_) => {},
            Err(error) => {
                return Err(error);
            },
        }
        proof {
            assert(stored(entries@.take(i + 1)) =~= stored(entries@.take(i as int)).push(
                (entry.name@, ENTRY_MODE, entry.content@),
            ));
            assert(archive_entries(writer) =~= stored(entries@.take(i + 1)));
        }
        i += 1;
    }
    proof {
        assert(entries@.take(i as int) =~= entries@);
    }
    finished(finish_archive(writer))
}

/// The four members of a result archive, in the order in which they are
/// stored.
pub open spec fn result_layout(
    animation: Seq<u8>,
    csv: Seq<u8>,
    params: Seq<u8>,
    json: Seq<u8>,
) -> Seq<(Seq<char>, u32, Seq<u8>)> {
    seq![
        ("animation.gif"@, ENTRY_MODE, animation),
        ("model_output.csv"@, ENTRY_MODE, csv),
        ("model_params.txt"@, ENTRY_MODE, params),
        ("distributions.json"@, ENTRY_MODE, json),
    ]
}

/// Packs the rendered animation, the table of observables, the parameter
/// summary and the cluster distributions into one result archive. The
/// archive is owed exactly where each of the four is within
/// [`ENTRY_LIMIT`].
pub fn pack_result_files(animation: Vec<u8>, csv: Vec<u8>, params: Vec<u8>, json: Vec<u8>) -> (packed:
    Result<Vec<u8>, ArchiveError>)
    ensures
        packs_to(result_layout(animation@, csv@, params@, json@), packed),
{
    let mut entries: Vec<ArchiveEntry> = Vec::new();
    entries.push(ArchiveEntry { name: String::from_str("animation.gif"), content: animation });
    entries.push(ArchiveEntry { name: String::from_str("model_output.csv"), content: csv });
    entries.push(ArchiveEntry { name: String::from_str("model_params.txt"), content: params });
    entries.push(ArchiveEntry { name: String::from_str("distributions.json"), content: json });
    proof {
        assert(stored(entries@) =~= result_layout(animation@, csv@, params@, json@));
    }
    pack(&entries)
}

/// The place where a finished archive is kept for its reader: empty until
/// an archive is published, replaced as a whole by the next one, and
/// emptied only by an explicit release.
pub struct ArchiveSlot {
    data: Option<Vec<u8>>,
}

impl View for ArchiveSlot {
    type V = Option<Seq<u8>>;

    closed spec fn view(&self) -> Option<Seq<u8>> {
        match self.data {
            Some(bytes) => Some(bytes@),
            None => None,
        }
    }
}

impl ArchiveSlot {
    /// A slot that holds no archive.
    pub fn new() -> (slot: Self)
        ensures
            slot@ is None,
    {
        ArchiveSlot { data: None }
    }

    /// Puts `bytes` in the slot, in place of whatever it held.
    pub fn publish(&mut self, bytes: Vec<u8>)
        ensures
            final(self)@ == Some(bytes@),
    {
        self.data = Some(bytes);
    }

    /// Whether an archive is held.
    pub fn is_published(&self) -> (held: bool)
        ensures
            held == (self@ is Some),
    {
        self.data.is_some()
    }

    /// The archive held, if any.
    pub fn bytes(&self) -> (held: Option<&Vec<u8>>)
        ensures
            held is Some == (self@ is Some),
            held matches Some(bytes) ==> self@ == Some(bytes@),
    {
        self.data.as_ref()
    }

    /// The length of the archive held.
    pub fn len(&self) -> (n: usize)
        requires
            self@ is Some,
        ensures
            n == self@->0.len(),
    {
        match &self.data {
            Some(bytes) => bytes.len(),
            None => 0,
        }
    }

    /// Releases the archive held, if any.
    pub fn destroy(&mut self)
        ensures
            final(self)@ is None,
    {
        self.data = None;
    }
}

} // verus!
