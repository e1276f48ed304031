//! Trash records: one descriptor, parsed, paired with its payload.
use vstd::prelude::*;
use crate::keyvalue::{has_section, ini_parsed, load_text, value_of, Sections};
use crate::paths::{payload_of, PathView, TrashPath};
use crate::timestamp::{
    date_time_accepts, date_time_fields, deletion_date_format, local_instant, parse_date_time,
    utc_seconds,
};

verus! {

/// The two keys that a descriptor must hold.
#[derive(Debug, Clone, Copy, PartialEq, Eq, Structural)]
pub enum DescriptorKey {
    Path,
    DeletionDate,
}

/// Why a descriptor could not be read into a record.
#[derive(Debug, Clone, Copy, PartialEq, Eq, Structural)]
pub enum ParseError {
    /// The text is not key-value data at all.
    Malformed,
    /// There is no `[Trash Info]` section.
    MissingSection,
    /// The section lacks a required key.
    MissingKey(DescriptorKey),
    /// The deletion timestamp is not `YYYY-MM-DDTHH:MM:SS`, or names no single
    /// local instant.
    BadTimestamp,
    /// The descriptor path has no grandparent directory or no file name.
    BadPathDerivation,
}

/// The section that a descriptor's keys stand in.
pub open spec fn section_name() -> Seq<char> {
    seq!['T', 'r', 'a', 's', 'h', ' ', 'I', 'n', 'f', 'o']
}

/// The key of the original location.
pub open spec fn path_key() -> Seq<char> {
    seq!['P', 'a', 't', 'h']
}

/// The key of the deletion timestamp.
pub open spec fn date_key() -> Seq<char> {
    seq!['D', 'e', 'l', 'e', 't', 'i', 'o', 'n', 'D', 'a', 't', 'e']
}

/// The original location and the deletion timestamp's text that a descriptor
/// holds, or the first thing missing, checked in this order: the text parses,
/// the section is there, the path key, the timestamp key.
pub open spec fn fields_of(secs: Option<Sections>) -> Result<(Seq<char>, Seq<char>), ParseError> {
    match secs {
        None => Err(ParseError::Malformed),
        Some(s) => {
            if !s.contains_key(Some(section_name())) {
                Err(ParseError::MissingSection)
            } else if !s[Some(section_name())].contains_key(path_key()) {
                Err(ParseError::MissingKey(DescriptorKey::Path))
            } else if !s[Some(section_name())].contains_key(date_key()) {
                Err(ParseError::MissingKey(DescriptorKey::DeletionDate))
            } else {
                Ok((s[Some(section_name())][path_key()], s[Some(section_name())][date_key()]))
            }
        },
    }
}

/// One item in the trash. The payload location is always the one derived from
/// the descriptor location.
pub struct TrashRecord {
    metadata_path: TrashPath,
    payload_path: TrashPath,
    original_path: String,
    deletion_timestamp: i64,
}

/// The mathematical value of a `TrashRecord`.
pub struct RecordView {
    pub metadata: PathView,
    pub payload: PathView,
    pub original: Seq<char>,
    pub deletion: int,
}

impl View for TrashRecord {
    type V = RecordView;

    closed spec fn view(&self) -> RecordView {
        RecordView {
            metadata: self.metadata_path@,
            payload: self.payload_path@,
            original: self.original_path@,
            deletion: self.deletion_timestamp as int,
        }
    }
}

/// The fields of a record built from a descriptor location, an original
/// location and a deletion instant, or why there is none.
pub open spec fn record_of(metadata: PathView, original: Seq<char>, deletion: int) -> Option<RecordView> {
    match payload_of(metadata) {
        Some(payload) => Some(RecordView { metadata, payload, original, deletion }),
        None => None,
    }
}

/// The payload location of a record depends on its descriptor location alone:
/// two records read from one descriptor location, whatever their texts and
/// whatever lies on disk, name the same payload, the one `payload_of` derives.
pub proof fn lemma_payload_from_path_alone(metadata: PathView, a: RecordView, b: RecordView)
    requires
        record_of(metadata, a.original, a.deletion) == Some(a),
        record_of(metadata, b.original, b.deletion) == Some(b),
    ensures
        a.payload == b.payload,
        payload_of(metadata) == Some(a.payload),
{
}

/// Whether `r` is an outcome that reading the descriptor text `text` at
/// `metadata` may have. The errors come in this order: the text is no key-value
/// data, the section is missing, a key is missing, the timestamp is not in the
/// one format; these are owed exactly. Past them, the timestamp may name no
/// single local instant on this machine, or the path may have no payload
/// location; a record found holds the fields read, and an instant within a day
/// of the timestamp's fields read as UTC.
pub open spec fn parsed_as(metadata: PathView, text: Seq<char>, r: Result<RecordView, ParseError>) -> bool {
    match fields_of(ini_parsed(text)) {
        Err(e) => r == Err::<RecordView, ParseError>(e),
        Ok((original, date)) => {
            if !date_time_accepts(date, deletion_date_format()) {
                r == Err::<RecordView, ParseError>(ParseError::BadTimestamp)
            } else {
                match r {
                    Ok(rec) => record_of(metadata, original, rec.deletion) == Some(rec)
                        && utc_seconds(date_time_fields(date, deletion_date_format())) - 86400
                        < rec.deletion && rec.deletion < utc_seconds(
                        date_time_fields(date, deletion_date_format()),
                    ) + 86400,
                    Err(e) => e == ParseError::BadTimestamp || (e == ParseError::BadPathDerivation
                        && payload_of(metadata) is None),
                }
            }
        },
    }
}

/// Reading one descriptor again gives what the first reading gave: the same
/// error where the text decides it, and otherwise the same locations and
/// original path, with deletion instants less than two days apart (the local
/// time zone alone may move them).
pub proof fn lemma_reread_agrees(
    metadata: PathView,
    text: Seq<char>,
    first: Result<RecordView, ParseError>,
    second: Result<RecordView, ParseError>,
)
    requires
        parsed_as(metadata, text, first),
        parsed_as(metadata, text, second),
    ensures
        fields_of(ini_parsed(text)) is Err ==> first == second,
        (first is Ok && second is Ok) ==> {
            &&& first->Ok_0.metadata == second->Ok_0.metadata
            &&& first->Ok_0.payload == second->Ok_0.payload
            &&& first->Ok_0.original == second->Ok_0.original
            &&& -2 * 86400 < first->Ok_0.deletion - second->Ok_0.deletion < 2 * 86400
        },
{
}

impl TrashRecord {
    #[verifier::type_invariant]
    closed spec fn paired(&self) -> bool {
        payload_of(self.metadata_path@) == Some(self.payload_path@)
    }

    /// Builds the record of a descriptor at `metadata_path`, whose payload is
    /// derived from that location alone.
    pub fn new(metadata_path: TrashPath, original_path: String, deletion_timestamp: i64) -> (r: Result<
        TrashRecord,
        ParseError,
    >)
        ensures
            match r {
                Ok(rec) => record_of(metadata_path@, original_path@, deletion_timestamp as int)
                    == Some(rec@),
                Err(e) => e == ParseError::BadPathDerivation && record_of(
                    metadata_path@,
                    original_path@,
                    deletion_timestamp as int,
                ) is None,
            },
    {
        match metadata_path.payload_path() {
            Some(payload_path) => Ok(
                TrashRecord { metadata_path, payload_path, original_path, deletion_timestamp },
            ),
            None => Err(ParseError::BadPathDerivation),
        }
    }

    /// Reads the descriptor text `text`, found at `metadata_path`.
    ///
    /// The errors come in this order: the text is no key-value data, the
    /// section is missing, a key is missing, the timestamp is not in the one
    /// format, the timestamp names no single local instant (which depends on the
    /// machine's time zone), the path has no payload location.
    pub fn parse(metadata_path: TrashPath, text: &str) -> (r: Result<TrashRecord, ParseError>)
        ensures
            parsed_as(
                metadata_path@,
                text@,
                match r {
                    Ok(rec) => Ok(rec@),
                    Err(e) => Err(e),
                },
            ),
    {
        let section = "Trash Info";
        let pkey = "Path";
        let dkey = "DeletionDate";
        let fmt = "%Y-%m-%dT%H:%M:%S";
        proof {
            reveal_strlit("Trash Info");
            reveal_strlit("Path");
            reveal_strlit("DeletionDate");
            reveal_strlit("%Y-%m-%dT%H:%M:%S");
            assert(section@ =~= section_name());
            assert(pkey@ =~= path_key());
            assert(dkey@ =~= date_key());
            assert(fmt@ =~= deletion_date_format());
        }
        let doc = match load_text(text) {
            Some(d) => d,
            None => return Err(ParseError::Malformed),
        };
        if !has_section(&doc, section) {
            return Err(ParseError::MissingSection);
        }
        let original = match value_of(&doc, Some(section), pkey) {
            Some(p) => p,
            None => return Err(ParseError::MissingKey(DescriptorKey::Path)),
        };
        let date = match value_of(&doc, Some(section), dkey) {
            Some(d) => d,
            None => return Err(ParseError::MissingKey(DescriptorKey::DeletionDate)),
        };
        let local = match parse_date_time(date.as_str(), fmt) {
            Some(t) => t,
            None => return Err(ParseError::BadTimestamp),
        };
        let instant = match local_instant(&local) {
            Some(t) => t,
            None => return Err(ParseError::BadTimestamp),
        };
        TrashRecord::new(metadata_path, original, instant)
    }

    /// Where the descriptor lies.
    pub fn metadata_path(&self) -> (r: &TrashPath)
        ensures
            r@ == self@.metadata,
    {
        &self.metadata_path
    }

    /// Where the payload lies: always the location derived from the descriptor's.
    pub fn payload_path(&self) -> (r: &TrashPath)
        ensures
            r@ == self@.payload,
            payload_of(self@.metadata) == Some(r@),
    {
        proof {
            use_type_invariant(self);
        }
        &self.payload_path
    }

    /// Where the item stood before it was trashed, verbatim from the descriptor.
    pub fn original_path(&self) -> (r: &str)
        ensures
            r@ == self@.original,
    {
        self.original_path.as_str()
    }

    /// When the item was trashed, in seconds since the Unix epoch.
    pub fn deletion_timestamp(&self) -> (r: i64)
        ensures
            r == self@.deletion,
    {
        self.deletion_timestamp
    }
}

} // verus!
