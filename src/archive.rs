//! Archive formats and extraction. Decoding an archive yields its entries;
//! a verified plan turns them into directory creations and file writes
//! under the target directory, refusing entries that would escape it.

use crate::error::InstallError;
use crate::paths::{entry_path_is_safe, is_safe_entry_path, parent_len, parent_of};
use vstd::prelude::*;

verus! {

#[derive(Clone, Copy, Debug, PartialEq, Eq, Structural)]
pub enum ArchiveFormat {
    /// A gzip-compressed tar stream (`format=tar`).
    TarGz,
    /// A zip container (`format=zip`).
    Zip,
}

/// The kind of an archive member, as its archive format records it.
#[derive(Clone, Copy, Debug, PartialEq, Eq, Structural)]
pub enum EntryKind {
    File,
    Directory,
    /// A tar member with this header type byte.
    Tar(u8),
}

/// What extraction does with a member.
#[derive(Clone, Copy, Debug, PartialEq, Eq, Structural)]
pub enum EntryClass {
    /// Its bytes are written to its path.
    Regular,
    /// Its path is created as a directory.
    Dir,
    /// It describes the archive, not a file: nothing to create.
    Metadata,
    /// A link, device, FIFO or unknown type: extraction is refused.
    Unsupported,
}

/// Tar type bytes: regular (`0` or NUL), contiguous (`7`) and GNU sparse
/// (`S`) members hold file contents; `5` is a directory; `g` is a pax
/// global header. Hard and symbolic links (`1`, `2`), devices (`3`, `4`),
/// FIFOs (`6`) and unknown types cannot be reproduced as plain files.
pub open spec fn tar_class(b: u8) -> EntryClass {
    if b == 0x30 || b == 0 || b == 0x37 || b == 0x53 {
        EntryClass::Regular
    } else if b == 0x35 {
        EntryClass::Dir
    } else if b == 0x67 {
        EntryClass::Metadata
    } else {
        EntryClass::Unsupported
    }
}

pub open spec fn class_of(k: EntryKind) -> EntryClass {
    match k {
        EntryKind::File => EntryClass::Regular,
        EntryKind::Directory => EntryClass::Dir,
        EntryKind::Tar(b) => tar_class(b),
    }
}

/// Decides what extraction does with a member of this kind.
pub fn classify(k: EntryKind) -> (r: EntryClass)
    ensures
        r == class_of(k),
{
    match k {
        EntryKind::File => EntryClass::Regular,
        EntryKind::Directory => EntryClass::Dir,
        EntryKind::Tar(b) => if b == 0x30 || b == 0 || b == 0x37 || b == 0x53 {
            EntryClass::Regular
        } else if b == 0x35 {
            EntryClass::Dir
        } else if b == 0x67 {
            EntryClass::Metadata
        } else {
            EntryClass::Unsupported
        },
    }
}

/// One member of a decoded archive.
#[derive(Debug)]
pub struct ArchiveEntry {
    pub path: String,
    pub kind: EntryKind,
    pub data: Vec<u8>,
}

/// One filesystem operation, relative to the target directory.
#[derive(Debug)]
pub enum Step {
    /// Create the directory and all its ancestors.
    CreateDir(String),
    /// Write the bytes of the entry with this index to this path.
    WriteFile(String, usize),
}

pub ghost enum PlanStep {
    MakeDir(Seq<char>),
    Write(Seq<char>, int),
}

impl Step {
    pub open spec fn view(&self) -> PlanStep {
        match self {
            Step::CreateDir(p) => PlanStep::MakeDir(p@),
            Step::WriteFile(p, i) => PlanStep::Write(p@, *i as int),
        }
    }
}

pub open spec fn entry_shape(e: ArchiveEntry) -> (Seq<char>, EntryKind) {
    (e.path@, e.kind)
}

pub open spec fn entry_full(e: ArchiveEntry) -> (Seq<char>, EntryKind, Seq<u8>) {
    (e.path@, e.kind, e.data@)
}

pub open spec fn shapes(v: Seq<ArchiveEntry>) -> Seq<(Seq<char>, EntryKind)> {
    v.map_values(|e: ArchiveEntry| entry_shape(e))
}

pub open spec fn contents(v: Seq<ArchiveEntry>) -> Seq<(Seq<char>, EntryKind, Seq<u8>)> {
    v.map_values(|e: ArchiveEntry| entry_full(e))
}

pub open spec fn steps_view(v: Seq<Step>) -> Seq<PlanStep> {
    v.map_values(|s: Step| s@)
}

/// The steps for entry `i`: a directory is created; a file's parent is
/// created before the file is written; metadata creates nothing.
pub open spec fn entry_steps(path: Seq<char>, kind: EntryKind, i: int) -> Seq<PlanStep> {
    match class_of(kind) {
        EntryClass::Dir => seq![PlanStep::MakeDir(path)],
        EntryClass::Regular => if parent_of(path).len() > 0 {
            seq![PlanStep::MakeDir(parent_of(path)), PlanStep::Write(path, i)]
        } else {
            seq![PlanStep::Write(path, i)]
        },
        _ => seq![],
    }
}

/// The steps for all entries, in archive order.
pub open spec fn plan_of(es: Seq<(Seq<char>, EntryKind)>) -> Seq<PlanStep>
    decreases es.len(),
{
    if es.len() == 0 {
        seq![]
    } else {
        plan_of(es.drop_last()) + entry_steps(es.last().0, es.last().1, es.len() - 1)
    }
}

pub open spec fn all_paths_safe(es: Seq<(Seq<char>, EntryKind)>) -> bool {
    forall|i: int| 0 <= i < es.len() ==> is_safe_entry_path(#[trigger] es[i].0)
}

pub open spec fn all_supported(es: Seq<(Seq<char>, EntryKind)>) -> bool {
    forall|i: int| 0 <= i < es.len() ==> class_of(#[trigger] es[i].1) != EntryClass::Unsupported
}

pub open spec fn format_of(s: Seq<char>) -> Option<ArchiveFormat> {
    if s == seq!['t', 'a', 'r'] {
        Some(ArchiveFormat::TarGz)
    } else if s == seq!['z', 'i', 'p'] {
        Some(ArchiveFormat::Zip)
    } else {
        None
    }
}

/// The archive kind a descriptor's `format` value names.
pub fn parse_format(s: &str) -> (r: Result<ArchiveFormat, InstallError>)
    ensures
        match format_of(s@) {
            Some(f) => r == Ok::<ArchiveFormat, InstallError>(f),
            None => r == Err::<ArchiveFormat, InstallError>(InstallError::UnsupportedFormat),
        },
{
    let n = s.unicode_len();
    if n == 3 {
        let (a, b, c) = (s.get_char(0), s.get_char(1), s.get_char(2));
        if a == 't' && b == 'a' && c == 'r' {
            assert(s@ =~= seq!['t', 'a', 'r']);
            return Ok(ArchiveFormat::TarGz);
        }
        if a == 'z' && b == 'i' && c == 'p' {
            assert(s@ =~= seq!['z', 'i', 'p']);
            return Ok(ArchiveFormat::Zip);
        }
    }
    Err(InstallError::UnsupportedFormat)
}

fn push_entry_steps(steps: &mut Vec<Step>, e: &ArchiveEntry, i: usize)
    ensures
        steps_view(final(steps)@) == steps_view(old(steps)@) + entry_steps(e.path@, e.kind, i as int),
{
    let ghost before = steps_view(steps@);
    match classify(e.kind) {
        EntryClass::Dir => {
            steps.push(Step::CreateDir(e.path.clone()));
        },
        EntryClass::Regular => {
            let k = parent_len(e.path.as_str());
            if k > 0 {
                let parent = String::from_str(e.path.as_str().substring_char(0, k));
                steps.push(Step::CreateDir(parent));
            }
            steps.push(Step::WriteFile(e.path.clone(), i));
        },
        _ => {},
    }
    assert(steps_view(steps@) =~= before + entry_steps(e.path@, e.kind, i as int));
}

/// Plans the extraction of `entries`. Fails when any entry path could
/// escape the target directory, else when any entry cannot be reproduced;
/// otherwise gives the steps of `plan_of`.
pub fn plan_extraction(entries: &Vec<ArchiveEntry>) -> (r: Result<Vec<Step>, InstallError>)
    ensures
        all_paths_safe(shapes(entries@)) && all_supported(shapes(entries@)) ==> (r matches Ok(
            steps,
        ) && steps_view(steps@) == plan_of(shapes(entries@))),
        !all_paths_safe(shapes(entries@)) ==> r == Err::<Vec<Step>, InstallError>(
            InstallError::UnsafeEntryPath,
        ),
        all_paths_safe(shapes(entries@)) && !all_supported(shapes(entries@)) ==> r == Err::<
            Vec<Step>,
            InstallError,
        >(InstallError::UnsupportedEntry),
{
    let mut i: usize = 0;
    while i < entries.len()
        invariant
            i <= entries@.len(),
            forall|m: int| 0 <= m < i ==> is_safe_entry_path(#[trigger] entries@[m].path@),
        decreases entries@.len() - i,
    {
        if !entry_path_is_safe(entries[i].path.as_str()) {
            assert(shapes(entries@)[i as int].0 == entries@[i as int].path@);
            return Err(InstallError::UnsafeEntryPath);
        }
        i = i + 1;
    }
    assert(all_paths_safe(shapes(entries@)));
    let mut i: usize = 0;
    while i < entries.len()
        invariant
            i <= entries@.len(),
            all_paths_safe(shapes(entries@)),
            forall|m: int| 0 <= m < i ==> class_of(#[trigger] entries@[m].kind) != EntryClass::Unsupported,
        decreases entries@.len() - i,
    {
        if classify(entries[i].kind) == EntryClass::Unsupported {
            assert(shapes(entries@)[i as int].1 == entries@[i as int].kind);
            return Err(InstallError::UnsupportedEntry);
        }
        i = i + 1;
    }
    assert(all_supported(shapes(entries@)));
    let mut steps: Vec<Step> = Vec::new();
    let mut j: usize = 0;
    while j < entries.len()
        invariant
            j <= entries@.len(),
            steps_view(steps@) == plan_of(shapes(entries@).take(j as int)),
        decreases entries@.len() - j,
    {
        proof {
            let t = shapes(entries@).take(j + 1);
            assert(t.drop_last() =~= shapes(entries@).take(j as int));
            assert(t.last() == entry_shape(entries@[j as int]));
        }
        push_entry_steps(&mut steps, &entries[j], j);
        j = j + 1;
    }
    assert(shapes(entries@).take(entries@.len() as int) =~= shapes(entries@));
    Ok(steps)
}

} // verus!

verus! {

/// What gzip decompression of these bytes yields, if they are valid gzip.
pub uninterp spec fn gunzip_of(data: Seq<u8>) -> Option<Seq<u8>>;

/// The members that the tar crate reads from these bytes, if it reads them
/// all; each member's kind is `Tar` of its header type byte.
pub uninterp spec fn tar_entries_of(data: Seq<u8>) -> Option<Seq<(Seq<char>, EntryKind, Seq<u8>)>>;

/// The members that the zip crate reads from these bytes, if it reads them all.
pub uninterp spec fn zip_entries_of(data: Seq<u8>) -> Option<Seq<(Seq<char>, EntryKind, Seq<u8>)>>;

/// The members of an archive of the given kind, if it decodes.
pub open spec fn listing_of(f: ArchiveFormat, data: Seq<u8>) -> Option<
    Seq<(Seq<char>, EntryKind, Seq<u8>)>,
> {
    match f {
        ArchiveFormat::TarGz => match gunzip_of(data) {
            Some(tar) => tar_entries_of(tar),
            None => None,
        },
        ArchiveFormat::Zip => zip_entries_of(data),
    }
}

/// Every member path of a listing stays inside the target directory.
pub open spec fn listing_safe(l: Seq<(Seq<char>, EntryKind, Seq<u8>)>) -> bool {
    forall|i: int| 0 <= i < l.len() ==> is_safe_entry_path(#[trigger] l[i].0)
}

/// Every member of a listing can be reproduced.
pub open spec fn listing_supported(l: Seq<(Seq<char>, EntryKind, Seq<u8>)>) -> bool {
    forall|i: int| 0 <= i < l.len() ==> class_of(#[trigger] l[i].1) != EntryClass::Unsupported
}

/// Relies on flate2's `read::GzDecoder`: the decompressed stream of a gzip
/// member, or `None` when the input is not valid gzip.
#[verifier::external_body]
fn gunzip(data: &Vec<u8>) -> (r: Option<Vec<u8>>)
    ensures
        r is Some <==> gunzip_of(data@) is Some,
        r matches Some(v) ==> v@ == gunzip_of(data@)->0,
{
    let mut out = Vec::new();
    let mut dec = flate2::read::GzDecoder::new(data.as_slice());
    std::io::Read::read_to_end(&mut dec, &mut out).ok()?;
    Some(out)
}

/// Relies on tar's `Archive::entries`: each member's path bytes
/// (`Entry::path_bytes`, read as UTF-8 with replacement), its header's type
/// byte (`EntryType::as_byte`) and its bytes, in archive order.
#[verifier::external_body]
fn read_tar(data: &Vec<u8>) -> (r: Option<Vec<ArchiveEntry>>)
    ensures
        r is Some <==> tar_entries_of(data@) is Some,
        r matches Some(v) ==> contents(v@) == tar_entries_of(data@)->0,
{
    let mut archive = tar::Archive::new(data.as_slice());
    let mut out = Vec::new();
    for e in archive.entries().ok()? {
        let mut e = e.ok()?;
        let kind = EntryKind::Tar(e.header().entry_type().as_byte());
        let path = String::from_utf8_lossy(&e.path_bytes()).into_owned();
        let mut data = Vec::new();
        std::io::Read::read_to_end(&mut e, &mut data).ok()?;
        out.push(ArchiveEntry { path, kind, data });
    }
    Some(out)
}

/// Relies on zip's `ZipArchive::by_index`: each member's name, whether it
/// is a directory, and its decompressed bytes, in index order.
#[verifier::external_body]
fn read_zip(data: &Vec<u8>) -> (r: Option<Vec<ArchiveEntry>>)
    ensures
        r is Some <==> zip_entries_of(data@) is Some,
        r matches Some(v) ==> contents(v@) == zip_entries_of(data@)->0,
{
    let mut archive = zip::ZipArchive::new(std::io::Cursor::new(data.as_slice())).ok()?;
    let mut out = Vec::new();
    for i in 0..archive.len() {
        let mut f = archive.by_index(i).ok()?;
        let kind = if f.is_dir() { EntryKind::Directory } else { EntryKind::File };
        let mut data = Vec::new();
        std::io::Read::read_to_end(&mut f, &mut data).ok()?;
        out.push(ArchiveEntry { path: f.name().to_string(), kind, data });
    }
    Some(out)
}

/// Decodes the members of an archive of the given kind: it succeeds exactly
/// when the archive decodes.
pub fn decode_archive(format: ArchiveFormat, data: &Vec<u8>) -> (r: Result<
    Vec<ArchiveEntry>,
    InstallError,
>)
    ensures
        r is Ok <==> listing_of(format, data@) is Some,
        r matches Ok(v) ==> contents(v@) == listing_of(format, data@)->0,
        r matches Err(e) ==> e == InstallError::CorruptArchive,
{
    let listed = match format {
        ArchiveFormat::TarGz => match gunzip(data) {
            Some(tar) => read_tar(&tar),
            None => None,
        },
        ArchiveFormat::Zip => read_zip(data),
    };
    match listed {
        Some(v) => Ok(v),
        None => Err(InstallError::CorruptArchive),
    }
}

/// A decoded archive and the verified steps that materialise it.
#[derive(Debug)]
pub struct Extraction {
    pub entries: Vec<ArchiveEntry>,
    pub steps: Vec<Step>,
}

/// Decodes an archive of a known kind and plans its extraction. It
/// succeeds exactly when the archive decodes, every member path is safe and
/// every member can be reproduced.
pub fn extract_as(kind: ArchiveFormat, data: &Vec<u8>) -> (r: Result<Extraction, InstallError>)
    ensures
        (listing_of(kind, data@) matches Some(l) && listing_safe(l) && listing_supported(l)) ==> r is Ok,
        r == Err::<Extraction, InstallError>(InstallError::CorruptArchive) <==> listing_of(
            kind,
            data@,
        ) is None,
        r == Err::<Extraction, InstallError>(InstallError::UnsafeEntryPath) <==> (listing_of(
            kind,
            data@,
        ) matches Some(l) && !listing_safe(l)),
        r == Err::<Extraction, InstallError>(InstallError::UnsupportedEntry) <==> (listing_of(
            kind,
            data@,
        ) matches Some(l) && listing_safe(l) && !listing_supported(l)),
        r matches Ok(x) ==> {
            &&& contents(x.entries@) == listing_of(kind, data@)->0
            &&& all_paths_safe(shapes(x.entries@))
            &&& all_supported(shapes(x.entries@))
            &&& steps_view(x.steps@) == plan_of(shapes(x.entries@))
        },
{
    let entries = match decode_archive(kind, data) {
        Ok(v) => v,
        Err(e) => return Err(e),
    };
    proof {
        let l = contents(entries@);
        let sh = shapes(entries@);
        assert(l.len() == sh.len());
        assert forall|i: int| 0 <= i < l.len() implies l[i].0 == sh[i].0 && l[i].1 == sh[i].1 by {}
        if listing_safe(l) {
            assert forall|i: int| 0 <= i < sh.len() implies is_safe_entry_path(#[trigger] sh[i].0) by {
                assert(l[i].0 == sh[i].0);
            }
        }
        if all_paths_safe(sh) {
            assert forall|i: int| 0 <= i < l.len() implies is_safe_entry_path(#[trigger] l[i].0) by {
                assert(l[i].0 == sh[i].0);
            }
        }
        if listing_supported(l) {
            assert forall|i: int| 0 <= i < sh.len() implies class_of(#[trigger] sh[i].1) != EntryClass::Unsupported by {
                assert(l[i].1 == sh[i].1);
            }
        }
        if all_supported(sh) {
            assert forall|i: int| 0 <= i < l.len() implies class_of(#[trigger] l[i].1) != EntryClass::Unsupported by {
                assert(l[i].1 == sh[i].1);
            }
        }
    }
    match plan_extraction(&entries) {
        Ok(steps) => Ok(Extraction { entries, steps }),
        Err(e) => Err(e),
    }
}

/// Dispatches on a descriptor's `format` value, decodes the archive and
/// plans its extraction. An unknown format is an error, never an empty
/// result; so is an archive that does not decode, one with any entry that
/// would escape the target directory, and one with an entry that cannot be
/// reproduced. Otherwise it succeeds.
pub fn extract_archive(format: &str, data: &Vec<u8>) -> (r: Result<Extraction, InstallError>)
    ensures
        format_of(format@) is None ==> r == Err::<Extraction, InstallError>(
            InstallError::UnsupportedFormat,
        ),
        format_of(format@) matches Some(k) ==> {
            &&& (listing_of(k, data@) matches Some(l) && listing_safe(l) && listing_supported(l)) ==> r is Ok
            &&& r == Err::<Extraction, InstallError>(InstallError::CorruptArchive) <==> listing_of(
                k,
                data@,
            ) is None
            &&& r == Err::<Extraction, InstallError>(InstallError::UnsafeEntryPath) <==> (listing_of(
                k,
                data@,
            ) matches Some(l) && !listing_safe(l))
            &&& r == Err::<Extraction, InstallError>(InstallError::UnsupportedEntry) <==> (listing_of(
                k,
                data@,
            ) matches Some(l) && listing_safe(l) && !listing_supported(l))
            &&& r matches Ok(x) ==> {
                &&& contents(x.entries@) == listing_of(k, data@)->0
                &&& all_paths_safe(shapes(x.entries@))
                &&& all_supported(shapes(x.entries@))
                &&& steps_view(x.steps@) == plan_of(shapes(x.entries@))
            }
        },
{
    match parse_format(format) {
        Ok(kind) => extract_as(kind, data),
        Err(e) => Err(e),
    }
}

} // verus!

verus! {

pub open spec fn step_path(s: PlanStep) -> Seq<char> {
    match s {
        PlanStep::MakeDir(p) => p,
        PlanStep::Write(p, _) => p,
    }
}

/// Every file entry is written, to its own path, and every write is of a
/// file entry: the extracted files are the archive's files.
pub proof fn lemma_plan_writes_files(es: Seq<(Seq<char>, EntryKind)>)
    ensures
        forall|k: int|
            0 <= k < plan_of(es).len() && #[trigger] plan_of(es)[k] is Write ==> {
                let (p, i) = (step_path(plan_of(es)[k]), plan_of(es)[k]->Write_1);
                0 <= i < es.len() && es[i].0 == p && class_of(es[i].1) == EntryClass::Regular
            },
        forall|i: int|
            0 <= i < es.len() && class_of((#[trigger] es[i]).1) == EntryClass::Regular ==> plan_of(es).contains(
                PlanStep::Write(es[i].0, i),
            ),
    decreases es.len(),
{
    if es.len() > 0 {
        let init = es.drop_last();
        lemma_plan_writes_files(init);
        let n = es.len() - 1;
        let head = plan_of(init);
        let tail = entry_steps(es[n].0, es[n].1, n);
        assert(plan_of(es) == head + tail);
        assert forall|k: int|
            0 <= k < plan_of(es).len() && #[trigger] plan_of(es)[k] is Write implies {
                let (p, i) = (step_path(plan_of(es)[k]), plan_of(es)[k]->Write_1);
                0 <= i < es.len() && es[i].0 == p && class_of(es[i].1) == EntryClass::Regular
            } by {
            if k < head.len() {
                assert(plan_of(es)[k] == head[k]);
                assert(head[k] is Write);
                let i = head[k]->Write_1;
                assert(es[i] == init[i]);
            }
        }
        assert forall|i: int|
            0 <= i < es.len() && class_of((#[trigger] es[i]).1) == EntryClass::Regular implies plan_of(es).contains(
                PlanStep::Write(es[i].0, i),
            ) by {
            if i < n {
                assert(init[i] == es[i]);
                let k = choose|k: int| 0 <= k < head.len() && head[k] == PlanStep::Write(es[i].0, i);
                assert(plan_of(es)[k] == head[k]);
            } else {
                let k = (tail.len() - 1) as int;
                assert(plan_of(es)[head.len() + k] == tail[k]);
            }
        }
    }
}

/// The directory made for entry `i`: its own path, or its parent's.
pub open spec fn dir_from_entry(es: Seq<(Seq<char>, EntryKind)>, i: int, d: Seq<char>) -> bool {
    ||| class_of(es[i].1) == EntryClass::Dir && es[i].0 == d
    ||| class_of(es[i].1) == EntryClass::Regular && parent_of(es[i].0) == d
}

/// Every directory entry is created, and every directory created is a
/// directory entry or the parent of a file entry: the extracted directories
/// are the archive's directories.
pub proof fn lemma_plan_creates_dirs(es: Seq<(Seq<char>, EntryKind)>)
    ensures
        forall|i: int|
            0 <= i < es.len() && class_of((#[trigger] es[i]).1) == EntryClass::Dir ==> plan_of(
                es,
            ).contains(PlanStep::MakeDir(es[i].0)),
        forall|k: int|
            0 <= k < plan_of(es).len() && #[trigger] plan_of(es)[k] is MakeDir ==> exists|i: int|
                0 <= i < es.len() && dir_from_entry(es, i, step_path(plan_of(es)[k])),
    decreases es.len(),
{
    if es.len() > 0 {
        let init = es.drop_last();
        lemma_plan_creates_dirs(init);
        let n = es.len() - 1;
        let head = plan_of(init);
        let tail = entry_steps(es[n].0, es[n].1, n);
        assert(plan_of(es) == head + tail);
        assert forall|i: int|
            0 <= i < es.len() && class_of((#[trigger] es[i]).1) == EntryClass::Dir implies plan_of(
                es,
            ).contains(PlanStep::MakeDir(es[i].0)) by {
            if i < n {
                assert(init[i] == es[i]);
                let k = choose|k: int| 0 <= k < head.len() && head[k] == PlanStep::MakeDir(es[i].0);
                assert(plan_of(es)[k] == head[k]);
            } else {
                assert(plan_of(es)[head.len() as int] == tail[0]);
            }
        }
        assert forall|k: int|
            0 <= k < plan_of(es).len() && #[trigger] plan_of(es)[k] is MakeDir implies exists|i: int|
                0 <= i < es.len() && dir_from_entry(es, i, step_path(plan_of(es)[k])) by {
            if k < head.len() {
                assert(plan_of(es)[k] == head[k]);
                assert(head[k] is MakeDir);
                let i = choose|i: int| 0 <= i < init.len() && dir_from_entry(init, i, step_path(head[k]));
                assert(init[i] == es[i]);
                assert(dir_from_entry(es, i, step_path(plan_of(es)[k])));
            } else {
                assert(plan_of(es)[k] == tail[k - head.len()]);
                assert(dir_from_entry(es, n, step_path(plan_of(es)[k])));
            }
        }
    }
}

/// A file whose path has a parent is written right after that parent
/// directory (with all its ancestors) is created.
pub proof fn lemma_parent_created_first(es: Seq<(Seq<char>, EntryKind)>)
    ensures
        forall|k: int|
            0 <= k < plan_of(es).len() && #[trigger] plan_of(es)[k] is Write && parent_of(
                step_path(plan_of(es)[k]),
            ).len() > 0 ==> k > 0 && plan_of(es)[k - 1] == PlanStep::MakeDir(
                parent_of(step_path(plan_of(es)[k])),
            ),
    decreases es.len(),
{
    if es.len() > 0 {
        let init = es.drop_last();
        lemma_parent_created_first(init);
        let n = es.len() - 1;
        let head = plan_of(init);
        let tail = entry_steps(es[n].0, es[n].1, n);
        assert(plan_of(es) == head + tail);
        assert forall|k: int|
            0 <= k < plan_of(es).len() && #[trigger] plan_of(es)[k] is Write && parent_of(
                step_path(plan_of(es)[k]),
            ).len() > 0 implies k > 0 && plan_of(es)[k - 1] == PlanStep::MakeDir(
                parent_of(step_path(plan_of(es)[k])),
            ) by {
            if k < head.len() {
                assert(plan_of(es)[k] == head[k]);
                assert(plan_of(es)[k - 1] == head[k - 1]);
            } else {
                assert(plan_of(es)[k] == tail[k - head.len()]);
                assert(plan_of(es)[k - 1] == tail[k - 1 - head.len()]);
            }
        }
    }
}

/// When every entry path is safe, so is every path the plan touches:
/// nothing is created or written outside the target directory.
pub proof fn lemma_plan_stays_inside(es: Seq<(Seq<char>, EntryKind)>)
    requires
        all_paths_safe(es),
    ensures
        forall|k: int|
            0 <= k < plan_of(es).len() ==> is_safe_entry_path(step_path(#[trigger] plan_of(es)[k])),
    decreases es.len(),
{
    if es.len() > 0 {
        let init = es.drop_last();
        assert forall|i: int| 0 <= i < init.len() implies is_safe_entry_path(#[trigger] init[i].0) by {
            assert(init[i] == es[i]);
        }
        lemma_plan_stays_inside(init);
        let n = es.len() - 1;
        let head = plan_of(init);
        let tail = entry_steps(es[n].0, es[n].1, n);
        assert(plan_of(es) == head + tail);
        assert(is_safe_entry_path(es[n].0));
        if parent_of(es[n].0).len() > 0 {
            crate::paths::lemma_parent_safe(es[n].0);
        }
        assert forall|k: int|
            0 <= k < plan_of(es).len() implies is_safe_entry_path(step_path(#[trigger] plan_of(es)[k])) by {
            if k < head.len() {
                assert(plan_of(es)[k] == head[k]);
            } else {
                assert(plan_of(es)[k] == tail[k - head.len()]);
            }
        }
    }
}

} // verus!
