//! The archive builder: an ordered list of named byte entries in, one tar
//! container out, and the reverse.
//!
//! Entry names are relative paths in bytes. A name is accepted when it is
//! non-empty UTF-8 without NUL or backslash and free of absolute, empty,
//! `.` and `..` components; the checker `check_entry_name` is verified
//! against that definition. The container bytes themselves are produced by
//! the tar crate behind trusted wrappers whose header fields are pinned, so
//! the output is a function of the entries alone, named `tar_bytes`.

use std::io::Read;
use vstd::prelude::*;

use crate::progress::ProgressSink;
use crate::progress::ProgressTracker;
use crate::progress::send_sample;

verus! {

/// The path separator byte, `/`.
pub const SLASH: u8 = 0x2f;

/// The dot byte, `.`.
pub const DOT: u8 = 0x2e;

/// The backslash byte.
pub const BACKSLASH: u8 = 0x5c;

/// Largest accepted entry body: what the tar header's eleven octal digits
/// of size can carry.
pub const MAX_ENTRY_BYTES: u64 = 0o77777777777;

/// A failure while building or reading a container.
#[derive(Clone, Copy, Debug, PartialEq, Eq, Structural)]
pub enum ArchiveError {
    /// An entry name was empty, not UTF-8, held a NUL or backslash, or held
    /// an absolute, empty, `.` or `..` component.
    InvalidName,
    /// An entry body was larger than the tar size field can carry.
    EntryTooLarge,
    /// The underlying container writer or reader failed.
    Io,
}

/// One file to archive: a relative path and the file's bytes.
#[derive(Clone, Debug)]
pub struct ArchiveEntry {
    pub name: Vec<u8>,
    pub data: Vec<u8>,
}

/// The mathematical content of one entry.
pub open spec fn entry_model(e: ArchiveEntry) -> (Seq<u8>, Seq<u8>) {
    (e.name@, e.data@)
}

/// The mathematical content of an entry list.
pub open spec fn entries_model(s: Seq<ArchiveEntry>) -> Seq<(Seq<u8>, Seq<u8>)> {
    s.map_values(|e: ArchiveEntry| entry_model(e))
}

/// The tar header stores names as NUL-delimited fields, so a NUL cannot
/// round-trip; the backslash stays out because tar path handling rewrites
/// it on some platforms, which would break name fidelity.
pub open spec fn name_byte_ok(b: u8) -> bool {
    b != 0x00 && b != BACKSLASH
}

pub open spec fn utf8_cont(b: u8) -> bool {
    0x80 <= b <= 0xbf
}

/// The byte sequence from `i` on is well-formed UTF-8.
pub open spec fn utf8_valid_from(s: Seq<u8>, i: int) -> bool
    decreases s.len() - i,
{
    if i >= s.len() {
        true
    } else {
        let b0 = s[i];
        if b0 <= 0x7f {
            utf8_valid_from(s, i + 1)
        } else if 0xc2 <= b0 <= 0xdf {
            i + 2 <= s.len() && utf8_cont(s[i + 1]) && utf8_valid_from(s, i + 2)
        } else if b0 == 0xe0 {
            i + 3 <= s.len() && 0xa0 <= s[i + 1] <= 0xbf && utf8_cont(s[i + 2])
                && utf8_valid_from(s, i + 3)
        } else if 0xe1 <= b0 <= 0xec {
            i + 3 <= s.len() && utf8_cont(s[i + 1]) && utf8_cont(s[i + 2]) && utf8_valid_from(
                s,
                i + 3,
            )
        } else if b0 == 0xed {
            i + 3 <= s.len() && 0x80 <= s[i + 1] <= 0x9f && utf8_cont(s[i + 2])
                && utf8_valid_from(s, i + 3)
        } else if 0xee <= b0 <= 0xef {
            i + 3 <= s.len() && utf8_cont(s[i + 1]) && utf8_cont(s[i + 2]) && utf8_valid_from(
                s,
                i + 3,
            )
        } else if b0 == 0xf0 {
            i + 4 <= s.len() && 0x90 <= s[i + 1] <= 0xbf && utf8_cont(s[i + 2]) && utf8_cont(
                s[i + 3],
            ) && utf8_valid_from(s, i + 4)
        } else if 0xf1 <= b0 <= 0xf3 {
            i + 4 <= s.len() && utf8_cont(s[i + 1]) && utf8_cont(s[i + 2]) && utf8_cont(s[i + 3])
                && utf8_valid_from(s, i + 4)
        } else if b0 == 0xf4 {
            i + 4 <= s.len() && 0x80 <= s[i + 1] <= 0x8f && utf8_cont(s[i + 2]) && utf8_cont(
                s[i + 3],
            ) && utf8_valid_from(s, i + 4)
        } else {
            false
        }
    }
}

/// The whole byte sequence is well-formed UTF-8.
pub open spec fn utf8_valid(s: Seq<u8>) -> bool {
    utf8_valid_from(s, 0)
}

/// True where a path component begins: at the front, or right after a
/// separator.
pub open spec fn component_starts_at(name: Seq<u8>, i: int) -> bool {
    i == 0 || name[i - 1] == SLASH
}

/// True when the component beginning at `i` is exactly `.` or `..`.
pub open spec fn dot_component_at(name: Seq<u8>, i: int) -> bool {
    ||| (name[i] == DOT && (i + 1 == name.len() || name[i + 1] == SLASH))
    ||| (name[i] == DOT && i + 1 < name.len() && name[i + 1] == DOT && (i + 2 == name.len()
        || name[i + 2] == SLASH))
}

/// The names the archive builder accepts: non-empty UTF-8, relative, with
/// no NUL or backslash and no empty, `.` or `..` component.
pub open spec fn valid_entry_name(name: Seq<u8>) -> bool {
    &&& 0 < name.len()
    &&& utf8_valid(name)
    &&& name[0] != SLASH
    &&& name[name.len() - 1] != SLASH
    &&& forall|i: int| 0 <= i < name.len() ==> name_byte_ok(#[trigger] name[i])
    &&& forall|i: int|
        0 <= i < name.len() && #[trigger] component_starts_at(name, i) ==> name[i] != SLASH
            && !dot_component_at(name, i)
}

pub open spec fn valid_entry(name: Seq<u8>, data: Seq<u8>) -> bool {
    valid_entry_name(name) && data.len() <= MAX_ENTRY_BYTES
}

pub open spec fn valid_entries(es: Seq<(Seq<u8>, Seq<u8>)>) -> bool {
    forall|i: int| 0 <= i < es.len() ==> valid_entry(#[trigger] es[i].0, es[i].1)
}

/// Decides `utf8_valid`.
fn check_utf8(name: &Vec<u8>) -> (r: bool)
    ensures
        r == utf8_valid(name@),
{
    let n = name.len();
    let mut i: usize = 0;
    while i < n
        invariant
            i <= n,
            n == name@.len(),
            utf8_valid(name@) == utf8_valid_from(name@, i as int),
        decreases n - i,
    {
        let b0 = name[i];
        if b0 <= 0x7f {
            proof {
                assert(utf8_valid_from(name@, i as int) == utf8_valid_from(name@, i as int + 1));
            }
            i = i + 1;
        } else if 0xc2 <= b0 && b0 <= 0xdf {
            if n - i < 2 || !(0x80 <= name[i + 1] && name[i + 1] <= 0xbf) {
                proof {
                    assert(!utf8_valid_from(name@, i as int));
                }
                return false;
            }
            proof {
                assert(utf8_valid_from(name@, i as int) == utf8_valid_from(name@, i as int + 2));
            }
            i = i + 2;
        } else if 0xe0 <= b0 && b0 <= 0xef {
            let lo: u8 = if b0 == 0xe0 {
                0xa0
            } else {
                0x80
            };
            let hi: u8 = if b0 == 0xed {
                0x9f
            } else {
                0xbf
            };
            if n - i < 3 || !(lo <= name[i + 1] && name[i + 1] <= hi) || !(0x80 <= name[i + 2]
                && name[i + 2] <= 0xbf) {
                proof {
                    assert(!utf8_valid_from(name@, i as int));
                }
                return false;
            }
            proof {
                assert(utf8_valid_from(name@, i as int) == utf8_valid_from(name@, i as int + 3));
            }
            i = i + 3;
        } else if 0xf0 <= b0 && b0 <= 0xf4 {
            let lo: u8 = if b0 == 0xf0 {
                0x90
            } else {
                0x80
            };
            let hi: u8 = if b0 == 0xf4 {
                0x8f
            } else {
                0xbf
            };
            if n - i < 4 || !(lo <= name[i + 1] && name[i + 1] <= hi) || !(0x80 <= name[i + 2]
                && name[i + 2] <= 0xbf) || !(0x80 <= name[i + 3] && name[i + 3] <= 0xbf) {
                proof {
                    assert(!utf8_valid_from(name@, i as int));
                }
                return false;
            }
            proof {
                assert(utf8_valid_from(name@, i as int) == utf8_valid_from(name@, i as int + 4));
            }
            i = i + 4;
        } else {
            proof {
                assert(!utf8_valid_from(name@, i as int));
            }
            return false;
        }
    }
    true
}

/// Decides `valid_entry_name`.
pub fn check_entry_name(name: &Vec<u8>) -> (r: bool)
    ensures
        r == valid_entry_name(name@),
{
    let n = name.len();
    if n == 0 {
        return false;
    }
    if name[0] == SLASH || name[n - 1] == SLASH {
        return false;
    }
    if !check_utf8(name) {
        return false;
    }
    let mut i: usize = 0;
    while i < n
        invariant
            0 < n,
            n == name@.len(),
            i <= n,
            utf8_valid(name@),
            name@[0] != SLASH,
            name@[n - 1] != SLASH,
            forall|j: int| 0 <= j < i ==> name_byte_ok(#[trigger] name@[j]),
            forall|j: int|
                0 <= j < i && #[trigger] component_starts_at(name@, j) ==> name@[j] != SLASH
                    && !dot_component_at(name@, j),
        decreases n - i,
    {
        let b = name[i];
        if b == 0x00 || b == BACKSLASH {
            return false;
        }
        let starts = i == 0 || name[i - 1] == SLASH;
        proof {
            assert(starts == component_starts_at(name@, i as int));
        }
        if starts {
            if b == SLASH {
                return false;
            }
            if b == DOT {
                let lone = i + 1 == n || name[i + 1] == SLASH;
                let double = i + 1 < n && name[i + 1] == DOT && (i + 2 == n || name[i + 2]
                    == SLASH);
                if lone || double {
                    proof {
                        assert(dot_component_at(name@, i as int));
                    }
                    return false;
                }
                proof {
                    assert(!dot_component_at(name@, i as int));
                }
            }
        }
        i = i + 1;
    }
    true
}

/// An in-flight container being filled with entries.
#[verifier::external_body]
pub struct TarBuilder {
    inner: tar::Builder<Vec<u8>>,
}

/// The entries appended to an in-flight container so far.
pub uninterp spec fn tar_entries(b: TarBuilder) -> Seq<(Seq<u8>, Seq<u8>)>;

/// The container bytes the builder emits for the given entries, header
/// fields pinned, terminating blocks included.
pub uninterp spec fn tar_bytes(entries: Seq<(Seq<u8>, Seq<u8>)>) -> Seq<u8>;

/// Relies on tar::Builder::new over an in-memory buffer: a fresh builder
/// holds no entries.
#[verifier::external_body]
fn tar_new() -> (b: TarBuilder)
    ensures
        tar_entries(b) == Seq::<(Seq<u8>, Seq<u8>)>::empty(),
{
    TarBuilder { inner: tar::Builder::new(Vec::new()) }
}

/// Relies on tar::Builder::append_data with every header field pinned
/// (regular file, mode 644, epoch mtime, root ownership): on success
/// exactly one entry with the given name and bytes is appended. A name over
/// the header's hundred bytes travels in a GNU long-name record, still a
/// function of the name alone, and listing hands it back intact.
#[verifier::external_body]
fn tar_append(b: &mut TarBuilder, name: &Vec<u8>, data: &Vec<u8>) -> (r: Result<(), ArchiveError>)
    requires
        valid_entry(name@, data@),
    ensures
        r is Ok ==> tar_entries(*final(b)) == tar_entries(*old(b)).push((name@, data@)),
{
    let mut header = tar::Header::new_gnu();
    header.set_entry_type(tar::EntryType::Regular);
    header.set_size(data.len() as u64);
    header.set_mode(0o644);
    header.set_mtime(0);
    header.set_uid(0);
    header.set_gid(0);
    let path = match std::str::from_utf8(name.as_slice()) {
        Ok(p) => p,
        Err(_) => return Err(ArchiveError::InvalidName),
    };
    b.inner.append_data(&mut header, path, data.as_slice()).map_err(|_| ArchiveError::Io)
}

/// Relies on tar::Builder::into_inner: writes the terminating blocks and
/// hands back the buffer, a function of the appended entries alone. The
/// buffer is in memory, so finishing cannot fail.
#[verifier::external_body]
fn tar_finish(b: TarBuilder) -> (r: Vec<u8>)
    ensures
        r@ == tar_bytes(tar_entries(b)),
{
    b.inner.into_inner().expect("writing the terminating blocks to a vector cannot fail")
}

/// Relies on tar::Archive over an in-memory buffer: listing a container
/// that the builder produced from validly named entries yields those
/// entries, names and bytes intact, in order.
#[verifier::external_body]
fn tar_list(bytes: &[u8]) -> (r: Result<Vec<ArchiveEntry>, ArchiveError>)
    ensures
        r matches Ok(v) ==> forall|es: Seq<(Seq<u8>, Seq<u8>)>|
            valid_entries(es) && bytes@ == #[trigger] tar_bytes(es) ==> entries_model(v@) == es,
        r is Err ==> forall|es: Seq<(Seq<u8>, Seq<u8>)>|
            !(valid_entries(es) && bytes@ == #[trigger] tar_bytes(es)),
{
    let mut ar = tar::Archive::new(bytes);
    let mut out: Vec<ArchiveEntry> = Vec::new();
    for e in ar.entries().map_err(|_| ArchiveError::Io)? {
        let mut e = e.map_err(|_| ArchiveError::Io)?;
        let name = e.path_bytes().to_vec();
        let mut data = Vec::new();
        e.read_to_end(&mut data).map_err(|_| ArchiveError::Io)?;
        out.push(ArchiveEntry { name, data });
    }
    Ok(out)
}

/// Builds one container from the entries, in their order, raising the
/// current stage's progress once per appended entry.
///
/// Every name is checked before any container work starts; the first
/// offending entry decides the error.
pub fn build_archive(
    entries: &Vec<ArchiveEntry>,
    tracker: &mut ProgressTracker,
    sink: &ProgressSink,
) -> (r: Result<Vec<u8>, ArchiveError>)
    requires
        old(tracker).wf(),
        old(tracker).completed < old(tracker).total,
    ensures
        final(tracker).wf(),
        final(tracker).total == old(tracker).total,
        final(tracker).completed == old(tracker).completed,
        old(tracker).frac() <= final(tracker).frac(),
        r matches Ok(v) ==> valid_entries(entries_model(entries@)) && v@ == tar_bytes(
            entries_model(entries@),
        ) && final(tracker).sub == crate::progress::PROGRESS_SCALE,
        !valid_entries(entries_model(entries@)) ==> r == Err::<Vec<u8>, ArchiveError>(
            ArchiveError::InvalidName,
        ) || r == Err::<Vec<u8>, ArchiveError>(ArchiveError::EntryTooLarge),
        valid_entries(entries_model(entries@)) && r is Err ==> r == Err::<Vec<u8>, ArchiveError>(
            ArchiveError::Io,
        ),
        entries@.len() == 0 ==> r is Ok,
{
    let n = entries.len();
    let mut i: usize = 0;
    while i < n
        invariant
            n == entries@.len(),
            i <= n,
            *tracker == *old(tracker),
            old(tracker).wf(),
            old(tracker).completed < old(tracker).total,
            forall|j: int|
                0 <= j < i ==> valid_entry(
                    #[trigger] entries_model(entries@)[j].0,
                    entries_model(entries@)[j].1,
                ),
        decreases n - i,
    {
        proof {
            assert(entries_model(entries@)[i as int] == (
                entries@[i as int].name@,
                entries@[i as int].data@,
            ));
        }
        if !check_entry_name(&entries[i].name) {
            proof {
                assert(!valid_entry(
                    entries_model(entries@)[i as int].0,
                    entries_model(entries@)[i as int].1,
                ));
            }
            return Err(ArchiveError::InvalidName);
        }
        if entries[i].data.len() as u64 > MAX_ENTRY_BYTES {
            proof {
                assert(!valid_entry(
                    entries_model(entries@)[i as int].0,
                    entries_model(entries@)[i as int].1,
                ));
            }
            return Err(ArchiveError::EntryTooLarge);
        }
        i = i + 1;
    }
    let mut b = tar_new();
    let mut i: usize = 0;
    while i < n
        invariant
            n == entries@.len(),
            i <= n,
            valid_entries(entries_model(entries@)),
            tar_entries(b) == entries_model(entries@).subrange(0, i as int),
            tracker.wf(),
            tracker.total == old(tracker).total,
            tracker.completed == old(tracker).completed,
            tracker.completed < tracker.total,
            old(tracker).frac() <= tracker.frac(),
        decreases n - i,
    {
        proof {
            assert(valid_entry(entries_model(entries@)[i as int].0, entries_model(entries@)[
                i as int].1));
        }
        match tar_append(&mut b, &entries[i].name, &entries[i].data) {
            Ok(_) => {},
            Err(_) => {
                return Err(ArchiveError::Io);
            },
        }
        proof {
            assert(entries_model(entries@).subrange(0, i as int).push(
                (entries@[i as int].name@, entries@[i as int].data@),
            ) =~= entries_model(entries@).subrange(0, i as int + 1));
        }
        i = i + 1;
        let sub_now = tracker.sub;
        let bp = crate::progress::ratio_bp(i, n);
        if sub_now <= bp {
            tracker.set_sub(bp);
            send_sample(sink, tracker.sample());
        }
    }
    if tracker.sub < crate::progress::PROGRESS_SCALE {
        tracker.set_sub(crate::progress::PROGRESS_SCALE);
    }
    proof {
        assert(entries_model(entries@).subrange(0, n as int) =~= entries_model(entries@));
    }
    Ok(tar_finish(b))
}

/// Lists the entries of one container.
///
/// Extracting what `build_archive` produced reproduces the entries exactly:
/// same count, same names, same bytes, same order.
pub fn extract_archive(bytes: &Vec<u8>) -> (r: Result<Vec<ArchiveEntry>, ArchiveError>)
    ensures
        r matches Ok(v) ==> forall|es: Seq<(Seq<u8>, Seq<u8>)>|
            valid_entries(es) && bytes@ == #[trigger] tar_bytes(es) ==> entries_model(v@) == es,
        r is Err ==> forall|es: Seq<(Seq<u8>, Seq<u8>)>|
            !(valid_entries(es) && bytes@ == #[trigger] tar_bytes(es)),
{
    tar_list(bytes.as_slice())
}

} // verus!
