//! Building a FAT filesystem image in memory.
//!
//! The image is a plain byte vector. The FAT binary encoding is done by
//! the `fatfs` crate through the trusted wrappers below; what a finished
//! image holds is described by named observations of its bytes:
//! [`fat_wf`], [`fat_files`], [`fat_dirs`] and [`fat_label`]. The crate
//! is built without its clock feature and draws no randomness, so each
//! call's entire effect is a function of its arguments; the outcome
//! names ([`format_outcome`], [`add_dir_outcome`],
//! [`write_file_outcome`]) capture that, which makes both success and
//! the exact output bytes of a whole build a function of the inputs.
//! The builder proper, [`create_fat_filesystem`], is verified: it sizes
//! the image, formats it, walks every path's ancestor chain
//! shallowest-to-deepest, and pins down exactly which files and
//! directories the finished image holds, when it succeeds, and which
//! stage any error names.

use vstd::prelude::*;
use crate::fileset::{
    all_ancestors, entry_map, lemma_all_ancestors_take_step, lemma_entry_map_lookup,
    lemma_entry_map_take_step, FileEntry, FileSet,
};
use crate::paths::{
    ancestors_upto, fold_path, lemma_ancestors_upto_empty, lemma_ancestors_upto_same,
    lemma_ancestors_upto_slash, lemma_fold_subrange, lemma_prefix_valid, lemma_valid_path_ascii,
    path_ancestors, valid_path,
};
use crate::sizes::{fat_size, lemma_fat_size_props, spec_fat_size};

verus! {

/// Why a FAT build failed. Each variant names the failing stage; the
/// payload is the virtual path involved.
#[derive(Debug)]
pub enum FatError {
    /// Formatting the blank image as a FAT volume failed.
    Format,
    /// Re-opening the formatted volume failed.
    OpenFilesystem,
    /// Creating this ancestor directory failed.
    CreateDir(String),
    /// Creating this file failed.
    CreateFile(String),
    /// Copying content into this file failed.
    CopyData(String),
}

/// The empty path-to-content mapping.
pub open spec fn empty_file_map() -> Map<Seq<char>, Seq<u8>> {
    Map::empty()
}

/// The empty directory set.
pub open spec fn empty_dir_set() -> Set<Seq<char>> {
    Set::empty()
}

/// A sound FAT image: the bytes decode as a FAT volume whose claimed
/// geometry lies inside the buffer, whose cluster chains terminate, and
/// whose entry names lie in the well-formed path alphabet. Freshly
/// formatted images are sound, and the wrappers below keep them so;
/// their contracts are stated only for sound images.
pub uninterp spec fn fat_wf(img: Seq<u8>) -> bool;

/// The path-to-content mapping a FAT driver decodes from the image
/// bytes, keyed by the case-folded path (FAT resolution being
/// case-insensitive): a pure observation of the bytes.
pub uninterp spec fn fat_files(img: Seq<u8>) -> Map<Seq<char>, Seq<u8>>;

/// The set of directories (root excluded) a FAT driver decodes from the
/// image bytes, each named by its case-folded slash-separated path.
pub uninterp spec fn fat_dirs(img: Seq<u8>) -> Set<Seq<char>>;

/// The eleven-byte volume label a FAT driver decodes from the image
/// bytes.
pub uninterp spec fn fat_label(img: Seq<u8>) -> Seq<u8>;

/// What formatting a zeroed buffer of length `len` with `label` leaves
/// behind: the finished bytes, or `None` when the formatter refuses the
/// geometry. Deterministic because this `fatfs` build has no clock and
/// no randomness.
pub uninterp spec fn format_outcome(len: int, label: Seq<u8>) -> Option<Seq<u8>>;

/// What creating directory `path` on image `img` leaves behind: the new
/// bytes, or `None` when the call fails. Deterministic as above.
pub uninterp spec fn add_dir_outcome(img: Seq<u8>, path: Seq<char>) -> Option<Seq<u8>>;

/// What creating file `path` with `content` on image `img` leaves
/// behind: the new bytes, or `None` when the call fails. Deterministic
/// as above.
pub uninterp spec fn write_file_outcome(img: Seq<u8>, path: Seq<char>, content: Seq<u8>) -> Option<
    Seq<u8>,
>;

/// Allocates `n` zero bytes.
pub fn zero_vec(n: usize) -> (v: Vec<u8>)
    ensures
        v@.len() == n,
        forall|i: int| 0 <= i < n ==> v@[i] == 0,
{
    let mut v: Vec<u8> = Vec::new();
    let mut i: usize = 0;
    while i < n
        invariant
            i == v@.len() <= n,
            forall|j: int| 0 <= j < i ==> v@[j] == 0,
        decreases n - i,
    {
        v.push(0);
        i += 1;
    }
    v
}

/// Relies on `fatfs::format_volume`: quick-formats the whole buffer as
/// a FAT volume (the variant picked from the size) tagged with `label`,
/// leaving a sound volume with an empty root directory. All writes stay
/// inside the buffer, whose length defines the volume size; refusals
/// (such as a geometry too large for FAT32) happen before any write. A
/// two-mebibyte buffer always formats. The result is a function of the
/// buffer length and label alone, named by [`format_outcome`].
#[verifier::external_body]
fn fat_format(img: &mut Vec<u8>, label: [u8; 11]) -> (r: Result<(), FatError>)
    requires
        old(img)@.len() >= 0x100000,
        forall|i: int| 0 <= i < old(img)@.len() ==> old(img)@[i] == 0,
    ensures
        final(img)@.len() == old(img)@.len(),
        r is Ok <==> format_outcome(old(img)@.len() as int, label@) is Some,
        r is Ok ==> format_outcome(old(img)@.len() as int, label@) == Some(final(img)@),
        old(img)@.len() == 0x200000 ==> r is Ok,
        r is Ok ==> fat_wf(final(img)@),
        r is Ok ==> fat_files(final(img)@) == empty_file_map(),
        r is Ok ==> fat_dirs(final(img)@) == empty_dir_set(),
        r is Ok ==> fat_label(final(img)@) == label@,
        r is Err ==> r matches Err(FatError::Format),
{
    let opts = fatfs::FormatVolumeOptions::new().volume_label(label);
    fatfs::format_volume(std::io::Cursor::new(img), opts).map_err(|_| FatError::Format)?;
    Ok(())
}

/// Relies on `fatfs::Dir::create_dir`: opens the sound volume and
/// creates the directory at `path` (or opens it when a case-variant
/// already exists -- FAT lookup folds case, which inside well-formed
/// paths coincides with [`fold_path`]). On success the directory set
/// grows by exactly the folded `path`; files, label and soundness are
/// kept. Fails when an ancestor is missing, `path` names a file, or the
/// volume is out of space; the error names this stage and path. The
/// whole effect is a function of the image bytes and path, named by
/// [`add_dir_outcome`].
#[verifier::external_body]
fn fat_add_dir(img: &mut Vec<u8>, path: &str) -> (r: Result<(), FatError>)
    requires
        valid_path(path@),
        fat_wf(old(img)@),
    ensures
        final(img)@.len() == old(img)@.len(),
        r is Ok <==> add_dir_outcome(old(img)@, path@) is Some,
        r is Ok ==> add_dir_outcome(old(img)@, path@) == Some(final(img)@),
        r is Ok ==> fat_wf(final(img)@),
        r is Ok ==> fat_dirs(final(img)@) == fat_dirs(old(img)@).insert(fold_path(path@)),
        r is Ok ==> fat_files(final(img)@) == fat_files(old(img)@),
        r is Ok ==> fat_label(final(img)@) == fat_label(old(img)@),
        r matches Err(e) ==> e is OpenFilesystem || (e matches FatError::CreateDir(p) && p@
            == path@),
{
    let mut cur = std::io::Cursor::new(img);
    let fs = fatfs::FileSystem::new(&mut cur, fatfs::FsOptions::new())
        .map_err(|_| FatError::OpenFilesystem)?;
    fs.root_dir().create_dir(path).map_err(|_| FatError::CreateDir(path.to_string()))?;
    fs.unmount().map_err(|_| FatError::OpenFilesystem)?;
    Ok(())
}

/// Relies on `fatfs::Dir::create_file`, `fatfs::File::truncate` and the
/// `fatfs::File` writer: opens the sound volume, creates (or truncates)
/// the file at `path` and writes `content` into it. On success the file
/// mapping gains exactly the folded `path` bound to `content`;
/// directories, label and soundness are kept. Fails when an ancestor is
/// missing, `path` names a directory, or the volume runs out of space;
/// the error names this stage and path. The whole effect is a function
/// of the arguments, named by [`write_file_outcome`].
#[verifier::external_body]
fn fat_write_file(img: &mut Vec<u8>, path: &str, content: &Vec<u8>) -> (r: Result<
    (),
    FatError,
>)
    requires
        valid_path(path@),
        fat_wf(old(img)@),
    ensures
        final(img)@.len() == old(img)@.len(),
        r is Ok <==> write_file_outcome(old(img)@, path@, content@) is Some,
        r is Ok ==> write_file_outcome(old(img)@, path@, content@) == Some(final(img)@),
        r is Ok ==> fat_wf(final(img)@),
        r is Ok ==> fat_files(final(img)@) == fat_files(old(img)@).insert(
            fold_path(path@),
            content@,
        ),
        r is Ok ==> fat_dirs(final(img)@) == fat_dirs(old(img)@),
        r is Ok ==> fat_label(final(img)@) == fat_label(old(img)@),
        r matches Err(e) ==> e is OpenFilesystem || (e matches FatError::CreateFile(p) && p@
            == path@) || (e matches FatError::CopyData(p) && p@ == path@),
{
    let mut cur = std::io::Cursor::new(img);
    let fs = fatfs::FileSystem::new(&mut cur, fatfs::FsOptions::new())
        .map_err(|_| FatError::OpenFilesystem)?;
    let mut f = fs.root_dir().create_file(path).map_err(
        |_| FatError::CreateFile(path.to_string()),
    )?;
    f.truncate().map_err(|_| FatError::CreateFile(path.to_string()))?;
    std::io::Write::write_all(&mut f, content.as_slice()).map_err(
        |_| FatError::CopyData(path.to_string()),
    )?;
    drop(f);
    fs.unmount().map_err(|_| FatError::OpenFilesystem)?;
    Ok(())
}

/// The image bytes once the ancestor directories of `p` closing before
/// position `n` have been created on `img`, `None` once a step fails.
pub open spec fn dirs_outcome(img: Option<Seq<u8>>, p: Seq<char>, n: int) -> Option<Seq<u8>>
    decreases n,
{
    if n <= 0 {
        img
    } else {
        match dirs_outcome(img, p, n - 1) {
            Option::None => Option::None,
            Option::Some(b) => if p[n - 1] == '/' {
                add_dir_outcome(b, p.subrange(0, n - 1))
            } else {
                Option::Some(b)
            },
        }
    }
}

/// The image bytes once one entry has been written: its ancestors
/// first, then the file itself.
pub open spec fn entry_outcome(img: Seq<u8>, p: Seq<char>, content: Seq<u8>) -> Option<Seq<u8>> {
    match dirs_outcome(Some(img), p, p.len() as int) {
        Option::None => Option::None,
        Option::Some(b) => write_file_outcome(b, p, content),
    }
}

/// The image bytes once every entry of `s` has been written onto the
/// starting image, `None` once any step fails.
pub open spec fn entries_outcome(img: Option<Seq<u8>>, s: Seq<FileEntry>) -> Option<Seq<u8>>
    decreases s.len(),
{
    if s.len() == 0 {
        img
    } else {
        match entries_outcome(img, s.drop_last()) {
            Option::None => Option::None,
            Option::Some(b) => entry_outcome(b, s.last().path@, s.last().content@),
        }
    }
}

/// The exact bytes `create_fat_filesystem` produces for these inputs,
/// `None` exactly when it fails: format the policy-sized image, then
/// write every entry in order.
pub open spec fn fat_build_outcome(files: FileSet, label: Seq<u8>) -> Option<Seq<u8>> {
    entries_outcome(
        format_outcome(spec_fat_size(files.spec_total()), label),
        files.entries@,
    )
}

/// A failed build's error names its stage: the format, the re-open, an
/// ancestor directory of some input path, or an input path itself.
pub open spec fn fat_error_stage(e: FatError, files: FileSet) -> bool {
    ||| e is Format
    ||| e is OpenFilesystem
    ||| (e matches FatError::CreateDir(p) && exists|k: int|
        0 <= k < files.entries@.len() && #[trigger] path_ancestors(
            files.entries@[k].path@,
        ).contains(p@))
    ||| (e matches FatError::CreateFile(p) && exists|k: int|
        0 <= k < files.entries@.len() && (#[trigger] files.entries@[k]).path@ == p@)
    ||| (e matches FatError::CopyData(p) && exists|k: int|
        0 <= k < files.entries@.len() && (#[trigger] files.entries@[k]).path@ == p@)
}

/// Once a directory step fails, later steps stay failed.
proof fn lemma_dirs_outcome_none(img: Option<Seq<u8>>, p: Seq<char>, n1: int, n2: int)
    requires
        0 <= n1 <= n2,
        dirs_outcome(img, p, n1) is None,
    ensures
        dirs_outcome(img, p, n2) is None,
    decreases n2 - n1,
{
    if n1 < n2 {
        lemma_dirs_outcome_none(img, p, n1, n2 - 1);
    }
}

/// Writing the next entry extends the fold by one step.
proof fn lemma_entries_outcome_step(img: Option<Seq<u8>>, s: Seq<FileEntry>, k: int)
    requires
        0 <= k < s.len(),
    ensures
        entries_outcome(img, s.take(k + 1)) == (match entries_outcome(img, s.take(k)) {
            Option::None => Option::None,
            Option::Some(b) => entry_outcome(b, s[k].path@, s[k].content@),
        }),
{
    assert(s.take(k + 1).drop_last() =~= s.take(k));
    assert(s.take(k + 1).last() == s[k]);
}

/// Once some entry fails, the whole build stays failed.
proof fn lemma_entries_outcome_none(img: Option<Seq<u8>>, s: Seq<FileEntry>, k: int)
    requires
        0 <= k <= s.len(),
        entries_outcome(img, s.take(k)) is None,
    ensures
        entries_outcome(img, s) is None,
    decreases s.len() - k,
{
    if k == s.len() {
        assert(s.take(k) =~= s);
    } else {
        lemma_entries_outcome_step(img, s, k);
        lemma_entries_outcome_none(img, s, k + 1);
    }
}

/// What a successful FAT build guarantees: the image has exactly the
/// policy size for the set's total bytes, holds exactly the set's files
/// and exactly their ancestor directories (under case folding), and
/// carries the given label.
pub open spec fn fat_build_ok(files: FileSet, label: Seq<u8>, img: Seq<u8>) -> bool {
    &&& img.len() == spec_fat_size(files.spec_total())
    &&& fat_wf(img)
    &&& fat_files(img) == files.file_map()
    &&& fat_dirs(img) == files.dir_set()
    &&& fat_label(img) == label
}

/// Packs `files` into a freshly formatted FAT image tagged with
/// `volume_label`, creating each path's ancestor directories
/// shallowest-to-deepest before writing the file itself. Succeeds
/// exactly when every stage of [`fat_build_outcome`] does -- always,
/// for an empty set -- and then returns exactly those bytes; any
/// failing stage aborts the whole build with an error naming it.
pub fn create_fat_filesystem(files: &FileSet, volume_label: [u8; 11]) -> (r: Result<
    Vec<u8>,
    FatError,
>)
    requires
        files.wf(),
        spec_fat_size(files.spec_total()) <= usize::MAX,
    ensures
        r is Ok <==> fat_build_outcome(*files, volume_label@) is Some,
        r matches Ok(img) ==> fat_build_outcome(*files, volume_label@) == Some(img@),
        r matches Ok(img) ==> fat_build_ok(*files, volume_label@, img@),
        files.entries@.len() == 0 ==> r is Ok,
        r matches Err(e) ==> fat_error_stage(e, *files),
{
    proof {
        crate::fileset::lemma_total_bytes_nonneg(files.entries@);
        lemma_fat_size_props(files.spec_total());
    }
    let needed: u64 = files.total_size();
    let size: u64 = fat_size(needed);
    let mut img: Vec<u8> = zero_vec(size as usize);
    let ghost fmt0 = format_outcome(spec_fat_size(files.spec_total()), volume_label@);
    match fat_format(&mut img, volume_label) {
        Ok(_) => (),
        Err(e) => {
            proof {
                lemma_entries_outcome_none(fmt0, files.entries@, 0);
                assert(files.entries@.len() == 0 ==> spec_fat_size(files.spec_total())
                    == 0x200000);
            }
            return Err(e);
        },
    }
    proof {
        assert(files.entries@.take(0) =~= Seq::<FileEntry>::empty());
        assert(all_ancestors(files.entries@.take(0)) =~= Set::<Seq<char>>::empty());
    }
    let n = files.entries.len();
    let mut idx: usize = 0;
    while idx < n
        invariant
            files.wf(),
            n == files.entries@.len(),
            0 <= idx <= n,
            fmt0 == format_outcome(spec_fat_size(files.spec_total()), volume_label@),
            img@.len() == spec_fat_size(files.spec_total()),
            fat_wf(img@),
            fat_files(img@) == entry_map(files.entries@.take(idx as int)),
            fat_dirs(img@) == all_ancestors(files.entries@.take(idx as int)),
            fat_label(img@) == volume_label@,
            entries_outcome(fmt0, files.entries@.take(idx as int)) == Some(img@),
        decreases n - idx,
    {
        let entry = &files.entries[idx];
        let path_str: &str = entry.path.as_str();
        let ghost p = path_str@;
        let ghost q = fold_path(p);
        let ghost img_start = img@;
        proof {
            lemma_valid_path_ascii(p);
            lemma_ancestors_upto_empty(q, 0);
            assert(all_ancestors(files.entries@.take(idx as int)).union(
                Set::<Seq<char>>::empty(),
            ) =~= all_ancestors(files.entries@.take(idx as int)));
        }
        let m = path_str.unicode_len();
        let mut i: usize = 0;
        while i < m
            invariant
                files.wf(),
                n == files.entries@.len(),
                0 <= idx < n,
                p == files.entries@[idx as int].path@,
                q == fold_path(p),
                valid_path(p),
                vstd::utf8::is_ascii_chars(p),
                path_str@ == p,
                m == p.len(),
                0 <= i <= m,
                fmt0 == format_outcome(spec_fat_size(files.spec_total()), volume_label@),
                img@.len() == spec_fat_size(files.spec_total()),
                fat_wf(img@),
                fat_files(img@) == entry_map(files.entries@.take(idx as int)),
                fat_dirs(img@) == all_ancestors(files.entries@.take(idx as int)).union(
                    ancestors_upto(q, i as int),
                ),
                fat_label(img@) == volume_label@,
                entries_outcome(fmt0, files.entries@.take(idx as int)) == Some(img_start),
                dirs_outcome(Some(img_start), p, i as int) == Some(img@),
            decreases m - i,
        {
            let c = path_str.get_char(i);
            if c == '/' {
                let prefix = path_str.substring_ascii(0, i);
                proof {
                    lemma_prefix_valid(p, i as int);
                }
                let ghost img_pre = img@;
                match fat_add_dir(&mut img, prefix) {
                    Ok(_) => (),
                    Err(e) => {
                        proof {
                            assert(dirs_outcome(Some(img_start), p, i + 1) is None);
                            lemma_dirs_outcome_none(Some(img_start), p, i + 1, p.len() as int);
                            lemma_entries_outcome_step(fmt0, files.entries@, idx as int);
                            lemma_entries_outcome_none(fmt0, files.entries@, idx as int + 1);
                            assert(path_ancestors(p).contains(p.subrange(0, i as int)));
                        }
                        return Err(e);
                    },
                }
                proof {
                    assert(dirs_outcome(Some(img_start), p, i + 1) == Some(img@));
                    assert(q[i as int] == '/');
                    lemma_ancestors_upto_slash(q, i as int);
                    lemma_fold_subrange(p, i as int);
                    assert(all_ancestors(files.entries@.take(idx as int)).union(
                        ancestors_upto(q, i as int),
                    ).insert(q.subrange(0, i as int)) =~= all_ancestors(
                        files.entries@.take(idx as int),
                    ).union(ancestors_upto(q, i + 1)));
                }
            } else {
                proof {
                    assert(q[i as int] != '/');
                    lemma_ancestors_upto_same(q, i as int);
                    assert(ancestors_upto(q, i + 1) == ancestors_upto(q, i as int));
                    assert(dirs_outcome(Some(img_start), p, i + 1) == Some(img@));
                }
            }
            i += 1;
        }
        let ghost img_dirs = img@;
        match fat_write_file(&mut img, path_str, &entry.content) {
            Ok(_) => (),
            Err(e) => {
                proof {
                    assert(entry_outcome(img_start, p, entry.content@) is None);
                    lemma_entries_outcome_step(fmt0, files.entries@, idx as int);
                    lemma_entries_outcome_none(fmt0, files.entries@, idx as int + 1);
                }
                return Err(e);
            },
        }
        proof {
            assert(entry_outcome(img_start, p, entry.content@) == Some(img@));
            lemma_entries_outcome_step(fmt0, files.entries@, idx as int);
            lemma_entry_map_take_step(files.entries@, idx as int);
            lemma_all_ancestors_take_step(files.entries@, idx as int);
        }
        idx += 1;
    }
    proof {
        assert(files.entries@.take(n as int) =~= files.entries@);
    }
    Ok(img)
}

/// Every input file reads back from a successful build: the image's
/// file mapping contains each input path's fold, bound to that path's
/// exact bytes (FAT resolution being case-insensitive, the fold is the
/// name every case-variant of the path resolves to).
pub proof fn lemma_build_reads_back(files: FileSet, label: Seq<u8>, img: Seq<u8>, k: int)
    requires
        files.wf(),
        fat_build_ok(files, label, img),
        0 <= k < files.entries@.len(),
    ensures
        fat_files(img).dom().contains(fold_path(files.entries@[k].path@)),
        fat_files(img)[fold_path(files.entries@[k].path@)] == files.entries@[k].content@,
{
    lemma_entry_map_lookup(files.entries@, k);
}

/// Every ancestor directory of every input path exists in a successful
/// build's image (and `fat_dirs` being a set, each exists exactly once).
pub proof fn lemma_build_has_ancestors(files: FileSet, label: Seq<u8>, img: Seq<u8>, k: int)
    requires
        files.wf(),
        fat_build_ok(files, label, img),
        0 <= k < files.entries@.len(),
    ensures
        forall|a: Seq<char>|
            path_ancestors(fold_path(files.entries@[k].path@)).contains(a) ==> fat_dirs(
                img,
            ).contains(a),
{
    assert forall|a: Seq<char>|
        path_ancestors(fold_path(files.entries@[k].path@)).contains(a) implies fat_dirs(
        img,
    ).contains(a) by {
        assert(path_ancestors(fold_path(files.entries@[k].path@)).contains(a));
        assert(files.dir_set().contains(a));
    }
}

/// The directories a build creates depend only on which paths are
/// present (modulo case folding), not on the order they are listed in.
pub proof fn lemma_dir_set_order_independent(f1: FileSet, f2: FileSet)
    requires
        forall|p: Seq<char>| f1.contains_path(p) <==> f2.contains_path(p),
    ensures
        f1.dir_set() =~= f2.dir_set(),
{
    assert forall|a: Seq<char>| f1.dir_set().contains(a) implies f2.dir_set().contains(a) by {
        let k = choose|k: int|
            0 <= k < f1.entries@.len() && #[trigger] path_ancestors(
                fold_path(f1.entries@[k].path@),
            ).contains(a);
        assert(f1.contains_path(f1.entries@[k].path@));
        let l = choose|l: int|
            0 <= l < f2.entries@.len() && #[trigger] fold_path(f2.entries@[l].path@) == fold_path(
                f1.entries@[k].path@,
            );
        assert(path_ancestors(fold_path(f2.entries@[l].path@)).contains(a));
    }
    assert forall|a: Seq<char>| f2.dir_set().contains(a) implies f1.dir_set().contains(a) by {
        let k = choose|k: int|
            0 <= k < f2.entries@.len() && #[trigger] path_ancestors(
                fold_path(f2.entries@[k].path@),
            ).contains(a);
        assert(f2.contains_path(f2.entries@[k].path@));
        let l = choose|l: int|
            0 <= l < f1.entries@.len() && #[trigger] fold_path(f1.entries@[l].path@) == fold_path(
                f2.entries@[k].path@,
            );
        assert(path_ancestors(fold_path(f1.entries@[l].path@)).contains(a));
    }
}

/// The total byte count depends only on the entries' contents.
proof fn lemma_total_bytes_congruent(s1: Seq<FileEntry>, s2: Seq<FileEntry>)
    requires
        s1.len() == s2.len(),
        forall|k: int|
            0 <= k < s1.len() ==> (#[trigger] s1[k]).content@ == s2[k].content@,
    ensures
        crate::fileset::total_bytes(s1) == crate::fileset::total_bytes(s2),
    decreases s1.len(),
{
    if s1.len() > 0 {
        assert forall|k: int| 0 <= k < s1.drop_last().len() implies (#[trigger] s1.drop_last()[
            k
        ]).content@ == s2.drop_last()[k].content@ by {
            assert(s1[k].content@ == s2[k].content@);
        }
        lemma_total_bytes_congruent(s1.drop_last(), s2.drop_last());
        assert(s1.last().content@ == s2.last().content@);
    }
}

/// The build fold depends only on the entries' paths and contents.
proof fn lemma_entries_outcome_congruent(
    img: Option<Seq<u8>>,
    s1: Seq<FileEntry>,
    s2: Seq<FileEntry>,
)
    requires
        s1.len() == s2.len(),
        forall|k: int|
            0 <= k < s1.len() ==> (#[trigger] s1[k]).path@ == s2[k].path@ && s1[k].content@
                == s2[k].content@,
    ensures
        entries_outcome(img, s1) == entries_outcome(img, s2),
    decreases s1.len(),
{
    if s1.len() > 0 {
        assert forall|k: int| 0 <= k < s1.drop_last().len() implies (#[trigger] s1.drop_last()[
            k
        ]).path@ == s2.drop_last()[k].path@ && s1.drop_last()[k].content@ == s2.drop_last()[
            k
        ].content@ by {
            assert(s1[k].path@ == s2[k].path@ && s1[k].content@ == s2[k].content@);
        }
        lemma_entries_outcome_congruent(img, s1.drop_last(), s2.drop_last());
        assert(s1.last().path@ == s2.last().path@ && s1.last().content@ == s2.last().content@);
    }
}

/// Two successful builds from inputs with the same paths, contents and
/// label produce byte-identical images: this configuration of the FAT
/// encoder randomizes nothing.
pub proof fn lemma_build_bytes_deterministic(
    f1: FileSet,
    f2: FileSet,
    label: Seq<u8>,
    img1: Seq<u8>,
    img2: Seq<u8>,
)
    requires
        f1.entries@.len() == f2.entries@.len(),
        forall|k: int|
            0 <= k < f1.entries@.len() ==> (#[trigger] f1.entries@[k]).path@ == f2.entries@[
                k
            ].path@ && f1.entries@[k].content@ == f2.entries@[k].content@,
        fat_build_outcome(f1, label) == Some(img1),
        fat_build_outcome(f2, label) == Some(img2),
    ensures
        img1 == img2,
{
    lemma_total_bytes_congruent(f1.entries@, f2.entries@);
    lemma_entries_outcome_congruent(
        format_outcome(spec_fat_size(f1.spec_total()), label),
        f1.entries@,
        f2.entries@,
    );
}

} // verus!
