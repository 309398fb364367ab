//! The deterministic bundle archive: a tar+gzip stream with stable headers,
//! holding the staged channel, the in-bundle lockfile, the bundle metadata
//! and the embedded launcher. Identical inputs yield bit-identical bytes.

use vstd::prelude::*;

use std::io::Write;

verus! {

use crate::errors::{DistError, ErrorKind};
use crate::records::copy_opt_bytes;

/// One archive entry: a directory or a regular file with its mode and data.
pub struct TarEntry {
    pub path: String,
    pub mode: u32,
    pub is_dir: bool,
    pub data: Vec<u8>,
}

/// The mathematical image of an entry.
pub ghost struct EntryModel {
    pub path: Seq<char>,
    pub mode: u32,
    pub is_dir: bool,
    pub data: Seq<u8>,
}

impl View for TarEntry {
    type V = EntryModel;

    open spec fn view(&self) -> EntryModel {
        EntryModel { path: self.path@, mode: self.mode, is_dir: self.is_dir, data: self.data@ }
    }
}

impl TarEntry {
    /// A regular file entry.
    pub fn file(path: String, mode: u32, data: Vec<u8>) -> (r: TarEntry)
        ensures
            r@ == (EntryModel { path: path@, mode, is_dir: false, data: data@ }),
    {
        TarEntry { path, mode, is_dir: false, data }
    }

    /// A directory entry.
    pub fn dir(path: String, mode: u32) -> (r: TarEntry)
        ensures
            r@ == (EntryModel { path: path@, mode, is_dir: true, data: Seq::<u8>::empty() }),
    {
        let r = TarEntry { path, mode, is_dir: true, data: Vec::new() };
        r
    }

    /// A copy of this entry with the same model.
    pub fn duplicate(&self) -> (r: TarEntry)
        ensures
            r@ == self@,
    {
        let data = match copy_opt_bytes(&Some(copy_bytes(&self.data))) {
            Some(d) => d,
            None => Vec::new(),
        };
        TarEntry { path: self.path.clone(), mode: self.mode, is_dir: self.is_dir, data }
    }
}

/// Copy a byte vector.
pub fn copy_bytes(v: &Vec<u8>) -> (r: Vec<u8>)
    ensures
        r@ == v@,
{
    let mut out: Vec<u8> = Vec::new();
    let mut i: usize = 0;
    while i < v.len()
        invariant
            i <= v@.len(),
            out@ == v@.subrange(0, i as int),
        decreases v@.len() - i,
    {
        out.push(v[i]);
        i = i + 1;
        proof {
            assert(out@ =~= v@.subrange(0, i as int));
        }
    }
    proof {
        assert(out@ =~= v@);
    }
    out
}

/// The models of a sequence of entries.
pub open spec fn entry_models(s: Seq<TarEntry>) -> Seq<EntryModel> {
    s.map(|_i: int, e: TarEntry| e@)
}

/// What the writer has been asked to hold so far.
pub uninterp spec fn writer_entries(w: ArchiveWriter) -> Seq<EntryModel>;

/// Whether a path can be stored in a tar header: appending succeeds or fails
/// on the path alone, since the stream is written to an in-memory buffer.
pub uninterp spec fn tar_path_ok(path: Seq<char>) -> bool;

/// The deterministic tar+gzip encoding of an entry sequence: the tar stream
/// is written with stable (zeroed) ownership and timestamp metadata and the
/// gzip header carries no timestamp, so the bytes are a function of the
/// entries alone.
pub uninterp spec fn targz_of(entries: Seq<EntryModel>) -> Seq<u8>;

/// A tar stream under construction, compressed on the fly. The tar builder
/// runs in deterministic header mode; the writer is trusted to hold exactly
/// the entries appended to it.
#[verifier::external_body]
pub struct ArchiveWriter {
    inner: tar::Builder<flate2::write::GzEncoder<Vec<u8>>>,
}

impl ArchiveWriter {
    /// Relies on `tar::Builder::new`, `tar::Builder::mode` and
    /// `flate2::write::GzEncoder::new`: a fresh deterministic-mode builder
    /// over an in-memory gzip stream holds no entries.
    #[verifier::external_body]
    pub fn new() -> (r: ArchiveWriter)
        ensures
            writer_entries(r) == Seq::<EntryModel>::empty(),
    {
        let encoder = flate2::write::GzEncoder::new(Vec::new(), flate2::Compression::new(6));
        let mut builder = tar::Builder::new(encoder);
        builder.mode(tar::HeaderMode::Deterministic);
        ArchiveWriter { inner: builder }
    }

    /// Relies on `tar::Builder::append_data` with a GNU header whose mode,
    /// size, ownership and mtime are set explicitly: on success exactly this
    /// file entry is appended. The writer is in-memory, so the call succeeds
    /// or fails on the path alone (an unencodable path is the one error).
    #[verifier::external_body]
    pub fn append_file(&mut self, path: &String, mode: u32, data: &Vec<u8>) -> (r: bool)
        ensures
            r == tar_path_ok(path@),
            r ==> writer_entries(*final(self)) == writer_entries(*old(self)).push(
                EntryModel { path: path@, mode, is_dir: false, data: data@ },
            ),
    {
        let mut header = tar::Header::new_gnu();
        header.set_entry_type(tar::EntryType::Regular);
        header.set_mode(mode);
        header.set_size(data.len() as u64);
        header.set_uid(0);
        header.set_gid(0);
        header.set_mtime(0);
        header.set_cksum();
        let mut cursor = std::io::Cursor::new(data.as_slice());
        self.inner.append_data(&mut header, path.as_str(), &mut cursor).is_ok()
    }

    /// Relies on `tar::Builder::append_data` with a GNU directory header: on
    /// success exactly this directory entry is appended, and success goes by
    /// the same path-encodability rule as for files.
    #[verifier::external_body]
    pub fn append_dir(&mut self, path: &String, mode: u32) -> (r: bool)
        ensures
            r == tar_path_ok(path@),
            r ==> writer_entries(*final(self)) == writer_entries(*old(self)).push(
                EntryModel { path: path@, mode, is_dir: true, data: Seq::<u8>::empty() },
            ),
    {
        let mut header = tar::Header::new_gnu();
        header.set_entry_type(tar::EntryType::Directory);
        header.set_mode(mode);
        header.set_size(0);
        header.set_uid(0);
        header.set_gid(0);
        header.set_mtime(0);
        header.set_cksum();
        let empty: &[u8] = &[];
        let mut cursor = std::io::Cursor::new(empty);
        self.inner.append_data(&mut header, path.as_str(), &mut cursor).is_ok()
    }

    /// Relies on `tar::Builder::into_inner` and
    /// `flate2::write::GzEncoder::finish`: the result is the complete
    /// tar+gzip byte stream of the appended entries, a function of those
    /// entries alone. Both calls only flush buffered bytes into an in-memory
    /// buffer, so no failure path is reachable; the error arms are kept for
    /// the signature and mapped to a staging failure.
    #[verifier::external_body]
    pub fn finish(self) -> (r: Result<Vec<u8>, DistError>)
        ensures
            r is Ok,
            r matches Ok(bytes) ==> bytes@ == targz_of(writer_entries(self)),
            r matches Err(e) ==> e.kind == ErrorKind::StagingFailed,
    {
        let failed = |message: &str| DistError::new(
            ErrorKind::StagingFailed,
            String::from_str(message),
        );
        let encoder = match self.inner.into_inner() {
            Ok(encoder) => encoder,
            Err(_) => return Err(failed("failed to finalize tar archive")),
        };
        match encoder.finish() {
            Ok(bytes) => Ok(bytes),
            Err(_) => Err(failed("failed to complete gzip compression")),
        }
    }
}

/// Encode an entry list as a deterministic tar+gzip stream: accepted exactly
/// when every entry's path is storable, and then the bytes are exactly the
/// encoding of the given entries.
#[verifier::loop_isolation(false)]
pub fn build_archive(entries: &Vec<TarEntry>) -> (r: Result<Vec<u8>, DistError>)
    requires
        forall|i: int|
            0 <= i < entries@.len() && (#[trigger] entries@[i])@.is_dir ==> entries@[i]@.data.len()
                == 0,
    ensures
        r is Ok <==> (forall|i: int|
            0 <= i < entries@.len() ==> tar_path_ok((#[trigger] entries@[i])@.path)),
        r matches Ok(bytes) ==> bytes@ == targz_of(entry_models(entries@)),
        r matches Err(e) ==> e.kind == ErrorKind::StagingFailed,
{
    let mut writer = ArchiveWriter::new();
    let mut i: usize = 0;
    while i < entries.len()
        invariant
            i <= entries@.len(),
            writer_entries(writer) == entry_models(entries@).subrange(0, i as int),
            forall|j: int| 0 <= j < i ==> tar_path_ok((#[trigger] entries@[j])@.path),
        decreases entries@.len() - i,
    {
        let entry = &entries[i];
        proof {
            assert(entry_models(entries@)[i as int] == entries@[i as int]@);
        }
        let ghost w0 = writer;
        let appended = if entry.is_dir {
            writer.append_dir(&entry.path, entry.mode)
        } else {
            writer.append_file(&entry.path, entry.mode, &entry.data)
        };
        if !appended {
            proof {
                assert(!tar_path_ok(entries@[i as int]@.path));
            }
            return Err(DistError::new(
                ErrorKind::StagingFailed,
                String::from_str("failed to add an entry to the archive"),
            ));
        }
        proof {
            if entries@[i as int].is_dir {
                assert(writer_entries(writer) == writer_entries(w0).push(
                    EntryModel {
                        path: entries@[i as int].path@,
                        mode: entries@[i as int].mode,
                        is_dir: true,
                        data: Seq::<u8>::empty(),
                    },
                ));
                assert(entries@[i as int]@.data =~= Seq::<u8>::empty());
            } else {
                assert(writer_entries(writer) == writer_entries(w0).push(
                    EntryModel {
                        path: entries@[i as int].path@,
                        mode: entries@[i as int].mode,
                        is_dir: false,
                        data: entries@[i as int].data@,
                    },
                ));
            }
            assert(writer_entries(writer) == writer_entries(w0).push(entries@[i as int]@));
        }
        i = i + 1;
        proof {
            assert(writer_entries(writer) =~= entry_models(entries@).subrange(0, i as int));
        }
    }
    proof {
        assert(entry_models(entries@).subrange(0, entry_models(entries@).len() as int)
            =~= entry_models(entries@));
    }
    writer.finish()
}

/// Archive determinism: equal entry lists encode to bit-identical bytes.
pub proof fn lemma_archive_deterministic(e1: Seq<EntryModel>, e2: Seq<EntryModel>)
    requires
        e1 == e2,
    ensures
        targz_of(e1) == targz_of(e2),
{
}

/// The name of the in-bundle lockfile.
pub open spec fn spec_lockfile_name() -> Seq<char> {
    "conda-lock.yml"@
}

/// The name of the bundle metadata file.
pub open spec fn spec_metadata_file_name() -> Seq<char> {
    "bundle-metadata.json"@
}

/// `root` and `name` joined with a slash.
pub open spec fn spec_joined(root: Seq<char>, name: Seq<char>) -> Seq<char> {
    root + seq!['/'] + name
}

/// Join a root directory and a relative name with a slash.
pub fn join_path(root: &String, name: &String) -> (r: String)
    ensures
        r@ == spec_joined(root@, name@),
{
    let mut out = crate::text::chars_of(root.as_str());
    out.push('/');
    let tail = crate::text::chars_of(name.as_str());
    crate::text::push_all(&mut out, &tail);
    proof {
        assert(out@ =~= spec_joined(root@, name@));
    }
    crate::text::collect_string(&out)
}

/// The top-level files kept in the bundle: every file except the lockfile,
/// re-rooted under the bundle root.
pub open spec fn spec_kept_top_files(root: Seq<char>, top: Seq<EntryModel>) -> Seq<EntryModel>
    decreases top.len(),
{
    if top.len() == 0 {
        Seq::<EntryModel>::empty()
    } else {
        let prev = spec_kept_top_files(root, top.drop_last());
        let e = top.last();
        if e.path == spec_lockfile_name() || e.is_dir {
            prev
        } else {
            prev.push(
                EntryModel {
                    path: spec_joined(root, e.path),
                    mode: e.mode,
                    is_dir: false,
                    data: e.data,
                },
            )
        }
    }
}

/// Entries re-rooted under the bundle root, keeping order, kind and mode.
pub open spec fn spec_rerooted(root: Seq<char>, sub: Seq<EntryModel>) -> Seq<EntryModel> {
    sub.map(
        |_i: int, e: EntryModel|
            EntryModel { path: spec_joined(root, e.path), mode: e.mode, is_dir: e.is_dir, data: e.data },
    )
}

/// The full entry plan of a bundle archive: the root directory; the
/// in-bundle lockfile; every non-lockfile top-level file; the platform and
/// noarch subtrees; the bundle metadata; and the embedded launcher.
pub open spec fn spec_bundle_entries(
    root: Seq<char>,
    lockfile: Option<Seq<u8>>,
    top: Seq<EntryModel>,
    sub: Seq<EntryModel>,
    metadata: Seq<u8>,
    launcher: Seq<u8>,
) -> Seq<EntryModel> {
    seq![EntryModel { path: root, mode: 0o755u32, is_dir: true, data: Seq::<u8>::empty() }]
        + (match lockfile {
        Some(b) => seq![
            EntryModel {
                path: spec_joined(root, spec_lockfile_name()),
                mode: 0o644u32,
                is_dir: false,
                data: b,
            },
        ],
        None => Seq::<EntryModel>::empty(),
    }) + spec_kept_top_files(root, top) + spec_rerooted(root, sub) + seq![
        EntryModel {
            path: spec_joined(root, spec_metadata_file_name()),
            mode: 0o644u32,
            is_dir: false,
            data: metadata,
        },
        EntryModel {
            path: spec_joined(root, "installer"@),
            mode: 0o755u32,
            is_dir: false,
            data: launcher,
        },
    ]
}

/// Lay out the entries of a bundle archive for one platform: the root
/// directory, the in-bundle lockfile, the non-lockfile top-level files, the
/// subdir trees handed in, the serialized bundle metadata, and the launcher.
#[verifier::loop_isolation(false)]
pub fn plan_bundle_entries(
    root_name: &String,
    lockfile: Option<&Vec<u8>>,
    top_files: &Vec<TarEntry>,
    subdir_entries: &Vec<TarEntry>,
    metadata_bytes: &Vec<u8>,
    launcher_bytes: &Vec<u8>,
) -> (r: Vec<TarEntry>)
    requires
        forall|i: int|
            0 <= i < subdir_entries@.len() && (#[trigger] subdir_entries@[i])@.is_dir
                ==> subdir_entries@[i]@.data.len() == 0,
    ensures
        entry_models(r@) == spec_bundle_entries(
            root_name@,
            match lockfile {
                Some(b) => Some(b@),
                None => None,
            },
            entry_models(top_files@),
            entry_models(subdir_entries@),
            metadata_bytes@,
            launcher_bytes@,
        ),
{
    let ghost target = spec_bundle_entries(
        root_name@,
        match lockfile {
            Some(b) => Some(b@),
            None => None,
        },
        entry_models(top_files@),
        entry_models(subdir_entries@),
        metadata_bytes@,
        launcher_bytes@,
    );
    let ghost root_entry = EntryModel {
        path: root_name@,
        mode: 0o755u32,
        is_dir: true,
        data: Seq::<u8>::empty(),
    };
    let mut out: Vec<TarEntry> = Vec::new();
    out.push(TarEntry::dir(root_name.clone(), 0o755));
    proof {
        assert(entry_models(out@) =~= seq![root_entry]);
    }
    if let Some(b) = lockfile {
        let name = join_path(root_name, &String::from_str("conda-lock.yml"));
        out.push(TarEntry::file(name, 0o644, copy_bytes(b)));
        proof {
            assert(entry_models(out@) =~= seq![root_entry] + seq![
                EntryModel {
                    path: spec_joined(root_name@, spec_lockfile_name()),
                    mode: 0o644u32,
                    is_dir: false,
                    data: b@,
                },
            ]);
        }
    }
    let ghost head = entry_models(out@);
    let mut i: usize = 0;
    while i < top_files.len()
        invariant
            i <= top_files@.len(),
            entry_models(out@) == head + spec_kept_top_files(
                root_name@,
                entry_models(top_files@).subrange(0, i as int),
            ),
        decreases top_files@.len() - i,
    {
        let e = &top_files[i];
        proof {
            assert(entry_models(top_files@)[i as int] == top_files@[i as int]@);
        }
        let skip = {
            let a = crate::text::chars_of(e.path.as_str());
            let b = crate::text::chars_of("conda-lock.yml");
            crate::platform::eq_chars(&a, &b)
        };
        let ghost pre = out@;
        let ghost prev = entry_models(top_files@).subrange(0, i as int);
        if !skip && !e.is_dir {
            let name = join_path(root_name, &e.path);
            out.push(TarEntry::file(name, e.mode, copy_bytes(&e.data)));
            proof {
                assert forall|k: int|
                    0 <= k < pre.len() implies entry_models(out@)[k] == entry_models(pre)[k] by {
                    assert(out@[k] == pre[k]);
                }
                assert(entry_models(out@)[pre.len() as int] == out@[pre.len() as int]@);
                assert(entry_models(out@) =~= entry_models(pre).push(
                    EntryModel {
                        path: spec_joined(root_name@, top_files@[i as int]@.path),
                        mode: top_files@[i as int]@.mode,
                        is_dir: false,
                        data: top_files@[i as int]@.data,
                    },
                ));
            }
        }
        i = i + 1;
        proof {
            let cur = entry_models(top_files@).subrange(0, i as int);
            assert(cur.drop_last() =~= prev);
            assert(cur.last() == entry_models(top_files@)[i - 1]);
            assert(spec_kept_top_files(root_name@, cur) == if cur.last().path
                == spec_lockfile_name() || cur.last().is_dir {
                spec_kept_top_files(root_name@, prev)
            } else {
                spec_kept_top_files(root_name@, prev).push(
                    EntryModel {
                        path: spec_joined(root_name@, cur.last().path),
                        mode: cur.last().mode,
                        is_dir: false,
                        data: cur.last().data,
                    },
                )
            });
            assert(entry_models(out@) =~= head + spec_kept_top_files(root_name@, cur));
        }
    }
    proof {
        assert(entry_models(top_files@).subrange(0, entry_models(top_files@).len() as int)
            =~= entry_models(top_files@));
    }
    let ghost head2 = entry_models(out@);
    let ghost reroot = spec_rerooted(root_name@, entry_models(subdir_entries@));
    let mut j: usize = 0;
    while j < subdir_entries.len()
        invariant
            j <= subdir_entries@.len(),
            out@.len() == head2.len() + j,
            forall|k: int| 0 <= k < head2.len() ==> entry_models(out@)[k] == head2[k],
            forall|k: int|
                0 <= k < j ==> entry_models(out@)[head2.len() + k] == #[trigger] reroot[k],
        decreases subdir_entries@.len() - j,
    {
        let e = &subdir_entries[j];
        proof {
            assert(entry_models(subdir_entries@)[j as int] == subdir_entries@[j as int]@);
            assert(reroot[j as int] == (EntryModel {
                path: spec_joined(root_name@, subdir_entries@[j as int]@.path),
                mode: subdir_entries@[j as int]@.mode,
                is_dir: subdir_entries@[j as int]@.is_dir,
                data: subdir_entries@[j as int]@.data,
            }));
        }
        let name = join_path(root_name, &e.path);
        let ghost pre = out@;
        if e.is_dir {
            out.push(TarEntry::dir(name, e.mode));
            proof {
                assert(subdir_entries@[j as int]@.data =~= Seq::<u8>::empty());
            }
        } else {
            out.push(TarEntry::file(name, e.mode, copy_bytes(&e.data)));
        }
        j = j + 1;
        proof {
            assert forall|k: int|
                0 <= k < pre.len() implies entry_models(out@)[k] == entry_models(pre)[k] by {
                assert(out@[k] == pre[k]);
            }
            assert(entry_models(out@)[pre.len() as int] == out@[pre.len() as int]@);
            assert(entry_models(out@)[head2.len() + (j - 1)] == reroot[j - 1]);
        }
    }
    proof {
        assert(entry_models(out@).len() == head2.len() + reroot.len());
        assert forall|k: int|
            0 <= k < entry_models(out@).len() implies entry_models(out@)[k] == (head2 + reroot)[k]
            by {
            if k >= head2.len() {
                assert(entry_models(out@)[head2.len() + (k - head2.len())] == reroot[k
                    - head2.len()]);
            }
        }
        assert(entry_models(out@) =~= head2 + reroot);
    }
    let meta_name = join_path(root_name, &String::from_str("bundle-metadata.json"));
    let ghost pre_meta = out@;
    out.push(TarEntry::file(meta_name, 0o644, copy_bytes(metadata_bytes)));
    proof {
        assert forall|k: int|
            0 <= k < pre_meta.len() implies entry_models(out@)[k] == entry_models(pre_meta)[k] by {
            assert(out@[k] == pre_meta[k]);
        }
        assert(entry_models(out@)[pre_meta.len() as int] == out@[pre_meta.len() as int]@);
    }
    let inst_name = join_path(root_name, &String::from_str("installer"));
    let ghost pre_inst = out@;
    out.push(TarEntry::file(inst_name, 0o755, copy_bytes(launcher_bytes)));
    proof {
        assert forall|k: int|
            0 <= k < pre_inst.len() implies entry_models(out@)[k] == entry_models(pre_inst)[k] by {
            assert(out@[k] == pre_inst[k]);
        }
        assert(entry_models(out@)[pre_inst.len() as int] == out@[pre_inst.len() as int]@);
        let meta_entry = EntryModel {
            path: spec_joined(root_name@, spec_metadata_file_name()),
            mode: 0o644u32,
            is_dir: false,
            data: metadata_bytes@,
        };
        let inst_entry = EntryModel {
            path: spec_joined(root_name@, "installer"@),
            mode: 0o755u32,
            is_dir: false,
            data: launcher_bytes@,
        };
        assert(entry_models(out@) =~= (head2 + reroot) + seq![meta_entry, inst_entry]);
        assert(head2 =~= head + spec_kept_top_files(root_name@, entry_models(top_files@)));
        assert(entry_models(out@) =~= target);
    }
    out
}

} // verus!
