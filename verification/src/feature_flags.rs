//! Manifest feature flags.
//!
//! A table manifest carries a 64-bit reader flag word and a 64-bit writer
//! flag word.  Each known bit records a capability that a reader or writer
//! must have to open the table; any bit at or above `FLAG_UNKNOWN` belongs to
//! a future format version and forces a refusal.

use vstd::prelude::*;

use crate::error::Error;

verus! {

/// Fragments may contain deletion files, which record the tombstones of
/// soft-deleted rows.
pub const FLAG_DELETION_FILES: u64 = 1;

/// Row ids are stable after moves, but not updates.  Fragments contain an
/// index mapping row ids to row addresses.
pub const FLAG_MOVE_STABLE_ROW_IDS: u64 = 2;

/// Files are written with the newer file format (this flag is no longer
/// used).
pub const FLAG_USE_V2_FORMAT_DEPRECATED: u64 = 4;

/// Table config is present.
pub const FLAG_TABLE_CONFIG: u64 = 8;

/// The first bit that is unknown as a feature flag.
pub const FLAG_UNKNOWN: u64 = 16;

/// What the feature-flag gate reads of one fragment: whether it carries a
/// deletion file, and whether it carries stable-row-id metadata.
#[derive(Clone, Copy, Debug, PartialEq, Eq, Structural)]
pub struct Fragment {
    pub has_deletion_file: bool,
    pub has_row_id_meta: bool,
}

/// What the feature-flag gate reads and writes of a table manifest: the
/// fragments, the table configuration entries, and the two flag words.
#[derive(Clone, Debug)]
pub struct Manifest {
    pub fragments: Vec<Fragment>,
    pub config: Vec<(String, String)>,
    pub reader_feature_flags: u64,
    pub writer_feature_flags: u64,
}

/// Whether any fragment carries a deletion file.
pub open spec fn has_deletion_files(fragments: Seq<Fragment>) -> bool {
    exists|i: int| 0 <= i < fragments.len() && fragments[i].has_deletion_file
}

/// Whether any fragment carries stable-row-id metadata.
pub open spec fn any_row_id_meta(fragments: Seq<Fragment>) -> bool {
    exists|i: int| 0 <= i < fragments.len() && fragments[i].has_row_id_meta
}

/// Whether every fragment carries stable-row-id metadata.
pub open spec fn all_row_id_meta(fragments: Seq<Fragment>) -> bool {
    forall|i: int| 0 <= i < fragments.len() ==> fragments[i].has_row_id_meta
}

/// `apply_feature_flags` succeeds unless stable row ids are required (by a
/// fragment that already has them, or by the caller) while some fragment
/// lacks them.
pub open spec fn apply_succeeds(m: Manifest, enable_stable_row_id: bool) -> bool {
    (any_row_id_meta(m.fragments@) || enable_stable_row_id) ==> all_row_id_meta(m.fragments@)
}

/// The deletion-files bit, as derived from the manifest's fragments.
pub open spec fn spec_deletion_bit(m: Manifest) -> u64 {
    if has_deletion_files(m.fragments@) {
        FLAG_DELETION_FILES
    } else {
        0
    }
}

/// The move-stable-row-ids bit, as derived from the manifest's fragments and
/// the caller's request.
pub open spec fn spec_stable_row_id_bit(m: Manifest, enable_stable_row_id: bool) -> u64 {
    if any_row_id_meta(m.fragments@) || enable_stable_row_id {
        FLAG_MOVE_STABLE_ROW_IDS
    } else {
        0
    }
}

/// The reader flag word that `apply_feature_flags` derives on success.
pub open spec fn spec_reader_flags(m: Manifest, enable_stable_row_id: bool) -> u64 {
    spec_deletion_bit(m) | spec_stable_row_id_bit(m, enable_stable_row_id)
}

/// The writer flag word that `apply_feature_flags` derives on success: the
/// reader word plus, when the table configuration is non-empty, the
/// table-config bit, which old readers may ignore.
pub open spec fn spec_writer_flags(m: Manifest, enable_stable_row_id: bool) -> u64 {
    spec_reader_flags(m, enable_stable_row_id) | (
    if m.config@.len() > 0 {
        FLAG_TABLE_CONFIG
    } else {
        0
    })
}

/// Set the reader and writer feature flags in the manifest based on the
/// contents of the manifest.
///
/// Both flag words are reset and re-derived: the deletion-files bit when any
/// fragment has a deletion file, the move-stable-row-ids bit when any
/// fragment has stable-row-id metadata or the caller requests it (in which
/// case every fragment must have it, or the call fails), and — in the writer
/// word only — the table-config bit when the configuration map is non-empty.
/// On failure the deletion-files bit has already been applied to the reset
/// words.
pub fn apply_feature_flags(manifest: &mut Manifest, enable_stable_row_id: bool) -> (r: Result<
    (),
    Error,
>)
    ensures
        final(manifest).fragments == old(manifest).fragments,
        final(manifest).config == old(manifest).config,
        r is Ok <==> apply_succeeds(*old(manifest), enable_stable_row_id),
        r is Ok ==> {
            &&& final(manifest).reader_feature_flags == spec_reader_flags(
                *old(manifest),
                enable_stable_row_id,
            )
            &&& final(manifest).writer_feature_flags == spec_writer_flags(
                *old(manifest),
                enable_stable_row_id,
            )
        },
        r is Err ==> {
            &&& r->Err_0 is InvalidInput
            &&& final(manifest).reader_feature_flags == spec_deletion_bit(*old(manifest))
            &&& final(manifest).writer_feature_flags == spec_deletion_bit(*old(manifest))
        },
{
    manifest.reader_feature_flags = 0;
    manifest.writer_feature_flags = 0;

    let ghost fragments = manifest.fragments@;
    let n = manifest.fragments.len();

    let mut has_deletion_files_flag = false;
    let mut has_row_ids = false;
    let mut all_row_ids = true;
    let mut i: usize = 0;
    while i < n
        invariant
            0 <= i <= n,
            n == fragments.len(),
            manifest.fragments@ == fragments,
            has_deletion_files_flag == has_deletion_files(fragments.take(i as int)),
            has_row_ids == any_row_id_meta(fragments.take(i as int)),
            all_row_ids == all_row_id_meta(fragments.take(i as int)),
        decreases n - i,
    {
        let frag = &manifest.fragments[i];
        proof {
            assert(fragments.take(i + 1).drop_last() =~= fragments.take(i as int));
            assert(fragments.take(i + 1).last() == fragments[i as int]);
        }
        if frag.has_deletion_file {
            has_deletion_files_flag = true;
        }
        if frag.has_row_id_meta {
            has_row_ids = true;
        } else {
            all_row_ids = false;
        }
        proof {
            let pre = fragments.take(i as int);
            let post = fragments.take(i + 1);
            assert forall|j: int| 0 <= j < post.len() && post[j].has_deletion_file implies
                has_deletion_files_flag by {
                if j < i {
                    assert(pre[j].has_deletion_file);
                }
            }
            assert forall|j: int| 0 <= j < post.len() && post[j].has_row_id_meta implies
                has_row_ids || post[j] == fragments[i as int] by {
                if j < i {
                    assert(pre[j].has_row_id_meta);
                }
            }
        }
        i = i + 1;
    }
    proof {
        assert(fragments.take(n as int) =~= fragments);
    }

    if has_deletion_files_flag {
        manifest.reader_feature_flags = manifest.reader_feature_flags | FLAG_DELETION_FILES;
        manifest.writer_feature_flags = manifest.writer_feature_flags | FLAG_DELETION_FILES;
    }
    proof {
        let del = spec_deletion_bit(*old(manifest));
        assert(0u64 | 1u64 == 1u64) by (bit_vector);
        assert(manifest.reader_feature_flags == del);
        assert(manifest.writer_feature_flags == del);
    }

    if has_row_ids || enable_stable_row_id {
        if !all_row_ids {
            return Err(Error::invalid_input("All fragments must have row ids"));
        }
        manifest.reader_feature_flags = manifest.reader_feature_flags | FLAG_MOVE_STABLE_ROW_IDS;
        manifest.writer_feature_flags = manifest.writer_feature_flags | FLAG_MOVE_STABLE_ROW_IDS;
    }
    proof {
        let r = manifest.reader_feature_flags;
        assert(r | 0u64 == r) by (bit_vector);
        assert(manifest.reader_feature_flags == spec_reader_flags(
            *old(manifest),
            enable_stable_row_id,
        ));
    }

    if manifest.config.len() > 0 {
        manifest.writer_feature_flags = manifest.writer_feature_flags | FLAG_TABLE_CONFIG;
    }
    proof {
        let w = manifest.writer_feature_flags;
        assert(w | 0u64 == w) by (bit_vector);
    }

    Ok(())
}

/// Whether a reader knowing only the flags below `FLAG_UNKNOWN` may open a
/// table whose manifest carries `reader_flags`.
pub open spec fn spec_can_read_dataset(reader_flags: u64) -> bool {
    reader_flags < FLAG_UNKNOWN
}

/// Whether a writer knowing only the flags below `FLAG_UNKNOWN` may write a
/// table whose manifest carries `writer_flags`.
pub open spec fn spec_can_write_dataset(writer_flags: u64) -> bool {
    writer_flags < FLAG_UNKNOWN
}

pub fn can_read_dataset(reader_flags: u64) -> (r: bool)
    ensures
        r == spec_can_read_dataset(reader_flags),
{
    reader_flags < FLAG_UNKNOWN
}

pub fn can_write_dataset(writer_flags: u64) -> (r: bool)
    ensures
        r == spec_can_write_dataset(writer_flags),
{
    writer_flags < FLAG_UNKNOWN
}

pub fn has_deprecated_v2_feature_flag(writer_flags: u64) -> (r: bool)
    ensures
        r == (writer_flags & FLAG_USE_V2_FORMAT_DEPRECATED != 0),
{
    writer_flags & FLAG_USE_V2_FORMAT_DEPRECATED != 0
}

/// Applying the feature flags to a manifest they were just applied to
/// succeeds again and leaves both flag words unchanged: the derived words
/// depend only on the fragments and the configuration, which the first
/// application does not touch.
pub proof fn lemma_apply_feature_flags_idempotent(
    m: Manifest,
    applied: Manifest,
    enable_stable_row_id: bool,
)
    requires
        apply_succeeds(m, enable_stable_row_id),
        applied.fragments == m.fragments,
        applied.config == m.config,
        applied.reader_feature_flags == spec_reader_flags(m, enable_stable_row_id),
        applied.writer_feature_flags == spec_writer_flags(m, enable_stable_row_id),
    ensures
        apply_succeeds(applied, enable_stable_row_id),
        spec_reader_flags(applied, enable_stable_row_id) == applied.reader_feature_flags,
        spec_writer_flags(applied, enable_stable_row_id) == applied.writer_feature_flags,
{
}

/// Admissibility is monotone over the known flags: setting one more known
/// bit in a flag word that a reader may open never flips the answer to a
/// refusal.  The same holds for writers, whose test is the same comparison.
pub proof fn lemma_can_read_monotone(flags: u64, bit: u64)
    requires
        bit == FLAG_DELETION_FILES || bit == FLAG_MOVE_STABLE_ROW_IDS || bit
            == FLAG_USE_V2_FORMAT_DEPRECATED || bit == FLAG_TABLE_CONFIG,
        spec_can_read_dataset(flags),
    ensures
        spec_can_read_dataset(flags | bit),
{
    assert((flags | bit) < 16) by (bit_vector)
        requires
            flags < 16 && (bit == 1 || bit == 2 || bit == 4 || bit == 8),
    ;
}

} // verus!
