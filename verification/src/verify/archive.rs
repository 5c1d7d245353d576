//! Verifying the archive.
use vstd::prelude::*;

use crate::verify::report;
use crate::text;
use crate::info::StorageKind;
use crate::text::{chars, rsplit_once, split_text, starts_with, text_eq};
use crate::verify::report::{ArchiveProblem, ArchiveProblemView, ArchiveVerify};

verus! {

/// How many hexadecimal digits a SHA-1 digest has.
pub const SHA1_HEX_LEN: usize = 40;

/// Whether `c` is a hexadecimal digit.
pub open spec fn is_hex(c: char) -> bool {
    ||| '0' <= c <= '9'
    ||| 'a' <= c <= 'f'
    ||| 'A' <= c <= 'F'
}

/// Whether `s` is a digest in hexadecimal.
pub open spec fn is_digest(s: Seq<char>) -> bool {
    s.len() == SHA1_HEX_LEN && forall|i: int| 0 <= i < s.len() ==> is_hex(#[trigger] s[i])
}

/// The segment and the digest that a file name carries: up to the first dot, they
/// stand around the last dash.
pub open spec fn parts_of_name(name: Seq<char>) -> Option<(Seq<char>, Seq<char>)> {
    let core = text::split(name, '.')[0];
    match text::last_match(core, "-"@) {
        Some(i) => if is_digest(core.skip(i + "-"@.len())) {
            Some((core.take(i), core.skip(i + "-"@.len())))
        } else {
            None
        },
        None => None,
    }
}

fn all_hex(s: &str) -> (r: bool)
    ensures
        r == is_digest(s@),
{
    let cs = chars(s);
    let n: usize = cs.len();
    if n != SHA1_HEX_LEN {
        return false;
    }
    let mut i: usize = 0;
    while i < n
        invariant
            i <= n,
            n == s@.len(),
            n == SHA1_HEX_LEN,
            cs@ == s@,
            forall|k: int| 0 <= k < i ==> is_hex(#[trigger] s@[k]),
        decreases n - i,
    {
        let c: char = cs[i];
        if !(('0' <= c && c <= '9') || ('a' <= c && c <= 'f') || ('A' <= c && c <= 'F')) {
            assert(!is_hex(s@[i as int]));
            return false;
        }
        assert(is_hex(s@[i as int]));
        i += 1;
    }
    true
}

/// The segment and the digest that a file name carries, where it carries one.
pub fn split_segment_checksum(segment: &str) -> (r: Option<(String, String)>)
    ensures
        match parts_of_name(segment@) {
            Some((base, sha)) => r matches Some(v) && v.0@ == base && v.1@ == sha,
            None => r is None,
        },
{
    let pieces = split_text(segment, '.');
    assert(text::texts(pieces@)[0] == pieces@[0]@);
    let core = pieces[0].as_str();
    match rsplit_once(core, "-") {
        Some((base, candidate)) => {
            if all_hex(candidate) {
                Some((base.to_owned(), candidate.to_owned()))
            } else {
                None
            }
        },
        None => None,
    }
}

/// What reading a segment gave.
#[derive(Debug, Clone, PartialEq, Eq)]
pub enum SegmentContent {
    /// Its bytes, with this digest.
    Read { sha1: String },
    /// An error.
    Unreadable { message: String },
}

/// Something that stands in the archive.
#[derive(Debug, Clone, PartialEq, Eq)]
pub struct ArchiveEntry {
    pub name: String,
    pub kind: StorageKind,
    /// What reading it gave; it counts for segments only.
    pub content: SegmentContent,
}

/// Whether something of that name and kind is a segment: a file, but not the
/// archive's own records.
pub open spec fn segment_like(name: Seq<char>, kind: StorageKind) -> bool {
    kind == StorageKind::File && !text::has_prefix(name, "archive.info"@)
}

/// Whether something of that name and kind is a segment, and so to be read.
pub fn is_segment(name: &str, kind: StorageKind) -> (r: bool)
    ensures
        r == segment_like(name@, kind),
{
    kind == StorageKind::File && !starts_with(name, "archive.info")
}

/// The contents of an [`ArchiveVerify`].
#[verifier::ext_equal]
pub struct ArchiveView {
    pub total: nat,
    pub valid: nat,
    pub checksum_verified: nat,
    pub presence_only: nat,
    pub problems: Seq<ArchiveProblemView>,
}

impl View for ArchiveVerify {
    type V = ArchiveView;

    open spec fn view(&self) -> ArchiveView {
        ArchiveView {
            total: self.total as nat,
            valid: self.valid as nat,
            checksum_verified: self.checksum_verified as nat,
            presence_only: self.presence_only as nat,
            problems: report::archive_problem_views(self.problems@),
        }
    }
}

/// What a further entry adds: a segment that cannot be read, or that carries another
/// digest than its own, is a problem; any other segment is intact.
pub open spec fn with_entry(a: ArchiveView, e: ArchiveEntry) -> ArchiveView {
    if !segment_like(e.name@, e.kind) {
        a
    } else {
        match e.content {
            SegmentContent::Unreadable { message } => ArchiveView {
                total: a.total + 1,
                problems: a.problems.push(ArchiveProblemView::Unreadable { segment: e.name@, message: message@ }),
                ..a
            },
            SegmentContent::Read { sha1 } => match parts_of_name(e.name@) {
                Some((base, expected)) => if sha1@ == expected {
                    ArchiveView {
                        total: a.total + 1,
                        valid: a.valid + 1,
                        checksum_verified: a.checksum_verified + 1,
                        ..a
                    }
                } else {
                    ArchiveView {
                        total: a.total + 1,
                        problems: a.problems.push(
                            ArchiveProblemView::ChecksumMismatch { segment: e.name@, expected, actual: sha1@ },
                        ),
                        ..a
                    }
                },
                None => ArchiveView {
                    total: a.total + 1,
                    valid: a.valid + 1,
                    presence_only: a.presence_only + 1,
                    ..a
                },
            },
        }
    }
}

/// What the entries of an archive amount to.
pub open spec fn archive_of(entries: Seq<ArchiveEntry>) -> ArchiveView
    decreases entries.len(),
{
    if entries.len() == 0 {
        ArchiveView { total: 0, valid: 0, checksum_verified: 0, presence_only: 0, problems: Seq::empty() }
    } else {
        with_entry(archive_of(entries.drop_last()), entries.last())
    }
}

/// What the entries of an archive amount to. An archive that is not there has none.
pub fn verify_archive(entries: &Vec<ArchiveEntry>) -> (r: ArchiveVerify)
    ensures
        r@ == archive_of(entries@),
{
    let mut total: usize = 0;
    let mut valid: usize = 0;
    let mut checksum_verified: usize = 0;
    let mut presence_only: usize = 0;
    let mut problems: Vec<ArchiveProblem> = Vec::new();
    let n: usize = entries.len();
    let mut i: usize = 0;
    proof {
        assert(entries@.take(0) =~= Seq::<ArchiveEntry>::empty());
        assert(report::archive_problem_views(problems@) =~= Seq::<ArchiveProblemView>::empty());
    }
    while i < n
        invariant
            i <= n,
            n == entries.len(),
            total <= i,
            valid <= i,
            checksum_verified <= i,
            presence_only <= i,
            archive_of(entries@.take(i as int)) == (ArchiveView {
                total: total as nat,
                valid: valid as nat,
                checksum_verified: checksum_verified as nat,
                presence_only: presence_only as nat,
                problems: report::archive_problem_views(problems@),
            }),
        decreases n - i,
    {
        let entry = &entries[i];
        let ghost before = report::archive_problem_views(problems@);
        proof {
            assert(entries@.take(i as int + 1).drop_last() =~= entries@.take(i as int));
            assert(entries@.take(i as int + 1).last() == entries@[i as int]);
        }
        if is_segment(entry.name.as_str(), entry.kind) {
            total += 1;
            match &entry.content {
                SegmentContent::Unreadable { message } => {
                    problems.push(
                        ArchiveProblem::Unreadable { segment: entry.name.clone(), message: message.clone() },
                    );
                    assert(report::archive_problem_views(problems@) =~= before.push(problems@.last()@));
                },
                SegmentContent::Read { sha1 } => {
                    match split_segment_checksum(entry.name.as_str()) {
                        Some((_, expected)) => {
                            if text_eq(sha1.as_str(), expected.as_str()) {
                                valid += 1;
                                checksum_verified += 1;
                            } else {
                                problems.push(
                                    ArchiveProblem::ChecksumMismatch {
                                        segment: entry.name.clone(),
                                        expected,
                                        actual: sha1.clone(),
                                    },
                                );
                                assert(report::archive_problem_views(problems@) =~= before.push(problems@.last()@));
                            }
                        },
                        None => {
                            valid += 1;
                            presence_only += 1;
                        },
                    }
                },
            }
        }
        i += 1;
    }
    assert(entries@.take(n as int) =~= entries@);
    ArchiveVerify { total, valid, checksum_verified, presence_only, problems }
}

/// Every segment is intact or a problem, and every intact one was checked in one of
/// the two ways.
pub proof fn law_segments_add_up(entries: Seq<ArchiveEntry>)
    ensures
        archive_of(entries).total == archive_of(entries).valid + archive_of(entries).problems.len(),
        archive_of(entries).valid == archive_of(entries).checksum_verified + archive_of(entries).presence_only,
    decreases entries.len(),
{
    if entries.len() > 0 {
        law_segments_add_up(entries.drop_last());
    }
}

/// A name made of a segment, a dash and a digest is told apart into them.
pub proof fn law_digest_is_found(base: Seq<char>, sha: Seq<char>)
    requires
        is_digest(sha),
        !base.contains('.'),
    ensures
        parts_of_name(base + "-"@ + sha) == Some((base, sha)),
{
    let name = base + "-"@ + sha;
    reveal_strlit("-");
    assert forall|i: int| 0 <= i < name.len() implies name[i] != '.' by {
        if i < base.len() {
            assert(base.contains(base[i]));
        } else if i > base.len() {
            assert(is_hex(sha[i - base.len() - 1]));
        }
    }
    lemma_split_whole(name, '.');
    crate::text::law_last_match_is_last(name, "-"@);
    assert(name.subrange(base.len() as int, base.len() as int + 1) =~= "-"@);
    assert(crate::text::occurs_at(name, "-"@, base.len() as int));
    let i = text::last_match(name, "-"@).unwrap();
    if i > base.len() {
        assert(name.subrange(i, i + 1)[0] == name[i]);
        assert(is_hex(sha[i - base.len() - 1]));
    }
    assert(name.take(i) =~= base);
    assert(name.skip(i + 1) =~= sha);
}

proof fn lemma_split_whole(s: Seq<char>, sep: char)
    requires
        forall|i: int| 0 <= i < s.len() ==> s[i] != sep,
    ensures
        text::split(s, sep) == seq![s],
    decreases s.len(),
{
    if s.len() > 0 {
        lemma_split_whole(s.drop_last(), sep);
        assert(text::split(s, sep) =~= seq![s]) by {
            assert(s.drop_last().push(s.last()) =~= s);
        }
    } else {
        assert(s =~= Seq::<char>::empty());
    }
}

/// Every file of the archive is a segment, whatever timeline its name begins with, but for
/// the archive's own records, whose names begin with `archive.info`.
pub proof fn law_segments_are_all_files(name: &str, kind: StorageKind, r: bool)
    requires
        call_ensures(is_segment, (name, kind), r),
    ensures
        kind != StorageKind::File ==> !r,
        kind == StorageKind::File ==> (!r <==> name@.len() >= 12 && name@.take(12) == "archive.info"@),
{
    reveal_strlit("archive.info");
}

/// A further file whose name does not begin with `archive.info` is one segment more. It
/// is one problem more exactly where it cannot be read or carries another digest than its
/// own; where it carries its own digest it is one more whose digest was checked; without
/// a digest in its name it is one more of those that were only found. What was found of
/// the entries before it stands.
pub proof fn law_one_more_segment(
    entries: &Vec<ArchiveEntry>,
    more: &Vec<ArchiveEntry>,
    name: &str,
    parts: Option<(String, String)>,
    a: ArchiveVerify,
    b: ArchiveVerify,
)
    requires
        call_ensures(verify_archive, (entries,), a),
        call_ensures(verify_archive, (more,), b),
        more.len() == entries.len() + 1,
        more@.drop_last() == entries@,
        name@ == more@.last().name@,
        call_ensures(split_segment_checksum, (name,), parts),
        more@.last().kind == StorageKind::File,
        name@.len() < 12 || name@.take(12) != "archive.info"@,
    ensures
        b.total == a.total + 1,
        match more@.last().content {
            SegmentContent::Unreadable { message } => {
                &&& b.problems.len() == a.problems.len() + 1
                &&& b.valid == a.valid && b.checksum_verified == a.checksum_verified && b.presence_only == a.presence_only
                &&& b.problems@.last() is Unreadable
                &&& b.problems@.last()->Unreadable_segment@ == name@
                &&& b.problems@.last()->message@ == message@
            },
            SegmentContent::Read { sha1 } => {
                &&& parts is None ==> b.problems.len() == a.problems.len() && b.valid == a.valid + 1 && b.presence_only
                    == a.presence_only + 1 && b.checksum_verified == a.checksum_verified
                &&& parts is Some && parts.unwrap().1@ == sha1@ ==> b.problems.len() == a.problems.len() && b.valid == a.valid + 1
                    && b.presence_only == a.presence_only && b.checksum_verified == a.checksum_verified + 1
                &&& parts is Some && parts.unwrap().1@ != sha1@ ==> {
                    &&& b.problems.len() == a.problems.len() + 1
                    &&& b.valid == a.valid && b.checksum_verified == a.checksum_verified && b.presence_only == a.presence_only
                    &&& b.problems@.last() is ChecksumMismatch
                    &&& b.problems@.last()->ChecksumMismatch_segment@ == name@
                    &&& b.problems@.last()->expected@ == parts.unwrap().1@
                    &&& b.problems@.last()->actual@ == sha1@
                }
            },
        },
        forall|i: int| 0 <= i < a.problems.len() ==> (#[trigger] b.problems[i])@ == a.problems[i]@,
{
    reveal_strlit("archive.info");
    let va = report::archive_problem_views(a.problems@);
    let vb = report::archive_problem_views(b.problems@);
    assert(a@ == archive_of(entries@));
    assert(b@ == archive_of(more@));
    assert(b@ == with_entry(a@, more@.last()));
    assert(va.len() == a.problems.len() && vb.len() == b.problems.len());
    assert forall|i: int| 0 <= i < a.problems.len() implies (#[trigger] b.problems[i])@ == a.problems[i]@ by {
        assert(vb[i] == va[i]);
    }
    if b.problems.len() > a.problems.len() {
        assert(vb[va.len() as int] == b.problems@.last()@);
    }
}

/// What is no file, and the archive's own records, count for nothing; an archive without
/// entries amounts to nothing.
pub proof fn law_others_do_not_count(entries: &Vec<ArchiveEntry>, more: &Vec<ArchiveEntry>, a: ArchiveVerify, b: ArchiveVerify)
    requires
        call_ensures(verify_archive, (entries,), a),
        call_ensures(verify_archive, (more,), b),
        more.len() == entries.len() + 1,
        more@.drop_last() == entries@,
        more@.last().kind != StorageKind::File || (more@.last().name@.len() >= 12 && more@.last().name@.take(12)
            == "archive.info"@),
    ensures
        b.total == a.total,
        b.valid == a.valid,
        b.checksum_verified == a.checksum_verified,
        b.presence_only == a.presence_only,
        b.problems.len() == a.problems.len(),
        entries.len() == 0 ==> a.total == 0 && a.valid == 0 && a.checksum_verified == 0 && a.presence_only == 0 && a.problems.len()
            == 0,
{
    reveal_strlit("archive.info");
    assert(a@ == archive_of(entries@));
    assert(b@ == archive_of(more@));
    assert(report::archive_problem_views(a.problems@).len() == a.problems.len());
    assert(report::archive_problem_views(b.problems@).len() == b.problems.len());
    if entries.len() == 0 {
        assert(entries@ =~= Seq::<ArchiveEntry>::empty());
    }
}

/// The same over what entries amount to: a further file that is not the archive's own
/// record is one segment more, and one problem more where it cannot be read or carries
/// another digest than its own.
pub proof fn law_archive_grows_by_its_segments(entries: Seq<ArchiveEntry>, e: ArchiveEntry)
    requires
        e.kind == StorageKind::File,
        !text::has_prefix(e.name@, "archive.info"@),
    ensures
        archive_of(entries.push(e)).total == archive_of(entries).total + 1,
        e.content is Unreadable || (parts_of_name(e.name@) matches Some(parts) && e.content->sha1@ != parts.1) ==> archive_of(
            entries.push(e),
        ).problems.len() == archive_of(entries).problems.len() + 1,
{
    assert(entries.push(e).drop_last() =~= entries);
}

/// A name carries a digest where, before its first dot, its last dash is followed by the
/// digits of one: these are the digest, and what stands before that dash is the segment.
pub proof fn law_digest_stands_behind_the_last_dash(name: &str, r: Option<(String, String)>)
    requires
        call_ensures(split_segment_checksum, (name,), r),
    ensures
        r matches Some(v) ==> {
            &&& v.1@.len() == 40
            &&& forall|i: int|
                0 <= i < 40 ==> '0' <= #[trigger] v.1@[i] <= '9' || 'a' <= v.1@[i] <= 'f' || 'A' <= v.1@[i] <= 'F'
            &&& name@.len() >= v.0@.len() + 41
            &&& name@.take(v.0@.len() as int + 41) == v.0@ + "-"@ + v.1@
            &&& !v.0@.contains('.')
            &&& name@.len() > v.0@.len() + 41 ==> name@[v.0@.len() as int + 41] == '.'
        },
{
    reveal_strlit("-");
    text::law_first_piece(name@, '.');
    let core = text::split(name@, '.')[0];
    text::law_last_match_is_last(core, "-"@);
    if let Some(v) = r {
        let i = text::last_match(core, "-"@).unwrap();
        assert(text::occurs_at(core, "-"@, i));
        assert(core.subrange(i, i + 1)[0] == '-');
        assert(core =~= v.0@ + "-"@ + v.1@);
        assert forall|k: int| 0 <= k < 40 implies '0' <= #[trigger] v.1@[k] <= '9' || 'a' <= v.1@[k] <= 'f' || 'A' <= v.1@[k]
            <= 'F' by {
            assert(is_hex(v.1@[k]));
        }
        if v.0@.contains('.') {
            let k = choose|k: int| 0 <= k < v.0@.len() && v.0@[k] == '.';
            assert(core[k] == '.');
            assert(core.contains('.'));
        }
    }
}

/// A segment's name with a dash and a digest behind it, with or without an extension,
/// carries that digest.
pub proof fn law_named_digest_is_carried(base: Seq<char>, sha: Seq<char>, extension: Seq<char>, name: &str, r: Option<(String, String)>)
    requires
        call_ensures(split_segment_checksum, (name,), r),
        name@ == base + "-"@ + sha || name@ == base + "-"@ + sha + "."@ + extension,
        !base.contains('.'),
        sha.len() == 40,
        forall|i: int| 0 <= i < 40 ==> '0' <= #[trigger] sha[i] <= '9' || 'a' <= sha[i] <= 'f' || 'A' <= sha[i] <= 'F',
    ensures
        r is Some && r.unwrap().0@ == base && r.unwrap().1@ == sha,
{
    assert forall|i: int| 0 <= i < sha.len() implies is_hex(#[trigger] sha[i]) by {}
    law_digest_is_found(base, sha);
    let core = base + "-"@ + sha;
    reveal_strlit("-");
    reveal_strlit(".");
    assert forall|i: int| 0 <= i < core.len() implies core[i] != '.' by {
        if i < base.len() {
            assert(base.contains(base[i]));
        } else if i > base.len() {
            assert(is_hex(sha[i - base.len() - 1]));
        }
    }
    lemma_split_whole(core, '.');
    if name@ != core {
        assert(name@ =~= core.push('.') + extension);
        text::law_split_at_separator(core, extension, '.');
        assert(text::split(name@, '.')[0] == core);
    }
    assert(text::split(core, '.')[0] == core);
}

}
