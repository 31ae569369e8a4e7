//! Archive extraction planning: which declared members still need
//! extracting, so an interrupted extraction resumes cheaply.
//!
//! A member whose file already sits at its target path with a matching
//! hash is skipped; everything else is (re-)extracted. Locating a member
//! inside the archive and writing it out happen outside the library; a
//! member the archive does not contain is a hard manifest defect, and the
//! archive itself is a transient artifact deleted after extraction.

use vstd::prelude::*;
use vstd::string::StringExecFns;

use crate::game_files::FileDataView;
use crate::game_files::UpdateFileData;
use crate::hashing::hash_eq;
use crate::strmap::StrMap;

verus! {

/// A member must be extracted when its file is missing or does not match
/// its declared hash.
pub open spec fn member_extraction_needed(m: FileDataView, disk: Map<Seq<char>, Seq<char>>) -> bool {
    ||| !disk.contains_key(m.path)
    ||| !hash_eq(disk[m.path], m.blake3)
}

/// Whether one member still needs extracting.
pub fn member_needs_extraction(member: &UpdateFileData, disk: &StrMap) -> (r: bool)
    requires
        disk.wf(),
    ensures
        r == member_extraction_needed(member@, disk@),
{
    match disk.get(member.path.as_str()) {
        None => true,
        Some(h) => !crate::game::verify_downloaded_file(h.as_str(), member.blake3.as_str()),
    }
}

/// The members still needing extraction, in declaration order.
pub open spec fn spec_extraction_plan(
    members: Seq<FileDataView>,
    disk: Map<Seq<char>, Seq<char>>,
) -> Seq<FileDataView>
    decreases members.len(),
{
    if members.len() == 0 {
        Seq::empty()
    } else {
        let rest = spec_extraction_plan(members.drop_last(), disk);
        if member_extraction_needed(members.last(), disk) {
            rest.push(members.last())
        } else {
            rest
        }
    }
}

/// The members of one archive that extraction must still write out.
pub fn extraction_plan(members: &Vec<UpdateFileData>, disk: &StrMap) -> (r: Vec<UpdateFileData>)
    requires
        disk.wf(),
    ensures
        r@.map_values(|m: UpdateFileData| m@) == spec_extraction_plan(
            members@.map_values(|m: UpdateFileData| m@),
            disk@,
        ),
{
    let ghost vs = members@.map_values(|m: UpdateFileData| m@);
    let mut out: Vec<UpdateFileData> = Vec::new();
    let n = members.len();
    let mut i: usize = 0;
    while i < n
        invariant
            i <= n,
            n == members@.len(),
            disk.wf(),
            vs == members@.map_values(|m: UpdateFileData| m@),
            out@.map_values(|m: UpdateFileData| m@) == spec_extraction_plan(
                vs.take(i as int),
                disk@,
            ),
        decreases n - i,
    {
        let member = &members[i];
        proof {
            assert(member@ == vs[i as int]);
            assert(vs.take(i + 1).drop_last() =~= vs.take(i as int));
            assert(vs.take(i + 1).last() == vs[i as int]);
        }
        let ghost prev = out@.map_values(|m: UpdateFileData| m@);
        if member_needs_extraction(member, disk) {
            out.push(member.clone());
            proof {
                assert(out@.map_values(|m: UpdateFileData| m@) =~= prev.push(vs[i as int]));
            }
        }
        i += 1;
    }
    proof {
        assert(vs.take(n as int) =~= vs);
    }
    out
}

/// Extraction resume, one direction: nothing already correct on disk is in
/// the plan.
pub proof fn lemma_resume_skips_correct(
    members: Seq<FileDataView>,
    disk: Map<Seq<char>, Seq<char>>,
    m: FileDataView,
)
    requires
        spec_extraction_plan(members, disk).contains(m),
    ensures
        member_extraction_needed(m, disk),
    decreases members.len(),
{
    if members.len() > 0 {
        let rest = spec_extraction_plan(members.drop_last(), disk);
        if member_extraction_needed(members.last(), disk) {
            let out = rest.push(members.last());
            let k = choose|k: int| 0 <= k < out.len() && out[k] == m;
            if k == out.len() - 1 {
            } else {
                assert(rest[k] == m);
                assert(rest.contains(m));
                lemma_resume_skips_correct(members.drop_last(), disk, m);
            }
        } else {
            lemma_resume_skips_correct(members.drop_last(), disk, m);
        }
    }
}

/// Extraction resume, the other direction: every missing or mismatching
/// member is in the plan.
pub proof fn lemma_resume_keeps_remaining(
    members: Seq<FileDataView>,
    disk: Map<Seq<char>, Seq<char>>,
    i: int,
)
    requires
        0 <= i < members.len(),
        member_extraction_needed(members[i], disk),
    ensures
        spec_extraction_plan(members, disk).contains(members[i]),
    decreases members.len(),
{
    let rest = spec_extraction_plan(members.drop_last(), disk);
    if i == members.len() - 1 {
        let out = rest.push(members.last());
        assert(out[out.len() - 1] == members[i]);
    } else {
        assert(members.drop_last()[i] == members[i]);
        lemma_resume_keeps_remaining(members.drop_last(), disk, i);
        let k = choose|k: int| 0 <= k < rest.len() && rest[k] == members[i];
        if member_extraction_needed(members.last(), disk) {
            assert(rest.push(members.last())[k] == members[i]);
        }
    }
}

/// The hard error for a member the archive does not contain: a defect of
/// the manifest or archive, not retried.
pub fn missing_member_message(member_path: &str, archive_path: &str) -> (r: String)
    ensures
        r@ == "Could not find file "@ + member_path@ + " in archive "@ + archive_path@,
{
    let mut m = String::from_str("Could not find file ");
    m.append(member_path);
    m.append(" in archive ");
    m.append(archive_path);
    proof {
        assert(m@ =~= "Could not find file "@ + member_path@ + " in archive "@ + archive_path@);
    }
    m
}

} // verus!
