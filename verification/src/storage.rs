//! The bookkeeping of installed Avatar Studio projects: installation ids and
//! their paths, installation records, and the index that lists them newest
//! first. Reading and writing the files is left to the caller.

use vstd::prelude::*;
use crate::avatar::{inspect, inspection_of, json_document, lower_hex_digit, sha256_hex, AvatarProjectInspection};
use crate::config::str_equal;
use crate::discovery::{join_path, path_joined};
use crate::text::{chars_of, concat_str};

verus! {

/// The version of the index file that this library writes and reads.
pub const INDEX_VERSION: u32 = 1;

/// The version of the importer that wrote an installation.
pub const IMPORTER_VERSION: u32 = 1;

/// The largest project file that is read, in bytes.
pub const MAX_PROJECT_BYTES: u64 = 5242880;

/// A project chosen from a file: its text, the file's name and what
/// inspecting it found.
#[derive(Debug, Clone, PartialEq, Eq)]
pub struct AvatarProjectFileInspection {
    pub source: String,
    pub file_name: String,
    pub inspection: AvatarProjectInspection,
}

/// An installed project: stored under its content hash, with the avatar
/// that was chosen in it.
#[derive(Debug, Clone, PartialEq, Eq)]
pub struct AvatarInstallation {
    pub id: String,
    pub content_hash: String,
    pub imported_at_ms: u64,
    pub importer_version: u32,
    pub selected_avatar_id: String,
    pub summary: AvatarProjectInspection,
}

/// An installation together with the project text stored for it.
#[derive(Debug, Clone, PartialEq, Eq)]
pub struct AvatarProjectSource {
    pub installation: AvatarInstallation,
    pub source: String,
}

/// The index of installations, newest first.
#[derive(Debug, Clone)]
pub struct AvatarIndex {
    pub version: u32,
    pub installations: Vec<AvatarInstallation>,
}

impl Default for AvatarIndex {
    fn default() -> (r: AvatarIndex)
        ensures
            r.version == INDEX_VERSION,
            r.installations@.len() == 0,
    {
        AvatarIndex { version: INDEX_VERSION, installations: Vec::new() }
    }
}

/// An installation id is a SHA-256 digest in 64 lowercase hexadecimal
/// digits. (Being ASCII, its length in characters is its length in bytes.)
pub open spec fn valid_id(id: Seq<char>) -> bool {
    id.len() == 64 && forall|i: int| 0 <= i < id.len() ==> lower_hex_digit(#[trigger] id[i])
}

fn is_lower_hex_digit(c: char) -> (r: bool)
    ensures
        r == lower_hex_digit(c),
{
    ('0' <= c && c <= '9') || ('a' <= c && c <= 'f')
}

/// Whether `id` can name an installation, so that it cannot leave the
/// avatars directory.
pub fn valid_installation_id(id: &str) -> (r: bool)
    ensures
        r == valid_id(id@),
{
    let v = chars_of(id);
    if v.len() != 64 {
        return false;
    }
    let mut i: usize = 0;
    while i < v.len()
        invariant
            i <= v@.len(),
            v@ == id@,
            forall|k: int| 0 <= k < i ==> lower_hex_digit(#[trigger] v@[k]),
        decreases v@.len() - i,
    {
        if !is_lower_hex_digit(v[i]) {
            return false;
        }
        i += 1;
    }
    true
}

/// The directory of installation `id` under `root`, for a valid id.
pub fn installation_path_at(root: &str, id: &str) -> (r: Result<String, String>)
    ensures
        valid_id(id@) ==> (r matches Ok(p) && p@ == path_joined(root@, id@)),
        !valid_id(id@) ==> (r matches Err(e) && e@ == "invalid avatar installation id"@),
{
    if !valid_installation_id(id) {
        return Err("invalid avatar installation id".to_owned());
    }
    Ok(join_path(root, id))
}

/// The index file under `root`.
pub fn index_path_at(root: &str) -> (r: String)
    ensures
        r@ == path_joined(root@, "index.json"@),
{
    join_path(root, "index.json")
}

/// Whether the inspected project has an avatar with this id.
pub open spec fn has_avatar(summary: AvatarProjectInspection, avatar_id: Seq<char>) -> bool {
    exists|i: int| 0 <= i < summary.avatars@.len() && (#[trigger] summary.avatars@[i]).id@ == avatar_id
}

fn find_avatar(summary: &AvatarProjectInspection, avatar_id: &str) -> (r: Option<usize>)
    ensures
        match r {
            Some(i) => i < summary.avatars@.len() && summary.avatars@[i as int].id@ == avatar_id@
                && forall|j: int| 0 <= j < i ==> (#[trigger] summary.avatars@[j]).id@ != avatar_id@,
            None => !has_avatar(*summary, avatar_id@),
        },
{
    let mut i: usize = 0;
    while i < summary.avatars.len()
        invariant
            i <= summary.avatars@.len(),
            forall|j: int| 0 <= j < i ==> (#[trigger] summary.avatars@[j]).id@ != avatar_id@,
        decreases summary.avatars@.len() - i,
    {
        if str_equal(summary.avatars[i].id.as_str(), avatar_id) {
            return Some(i);
        }
        i += 1;
    }
    None
}

/// The record of installing the inspected project `summary` with avatar
/// `avatar_id` chosen, at `imported_at_ms`. It is stored under the
/// project's content hash.
pub fn new_installation(summary: AvatarProjectInspection, avatar_id: &str, imported_at_ms: u64) -> (r: Result<AvatarInstallation, String>)
    ensures
        !has_avatar(summary, avatar_id@) ==> (r matches Err(e)
            && e@ == "avatar "@ + avatar_id@ + " does not exist in project"@),
        has_avatar(summary, avatar_id@) ==> (r matches Ok(i) && {
            &&& i.id@ == summary.content_hash@
            &&& i.content_hash@ == summary.content_hash@
            &&& i.imported_at_ms == imported_at_ms
            &&& i.importer_version == IMPORTER_VERSION
            &&& i.selected_avatar_id@ == avatar_id@
            &&& i.summary == summary
        }),
{
    if find_avatar(&summary, avatar_id).is_none() {
        let head = concat_str("avatar ", avatar_id);
        return Err(concat_str(head.as_str(), " does not exist in project"));
    }
    let id = summary.content_hash.clone();
    let content_hash = summary.content_hash.clone();
    Ok(AvatarInstallation {
        id,
        content_hash,
        imported_at_ms,
        importer_version: IMPORTER_VERSION,
        selected_avatar_id: avatar_id.to_owned(),
        summary,
    })
}

/// Chooses avatar `avatar_id` of the installed project.
pub fn select_in(installation: &mut AvatarInstallation, avatar_id: &str) -> (r: Result<(), String>)
    ensures
        !has_avatar(old(installation).summary, avatar_id@) ==> (r matches Err(e)
            && e@ == "avatar "@ + avatar_id@ + " does not exist in installation"@
            && *final(installation) == *old(installation)),
        has_avatar(old(installation).summary, avatar_id@) ==> r is Ok
            && final(installation).selected_avatar_id@ == avatar_id@
            && final(installation).id == old(installation).id
            && final(installation).content_hash == old(installation).content_hash
            && final(installation).imported_at_ms == old(installation).imported_at_ms
            && final(installation).importer_version == old(installation).importer_version
            && final(installation).summary == old(installation).summary,
{
    if find_avatar(&installation.summary, avatar_id).is_none() {
        let head = concat_str("avatar ", avatar_id);
        return Err(concat_str(head.as_str(), " does not exist in installation"));
    }
    installation.selected_avatar_id = avatar_id.to_owned();
    Ok(())
}

/// Checks an installation read back from storage `id`: its record must
/// name that id as its id and hash, and the stored project text must
/// still inspect to that hash.
pub fn check_installed(
    id: &str,
    installation: AvatarInstallation,
    source: String,
) -> (r: Result<AvatarProjectSource, String>)
    ensures
        installation.id@ != id@ || installation.content_hash@ != id@ ==> (r matches Err(e)
            && e@ == "installed Avatar metadata does not match its storage path"@),
        installation.id@ == id@ && installation.content_hash@ == id@ ==> match inspection_of(source@, json_document(source@)) {
            Err(m) => r matches Err(e) && e@ == m,
            Ok(_) => if sha256_hex(source@) != installation.content_hash@ {
                r matches Err(e) && e@ == "installed Avatar Studio project failed integrity validation"@
            } else {
                r == Ok::<AvatarProjectSource, String>(AvatarProjectSource { installation, source })
            },
        },
{
    if !str_equal(installation.id.as_str(), id) || !str_equal(installation.content_hash.as_str(), id) {
        return Err("installed Avatar metadata does not match its storage path".to_owned());
    }
    let inspection = match inspect(source.as_str()) {
        Err(e) => return Err(e),
        Ok(i) => i,
    };
    if !str_equal(inspection.content_hash.as_str(), installation.content_hash.as_str()) {
        return Err("installed Avatar Studio project failed integrity validation".to_owned());
    }
    Ok(AvatarProjectSource { installation, source })
}

/// A selected file of `len` bytes may be read when it is a file and no
/// larger than the largest project.
pub fn check_selected_file(is_file: bool, len: u64) -> (r: Result<(), String>)
    ensures
        !is_file ==> (r matches Err(e) && e@ == "selected Avatar Studio project is not a file"@),
        is_file && len > MAX_PROJECT_BYTES ==> (r matches Err(e) && e@ == "Avatar Studio project exceeds 5242880 bytes"@),
        is_file && len <= MAX_PROJECT_BYTES ==> r is Ok,
{
    if !is_file {
        return Err("selected Avatar Studio project is not a file".to_owned());
    }
    if len > MAX_PROJECT_BYTES {
        return Err("Avatar Studio project exceeds 5242880 bytes".to_owned());
    }
    Ok(())
}

/// Inspects the text `source` of a chosen file named `file_name` (when the
/// name is known).
pub fn inspect_file_contents(
    source: String,
    file_name: Option<String>,
) -> (r: Result<AvatarProjectFileInspection, String>)
    ensures
        match inspection_of(source@, json_document(source@)) {
            Err(m) => r matches Err(e) && e@ == m,
            Ok(g) => r matches Ok(f) && {
                &&& f.source == source
                &&& crate::avatar::inspection_matches(f.inspection, g, source@)
                &&& f.file_name@ == match file_name {
                    Some(n) => n@,
                    None => "avatar-project.json"@,
                }
            },
        },
{
    let inspection = match inspect(source.as_str()) {
        Err(e) => return Err(e),
        Ok(i) => i,
    };
    let file_name = match file_name {
        Some(n) => n,
        None => "avatar-project.json".to_owned(),
    };
    Ok(AvatarProjectFileInspection { source, file_name, inspection })
}

/// The installations of `s` whose id is not `id`, in order.
pub open spec fn without_id(s: Seq<AvatarInstallation>, id: Seq<char>) -> Seq<AvatarInstallation>
    decreases s.len(),
{
    if s.len() == 0 {
        s
    } else if s.last().id@ == id {
        without_id(s.drop_last(), id)
    } else {
        without_id(s.drop_last(), id).push(s.last())
    }
}

/// How many installations of `s` have id `id`.
pub open spec fn count_id(s: Seq<AvatarInstallation>, id: Seq<char>) -> nat
    decreases s.len(),
{
    if s.len() == 0 {
        0
    } else {
        count_id(s.drop_last(), id) + if s.last().id@ == id { 1nat } else { 0nat }
    }
}

/// `x` put into the newest-first list `s`: after every installation as
/// new as it or newer, before the older ones.
pub open spec fn insert_by_recency(s: Seq<AvatarInstallation>, x: AvatarInstallation) -> Seq<AvatarInstallation>
    decreases s.len(),
{
    if s.len() == 0 {
        seq![x]
    } else if s.last().imported_at_ms >= x.imported_at_ms {
        s.push(x)
    } else {
        insert_by_recency(s.drop_last(), x).push(s.last())
    }
}

/// `s` sorted newest first, keeping the order of equally new installations
/// (a stable sort by descending import time).
pub open spec fn by_recency(s: Seq<AvatarInstallation>) -> Seq<AvatarInstallation>
    decreases s.len(),
{
    if s.len() == 0 {
        s
    } else {
        insert_by_recency(by_recency(s.drop_last()), s.last())
    }
}

/// Every installation of `s` is at least as new as those after it.
pub open spec fn newest_first(s: Seq<AvatarInstallation>) -> bool {
    forall|i: int, j: int| 0 <= i < j < s.len() ==> s[i].imported_at_ms >= s[j].imported_at_ms
}

proof fn lemma_insert_keeps_bound(s: Seq<AvatarInstallation>, x: AvatarInstallation, m: u64)
    requires
        forall|i: int| 0 <= i < s.len() ==> s[i].imported_at_ms >= m,
        x.imported_at_ms >= m,
    ensures
        insert_by_recency(s, x).len() == s.len() + 1,
        forall|i: int| 0 <= i < insert_by_recency(s, x).len() ==> insert_by_recency(s, x)[i].imported_at_ms >= m,
    decreases s.len(),
{
    if s.len() > 0 && s.last().imported_at_ms < x.imported_at_ms {
        lemma_insert_keeps_bound(s.drop_last(), x, m);
    }
}

proof fn lemma_insert_sorted(s: Seq<AvatarInstallation>, x: AvatarInstallation)
    requires
        newest_first(s),
    ensures
        newest_first(insert_by_recency(s, x)),
        insert_by_recency(s, x).len() == s.len() + 1,
    decreases s.len(),
{
    if s.len() == 0 {
    } else if s.last().imported_at_ms >= x.imported_at_ms {
    } else {
        let last = s.last();
        let t = insert_by_recency(s.drop_last(), x);
        lemma_insert_sorted(s.drop_last(), x);
        lemma_insert_keeps_bound(s.drop_last(), x, last.imported_at_ms);
        assert forall|i: int, j: int| 0 <= i < j < t.push(last).len() implies
            t.push(last)[i].imported_at_ms >= t.push(last)[j].imported_at_ms by {
            if j == t.len() {
                assert(t[i].imported_at_ms >= last.imported_at_ms);
            }
        }
    }
}

proof fn lemma_insert_count(s: Seq<AvatarInstallation>, x: AvatarInstallation, id: Seq<char>)
    ensures
        count_id(insert_by_recency(s, x), id) == count_id(s, id) + if x.id@ == id { 1nat } else { 0nat },
    decreases s.len(),
{
    if s.len() == 0 {
        assert(seq![x].drop_last() =~= Seq::<AvatarInstallation>::empty());
        assert(insert_by_recency(s, x) == seq![x]);
        assert(count_id(seq![x], id) == count_id(seq![x].drop_last(), id) + if x.id@ == id { 1nat } else { 0nat });
    } else if s.last().imported_at_ms >= x.imported_at_ms {
        assert(s.push(x).drop_last() =~= s);
        assert(count_id(s.push(x), id) == count_id(s, id) + if x.id@ == id { 1nat } else { 0nat });
    } else {
        let last = s.last();
        let t = insert_by_recency(s.drop_last(), x);
        lemma_insert_count(s.drop_last(), x, id);
        assert(t.push(last).drop_last() =~= t);
        assert(insert_by_recency(s, x) == t.push(last));
        assert(count_id(t.push(last), id) == count_id(t, id) + if last.id@ == id { 1nat } else { 0nat });
        assert(count_id(s, id) == count_id(s.drop_last(), id) + if last.id@ == id { 1nat } else { 0nat });
    }
}

/// Sorting newest first leaves the list sorted, as long, and with as many
/// installations of each id.
pub proof fn lemma_by_recency(s: Seq<AvatarInstallation>, id: Seq<char>)
    ensures
        newest_first(by_recency(s)),
        by_recency(s).len() == s.len(),
        count_id(by_recency(s), id) == count_id(s, id),
    decreases s.len(),
{
    if s.len() > 0 {
        lemma_by_recency(s.drop_last(), id);
        lemma_insert_sorted(by_recency(s.drop_last()), s.last());
        lemma_insert_count(by_recency(s.drop_last()), s.last(), id);
    }
}

proof fn lemma_without_id_count(s: Seq<AvatarInstallation>, id: Seq<char>)
    ensures
        count_id(without_id(s, id), id) == 0,
    decreases s.len(),
{
    if s.len() > 0 {
        lemma_without_id_count(s.drop_last(), id);
        if s.last().id@ != id {
            assert(without_id(s.drop_last(), id).push(s.last()).drop_last() =~= without_id(s.drop_last(), id));
        }
    }
}

/// Where `x` goes in the newest-first list `s`: at the first position whose
/// installation is older than it.
proof fn lemma_insert_at(s: Seq<AvatarInstallation>, x: AvatarInstallation, j: int)
    requires
        newest_first(s),
        0 <= j <= s.len(),
        forall|i: int| 0 <= i < j ==> s[i].imported_at_ms >= x.imported_at_ms,
        forall|i: int| j <= i < s.len() ==> s[i].imported_at_ms < x.imported_at_ms,
    ensures
        insert_by_recency(s, x) == s.insert(j, x),
    decreases s.len(),
{
    if s.len() == 0 {
        assert(s.insert(j, x) =~= seq![x]);
    } else if s.last().imported_at_ms >= x.imported_at_ms {
        assert(s.insert(j, x) =~= s.push(x));
    } else {
        lemma_insert_at(s.drop_last(), x, j);
        assert(s.drop_last().insert(j, x).push(s.last()) =~= s.insert(j, x));
    }
}

fn insert_newest_first(out: &mut Vec<AvatarInstallation>, x: AvatarInstallation)
    requires
        newest_first(old(out)@),
    ensures
        final(out)@ == insert_by_recency(old(out)@, x),
        newest_first(final(out)@),
{
    let mut j: usize = out.len();
    while j > 0 && out[j - 1].imported_at_ms < x.imported_at_ms
        invariant
            j <= out@.len(),
            newest_first(out@),
            forall|i: int| j <= i < out@.len() ==> out@[i].imported_at_ms < x.imported_at_ms,
        decreases j,
    {
        j -= 1;
    }
    proof {
        lemma_insert_at(out@, x, j as int);
        lemma_insert_sorted(out@, x);
    }
    out.insert(j, x);
}

/// Sorts installations newest first; equally new ones keep their order.
pub fn sort_by_recency(v: Vec<AvatarInstallation>) -> (r: Vec<AvatarInstallation>)
    ensures
        r@ == by_recency(v@),
        newest_first(r@),
{
    let ghost all = v@;
    let mut rest = v;
    let mut out: Vec<AvatarInstallation> = Vec::new();
    let ghost mut k: int = 0;
    while rest.len() > 0
        invariant
            0 <= k <= all.len(),
            rest@ == all.skip(k),
            out@ == by_recency(all.take(k)),
            newest_first(out@),
        decreases rest@.len(),
    {
        let x = rest.remove(0);
        proof {
            assert(all.take(k + 1).drop_last() =~= all.take(k));
            assert(x == all[k]);
        }
        insert_newest_first(&mut out, x);
        proof {
            k = k + 1;
        }
        assert(rest@ =~= all.skip(k));
    }
    assert(all.take(k) =~= all);
    out
}

fn drop_id(list: Vec<AvatarInstallation>, id: &str) -> (r: Vec<AvatarInstallation>)
    ensures
        r@ == without_id(list@, id@),
{
    let ghost all = list@;
    let mut rest = list;
    let mut kept: Vec<AvatarInstallation> = Vec::new();
    let ghost mut k: int = 0;
    while rest.len() > 0
        invariant
            0 <= k <= all.len(),
            rest@ == all.skip(k),
            kept@ == without_id(all.take(k), id@),
        decreases rest@.len(),
    {
        let x = rest.remove(0);
        proof {
            assert(all.take(k + 1).drop_last() =~= all.take(k));
            assert(x == all[k]);
        }
        if !str_equal(x.id.as_str(), id) {
            kept.push(x);
        }
        proof {
            k = k + 1;
        }
        assert(rest@ =~= all.skip(k));
    }
    assert(all.take(k) =~= all);
    kept
}

impl AvatarIndex {
    /// The index as it is kept on disk, or nothing where it was written by
    /// another version of the index format.
    pub fn usable(parsed: Option<AvatarIndex>) -> (r: Option<AvatarIndex>)
        ensures
            match parsed {
                Some(i) => if i.version == INDEX_VERSION { r == Some(i) } else { r is None },
                None => r is None,
            },
    {
        match parsed {
            Some(i) => if i.version == INDEX_VERSION { Some(i) } else { None },
            None => None,
        }
    }

    /// The index rebuilt from the installations found on disk.
    pub fn from_scan(installations: Vec<AvatarInstallation>) -> (r: AvatarIndex)
        ensures
            r.version == INDEX_VERSION,
            r.installations@ == by_recency(installations@),
    {
        AvatarIndex { version: INDEX_VERSION, installations: sort_by_recency(installations) }
    }

    /// Lists `installation`, in place of any entry with its id, and keeps
    /// the list newest first.
    pub fn record(&mut self, installation: AvatarInstallation)
        ensures
            final(self).version == old(self).version,
            final(self).installations@ == by_recency(
                without_id(old(self).installations@, installation.id@).push(installation),
            ),
    {
        let mut list: Vec<AvatarInstallation> = Vec::new();
        std::mem::swap(&mut list, &mut self.installations);
        let mut kept = drop_id(list, installation.id.as_str());
        kept.push(installation);
        self.installations = sort_by_recency(kept);
    }

    /// Puts `installation` in place of the first entry with its id.
    pub fn replace_entry(&mut self, installation: AvatarInstallation) -> (r: Result<(), String>)
        ensures
            (forall|i: int| 0 <= i < old(self).installations@.len()
                ==> (#[trigger] old(self).installations@[i]).id@ != installation.id@) ==> {
                &&& r matches Err(e) && e@ == "avatar installation is missing from index"@
                &&& final(self).installations@ == old(self).installations@
            },
            r is Ok ==> exists|i: int| {
                &&& 0 <= i < old(self).installations@.len()
                &&& (#[trigger] old(self).installations@[i]).id@ == installation.id@
                &&& forall|j: int| 0 <= j < i ==> (#[trigger] old(self).installations@[j]).id@ != installation.id@
                &&& final(self).installations@ == old(self).installations@.update(i, installation)
            },
            (exists|i: int| 0 <= i < old(self).installations@.len()
                && (#[trigger] old(self).installations@[i]).id@ == installation.id@) ==> r is Ok,
            final(self).version == old(self).version,
    {
        let mut i: usize = 0;
        while i < self.installations.len()
            invariant
                i <= self.installations@.len(),
                self.installations@ == old(self).installations@,
                self.version == old(self).version,
                forall|j: int| 0 <= j < i ==> (#[trigger] self.installations@[j]).id@ != installation.id@,
            decreases self.installations@.len() - i,
        {
            if str_equal(self.installations[i].id.as_str(), installation.id.as_str()) {
                self.installations[i] = installation;
                return Ok(());
            }
            i += 1;
        }
        Err("avatar installation is missing from index".to_owned())
    }

    /// Drops every entry with id `id`.
    pub fn forget(&mut self, id: &str)
        ensures
            final(self).version == old(self).version,
            final(self).installations@ == without_id(old(self).installations@, id@),
    {
        let mut list: Vec<AvatarInstallation> = Vec::new();
        std::mem::swap(&mut list, &mut self.installations);
        self.installations = drop_id(list, id);
    }
}

/// Installing a project lists it exactly once, however often it was
/// installed before, and keeps the index newest first.
pub proof fn law_install_lists_project_once(installations: Seq<AvatarInstallation>, installation: AvatarInstallation)
    ensures
        count_id(by_recency(without_id(installations, installation.id@).push(installation)), installation.id@) == 1,
        newest_first(by_recency(without_id(installations, installation.id@).push(installation))),
{
    let s = without_id(installations, installation.id@);
    lemma_without_id_count(installations, installation.id@);
    lemma_by_recency(s.push(installation), installation.id@);
    assert(s.push(installation).drop_last() =~= s);
}

/// A removed installation is no longer listed.
pub proof fn law_removed_installation_is_not_listed(installations: Seq<AvatarInstallation>, id: Seq<char>)
    ensures
        count_id(without_id(installations, id), id) == 0,
{
    lemma_without_id_count(installations, id);
}

/// The tray entry of an installation: its menu id, and its project's name
/// with the chosen avatar's name (or "Avatar" when that avatar is gone).
pub fn menu_entry(installation: &AvatarInstallation) -> (r: (String, String))
    ensures
        r.0@ == "avatar:"@ + installation.id@,
        r.1@ == installation.summary.display_name@ + " · "@ + chosen_avatar_name(installation.summary, installation.selected_avatar_id@),
{
    let id = concat_str("avatar:", installation.id.as_str());
    let head = concat_str(installation.summary.display_name.as_str(), " · ");
    let label = match find_avatar(&installation.summary, installation.selected_avatar_id.as_str()) {
        Some(i) => {
            proof {
                let s = installation.summary;
                let a = installation.selected_avatar_id@;
                let c = choose|c: int| 0 <= c < s.avatars@.len() && (#[trigger] s.avatars@[c]).id@ == a
                    && forall|j: int| 0 <= j < c ==> (#[trigger] s.avatars@[j]).id@ != a;
                assert(0 <= i < s.avatars@.len() && s.avatars@[i as int].id@ == a
                    && forall|j: int| 0 <= j < i ==> (#[trigger] s.avatars@[j]).id@ != a);
                assert(has_avatar(s, a));
                if c < i {
                    assert(s.avatars@[c].id@ != a);
                } else if c > i {
                    assert(s.avatars@[i as int].id@ != a);
                }
                assert(c == i);
            }
            concat_str(head.as_str(), installation.summary.avatars[i].name.as_str())
        },
        None => concat_str(head.as_str(), "Avatar"),
    };
    (id, label)
}

/// The name of the first avatar of `summary` with id `avatar_id`, else
/// "Avatar".
pub open spec fn chosen_avatar_name(summary: AvatarProjectInspection, avatar_id: Seq<char>) -> Seq<char> {
    if has_avatar(summary, avatar_id) {
        let i = choose|i: int| 0 <= i < summary.avatars@.len() && (#[trigger] summary.avatars@[i]).id@ == avatar_id
            && forall|j: int| 0 <= j < i ==> (#[trigger] summary.avatars@[j]).id@ != avatar_id;
        summary.avatars@[i].name@
    } else {
        "Avatar"@
    }
}

/// The position of the first installation with id `id`.
pub fn installation_index(installations: &Vec<AvatarInstallation>, id: &str) -> (r: Result<usize, String>)
    ensures
        (forall|i: int| 0 <= i < installations@.len() ==> (#[trigger] installations@[i]).id@ != id@)
            ==> (r matches Err(e) && e@ == "avatar installation was not found"@),
        r matches Ok(i) ==> i < installations@.len() && installations@[i as int].id@ == id@
            && forall|j: int| 0 <= j < i ==> (#[trigger] installations@[j]).id@ != id@,
        (exists|i: int| 0 <= i < installations@.len() && (#[trigger] installations@[i]).id@ == id@) ==> r is Ok,
{
    let mut i: usize = 0;
    while i < installations.len()
        invariant
            i <= installations@.len(),
            forall|j: int| 0 <= j < i ==> (#[trigger] installations@[j]).id@ != id@,
        decreases installations@.len() - i,
    {
        if str_equal(installations[i].id.as_str(), id) {
            return Ok(i);
        }
        i += 1;
    }
    Err("avatar installation was not found".to_owned())
}

/// A choice of avatar names both an installation and an avatar in it, or
/// neither (the built-in avatar). Tells which.
pub fn check_avatar_choice(installation_id: &Option<String>, avatar_id: &Option<String>) -> (r: Result<bool, String>)
    ensures
        installation_id is Some && avatar_id is Some ==> r == Ok::<bool, String>(true),
        installation_id is None && avatar_id is None ==> r == Ok::<bool, String>(false),
        installation_id is Some != avatar_id is Some ==> (r matches Err(e)
            && e@ == "installationId and avatarId must both be set or both be null"@),
{
    match (installation_id, avatar_id) {
        (Some(_), Some(_)) => Ok(true),
        (None, None) => Ok(false),
        _ => Err("installationId and avatarId must both be set or both be null".to_owned()),
    }
}

/// The active installation cannot be removed.
pub fn check_removable(active: &Option<String>, installation_id: &str) -> (r: Result<(), String>)
    ensures
        (active matches Some(a) && a@ == installation_id@) ==> (r matches Err(e)
            && e@ == "cannot remove the active avatar installation"@),
        !(active matches Some(a) && a@ == installation_id@) ==> r is Ok,
{
    match active {
        Some(a) => if str_equal(a.as_str(), installation_id) {
            Err("cannot remove the active avatar installation".to_owned())
        } else {
            Ok(())
        },
        None => Ok(()),
    }
}

} // verus!
