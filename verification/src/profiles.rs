//! Discovery of raw profiles, and their merge into one profile.

use vstd::prelude::*;
use vstd::slice::slice_to_vec;
use vstd::string::*;
use vstd::utf8::*;

use crate::cargo::{
    no_diagnostics, show_words, shown, BoundedDiagnostics, DiagnosticsView, StreamRead,
};
use crate::order::{
    arrange, byte_order, key_before, lemma_byte_order_exists, lemma_picked_multiset, order_keys,
    picked,
};
use crate::paths::{
    component_key, extension, extension_of, law_path_keys_order_components, lies_within, parent,
    parent_path, parts, parts_le, path_key, same_path, starts_with,
};
use crate::prerequisites::TOOL_OUTPUT_LIMIT;
use crate::text::{
    bounded_prefix, bounded_text, byte_len, byte_strings, is_white_space, lemma_ascii_bytes, lossy,
    lossy_text, optional_text, same_bytes, same_text, text2, text4, texts, trim, trimmed,
    trimmed_end, trimmed_start,
};

verus! {

/// The most raw profiles that one training may produce.
pub const PROFILE_FILE_LIMIT: usize = 10_000;

/// One raw profile.
#[derive(Debug)]
pub struct ProfileFileRecord {
    pub path: Vec<u8>,
    pub size_bytes: u64,
    pub sha256: String,
}

/// One raw profile, as sequences.
pub struct ProfileView {
    pub path: Seq<u8>,
    pub size_bytes: u64,
    pub sha256: Seq<char>,
}

impl View for ProfileFileRecord {
    type V = ProfileView;

    open spec fn view(&self) -> ProfileView {
        ProfileView { path: self.path@, size_bytes: self.size_bytes, sha256: self.sha256@ }
    }
}

impl Clone for ProfileFileRecord {
    fn clone(&self) -> (copy: ProfileFileRecord)
        ensures
            copy@ == self@,
    {
        ProfileFileRecord {
            path: self.path.clone(),
            size_bytes: self.size_bytes,
            sha256: self.sha256.clone(),
        }
    }
}

/// The views of raw profiles.
pub open spec fn profile_views(profiles: Seq<ProfileFileRecord>) -> Seq<ProfileView> {
    profiles.map_values(|profile: ProfileFileRecord| profile@)
}

/// What a directory entry is, without following links.
#[derive(Clone, Copy, Debug, PartialEq, Eq, Structural)]
pub enum EntryKind {
    Symlink,
    Directory,
    File,
    Other,
}

/// What the file system says of a file that is taken for a raw profile.
#[derive(Debug)]
pub struct ProfileFacts {
    pub canonical: Result<Vec<u8>, String>,
    /// Whether the canonical path is a regular file, and its length.
    pub metadata: Result<(bool, u64), String>,
    pub sha256: Result<String, String>,
}

/// One entry of a profile directory.
#[derive(Debug)]
pub enum ProfileEntry {
    /// The entry could not be read.
    Unreadable(String),
    /// Its type could not be read.
    Untyped(String),
    Found { path: Vec<u8>, kind: EntryKind, facts: ProfileFacts },
}

/// A walk through the profile directories: the directories still to be listed, the next one last,
/// and the raw profiles found so far.
#[derive(Debug)]
pub struct ProfileWalk {
    pub root: Vec<u8>,
    pub pending: Vec<Vec<u8>>,
    pub profiles: Vec<ProfileFileRecord>,
}

/// A walk, as sequences.
#[verifier::ext_equal]
pub struct WalkView {
    pub root: Seq<u8>,
    pub pending: Seq<Seq<u8>>,
    pub profiles: Seq<ProfileView>,
}

impl View for ProfileWalk {
    type V = WalkView;

    open spec fn view(&self) -> WalkView {
        WalkView {
            root: self.root@,
            pending: byte_strings(self.pending@),
            profiles: profile_views(self.profiles@),
        }
    }
}

/// What the file system says of the profile root.
#[derive(Debug)]
pub struct RootProbe {
    /// What it is, without following links.
    pub kind: Result<EntryKind, String>,
    pub canonical: Result<Vec<u8>, String>,
}

/// The walk that starts at a root, or why none can.
pub open spec fn walk_start(probe: RootProbe) -> Result<WalkView, Seq<char>> {
    match probe.kind {
        Err(error) => Err("Could not inspect PGO profile root: "@ + error@),
        Ok(kind) => if kind != EntryKind::Directory {
            Err("PGO profile root must be a regular directory."@)
        } else {
            match probe.canonical {
                Err(error) => Err("Could not canonicalize PGO profile root: "@ + error@),
                Ok(root) => Ok(
                    WalkView { root: root@, pending: seq![root@], profiles: Seq::empty() },
                ),
            }
        },
    }
}

/// The raw profile that a file is, or why it is refused.
pub open spec fn profile_of_file(root: Seq<u8>, kind: EntryKind, facts: ProfileFacts) -> Result<
    ProfileView,
    Seq<char>,
> {
    if kind != EntryKind::File {
        Err("PGO raw profiles must be regular files."@)
    } else {
        match facts.canonical {
            Err(error) => Err("Could not canonicalize PGO raw profile: "@ + error@),
            Ok(path) => if !lies_within(path@, root) {
                Err("PGO raw profile escaped the run profile directory."@)
            } else {
                match facts.metadata {
                    Err(error) => Err("Could not inspect PGO raw profile: "@ + error@),
                    Ok(metadata) => if !metadata.0 {
                        Err("PGO raw profiles must be regular files."@)
                    } else {
                        match facts.sha256 {
                            Err(error) => Err("Could not hash PGO raw profile: "@ + error@),
                            Ok(sha256) => Ok(
                                ProfileView {
                                    path: path@,
                                    size_bytes: metadata.1,
                                    sha256: sha256@,
                                },
                            ),
                        }
                    },
                }
            },
        }
    }
}

/// The walk after one entry, or why it is given up.
pub open spec fn walked_entry(walk: WalkView, entry: ProfileEntry) -> Result<WalkView, Seq<char>> {
    match entry {
        ProfileEntry::Unreadable(error) => Err("Could not inspect PGO profile: "@ + error@),
        ProfileEntry::Untyped(error) => Err("Could not inspect PGO profile type: "@ + error@),
        ProfileEntry::Found { path, kind, facts } => if kind == EntryKind::Symlink {
            Err("PGO profile discovery rejected a symbolic link."@)
        } else if kind == EntryKind::Directory {
            Ok(WalkView { pending: walk.pending.push(path@), ..walk })
        } else if extension_of(path@) != Some(encode_utf8("profraw"@)) {
            Ok(walk)
        } else {
            match profile_of_file(walk.root, kind, facts) {
                Err(message) => Err(message),
                Ok(profile) => if walk.profiles.len() >= PROFILE_FILE_LIMIT {
                    Err("PGO training produced more than 10000 profile files."@)
                } else {
                    Ok(WalkView { profiles: walk.profiles.push(profile), ..walk })
                },
            }
        },
    }
}

/// The walk after the first `count` entries of a listing, or why it is given up.
pub open spec fn walked_entries(walk: WalkView, entries: Seq<ProfileEntry>, count: int) -> Result<
    WalkView,
    Seq<char>,
>
    decreases count,
{
    if count <= 0 {
        Ok(walk)
    } else {
        match walked_entries(walk, entries, count - 1) {
            Err(message) => Err(message),
            Ok(earlier) => walked_entry(earlier, entries[count - 1]),
        }
    }
}

proof fn lemma_walked_prefix(
    walk: WalkView,
    entries: Seq<ProfileEntry>,
    shorter: int,
    longer: int,
)
    requires
        0 <= shorter <= longer,
        walked_entries(walk, entries, shorter) is Err,
    ensures
        walked_entries(walk, entries, longer) == walked_entries(walk, entries, shorter),
    decreases longer - shorter,
{
    if shorter < longer {
        lemma_walked_prefix(walk, entries, shorter, longer - 1);
    }
}

/// The walk after one directory was listed, or why it is given up.
pub open spec fn walked_directory(
    walk: WalkView,
    directory: Seq<u8>,
    listing: Result<Vec<ProfileEntry>, String>,
) -> Result<WalkView, Seq<char>> {
    match listing {
        Err(error) => Err(
            "Could not inspect PGO profile directory "@ + lossy_text(directory) + ": "@ + error@,
        ),
        Ok(entries) => walked_entries(walk, entries@, entries@.len() as int),
    }
}

/// The profiles of a finished walk, in the order of their path components.
pub open spec fn ordered_profiles(profiles: Seq<ProfileView>) -> Seq<ProfileView> {
    picked(
        profiles,
        byte_order(profiles.map_values(|profile: ProfileView| component_key(profile.path))),
    )
}

fn read_profile(root: &[u8], kind: EntryKind, facts: ProfileFacts) -> (profile: Result<
    ProfileFileRecord,
    String,
>)
    ensures
        match profile {
            Ok(found) => profile_of_file(root@, kind, facts) == Ok::<ProfileView, Seq<char>>(
                found@,
            ),
            Err(message) => profile_of_file(root@, kind, facts) == Err::<ProfileView, Seq<char>>(
                message@,
            ),
        },
{
    if kind != EntryKind::File {
        return Err("PGO raw profiles must be regular files.".to_owned());
    }
    let path = match facts.canonical {
        Ok(path) => path,
        Err(error) => return Err(
            text2("Could not canonicalize PGO raw profile: ", error.as_str()),
        ),
    };
    if !starts_with(path.as_slice(), root) {
        return Err("PGO raw profile escaped the run profile directory.".to_owned());
    }
    let (regular, size_bytes): (bool, u64) = match facts.metadata {
        Ok(metadata) => metadata,
        Err(error) => return Err(text2("Could not inspect PGO raw profile: ", error.as_str())),
    };
    if !regular {
        return Err("PGO raw profiles must be regular files.".to_owned());
    }
    match facts.sha256 {
        Ok(sha256) => Ok(ProfileFileRecord { path, size_bytes, sha256 }),
        Err(error) => Err(text2("Could not hash PGO raw profile: ", error.as_str())),
    }
}

impl ProfileWalk {
    /// Starts a walk at the profile root.
    pub fn start(probe: RootProbe) -> (walk: Result<ProfileWalk, String>)
        ensures
            match walk {
                Ok(found) => walk_start(probe) == Ok::<WalkView, Seq<char>>(found@),
                Err(message) => walk_start(probe) == Err::<WalkView, Seq<char>>(message@),
            },
    {
        let kind: EntryKind = match probe.kind {
            Ok(kind) => kind,
            Err(error) => return Err(
                text2("Could not inspect PGO profile root: ", error.as_str()),
            ),
        };
        if kind != EntryKind::Directory {
            return Err("PGO profile root must be a regular directory.".to_owned());
        }
        let root = match probe.canonical {
            Ok(path) => path,
            Err(error) => return Err(
                text2("Could not canonicalize PGO profile root: ", error.as_str()),
            ),
        };
        let mut pending: Vec<Vec<u8>> = Vec::new();
        pending.push(root.clone());
        let walk = ProfileWalk { root, pending, profiles: Vec::new() };
        assert(walk@.pending =~= seq![root@]);
        assert(walk@.profiles =~= Seq::<ProfileView>::empty());
        Ok(walk)
    }

    /// The directory to list next.
    pub fn next_directory(&mut self) -> (directory: Option<Vec<u8>>)
        ensures
            match directory {
                Some(found) => {
                    &&& old(self)@.pending.len() > 0
                    &&& found@ == old(self)@.pending.last()
                    &&& final(self)@ == (WalkView {
                        pending: old(self)@.pending.drop_last(),
                        ..old(self)@
                    })
                },
                None => old(self)@.pending.len() == 0 && final(self)@ == old(self)@,
            },
    {
        let ghost before = self.pending@;
        assert(byte_strings(before).len() == before.len());
        let directory = self.pending.pop();
        proof {
            if before.len() > 0 {
                assert(byte_strings(self.pending@) =~= byte_strings(before).drop_last());
            }
        }
        directory
    }

    fn take_entry(&mut self, entry: ProfileEntry) -> (taken: Result<(), String>)
        ensures
            match taken {
                Ok(_) => walked_entry(old(self)@, entry) == Ok::<WalkView, Seq<char>>(
                    final(self)@,
                ),
                Err(message) => walked_entry(old(self)@, entry) == Err::<WalkView, Seq<char>>(
                    message@,
                ),
            },
    {
        match entry {
            ProfileEntry::Unreadable(error) => Err(
                text2("Could not inspect PGO profile: ", error.as_str()),
            ),
            ProfileEntry::Untyped(error) => Err(
                text2("Could not inspect PGO profile type: ", error.as_str()),
            ),
            ProfileEntry::Found { path, kind, facts } => {
                if kind == EntryKind::Symlink {
                    return Err("PGO profile discovery rejected a symbolic link.".to_owned());
                }
                if kind == EntryKind::Directory {
                    self.pending.push(path);
                    assert(byte_strings(self.pending@) =~= byte_strings(old(self).pending@).push(
                        path@,
                    ));
                    return Ok(());
                }
                let raw: bool = match extension(path.as_slice()) {
                    Some(found) => same_bytes(found.as_slice(), "profraw".as_bytes()),
                    None => false,
                };
                if !raw {
                    return Ok(());
                }
                match read_profile(self.root.as_slice(), kind, facts) {
                    Err(message) => Err(message),
                    Ok(profile) => {
                        if self.profiles.len() >= PROFILE_FILE_LIMIT {
                            return Err(
                                "PGO training produced more than 10000 profile files.".to_owned(),
                            );
                        }
                        self.profiles.push(profile);
                        assert(profile_views(self.profiles@) =~= profile_views(
                            old(self).profiles@,
                        ).push(profile@));
                        Ok(())
                    },
                }
            },
        }
    }

    /// Takes the listing of a directory.
    pub fn take_listing(
        &mut self,
        directory: &[u8],
        listing: Result<Vec<ProfileEntry>, String>,
    ) -> (taken: Result<(), String>)
        ensures
            match taken {
                Ok(_) => walked_directory(old(self)@, directory@, listing) == Ok::<
                    WalkView,
                    Seq<char>,
                >(final(self)@),
                Err(message) => walked_directory(old(self)@, directory@, listing) == Err::<
                    WalkView,
                    Seq<char>,
                >(message@),
            },
    {
        let entries = match listing {
            Ok(entries) => entries,
            Err(error) => return Err(
                text4(
                    "Could not inspect PGO profile directory ",
                    lossy(directory).as_str(),
                    ": ",
                    error.as_str(),
                ),
            ),
        };
        let ghost start = self@;
        let ghost all = entries@;
        let mut left = entries;
        // The entries are taken from the front; the rest keeps their order.
        let mut index: usize = 0;
        let total: usize = left.len();
        let mut reversed: Vec<ProfileEntry> = Vec::new();
        while index < total
            invariant
                index <= total == all.len(),
                left@ == all.take(total - index),
                reversed@.len() == index,
                forall|i: int| 0 <= i < index ==> reversed@[i] == all[total - 1 - i],
            decreases total - index,
        {
            match left.pop() {
                Some(entry) => {
                    reversed.push(entry);
                },
                None => {},
            }
            assert(left@ =~= all.take(total - index - 1));
            index = index + 1;
        }
        let mut done: usize = 0;
        while done < total
            invariant
                done <= total == all.len(),
                start == old(self)@,
                listing is Ok,
                listing->Ok_0@ == all,
                reversed@.len() == total - done,
                forall|i: int| 0 <= i < total - done ==> reversed@[i] == all[total - 1 - i],
                walked_entries(start, all, done as int) == Ok::<WalkView, Seq<char>>(self@),
            decreases total - done,
        {
            match reversed.pop() {
                Some(entry) => {
                    assert(entry == all[done as int]);
                    match self.take_entry(entry) {
                        Ok(_) => {},
                        Err(message) => {
                            proof {
                                lemma_walked_prefix(start, all, done + 1, total as int);
                            }
                            return Err(message);
                        },
                    }
                },
                None => {},
            }
            done = done + 1;
        }
        Ok(())
    }

    /// The profiles of a finished walk, in the order of their path components.
    pub fn finish(self) -> (profiles: Vec<ProfileFileRecord>)
        ensures
            profile_views(profiles@) == ordered_profiles(self@.profiles),
    {
        let profiles = self.profiles;
        let ghost all = profiles@;
        let mut keys: Vec<Vec<u8>> = Vec::new();
        let mut index: usize = 0;
        while index < profiles.len()
            invariant
                index <= profiles@.len(),
                keys@.len() == index,
                forall|i: int|
                    0 <= i < index ==> (#[trigger] keys@[i])@ == component_key(
                        profiles@[i].path@,
                    ),
            decreases profiles@.len() - index,
        {
            keys.push(path_key(profiles[index].path.as_slice()));
            index = index + 1;
        }
        assert(byte_strings(keys@) =~= profile_views(all).map_values(
            |profile: ProfileView| component_key(profile.path),
        ));
        let order = order_keys(&keys);
        let arranged = arrange(profiles, &order);
        assert(profile_views(arranged@) =~= ordered_profiles(profile_views(all))) by {
            assert forall|i: int| 0 <= i < arranged@.len() implies profile_views(arranged@)[i]
                == ordered_profiles(profile_views(all))[i] by {
                assert(arranged@[i] == all[order@[i] as int]);
                assert(profile_views(all)[order@[i] as int] == all[order@[i] as int]@);
            }
        }
        arranged
    }
}

/// Every profile of a walk lies within its root, whatever was listed.
pub open spec fn contained(walk: WalkView) -> bool {
    &&& walk.profiles.len() <= PROFILE_FILE_LIMIT
    &&& forall|i: int|
        0 <= i < walk.profiles.len() ==> lies_within(
            (#[trigger] walk.profiles[i]).path,
            walk.root,
        )
}

/// A walk never collects a profile outside its root, nor more than the limit.
pub proof fn law_profiles_stay_inside_the_run(
    walk: WalkView,
    directory: Seq<u8>,
    listing: Result<Vec<ProfileEntry>, String>,
)
    requires
        contained(walk),
        walked_directory(walk, directory, listing) is Ok,
    ensures
        contained(walked_directory(walk, directory, listing)->Ok_0),
        walked_directory(walk, directory, listing)->Ok_0.root == walk.root,
{
    lemma_entries_contained(walk, listing->Ok_0@, listing->Ok_0@.len() as int);
}

proof fn lemma_entries_contained(walk: WalkView, entries: Seq<ProfileEntry>, count: int)
    requires
        contained(walk),
        0 <= count,
        walked_entries(walk, entries, count) is Ok,
    ensures
        contained(walked_entries(walk, entries, count)->Ok_0),
        walked_entries(walk, entries, count)->Ok_0.root == walk.root,
    decreases count,
{
    if count > 0 {
        lemma_entries_contained(walk, entries, count - 1);
    }
}

/// Output of a tool, cut to a bounded length.
#[derive(Debug)]
pub struct BoundedToolStream {
    pub bytes: Vec<u8>,
    pub truncated: bool,
}

/// The bytes that a bounded stream keeps of `found`, and whether it is cut.
pub open spec fn kept(bytes: Seq<u8>, truncated: bool, found: Seq<u8>) -> (Seq<u8>, bool) {
    let room = if bytes.len() >= TOOL_OUTPUT_LIMIT {
        0
    } else {
        TOOL_OUTPUT_LIMIT - bytes.len()
    };
    if found.len() <= room {
        (bytes + found, truncated)
    } else {
        (bytes + found.take(room), true)
    }
}

/// A bounded stream after one read.
pub open spec fn drained_tool(bytes: Seq<u8>, truncated: bool, read: StreamRead) -> (
    Seq<u8>,
    bool,
) {
    match read {
        StreamRead::Ended => (bytes, truncated),
        StreamRead::Chunk(found) => kept(bytes, truncated, found@),
        StreamRead::Failed(error) => kept(
            bytes,
            truncated,
            encode_utf8("Could not read tool diagnostics: "@ + error@),
        ),
    }
}

impl BoundedToolStream {
    pub fn new() -> (stream: BoundedToolStream)
        ensures
            stream.bytes@ == Seq::<u8>::empty(),
            !stream.truncated,
    {
        BoundedToolStream { bytes: Vec::new(), truncated: false }
    }

    fn keep(&mut self, found: &[u8])
        ensures
            (final(self).bytes@, final(self).truncated) == kept(
                old(self).bytes@,
                old(self).truncated,
                found@,
            ),
    {
        let length: usize = self.bytes.len();
        let room: usize = if length >= TOOL_OUTPUT_LIMIT {
            0
        } else {
            TOOL_OUTPUT_LIMIT - length
        };
        let total: usize = found.len();
        if total <= room {
            let mut all = slice_to_vec(found);
            self.bytes.append(&mut all);
        } else {
            let mut retained = slice_to_vec(&found[0..room]);
            assert(found@.subrange(0, room as int) =~= found@.take(room as int));
            self.bytes.append(&mut retained);
            self.truncated = true;
        }
    }

    /// Takes one read, and says whether another is due.
    pub fn drain(&mut self, read: &StreamRead) -> (more: bool)
        ensures
            (final(self).bytes@, final(self).truncated) == drained_tool(
                old(self).bytes@,
                old(self).truncated,
                *read,
            ),
            more == (read is Chunk),
    {
        match read {
            StreamRead::Ended => false,
            StreamRead::Chunk(found) => {
                self.keep(found.as_slice());
                true
            },
            StreamRead::Failed(error) => {
                let message = text2("Could not read tool diagnostics: ", error.as_str());
                self.keep(message.as_str().as_bytes());
                false
            },
        }
    }
}

/// Diagnostics with one labelled stream more, as far as there is room.
pub open spec fn labelled(
    diagnostics: DiagnosticsView,
    label: Seq<char>,
    bytes: Seq<u8>,
) -> DiagnosticsView {
    let prefix = label + ": "@;
    let separator = if diagnostics.text.len() == 0 {
        Seq::empty()
    } else {
        seq!['\n']
    };
    let taken = byte_len(diagnostics.text) + separator.len() + byte_len(prefix);
    let text = lossy_text(bytes);
    if bytes.len() == 0 {
        diagnostics
    } else if taken >= TOOL_OUTPUT_LIMIT {
        DiagnosticsView { text: diagnostics.text, truncated: true }
    } else {
        let found = bounded_text(text, (TOOL_OUTPUT_LIMIT - taken) as nat);
        DiagnosticsView {
            text: diagnostics.text + separator + prefix + found,
            truncated: diagnostics.truncated || found != text,
        }
    }
}

fn push_labelled(diagnostics: &mut BoundedDiagnostics, label: &str, bytes: &[u8])
    ensures
        final(diagnostics)@ == labelled(old(diagnostics)@, label@, bytes@),
{
    if bytes.len() == 0 {
        return;
    }
    let text = lossy(bytes);
    let prefix = text2(label, ": ");
    let length: usize = diagnostics.text.as_str().as_bytes().len();
    let empty: bool = length == 0;
    proof {
        lemma_no_bytes(diagnostics.text@);
    }
    let needed: usize = prefix.as_str().as_bytes().len();
    let left: usize = if length >= TOOL_OUTPUT_LIMIT {
        0
    } else if empty {
        TOOL_OUTPUT_LIMIT
    } else {
        TOOL_OUTPUT_LIMIT - length - 1
    };
    if needed >= left {
        diagnostics.truncated = true;
        return;
    }
    if !empty {
        diagnostics.text.push('\n');
    }
    diagnostics.text.append(prefix.as_str());
    let found = bounded_prefix(text.as_str(), left - needed);
    diagnostics.text.append(found.as_str());
    if !same_text(found.as_str(), text.as_str()) {
        diagnostics.truncated = true;
    }
    assert(diagnostics@ =~= labelled(old(diagnostics)@, label@, bytes@));
}

proof fn lemma_no_bytes(text: Seq<char>)
    ensures
        byte_len(text) == 0 <==> text.len() == 0,
{
    reveal_with_fuel(encode_utf8, 2);
    if text.len() > 0 {
        assert(encode_utf8(text).len() >= encode_scalar(text[0] as u32).len());
    }
}

/// The diagnostics of a tool's two streams.
pub open spec fn tool_diagnostics(stdout: Seq<u8>, stderr: Seq<u8>) -> DiagnosticsView {
    labelled(
        labelled(no_diagnostics(), "stdout"@, stdout),
        "stderr"@,
        stderr,
    )
}

/// The diagnostics of a tool's two streams.
pub fn bounded_diagnostics(stdout: &[u8], stderr: &[u8]) -> (diagnostics: BoundedDiagnostics)
    ensures
        diagnostics@ == tool_diagnostics(stdout@, stderr@),
{
    let mut diagnostics = BoundedDiagnostics::new();
    push_labelled(&mut diagnostics, "stdout", stdout);
    push_labelled(&mut diagnostics, "stderr", stderr);
    diagnostics
}

#[derive(Clone, Copy, Debug, PartialEq, Eq, Structural)]
pub enum ProfileMergeOutcome {
    Merged,
    Rejected,
}

/// One merge of raw profiles.
#[derive(Debug)]
pub struct ProfileMergeRecord {
    pub outcome: ProfileMergeOutcome,
    pub llvm_profdata_path: Vec<u8>,
    pub arguments: Vec<String>,
    pub profraw_files: Vec<ProfileFileRecord>,
    pub profdata_path: Vec<u8>,
    pub profdata_size_bytes: Option<u64>,
    pub profdata_sha256: Option<String>,
    pub bounded_diagnostics: String,
    pub diagnostics_truncated: bool,
    pub message: Option<String>,
}

/// What the file system says of the place of the merged profile before the merge.
#[derive(Debug)]
pub struct OutputPlace {
    /// The canonical run directory of the profiles.
    pub canonical_directory: Result<Vec<u8>, String>,
    /// The canonical directory of the merged profile.
    pub canonical_parent: Result<Vec<u8>, String>,
    /// Whether something lies at the path already.
    pub existing: Result<bool, String>,
}

/// How the merge process went.
#[derive(Debug)]
pub enum MergeProcess {
    NotStarted(String),
    StdoutUnavailable,
    StderrUnavailable,
    Ran {
        stdout: Option<BoundedToolStream>,
        stderr: Option<BoundedToolStream>,
        wait: Result<bool, String>,
    },
}

/// What the file system says of the merged profile.
#[derive(Debug)]
pub struct MergedProbe {
    /// What lies there, without following links, and its length.
    pub metadata: Result<(EntryKind, u64), String>,
    pub canonical: Result<Vec<u8>, String>,
    pub sha256: Result<String, String>,
}

/// The arguments of a merge.
pub open spec fn merge_words(profdata_path: Seq<u8>, profiles: Seq<ProfileView>) -> Seq<Seq<u8>> {
    seq![
        encode_utf8("merge"@),
        encode_utf8("--failure-mode=any"@),
        encode_utf8("-o"@),
        profdata_path,
    ] + profiles.map_values(|profile: ProfileView| profile.path)
}

/// The arguments of a merge.
pub fn merge_arguments(profdata_path: &[u8], profiles: &Vec<ProfileFileRecord>) -> (words: Vec<
    Vec<u8>,
>)
    ensures
        byte_strings(words@) == merge_words(profdata_path@, profile_views(profiles@)),
{
    let mut words: Vec<Vec<u8>> = Vec::new();
    words.push(slice_to_vec("merge".as_bytes()));
    words.push(slice_to_vec("--failure-mode=any".as_bytes()));
    words.push(slice_to_vec("-o".as_bytes()));
    words.push(slice_to_vec(profdata_path));
    let ghost expected = merge_words(profdata_path@, profile_views(profiles@));
    let mut index: usize = 0;
    while index < profiles.len()
        invariant
            index <= profiles@.len(),
            words@.len() == index + 4,
            expected == merge_words(profdata_path@, profile_views(profiles@)),
            forall|i: int| 0 <= i < index + 4 ==> (#[trigger] words@[i])@ == expected[i],
        decreases profiles@.len() - index,
    {
        words.push(profiles[index].path.clone());
        assert(profile_views(profiles@)[index as int] == profiles@[index as int]@);
        assert(expected[index + 4] == profiles@[index as int].path@);
        index = index + 1;
    }
    assert(byte_strings(words@) =~= expected);
    words
}

/// Why a merge may not start.
pub open spec fn place_refusal(profdata_path: Seq<u8>, place: OutputPlace) -> Option<Seq<char>> {
    match place.canonical_directory {
        Err(error) => Some("PGO directory could not be canonicalized: "@ + error@),
        Ok(directory) => if parent_path(profdata_path) is None {
            Some("Merged PGO profile has no parent directory."@)
        } else {
            match place.canonical_parent {
                Err(error) => Some(
                    "Merged PGO profile parent could not be canonicalized: "@ + error@,
                ),
                Ok(found) => if parts(found@) != parts(directory@) {
                    Some("Merged PGO profile path escaped the run PGO directory."@)
                } else {
                    match place.existing {
                        Err(error) => Some(
                            "Merged PGO profile output could not be inspected before merge: "@
                                + error@,
                        ),
                        Ok(present) => if present {
                            Some("Merged PGO profile output already exists before merge."@)
                        } else {
                            None
                        },
                    }
                },
            }
        },
    }
}

/// Decides whether a merge may start.
pub fn check_output_place(profdata_path: &[u8], place: &OutputPlace) -> (refusal: Option<String>)
    ensures
        optional_text(refusal) == place_refusal(profdata_path@, *place),
{
    let directory = match &place.canonical_directory {
        Ok(path) => path,
        Err(error) => return Some(
            text2("PGO directory could not be canonicalized: ", error.as_str()),
        ),
    };
    if parent(profdata_path).is_none() {
        return Some("Merged PGO profile has no parent directory.".to_owned());
    }
    let found = match &place.canonical_parent {
        Ok(path) => path,
        Err(error) => return Some(
            text2("Merged PGO profile parent could not be canonicalized: ", error.as_str()),
        ),
    };
    if !same_path(found.as_slice(), directory.as_slice()) {
        return Some("Merged PGO profile path escaped the run PGO directory.".to_owned());
    }
    match &place.existing {
        Err(error) => Some(
            text2(
                "Merged PGO profile output could not be inspected before merge: ",
                error.as_str(),
            ),
        ),
        Ok(present) => if *present {
            Some("Merged PGO profile output already exists before merge.".to_owned())
        } else {
            None
        },
    }
}

/// What a merge process said, and what is wrong with it.
pub open spec fn process_outcome(process: MergeProcess) -> (DiagnosticsView, Option<Seq<char>>) {
    let silent = no_diagnostics();
    match process {
        MergeProcess::NotStarted(error) => (
            silent,
            Some("llvm-profdata merge could not start: "@ + error@),
        ),
        MergeProcess::StdoutUnavailable => (
            silent,
            Some("llvm-profdata merge stdout was unavailable."@),
        ),
        MergeProcess::StderrUnavailable => (
            silent,
            Some("llvm-profdata merge stderr was unavailable."@),
        ),
        MergeProcess::Ran { stdout, stderr, wait } => if stdout is None {
            (silent, Some("llvm-profdata merge stdout reader terminated unexpectedly."@))
        } else if stderr is None {
            (silent, Some("llvm-profdata merge stderr reader terminated unexpectedly."@))
        } else {
            match wait {
                Err(error) => (
                    silent,
                    Some("llvm-profdata merge wait failed: "@ + error@),
                ),
                Ok(success) => {
                    let both = tool_diagnostics(stdout->0.bytes@, stderr->0.bytes@);
                    let diagnostics = DiagnosticsView {
                        text: both.text,
                        truncated: stdout->0.truncated || stderr->0.truncated || both.truncated,
                    };
                    if !success {
                        (diagnostics, Some("llvm-profdata merge failed."@))
                    } else if trimmed(both.text).len() != 0 {
                        (diagnostics, Some("llvm-profdata merge emitted warnings."@))
                    } else {
                        (diagnostics, None)
                    }
                },
            }
        },
    }
}

fn decide_process(process: MergeProcess) -> (decided: (BoundedDiagnostics, Option<String>))
    ensures
        (decided.0@, optional_text(decided.1)) == process_outcome(process),
{
    let silent = BoundedDiagnostics::new();
    match process {
        MergeProcess::NotStarted(error) => (
            silent,
            Some(text2("llvm-profdata merge could not start: ", error.as_str())),
        ),
        MergeProcess::StdoutUnavailable => (
            silent,
            Some("llvm-profdata merge stdout was unavailable.".to_owned()),
        ),
        MergeProcess::StderrUnavailable => (
            silent,
            Some("llvm-profdata merge stderr was unavailable.".to_owned()),
        ),
        MergeProcess::Ran { stdout, stderr, wait } => {
            let stdout = match stdout {
                Some(stream) => stream,
                None => return (
                    silent,
                    Some(
                        "llvm-profdata merge stdout reader terminated unexpectedly.".to_owned(),
                    ),
                ),
            };
            let stderr = match stderr {
                Some(stream) => stream,
                None => return (
                    silent,
                    Some(
                        "llvm-profdata merge stderr reader terminated unexpectedly.".to_owned(),
                    ),
                ),
            };
            let success: bool = match wait {
                Ok(success) => success,
                Err(error) => return (
                    silent,
                    Some(text2("llvm-profdata merge wait failed: ", error.as_str())),
                ),
            };
            let mut diagnostics = bounded_diagnostics(
                stdout.bytes.as_slice(),
                stderr.bytes.as_slice(),
            );
            let said = trim(diagnostics.text.as_str());
            proof {
                lemma_no_bytes(said@);
            }
            let silent_text: bool = said.as_str().as_bytes().len() == 0;
            if stdout.truncated || stderr.truncated {
                diagnostics.truncated = true;
            }
            if !success {
                return (diagnostics, Some("llvm-profdata merge failed.".to_owned()));
            }
            if !silent_text {
                return (diagnostics, Some("llvm-profdata merge emitted warnings.".to_owned()));
            }
            (diagnostics, None)
        },
    }
}

/// The merged profile, or what is wrong with it.
pub open spec fn merged_outcome(directory: Seq<u8>, probe: MergedProbe) -> Result<
    ProfileView,
    Seq<char>,
> {
    match probe.metadata {
        Err(error) => Err("Merged PGO profile could not be inspected: "@ + error@),
        Ok(metadata) => if metadata.0 == EntryKind::Symlink {
            Err("Merged PGO profile must not be a symbolic link."@)
        } else if metadata.0 != EntryKind::File || metadata.1 == 0 {
            Err("Merged PGO profile must be one non-empty regular file."@)
        } else {
            match probe.canonical {
                Err(error) => Err("Merged PGO profile could not be canonicalized: "@ + error@),
                Ok(path) => if !lies_within(path@, directory) {
                    Err("Merged PGO profile escaped the run PGO directory."@)
                } else {
                    match probe.sha256 {
                        Err(error) => Err(
                            "Merged PGO profile could not be recorded: "@ + error@,
                        ),
                        Ok(sha256) => Ok(
                            ProfileView {
                                path: path@,
                                size_bytes: metadata.1,
                                sha256: sha256@,
                            },
                        ),
                    }
                },
            }
        },
    }
}

fn read_merged(directory: &[u8], probe: MergedProbe) -> (merged: Result<ProfileFileRecord, String>)
    ensures
        match merged {
            Ok(found) => merged_outcome(directory@, probe) == Ok::<ProfileView, Seq<char>>(found@),
            Err(message) => merged_outcome(directory@, probe) == Err::<ProfileView, Seq<char>>(
                message@,
            ),
        },
{
    let (kind, size_bytes): (EntryKind, u64) = match probe.metadata {
        Ok(metadata) => metadata,
        Err(error) => return Err(
            text2("Merged PGO profile could not be inspected: ", error.as_str()),
        ),
    };
    if kind == EntryKind::Symlink {
        return Err("Merged PGO profile must not be a symbolic link.".to_owned());
    }
    if kind != EntryKind::File || size_bytes == 0 {
        return Err("Merged PGO profile must be one non-empty regular file.".to_owned());
    }
    let path = match probe.canonical {
        Ok(path) => path,
        Err(error) => return Err(
            text2("Merged PGO profile could not be canonicalized: ", error.as_str()),
        ),
    };
    if !starts_with(path.as_slice(), directory) {
        return Err("Merged PGO profile escaped the run PGO directory.".to_owned());
    }
    match probe.sha256 {
        Ok(sha256) => Ok(ProfileFileRecord { path, size_bytes, sha256 }),
        Err(error) => Err(
            text2("Merged PGO profile could not be recorded: ", error.as_str()),
        ),
    }
}

/// The diagnostics of a merge, and the merged profile or what is wrong.
pub open spec fn merge_outcome(
    profdata_path: Seq<u8>,
    place: OutputPlace,
    process: MergeProcess,
    probe: MergedProbe,
) -> (DiagnosticsView, Result<ProfileView, Seq<char>>) {
    match place_refusal(profdata_path, place) {
        Some(message) => (no_diagnostics(), Err(message)),
        None => {
            let (diagnostics, refusal) = process_outcome(process);
            match refusal {
                Some(message) => (diagnostics, Err(message)),
                None => (
                    diagnostics,
                    merged_outcome(place.canonical_directory->Ok_0@, probe),
                ),
            }
        },
    }
}

/// Whether a record says what a merge came to.
pub open spec fn records_merge(
    record: ProfileMergeRecord,
    profdata_path: Seq<u8>,
    outcome: (DiagnosticsView, Result<ProfileView, Seq<char>>),
) -> bool {
    &&& record.bounded_diagnostics@ == outcome.0.text
    &&& record.diagnostics_truncated == outcome.0.truncated
    &&& match outcome.1 {
        Ok(merged) => {
            &&& record.outcome == ProfileMergeOutcome::Merged
            &&& record.profdata_path@ == merged.path
            &&& record.profdata_size_bytes == Some(merged.size_bytes)
            &&& optional_text(record.profdata_sha256) == Some(merged.sha256)
            &&& record.message is None
        },
        Err(message) => {
            &&& record.outcome == ProfileMergeOutcome::Rejected
            &&& record.profdata_path@ == profdata_path
            &&& record.profdata_size_bytes is None
            &&& record.profdata_sha256 is None
            &&& optional_text(record.message) == Some(message)
        },
    }
}

/// A copy of raw profiles.
pub fn copy_profiles(profiles: &Vec<ProfileFileRecord>) -> (copy: Vec<ProfileFileRecord>)
    ensures
        profile_views(copy@) == profile_views(profiles@),
{
    let mut copy: Vec<ProfileFileRecord> = Vec::new();
    let mut index: usize = 0;
    while index < profiles.len()
        invariant
            index <= profiles@.len(),
            copy@.len() == index,
            forall|i: int| 0 <= i < index ==> (#[trigger] copy@[i])@ == profiles@[i]@,
        decreases profiles@.len() - index,
    {
        copy.push(profiles[index].clone());
        index = index + 1;
    }
    assert(profile_views(copy@) =~= profile_views(profiles@));
    copy
}

/// Records one merge of raw profiles.
pub fn merge_profiles(
    llvm_profdata: &[u8],
    profiles: &Vec<ProfileFileRecord>,
    profdata_path: &[u8],
    place: &OutputPlace,
    process: MergeProcess,
    probe: MergedProbe,
) -> (record: ProfileMergeRecord)
    ensures
        record.llvm_profdata_path@ == llvm_profdata@,
        texts(record.arguments@) == shown(
            merge_words(profdata_path@, profile_views(profiles@)),
        ),
        profile_views(record.profraw_files@) == profile_views(profiles@),
        records_merge(
            record,
            profdata_path@,
            merge_outcome(profdata_path@, *place, process, probe),
        ),
{
    let words = merge_arguments(profdata_path, profiles);
    let empty = BoundedDiagnostics::new();
    let mut record = ProfileMergeRecord {
        outcome: ProfileMergeOutcome::Rejected,
        llvm_profdata_path: slice_to_vec(llvm_profdata),
        arguments: show_words(&words),
        profraw_files: copy_profiles(profiles),
        profdata_path: slice_to_vec(profdata_path),
        profdata_size_bytes: None,
        profdata_sha256: None,
        bounded_diagnostics: empty.text,
        diagnostics_truncated: false,
        message: None,
    };
    if let Some(message) = check_output_place(profdata_path, place) {
        record.message = Some(message);
        return record;
    }
    let (diagnostics, refusal) = decide_process(process);
    record.bounded_diagnostics = diagnostics.text;
    record.diagnostics_truncated = diagnostics.truncated;
    if let Some(message) = refusal {
        record.message = Some(message);
        return record;
    }
    let directory: &[u8] = match &place.canonical_directory {
        Ok(path) => path.as_slice(),
        Err(_) => profdata_path,
    };
    match read_merged(directory, probe) {
        Ok(merged) => {
            record.outcome = ProfileMergeOutcome::Merged;
            record.profdata_path = merged.path;
            record.profdata_size_bytes = Some(merged.size_bytes);
            record.profdata_sha256 = Some(merged.sha256);
        },
        Err(message) => {
            record.message = Some(message);
        },
    }
    record
}

/// A merge is only accepted where the tool succeeded without a word, wrote a non-empty regular
/// file into a place that was free, and that file lies inside the run's profile directory.
pub proof fn law_accepted_merges_are_silent_and_contained(
    profdata_path: Seq<u8>,
    place: OutputPlace,
    process: MergeProcess,
    probe: MergedProbe,
)
    requires
        merge_outcome(profdata_path, place, process, probe).1 is Ok,
    ensures
        place.existing == Ok::<bool, String>(false),
        process is Ran,
        process->wait == Ok::<bool, String>(true),
        trimmed(merge_outcome(profdata_path, place, process, probe).0.text).len() == 0,
        probe.metadata is Ok,
        probe.metadata->Ok_0.0 == EntryKind::File,
        probe.metadata->Ok_0.1 > 0,
        lies_within(
            merge_outcome(profdata_path, place, process, probe).1->Ok_0.path,
            place.canonical_directory->Ok_0@,
        ),
{
}

/// A merge is told of every raw profile: behind `merge`, the strict failure mode, `-o` and the
/// output path stand the paths of all the profiles, one each, in their order.
pub proof fn law_merges_name_every_profile(profdata_path: Seq<u8>, profiles: Seq<ProfileView>)
    ensures
        merge_words(profdata_path, profiles).len() == 4 + profiles.len(),
        merge_words(profdata_path, profiles)[0] == encode_utf8("merge"@),
        merge_words(profdata_path, profiles)[1] == encode_utf8("--failure-mode=any"@),
        merge_words(profdata_path, profiles)[2] == encode_utf8("-o"@),
        merge_words(profdata_path, profiles)[3] == profdata_path,
        forall|i: int|
            0 <= i < profiles.len() ==> merge_words(profdata_path, profiles)[4 + i]
                == (#[trigger] profiles[i]).path,
{
}

/// Whether a listed entry is a file with the extension of a raw profile.
pub open spec fn is_raw_profile(entry: ProfileEntry) -> bool {
    entry matches ProfileEntry::Found { path, kind, facts: _ } && kind != EntryKind::Symlink && kind
        != EntryKind::Directory && extension_of(path@) == Some(encode_utf8("profraw"@))
}

/// Whether the file system vouches for a raw profile: a regular file whose canonical path lies
/// within the root, and which could be hashed.
pub open spec fn is_vouched_for(entry: ProfileEntry, root: Seq<u8>) -> bool {
    entry matches ProfileEntry::Found { path: _, kind, facts } && {
        &&& kind == EntryKind::File
        &&& facts.canonical is Ok
        &&& parts(root).is_prefix_of(parts(facts.canonical->Ok_0@))
        &&& facts.metadata is Ok
        &&& facts.metadata->Ok_0.0
        &&& facts.sha256 is Ok
    }
}

/// A walk takes an entry exactly where it could be read, is no symbolic link and, if it is a raw
/// profile, is vouched for and within the limit. A directory is listed later, a raw profile is
/// collected with its canonical path, size and digest, and nothing else changes the walk.
pub proof fn law_walks_take_every_profile(walk: WalkView, entry: ProfileEntry)
    ensures
        walked_entry(walk, entry) is Ok <==> {
            &&& entry is Found
            &&& entry->kind != EntryKind::Symlink
            &&& is_raw_profile(entry) ==> is_vouched_for(entry, walk.root) && walk.profiles.len()
                < 10_000
        },
        walked_entry(walk, entry) matches Ok(after) ==> {
            &&& after.root == walk.root
            &&& after.pending == if entry->kind == EntryKind::Directory {
                walk.pending.push(entry->path@)
            } else {
                walk.pending
            }
            &&& after.profiles == if is_raw_profile(entry) {
                walk.profiles.push(
                    (ProfileView {
                        path: entry->facts.canonical->Ok_0@,
                        size_bytes: entry->facts.metadata->Ok_0.1,
                        sha256: entry->facts.sha256->Ok_0@,
                    }),
                )
            } else {
                walk.profiles
            }
        },
{
}

proof fn lemma_walk_grows(walk: WalkView, entries: Seq<ProfileEntry>, count: int)
    requires
        0 <= count <= entries.len(),
        walked_entries(walk, entries, count) is Ok,
    ensures
        ({
            let after = walked_entries(walk, entries, count)->Ok_0;
            &&& after.root == walk.root
            &&& walk.profiles.is_prefix_of(after.profiles)
            &&& walk.pending.is_prefix_of(after.pending)
            &&& after.profiles.len() == walk.profiles.len() + entries.take(count).filter(
                |entry: ProfileEntry| is_raw_profile(entry),
            ).len()
            &&& forall|i: int|
                0 <= i < count && is_raw_profile(#[trigger] entries[i]) ==> after.profiles.contains(
                    (ProfileView {
                        path: entries[i]->facts.canonical->Ok_0@,
                        size_bytes: entries[i]->facts.metadata->Ok_0.1,
                        sha256: entries[i]->facts.sha256->Ok_0@,
                    }),
                )
            &&& forall|i: int|
                0 <= i < count && (#[trigger] entries[i])->kind == EntryKind::Directory
                    ==> after.pending.contains(entries[i]->path@)
        }),
    decreases count,
{
    let raw = |entry: ProfileEntry| is_raw_profile(entry);
    if count > 0 {
        lemma_walk_grows(walk, entries, count - 1);
        let before = walked_entries(walk, entries, count - 1)->Ok_0;
        let after = walked_entries(walk, entries, count)->Ok_0;
        let entry = entries[count - 1];
        law_walks_take_every_profile(before, entry);
        assert(entries.take(count).drop_last() =~= entries.take(count - 1));
        assert(entries.take(count).last() == entry);
        assert(entries.take(count).filter(raw).len() == entries.take(count - 1).filter(raw).len()
            + if is_raw_profile(entry) {
            1int
        } else {
            0int
        }) by {
            reveal(Seq::filter);
        }
        assert forall|item: ProfileView| #[trigger]
            before.profiles.contains(item) implies after.profiles.contains(item) by {
            let i = choose|i: int| 0 <= i < before.profiles.len() && before.profiles[i] == item;
            assert(after.profiles[i] == item);
        }
        assert forall|item: Seq<u8>| #[trigger]
            before.pending.contains(item) implies after.pending.contains(item) by {
            let i = choose|i: int| 0 <= i < before.pending.len() && before.pending[i] == item;
            assert(after.pending[i] == item);
        }
        if is_raw_profile(entry) {
            assert(after.profiles[before.profiles.len() as int] == (ProfileView {
                path: entry->facts.canonical->Ok_0@,
                size_bytes: entry->facts.metadata->Ok_0.1,
                sha256: entry->facts.sha256->Ok_0@,
            }));
        }
        if entry->kind == EntryKind::Directory {
            assert(after.pending[before.pending.len() as int] == entry->path@);
        }
    } else {
        assert(entries.take(0).filter(raw).len() == 0) by {
            reveal(Seq::filter);
        }
    }
}

/// A listed directory adds each of its raw profiles and each of its directories to the walk, and
/// nothing else: as many profiles are added as raw profiles were listed.
pub proof fn law_directories_are_walked_whole(
    walk: WalkView,
    directory: Seq<u8>,
    entries: Vec<ProfileEntry>,
)
    requires
        walked_directory(walk, directory, Ok(entries)) is Ok,
    ensures
        ({
            let after = walked_directory(walk, directory, Ok(entries))->Ok_0;
            &&& after.root == walk.root
            &&& walk.profiles.is_prefix_of(after.profiles)
            &&& walk.pending.is_prefix_of(after.pending)
            &&& after.profiles.len() == walk.profiles.len() + entries@.filter(
                |entry: ProfileEntry| is_raw_profile(entry),
            ).len()
            &&& forall|i: int|
                0 <= i < entries@.len() && is_raw_profile(#[trigger] entries@[i])
                    ==> after.profiles.contains(
                    (ProfileView {
                        path: entries@[i]->facts.canonical->Ok_0@,
                        size_bytes: entries@[i]->facts.metadata->Ok_0.1,
                        sha256: entries@[i]->facts.sha256->Ok_0@,
                    }),
                )
            &&& forall|i: int|
                0 <= i < entries@.len() && (#[trigger] entries@[i])->kind == EntryKind::Directory
                    ==> after.pending.contains(entries@[i]->path@)
        }),
{
    lemma_walk_grows(walk, entries@, entries@.len() as int);
    assert(entries@.take(entries@.len() as int) =~= entries@);
}

/// A finished walk hands out all the profiles that it found, in the order of their path
/// components.
pub proof fn law_profiles_come_out_in_path_order(profiles: Seq<ProfileView>)
    requires
        profiles.len() <= usize::MAX,
    ensures
        ordered_profiles(profiles).to_multiset() == profiles.to_multiset(),
        forall|i: int, j: int|
            0 <= i < j < ordered_profiles(profiles).len() ==> parts_le(
                parts((#[trigger] ordered_profiles(profiles)[i]).path),
                parts((#[trigger] ordered_profiles(profiles)[j]).path),
            ),
{
    let keys = profiles.map_values(|profile: ProfileView| component_key(profile.path));
    lemma_byte_order_exists(keys);
    let order = byte_order(keys);
    lemma_picked_multiset(profiles, order);
    let sorted = ordered_profiles(profiles);
    assert forall|i: int, j: int| 0 <= i < j < sorted.len() implies parts_le(
        parts((#[trigger] sorted[i]).path),
        parts((#[trigger] sorted[j]).path),
    ) by {
        assert(key_before(keys, order[i] as int, order[j] as int));
        law_path_keys_order_components(sorted[i].path, sorted[j].path);
    }
}

proof fn lemma_labelled_speaks(label: Seq<char>, bytes: Seq<u8>)
    requires
        bytes.len() > 0,
        label == "stdout"@ || label == "stderr"@,
    ensures
        trimmed(labelled(no_diagnostics(), label, bytes).text).len() > 0,
{
    reveal_strlit("stdout");
    reveal_strlit("stderr");
    reveal_strlit(": ");
    let prefix = label + ": "@;
    assert(is_ascii_chars(prefix));
    lemma_ascii_bytes(prefix);
    assert(byte_len(Seq::<char>::empty()) == 0) by {
        lemma_no_bytes(Seq::empty());
    }
    let text = labelled(no_diagnostics(), label, bytes).text;
    assert(text[0] == label[0]);
    lemma_trimmed_keeps_letters(text, 0);
}

proof fn lemma_trimmed_keeps_letters(text: Seq<char>, place: int)
    requires
        0 <= place < text.len(),
        !is_white_space(text[place]),
    ensures
        trimmed(text).len() > 0,
{
    lemma_start_kept(text, place);
    let start = trimmed_start(text);
    let i = choose|i: int| 0 <= i < start.len() && start[i] == text[place];
    lemma_end_kept(start, i);
}

proof fn lemma_start_kept(text: Seq<char>, place: int)
    requires
        0 <= place < text.len(),
        !is_white_space(text[place]),
    ensures
        trimmed_start(text).contains(text[place]),
    decreases text.len(),
{
    if is_white_space(text[0]) {
        lemma_start_kept(text.drop_first(), place - 1);
    }
}

proof fn lemma_end_kept(text: Seq<char>, place: int)
    requires
        0 <= place < text.len(),
        !is_white_space(text[place]),
    ensures
        trimmed_end(text).len() > 0,
    decreases text.len(),
{
    if is_white_space(text.last()) {
        lemma_end_kept(text.drop_last(), place);
    }
}

proof fn lemma_tool_silence(stdout: Seq<u8>, stderr: Seq<u8>)
    ensures
        trimmed(tool_diagnostics(stdout, stderr).text).len() == 0 <==> stdout.len() == 0
            && stderr.len() == 0,
{
    let first = labelled(no_diagnostics(), "stdout"@, stdout);
    let both = tool_diagnostics(stdout, stderr);
    if stdout.len() > 0 {
        lemma_labelled_speaks("stdout"@, stdout);
        reveal_strlit("stdout");
        assert(first.text.len() > 0);
        assert(byte_len(Seq::<char>::empty()) == 0) by {
            lemma_no_bytes(Seq::empty());
        }
        reveal_strlit(": ");
        lemma_ascii_bytes("stdout"@ + ": "@);
        assert(first.text[0] == 's');
        assert(both.text[0] == 's');
        lemma_trimmed_keeps_letters(both.text, 0);
    } else if stderr.len() > 0 {
        lemma_labelled_speaks("stderr"@, stderr);
    } else {
        assert(both.text =~= Seq::empty());
    }
}

/// A merge is accepted exactly where its output may go into the run's profile directory and
/// nothing lies there yet, the tool ran, succeeded and wrote nothing on either stream, and left
/// one non-empty regular file inside that directory which could be hashed. What is recorded is
/// that file.
pub proof fn law_merges_are_accepted_exactly(
    profdata_path: Seq<u8>,
    place: OutputPlace,
    process: MergeProcess,
    probe: MergedProbe,
)
    ensures
        merge_outcome(profdata_path, place, process, probe).1 is Ok <==> {
            &&& place.canonical_directory is Ok
            &&& parent_path(profdata_path) is Some
            &&& place.canonical_parent is Ok
            &&& parts(place.canonical_parent->Ok_0@) == parts(place.canonical_directory->Ok_0@)
            &&& place.existing == Ok::<bool, String>(false)
            &&& process is Ran
            &&& process->stdout matches Some(stdout) && stdout.bytes@.len() == 0
            &&& process->stderr matches Some(stderr) && stderr.bytes@.len() == 0
            &&& process->wait == Ok::<bool, String>(true)
            &&& probe.metadata is Ok
            &&& probe.metadata->Ok_0.0 == EntryKind::File
            &&& probe.metadata->Ok_0.1 > 0
            &&& probe.canonical is Ok
            &&& parts(place.canonical_directory->Ok_0@).is_prefix_of(
                parts(probe.canonical->Ok_0@),
            )
            &&& probe.sha256 is Ok
        },
        merge_outcome(profdata_path, place, process, probe).1 matches Ok(merged) ==> {
            &&& merged.path == probe.canonical->Ok_0@
            &&& merged.size_bytes == probe.metadata->Ok_0.1
            &&& merged.sha256 == probe.sha256->Ok_0@
        },
{
    if process is Ran && process->stdout is Some && process->stderr is Some {
        lemma_tool_silence(process->stdout->0.bytes@, process->stderr->0.bytes@);
    }
}

} // verus!
