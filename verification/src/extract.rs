//! Layer extraction: a compressed layer blob is inflated, its archive
//! entries listed, every entry checked (its path against escape from the
//! destination root, a hard link's target likewise, and its kind against
//! the kinds a layer may carry), and the entries applied in order to a
//! filesystem model in which later writes overwrite earlier ones
//! file-for-file — the mechanism by which successive layers compose into
//! one image. The inflation and the archive listing are the only trusted
//! steps; the checks and the composition are verified.

use vstd::prelude::*;

use crate::RunError;

verus! {

/// The kinds of archive entry a layer may carry. `Other` stands for every
/// remaining tar entry type (devices, fifos, sparse files, ...): such an
/// entry is rejected with a typed error, never altered or silently
/// dropped.
#[derive(Clone, Copy, Debug, PartialEq, Eq, Structural)]
pub enum EntryKind {
    File,
    Directory,
    Symlink,
    HardLink,
    Other,
}

/// The kind a tar type-flag byte denotes: `0` a regular file (`7`, the
/// contiguous type, is treated as a regular file, as the format
/// prescribes), `1` a hard link, `2` a symbolic link, `5` a directory;
/// everything else is out of scope for a layer.
pub open spec fn spec_kind_of(b: u8) -> EntryKind {
    if b == 48 || b == 55 {
        EntryKind::File
    } else if b == 49 {
        EntryKind::HardLink
    } else if b == 50 {
        EntryKind::Symlink
    } else if b == 53 {
        EntryKind::Directory
    } else {
        EntryKind::Other
    }
}

/// The kind of an entry, from its tar type-flag byte.
pub fn entry_kind(b: u8) -> (k: EntryKind)
    ensures
        k == spec_kind_of(b),
{
    if b == 48 || b == 55 {
        EntryKind::File
    } else if b == 49 {
        EntryKind::HardLink
    } else if b == 50 {
        EntryKind::Symlink
    } else if b == 53 {
        EntryKind::Directory
    } else {
        EntryKind::Other
    }
}

/// One archive entry: its path relative to the destination root, its
/// contents, its permission bits, its tar type-flag byte, and — for a
/// link — the target it points at (empty otherwise).
pub struct LayerEntry {
    pub path: Vec<u8>,
    pub data: Vec<u8>,
    pub mode: u32,
    pub type_byte: u8,
    pub link_target: Vec<u8>,
}

pub type EntryModel = (Seq<u8>, Seq<u8>, u32, u8, Seq<u8>);

impl LayerEntry {
    pub open spec fn model(self) -> EntryModel {
        (self.path@, self.data@, self.mode, self.type_byte, self.link_target@)
    }
}

pub open spec fn entries_model(es: Seq<LayerEntry>) -> Seq<EntryModel> {
    es.map_values(|e: LayerEntry| e.model())
}

/// What one path of the destination holds: a regular file's bytes and
/// permission bits, a directory's permission bits, or a link's target.
#[derive(Debug, PartialEq, Eq)]
pub enum Node {
    File { data: Vec<u8>, mode: u32 },
    Dir { mode: u32 },
    Symlink { target: Vec<u8> },
    HardLink { target: Vec<u8> },
}

pub enum NodeModel {
    File { data: Seq<u8>, mode: u32 },
    Dir { mode: u32 },
    Symlink { target: Seq<u8> },
    HardLink { target: Seq<u8> },
}

impl Node {
    pub open spec fn model(self) -> NodeModel {
        match self {
            Node::File { data, mode } => NodeModel::File { data: data@, mode },
            Node::Dir { mode } => NodeModel::Dir { mode },
            Node::Symlink { target } => NodeModel::Symlink { target: target@ },
            Node::HardLink { target } => NodeModel::HardLink { target: target@ },
        }
    }
}

/// The node an admitted entry writes at its path. Entries of kind `Other`
/// are rejected before anything is applied, so their node is arbitrary.
pub open spec fn spec_node_of(e: EntryModel) -> NodeModel {
    match spec_kind_of(e.3) {
        EntryKind::File => NodeModel::File { data: e.1, mode: e.2 },
        EntryKind::Directory => NodeModel::Dir { mode: e.2 },
        EntryKind::Symlink => NodeModel::Symlink { target: e.4 },
        EntryKind::HardLink => NodeModel::HardLink { target: e.4 },
        EntryKind::Other => arbitrary(),
    }
}

/// A component boundary: the position starts a path component.
pub open spec fn spec_component_start(p: Seq<u8>, i: int) -> bool {
    i == 0 || p[i - 1] == 47
}

/// The position ends a path component.
pub open spec fn spec_component_end(p: Seq<u8>, i: int) -> bool {
    i == p.len() || p[i] == 47
}

/// Some component of the path is `..` (byte 46 is `.`, 47 is `/`).
pub open spec fn spec_has_dotdot(p: Seq<u8>) -> bool {
    exists|i: int|
        #![auto]
        0 <= i && i + 2 <= p.len() && p[i] == 46 && p[i + 1] == 46 && spec_component_start(p, i)
            && spec_component_end(p, i + 2)
}

/// A path that stays under the destination root: non-empty, relative (no
/// leading `/`), and free of parent-directory components.
pub open spec fn spec_path_safe(p: Seq<u8>) -> bool {
    p.len() > 0 && p[0] != 47 && !spec_has_dotdot(p)
}

/// An entry the extractor admits: its path is confined to the root; its
/// kind is one a layer may carry; a hard link's target — a path the
/// extraction itself resolves against the root — is confined likewise; a
/// symbolic link's target is non-empty (it is stored verbatim and only
/// ever resolved at run time, inside the jail, so it cannot reach outside
/// the root at extraction time).
pub open spec fn spec_entry_safe(e: EntryModel) -> bool {
    spec_path_safe(e.0) && spec_kind_of(e.3) != EntryKind::Other && (spec_kind_of(e.3)
        == EntryKind::Symlink ==> e.4.len() > 0) && (spec_kind_of(e.3) == EntryKind::HardLink
        ==> spec_path_safe(e.4))
}

/// Every entry is admissible.
pub open spec fn spec_all_safe(ms: Seq<EntryModel>) -> bool {
    forall|k: int| 0 <= k < ms.len() ==> spec_entry_safe(#[trigger] ms[k])
}

/// The first inadmissible entry, if any.
pub open spec fn spec_first_unsafe(ms: Seq<EntryModel>) -> Option<int>
    decreases ms.len(),
{
    if ms.len() == 0 {
        None
    } else if !spec_entry_safe(ms[0]) {
        Some(0)
    } else {
        match spec_first_unsafe(ms.drop_first()) {
            Some(k) => Some(k + 1),
            None => None,
        }
    }
}

pub proof fn lemma_first_unsafe(ms: Seq<EntryModel>)
    ensures
        match spec_first_unsafe(ms) {
            Some(k) => 0 <= k < ms.len() && !spec_entry_safe(ms[k]) && forall|j: int|
                0 <= j < k ==> spec_entry_safe(#[trigger] ms[j]),
            None => spec_all_safe(ms),
        },
    decreases ms.len(),
{
    if ms.len() > 0 && spec_entry_safe(ms[0]) {
        let rest = ms.drop_first();
        lemma_first_unsafe(rest);
        assert(forall|j: int| 0 <= j < rest.len() ==> #[trigger] rest[j] == ms[j + 1]);
        match spec_first_unsafe(rest) {
            Some(k) => {
                assert(!spec_entry_safe(ms[k + 1]));
                assert forall|j: int| 0 <= j < k + 1 implies spec_entry_safe(#[trigger] ms[j]) by {
                    if j > 0 {
                        assert(spec_entry_safe(rest[j - 1]));
                    }
                }
            },
            None => {
                assert forall|k: int| 0 <= k < ms.len() implies spec_entry_safe(
                    #[trigger] ms[k],
                ) by {
                    if k > 0 {
                        assert(spec_entry_safe(rest[k - 1]));
                    }
                }
            },
        }
    }
}

/// Does this relative path stay under the destination root?
pub fn path_is_safe(p: &Vec<u8>) -> (r: bool)
    ensures
        r == spec_path_safe(p@),
{
    let n = p.len();
    if n == 0 {
        return false;
    }
    if p[0] == 47 {
        return false;
    }
    let mut i: usize = 0;
    while i < n
        invariant
            i <= n,
            n == p@.len(),
            p@.len() > 0 && p@[0] != 47,
            forall|k: int|
                0 <= k < i ==> !(k + 2 <= p@.len() && p@[k] == 46 && p@[k + 1] == 46
                    && spec_component_start(p@, k) && spec_component_end(p@, k + 2)),
        decreases n - i,
    {
        if n - i >= 2 && p[i] == 46 && p[i + 1] == 46 && (i == 0 || p[i - 1] == 47) && (n - i == 2
            || p[i + 2] == 47) {
            proof {
                let k = i as int;
                assert(0 <= k && k + 2 <= p@.len() && p@[k] == 46 && p@[k + 1] == 46
                    && spec_component_start(p@, k) && spec_component_end(p@, k + 2));
                assert(spec_has_dotdot(p@));
            }
            return false;
        }
        i = i + 1;
    }
    proof {
        if spec_has_dotdot(p@) {
            let k = choose|k: int|
                #![auto]
                0 <= k && k + 2 <= p@.len() && p@[k] == 46 && p@[k + 1] == 46
                    && spec_component_start(p@, k) && spec_component_end(p@, k + 2);
            assert(k < i);
            assert(false);
        }
    }
    true
}

/// Is this entry admissible?
pub fn entry_is_safe(e: &LayerEntry) -> (r: bool)
    ensures
        r == spec_entry_safe(e.model()),
{
    if !path_is_safe(&e.path) {
        return false;
    }
    match entry_kind(e.type_byte) {
        EntryKind::File => true,
        EntryKind::Directory => true,
        EntryKind::Symlink => e.link_target.len() > 0,
        EntryKind::HardLink => path_is_safe(&e.link_target),
        EntryKind::Other => false,
    }
}

/// What inflating a gzip stream yields; it depends on the input bytes
/// alone, and a malformed stream yields nothing.
pub uninterp spec fn gunzip_of(b: Seq<u8>) -> Option<Seq<u8>>;

/// What listing a tar archive yields: each entry's path bytes, contents,
/// mode, kind and link target, in archive order; it depends on the
/// archive bytes alone, and a malformed archive yields nothing.
pub uninterp spec fn tar_entries_of(b: Seq<u8>) -> Option<Seq<EntryModel>>;

/// Relies on flate2's `read::GzDecoder`: inflates a gzip stream read from
/// the given bytes; fails on a malformed stream.
#[verifier::external_body]
fn gunzip(b: &Vec<u8>) -> (r: Option<Vec<u8>>)
    ensures
        match r {
            Some(t) => gunzip_of(b@) == Some(t@),
            None => gunzip_of(b@) is None,
        },
{
    let mut d = flate2::read::GzDecoder::new(b.as_slice());
    let mut out: Vec<u8> = Vec::new();
    match std::io::Read::read_to_end(&mut d, &mut out) {
        Ok(_) => Some(out),
        Err(_) => None,
    }
}

/// Relies on tar's `Archive`, `Entry::path_bytes`, `Entry::link_name_bytes`,
/// `Header::mode` and `EntryType::as_byte`: lists the archive's entries in
/// order, each with its raw type-flag byte and its link target (empty
/// where the entry has none); fails on a malformed archive.
#[verifier::external_body]
fn tar_entries(b: &Vec<u8>) -> (r: Option<Vec<LayerEntry>>)
    ensures
        match r {
            Some(es) => tar_entries_of(b@) == Some(entries_model(es@)),
            None => tar_entries_of(b@) is None,
        },
{
    let mut ar = tar::Archive::new(b.as_slice());
    let mut out: Vec<LayerEntry> = Vec::new();
    for ent in ar.entries().ok()? {
        let mut ent = ent.ok()?;
        let path = ent.path_bytes().to_vec();
        let mode = ent.header().mode().ok()?;
        let type_byte = ent.header().entry_type().as_byte();
        let link_target = ent.link_name_bytes().map(|c| c.to_vec()).unwrap_or_default();
        let mut data: Vec<u8> = Vec::new();
        std::io::Read::read_to_end(&mut ent, &mut data).ok()?;
        out.push(LayerEntry { path, data, mode, type_byte, link_target });
    }
    Some(out)
}

/// Checks every entry of a listed layer.
pub fn check_entries(es: &Vec<LayerEntry>) -> (r: bool)
    ensures
        r == spec_all_safe(entries_model(es@)),
{
    let mut i: usize = 0;
    while i < es.len()
        invariant
            i <= es@.len(),
            forall|k: int| 0 <= k < i ==> spec_entry_safe(#[trigger] entries_model(es@)[k]),
        decreases es@.len() - i,
    {
        if !entry_is_safe(&es[i]) {
            proof {
                assert(entries_model(es@)[i as int] == es@[i as int].model());
                assert(!spec_entry_safe(entries_model(es@)[i as int]));
            }
            return false;
        }
        proof {
            assert(entries_model(es@)[i as int] == es@[i as int].model());
        }
        i = i + 1;
    }
    true
}

/// Decodes one layer blob into its entry list: inflate, list, and check
/// every entry. Fails exactly when the stream or the archive is malformed
/// or some entry is inadmissible (a path or hard-link target escaping the
/// destination root, an empty symbolic-link target, or an entry kind a
/// layer may not carry).
pub fn decode_layer(blob: &Vec<u8>) -> (r: Result<Vec<LayerEntry>, RunError>)
    ensures
        match r {
            Ok(es) => match gunzip_of(blob@) {
                Some(t) => tar_entries_of(t) == Some(entries_model(es@)) && spec_all_safe(
                    entries_model(es@),
                ),
                None => false,
            },
            Err(e) => e == RunError::Protocol && (match gunzip_of(blob@) {
                None => true,
                Some(t) => match tar_entries_of(t) {
                    None => true,
                    Some(ms) => !spec_all_safe(ms),
                },
            }),
        },
{
    let tarball = match gunzip(blob) {
        Some(t) => t,
        None => {
            return Err(RunError::Protocol);
        },
    };
    let entries = match tar_entries(&tarball) {
        Some(es) => es,
        None => {
            return Err(RunError::Protocol);
        },
    };
    if check_entries(&entries) {
        Ok(entries)
    } else {
        Err(RunError::Protocol)
    }
}

pub open spec fn pairs_model(ps: Seq<(Vec<u8>, Node)>) -> Seq<(Seq<u8>, NodeModel)> {
    ps.map_values(|p: (Vec<u8>, Node)| (p.0@, p.1.model()))
}

/// The tree a write log denotes: later writes shadow earlier ones.
pub open spec fn fs_map(ps: Seq<(Seq<u8>, NodeModel)>) -> Map<Seq<u8>, NodeModel>
    decreases ps.len(),
{
    if ps.len() == 0 {
        Map::empty()
    } else {
        fs_map(ps.drop_last()).insert(ps.last().0, ps.last().1)
    }
}

/// The destination filesystem, modeled as the ordered log of writes; its
/// meaning is the map from each path to the node last written there —
/// contents and permission bits for a file, permission bits for a
/// directory, the target for a link.
pub struct FsState {
    pub files: Vec<(Vec<u8>, Node)>,
}

impl FsState {
    pub open spec fn model(self) -> Map<Seq<u8>, NodeModel> {
        fs_map(pairs_model(self.files@))
    }

    /// An empty destination.
    pub fn new() -> (fs: FsState)
        ensures
            fs.model() == Map::<Seq<u8>, NodeModel>::empty(),
    {
        FsState { files: Vec::new() }
    }
}

/// Applying entries in order: each admitted entry overwrites whatever its
/// path held with its own node.
pub open spec fn spec_apply(m: Map<Seq<u8>, NodeModel>, ms: Seq<EntryModel>) -> Map<
    Seq<u8>,
    NodeModel,
>
    decreases ms.len(),
{
    if ms.len() == 0 {
        m
    } else {
        spec_apply(m.insert(ms[0].0, spec_node_of(ms[0])), ms.drop_first())
    }
}

pub proof fn lemma_apply_push(m: Map<Seq<u8>, NodeModel>, ms: Seq<EntryModel>, e: EntryModel)
    ensures
        spec_apply(m, ms.push(e)) == spec_apply(m, ms).insert(e.0, spec_node_of(e)),
    decreases ms.len(),
{
    if ms.len() == 0 {
        assert(ms.push(e)[0] == e);
        assert(ms.push(e).drop_first() =~= Seq::<EntryModel>::empty());
        let m2 = m.insert(e.0, spec_node_of(e));
        assert(spec_apply(m, ms.push(e)) == spec_apply(m2, ms.push(e).drop_first()));
        assert(spec_apply(m2, ms.push(e).drop_first()) == m2);
        assert(spec_apply(m, ms) == m);
    } else {
        assert(ms.push(e)[0] == ms[0]);
        assert(ms.push(e).drop_first() =~= ms.drop_first().push(e));
        let m2 = m.insert(ms[0].0, spec_node_of(ms[0]));
        lemma_apply_push(m2, ms.drop_first(), e);
        assert(spec_apply(m, ms.push(e)) == spec_apply(m2, ms.drop_first().push(e)));
        assert(spec_apply(m, ms) == spec_apply(m2, ms.drop_first()));
    }
}

/// The node one admitted entry writes.
fn node_of(e: &LayerEntry) -> (n: Node)
    requires
        spec_kind_of(e.type_byte) != EntryKind::Other,
    ensures
        n.model() == spec_node_of(e.model()),
{
    match entry_kind(e.type_byte) {
        EntryKind::File => Node::File { data: clone_bytes(&e.data), mode: e.mode },
        EntryKind::Directory => Node::Dir { mode: e.mode },
        EntryKind::Symlink => Node::Symlink { target: clone_bytes(&e.link_target) },
        EntryKind::HardLink => Node::HardLink { target: clone_bytes(&e.link_target) },
        EntryKind::Other => unreached(),
    }
}

impl FsState {
    /// Applies one decoded layer to the destination, entry by entry in
    /// archive order. An inadmissible entry is rejected: nothing is
    /// written for it or after it, and the layer fails. The writes made
    /// before the rejected entry remain — extraction is not atomic, an
    /// accepted and documented limitation.
    pub fn apply_layer(&mut self, entries: &Vec<LayerEntry>) -> (r: Result<(), RunError>)
        ensures
            ({
                let ms = entries_model(entries@);
                match spec_first_unsafe(ms) {
                    None => r is Ok && final(self).model() == spec_apply(old(self).model(), ms),
                    Some(k) => r == Err::<(), RunError>(RunError::Protocol) && final(self).model()
                        == spec_apply(old(self).model(), ms.take(k)),
                }
            }),
    {
        let ghost ms = entries_model(entries@);
        proof {
            lemma_first_unsafe(ms);
        }
        let mut i: usize = 0;
        while i < entries.len()
            invariant
                i <= entries@.len(),
                ms == entries_model(entries@),
                self.model() == spec_apply(old(self).model(), ms.take(i as int)),
                forall|k: int| 0 <= k < i ==> spec_entry_safe(#[trigger] ms[k]),
                match spec_first_unsafe(ms) {
                    None => true,
                    Some(k) => i <= k,
                },
            decreases entries@.len() - i,
        {
            proof {
                assert(ms[i as int] == entries@[i as int].model());
            }
            let entry = &entries[i];
            if !entry_is_safe(entry) {
                proof {
                    lemma_first_unsafe(ms);
                    match spec_first_unsafe(ms) {
                        None => {
                            assert(spec_entry_safe(ms[i as int]));
                            assert(false);
                        },
                        Some(k) => {
                            if k > i {
                                assert(spec_entry_safe(ms[i as int]));
                                assert(false);
                            }
                            if k < i {
                                assert(spec_entry_safe(ms[k]));
                                assert(false);
                            }
                        },
                    }
                    assert(spec_first_unsafe(ms) == Some(i as int));
                }
                return Err(RunError::Protocol);
            }
            let pair = (clone_bytes(&entry.path), node_of(entry));
            let ghost before = pairs_model(self.files@);
            self.files.push(pair);
            proof {
                assert(pairs_model(self.files@) =~= before.push(
                    (ms[i as int].0, spec_node_of(ms[i as int])),
                ));
                assert(fs_map(before.push((ms[i as int].0, spec_node_of(ms[i as int]))))
                    == fs_map(before).insert(ms[i as int].0, spec_node_of(ms[i as int]))) by {
                    assert(before.push((ms[i as int].0, spec_node_of(ms[i as int]))).drop_last()
                        =~= before);
                }
                assert(ms.take(i + 1) =~= ms.take(i as int).push(ms[i as int]));
                lemma_apply_push(old(self).model(), ms.take(i as int), ms[i as int]);
                lemma_first_unsafe(ms);
                match spec_first_unsafe(ms) {
                    None => {},
                    Some(k) => {
                        if k == i {
                            assert(!spec_entry_safe(ms[k]));
                            assert(false);
                        }
                    },
                }
            }
            i = i + 1;
        }
        proof {
            assert(ms.take(i as int) =~= ms);
            lemma_first_unsafe(ms);
        }
        Ok(())
    }

    /// The node currently at a path: the last write there, if any.
    pub fn get<'a>(&'a self, path: &Vec<u8>) -> (r: Option<&'a Node>)
        ensures
            match r {
                Some(n) => self.model().contains_key(path@) && self.model()[path@] == n.model(),
                None => !self.model().contains_key(path@),
            },
    {
        let mut i: usize = self.files.len();
        proof {
            assert(pairs_model(self.files@.take(i as int)) =~= pairs_model(self.files@));
        }
        while i > 0
            invariant
                i <= self.files@.len(),
                self.model().contains_key(path@) == fs_map(
                    pairs_model(self.files@.take(i as int)),
                ).contains_key(path@),
                self.model().contains_key(path@) ==> self.model()[path@] == fs_map(
                    pairs_model(self.files@.take(i as int)),
                )[path@],
            decreases i,
        {
            let ghost pre = pairs_model(self.files@.take(i as int));
            proof {
                assert(pre.len() == i);
                assert(pre.drop_last() =~= pairs_model(self.files@.take(i - 1)));
                assert(fs_map(pre) == fs_map(pre.drop_last()).insert(pre.last().0, pre.last().1));
            }
            if bytes_eq(&self.files[i - 1].0, path) {
                return Some(&self.files[i - 1].1);
            }
            i = i - 1;
        }
        proof {
            assert(pairs_model(self.files@.take(0)) =~= Seq::<(Seq<u8>, NodeModel)>::empty());
        }
        None
    }
}

/// Byte-for-byte equality of two byte vectors.
pub fn bytes_eq(a: &Vec<u8>, b: &Vec<u8>) -> (r: bool)
    ensures
        r == (a@ == b@),
{
    if a.len() != b.len() {
        return false;
    }
    let mut i: usize = 0;
    while i < a.len()
        invariant
            i <= a@.len(),
            a@.len() == b@.len(),
            forall|k: int| 0 <= k < i ==> a@[k] == b@[k],
        decreases a@.len() - i,
    {
        if a[i] != b[i] {
            return false;
        }
        i = i + 1;
    }
    proof {
        assert(a@ =~= b@);
    }
    true
}

/// A copy of a byte vector.
pub fn clone_bytes(v: &Vec<u8>) -> (r: Vec<u8>)
    ensures
        r@ == v@,
{
    let mut r: Vec<u8> = Vec::new();
    let mut i: usize = 0;
    while i < v.len()
        invariant
            i <= v@.len(),
            r@ == v@.subrange(0, i as int),
        decreases v@.len() - i,
    {
        r.push(v[i]);
        proof {
            assert(r@ =~= v@.subrange(0, i + 1 as int));
        }
        i = i + 1;
    }
    proof {
        assert(r@ =~= v@);
    }
    r
}

/// The last entry for a path in a layer (or a concatenation of layers).
pub open spec fn spec_last_entry(ms: Seq<EntryModel>, p: Seq<u8>) -> Option<EntryModel>
    decreases ms.len(),
{
    if ms.len() == 0 {
        None
    } else {
        match spec_last_entry(ms.drop_first(), p) {
            Some(e) => Some(e),
            None => if ms[0].0 == p {
                Some(ms[0])
            } else {
                None
            },
        }
    }
}

pub proof fn lemma_apply_lookup(m: Map<Seq<u8>, NodeModel>, ms: Seq<EntryModel>, p: Seq<u8>)
    ensures
        match spec_last_entry(ms, p) {
            Some(e) => spec_apply(m, ms).contains_key(p) && spec_apply(m, ms)[p] == spec_node_of(
                e,
            ),
            None => spec_apply(m, ms).contains_key(p) == m.contains_key(p) && (m.contains_key(p)
                ==> spec_apply(m, ms)[p] == m[p]),
        },
    decreases ms.len(),
{
    if ms.len() > 0 {
        let m2 = m.insert(ms[0].0, spec_node_of(ms[0]));
        lemma_apply_lookup(m2, ms.drop_first(), p);
    }
}

/// Layers compose in manifest order: a path the later layer writes ends
/// with the later layer's node — its bytes and permission bits, byte for
/// byte — and a path only the earlier layer wrote keeps the earlier
/// layer's node.
pub proof fn lemma_layer_order(
    m: Map<Seq<u8>, NodeModel>,
    l1: Seq<EntryModel>,
    l2: Seq<EntryModel>,
    p: Seq<u8>,
)
    ensures
        spec_last_entry(l2, p) matches Some(e) ==> spec_apply(spec_apply(m, l1), l2).contains_key(
            p,
        ) && spec_apply(spec_apply(m, l1), l2)[p] == spec_node_of(e),
        spec_last_entry(l2, p) is None ==> (spec_last_entry(l1, p) matches Some(e) ==> spec_apply(
            spec_apply(m, l1),
            l2,
        ).contains_key(p) && spec_apply(spec_apply(m, l1), l2)[p] == spec_node_of(e)),
{
    lemma_apply_lookup(spec_apply(m, l1), l2, p);
    lemma_apply_lookup(m, l1, p);
}

} // verus!
