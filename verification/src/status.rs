//! What the backing file system says of a file, and what a caller may ask to
//! change of it.
use vstd::prelude::*;

use crate::names;
use crate::names::NameMap;

verus! {

/// Extended attributes: a name and the bytes kept under it.
pub type AttrMap = NameMap<Vec<u8>>;

/// Extended attributes with their bytes.
pub open spec fn attr_view(attrs: AttrMap) -> Map<Seq<char>, Seq<u8>> {
    attrs@.map_values(|v: Vec<u8>| v@)
}

/// The attributes of one file or directory.
pub struct FileStatus {
    pub id: i64,
    pub path: String,
    pub name: String,
    pub is_dir: bool,
    pub mtime: i64,
    pub atime: i64,
    pub len: i64,
    pub mode: u32,
    pub owner: String,
    pub group: String,
    pub nlink: u32,
    pub x_attr: AttrMap,
}

/// A file status as mathematical values.
#[verifier::ext_equal]
pub struct StatusView {
    pub id: i64,
    pub path: Seq<char>,
    pub name: Seq<char>,
    pub is_dir: bool,
    pub mtime: i64,
    pub atime: i64,
    pub len: i64,
    pub mode: u32,
    pub owner: Seq<char>,
    pub group: Seq<char>,
    pub nlink: u32,
    pub x_attr: Map<Seq<char>, Seq<u8>>,
}

impl View for FileStatus {
    type V = StatusView;

    open spec fn view(&self) -> StatusView {
        StatusView {
            id: self.id,
            path: self.path@,
            name: self.name@,
            is_dir: self.is_dir,
            mtime: self.mtime,
            atime: self.atime,
            len: self.len,
            mode: self.mode,
            owner: self.owner@,
            group: self.group@,
            nlink: self.nlink,
            x_attr: attr_view(self.x_attr),
        }
    }
}

impl StatusView {
    /// A status with nothing set.
    pub open spec fn blank() -> StatusView {
        StatusView {
            id: 0,
            path: Seq::empty(),
            name: Seq::empty(),
            is_dir: false,
            mtime: 0,
            atime: 0,
            len: 0,
            mode: 0,
            owner: Seq::empty(),
            group: Seq::empty(),
            nlink: 0,
            x_attr: Map::empty(),
        }
    }
}

impl FileStatus {
    /// A status with nothing set.
    pub fn blank() -> (r: Self)
        ensures
            r@ == StatusView::blank(),
    {
        let x_attr: AttrMap = NameMap::new();
        assert(attr_view(x_attr) =~= Map::empty());
        FileStatus {
            id: 0,
            path: String::new(),
            name: String::new(),
            is_dir: false,
            mtime: 0,
            atime: 0,
            len: 0,
            mode: 0,
            owner: String::new(),
            group: String::new(),
            nlink: 0,
            x_attr,
        }
    }

    /// A status with an id, a name and a kind, and nothing else set.
    pub fn with_name(id: i64, name: String, is_dir: bool) -> (r: Self)
        ensures
            r@ == (StatusView { id, name: name@, is_dir, ..StatusView::blank() }),
    {
        let mut r = FileStatus::blank();
        r.id = id;
        r.name = name;
        r.is_dir = is_dir;
        r
    }
}

/// The extended attributes after one insertion.
proof fn lemma_attr_insert(before: AttrMap, after: AttrMap, key: Seq<char>, value: Vec<u8>)
    requires
        after@ == before@.insert(key, value),
    ensures
        attr_view(after) == attr_view(before).insert(key, value@),
{
    assert(attr_view(after) =~= attr_view(before).insert(key, value@));
}

/// A pair list with its bytes as sequences.
pub open spec fn attr_pairs(pairs: Seq<(Seq<char>, Vec<u8>)>) -> Seq<(Seq<char>, Seq<u8>)> {
    pairs.map_values(|p: (Seq<char>, Vec<u8>)| (p.0, p.1@))
}

/// Building the map and taking the bytes as sequences commute.
pub proof fn lemma_attr_pairs(pairs: Seq<(Seq<char>, Vec<u8>)>)
    ensures
        names::keys_distinct(attr_pairs(pairs)) == names::keys_distinct(pairs),
        names::pairs_to_map(attr_pairs(pairs)) == names::pairs_to_map(pairs).map_values(|v: Vec<u8>| v@),
    decreases pairs.len(),
{
    let seen = attr_pairs(pairs);
    if names::keys_distinct(seen) {
        assert forall|i: int, j: int| 0 <= i < j < pairs.len() implies (#[trigger] pairs[i]).0 != (
        #[trigger] pairs[j]).0 by {
            assert(seen[i].0 != seen[j].0);
        }
    }
    if pairs.len() == 0 {
        assert(names::pairs_to_map(attr_pairs(pairs)) =~= names::pairs_to_map(pairs).map_values(
            |v: Vec<u8>| v@,
        ));
    } else {
        lemma_attr_pairs(pairs.drop_last());
        assert(attr_pairs(pairs).drop_last() =~= attr_pairs(pairs.drop_last()));
        assert(names::pairs_to_map(attr_pairs(pairs)) =~= names::pairs_to_map(pairs).map_values(
            |v: Vec<u8>| v@,
        ));
    }
}

/// Puts every pair of `from` into `into`.
fn insert_all(into: &mut AttrMap, from: &AttrMap)
    ensures
        attr_view(*final(into)) == attr_view(*old(into)).union_prefer_right(attr_view(*from)),
{
    let ghost start = attr_view(*into);
    let ghost pairs = from.pairs();
    let mut i: usize = 0;
    proof {
        assert(pairs.take(0) =~= Seq::empty());
        assert(attr_view(*into) =~= start.union_prefer_right(
            names::pairs_to_map(pairs.take(0)).map_values(|v: Vec<u8>| v@),
        ));
    }
    while i < from.len()
        invariant
            pairs == from.pairs(),
            i <= pairs.len(),
            attr_view(*into) == start.union_prefer_right(
                names::pairs_to_map(pairs.take(i as int)).map_values(|v: Vec<u8>| v@),
            ),
        decreases pairs.len() - i,
    {
        let (key, value) = from.entry_at(i);
        let copy = copy_bytes(value);
        let ghost before = *into;
        into.insert(key.clone(), copy);
        proof {
            lemma_attr_insert(before, *into, pairs[i as int].0, copy);
            assert(pairs.take(i + 1).drop_last() =~= pairs.take(i as int));
            assert(attr_view(*into) =~= start.union_prefer_right(
                names::pairs_to_map(pairs.take(i + 1)).map_values(|v: Vec<u8>| v@),
            ));
        }
        i = i + 1;
    }
    proof {
        assert(pairs.take(i as int) =~= pairs);
        from.lemma_pairs();
    }
}

/// A copy of some bytes.
pub fn copy_bytes(bytes: &Vec<u8>) -> (r: Vec<u8>)
    ensures
        r@ == bytes@,
{
    let mut r: Vec<u8> = Vec::new();
    r.extend_from_slice(bytes.as_slice());
    assert(r@ =~= bytes@);
    r
}

impl FileStatus {
    /// A status with the same values.
    pub fn duplicate(&self) -> (r: Self)
        ensures
            r@ == self@,
    {
        let mut x_attr: AttrMap = NameMap::new();
        insert_all(&mut x_attr, &self.x_attr);
        assert(attr_view(x_attr) =~= attr_view(self.x_attr));
        FileStatus {
            id: self.id,
            path: self.path.clone(),
            name: self.name.clone(),
            is_dir: self.is_dir,
            mtime: self.mtime,
            atime: self.atime,
            len: self.len,
            mode: self.mode,
            owner: self.owner.clone(),
            group: self.group.clone(),
            nlink: self.nlink,
            x_attr,
        }
    }
}

/// A change of attributes: what is `None` stays as it is.
pub struct SetAttrOpts {
    pub mtime: Option<i64>,
    pub atime: Option<i64>,
    pub mode: Option<u32>,
    pub owner: Option<String>,
    pub group: Option<String>,
    pub add_x_attr: AttrMap,
    pub remove_x_attr: Vec<String>,
}

/// A change of attributes as mathematical values.
#[verifier::ext_equal]
pub struct SetAttrView {
    pub mtime: Option<i64>,
    pub atime: Option<i64>,
    pub mode: Option<u32>,
    pub owner: Option<Seq<char>>,
    pub group: Option<Seq<char>>,
    pub add_x_attr: Map<Seq<char>, Seq<u8>>,
    pub remove_x_attr: Set<Seq<char>>,
}

/// The text of an optional string.
pub open spec fn opt_text(s: Option<String>) -> Option<Seq<char>> {
    match s {
        Some(v) => Some(v@),
        None => None,
    }
}

/// The texts of a list of strings.
pub open spec fn texts(v: Seq<String>) -> Seq<Seq<char>> {
    v.map_values(|s: String| s@)
}

impl View for SetAttrOpts {
    type V = SetAttrView;

    open spec fn view(&self) -> SetAttrView {
        SetAttrView {
            mtime: self.mtime,
            atime: self.atime,
            mode: self.mode,
            owner: opt_text(self.owner),
            group: opt_text(self.group),
            add_x_attr: attr_view(self.add_x_attr),
            remove_x_attr: texts(self.remove_x_attr@).to_set(),
        }
    }
}

/// `value` where it is given, else `current`.
pub open spec fn given_or<T>(value: Option<T>, current: T) -> T {
    match value {
        Some(v) => v,
        None => current,
    }
}

impl StatusView {
    /// The status with a change of attributes applied. Attributes are added
    /// before others are removed, so a name that is both added and removed
    /// ends up removed.
    pub open spec fn with_attrs(self, opts: SetAttrView) -> StatusView {
        StatusView {
            mtime: given_or(opts.mtime, self.mtime),
            atime: given_or(opts.atime, self.atime),
            mode: given_or(opts.mode, self.mode),
            owner: given_or(opts.owner, self.owner),
            group: given_or(opts.group, self.group),
            x_attr: self.x_attr.union_prefer_right(opts.add_x_attr).remove_keys(
                opts.remove_x_attr,
            ),
            ..self
        }
    }
}

/// Takes every name of a list out of the attributes.
fn remove_all(from: &mut AttrMap, names: &Vec<String>)
    ensures
        attr_view(*final(from)) == attr_view(*old(from)).remove_keys(texts(names@).to_set()),
{
    let ghost start = attr_view(*from);
    let ghost all = texts(names@);
    let mut i: usize = 0;
    proof {
        assert(all.take(0).to_set() =~= Set::empty());
        assert(attr_view(*from) =~= start.remove_keys(all.take(0).to_set()));
    }
    while i < names.len()
        invariant
            all == texts(names@),
            i <= names@.len(),
            attr_view(*from) == start.remove_keys(all.take(i as int).to_set()),
        decreases names@.len() - i,
    {
        let ghost before = attr_view(*from);
        let _ = from.remove(names[i].as_str());
        proof {
            let key = all[i as int];
            assert(attr_view(*from) =~= before.remove(key));
            let done = all.take(i as int);
            let next = all.take(i + 1);
            assert(next =~= done.push(key));
            assert forall|k: Seq<char>|
                next.to_set().contains(k) == (done.to_set().contains(k) || k == key) by {
                if done.contains(k) {
                    let j = choose|j: int| 0 <= j < done.len() && done[j] == k;
                    assert(next[j] == k);
                }
                assert(next[i as int] == key);
                if next.contains(k) {
                    let j = choose|j: int| 0 <= j < next.len() && next[j] == k;
                    if j < i {
                        assert(done[j] == k);
                    }
                }
            }
            assert(attr_view(*from) =~= start.remove_keys(all.take(i + 1).to_set()));
        }
        i = i + 1;
    }
    assert(all.take(i as int) =~= all);
}

impl FileStatus {
    /// Applies a change of attributes.
    pub fn set_attrs(&mut self, opts: SetAttrOpts)
        ensures
            final(self)@ == old(self)@.with_attrs(opts@),
    {
        if let Some(mtime) = opts.mtime {
            self.mtime = mtime;
        }
        if let Some(atime) = opts.atime {
            self.atime = atime;
        }
        if let Some(mode) = opts.mode {
            self.mode = mode;
        }
        if let Some(owner) = opts.owner {
            self.owner = owner;
        }
        if let Some(group) = opts.group {
            self.group = group;
        }
        insert_all(&mut self.x_attr, &opts.add_x_attr);
        remove_all(&mut self.x_attr, &opts.remove_x_attr);
    }
}

/// Flags that a file is opened with.
#[derive(Clone, Copy, Debug, PartialEq, Eq, Structural)]
pub struct OpenFlags {
    pub value: u32,
}

impl OpenFlags {
    /// The bits that hold the access mode.
    pub const ACCESS_MODE: u32 = 3;

    /// Access mode of a file opened for reading.
    pub const RDONLY: u32 = 0;

    /// Access mode of a file opened for writing.
    pub const WRONLY: u32 = 1;

    /// Access mode of a file opened for both.
    pub const RDWR: u32 = 2;

    /// The access mode in the flags.
    pub open spec fn spec_access_mode(self) -> u32 {
        self.value & OpenFlags::ACCESS_MODE
    }

    /// Whether the flags ask for reading.
    pub open spec fn spec_read(self) -> bool {
        self.spec_access_mode() == OpenFlags::RDONLY || self.spec_access_mode() == OpenFlags::RDWR
    }

    /// Whether the flags ask for writing.
    pub open spec fn spec_write(self) -> bool {
        self.spec_access_mode() == OpenFlags::WRONLY || self.spec_access_mode() == OpenFlags::RDWR
    }

    /// Flags from their number.
    pub fn new(value: u32) -> (r: Self)
        ensures
            r.value == value,
    {
        OpenFlags { value }
    }

    /// The access mode in the flags.
    pub fn access_mode(&self) -> (r: u32)
        ensures
            r == self.spec_access_mode(),
    {
        self.value & OpenFlags::ACCESS_MODE
    }

    /// Whether the flags ask for reading.
    pub fn read(&self) -> (r: bool)
        ensures
            r == self.spec_read(),
    {
        self.access_mode() == OpenFlags::RDONLY || self.access_mode() == OpenFlags::RDWR
    }

    /// Whether the flags ask for writing.
    pub fn write(&self) -> (r: bool)
        ensures
            r == self.spec_write(),
    {
        self.access_mode() == OpenFlags::WRONLY || self.access_mode() == OpenFlags::RDWR
    }
}

/// The two kinds of lock that a handle can hold.
#[derive(Clone, Copy, Debug, PartialEq, Eq, Structural)]
pub enum LockFlags {
    Flock,
    Plock,
}

/// The two lowest bits say what a file is opened for: zero for reading, one
/// for writing, two for both. The other bits say nothing of it.
pub proof fn law_access_mode_is_in_the_low_bits(flags: OpenFlags, other: OpenFlags)
    ensures
        flags.spec_access_mode() == flags.value % 4,
        flags.value % 4 == 0 ==> flags.spec_read() && !flags.spec_write(),
        flags.value % 4 == 1 ==> !flags.spec_read() && flags.spec_write(),
        flags.value % 4 == 2 ==> flags.spec_read() && flags.spec_write(),
        flags.value % 4 == 3 ==> !flags.spec_read() && !flags.spec_write(),
        flags.value % 4 == other.value % 4 ==> flags.spec_read() == other.spec_read()
            && flags.spec_write() == other.spec_write(),
{
    let a = flags.value;
    let b = other.value;
    assert(a & 3u32 == a % 4u32) by (bit_vector);
    assert(b & 3u32 == b % 4u32) by (bit_vector);
}

/// A status with nothing set is that of an empty file without a name.
pub proof fn law_blank_status()
    ensures
        ({
            let s = StatusView::blank();
            &&& s.id == 0 && s.len == 0 && s.mtime == 0 && s.atime == 0
            &&& s.mode == 0 && s.nlink == 0 && !s.is_dir
            &&& s.path.len() == 0 && s.name.len() == 0 && s.owner.len() == 0 && s.group.len() == 0
            &&& forall|k: Seq<char>| !(#[trigger] s.x_attr.contains_key(k))
        }),
{
}

/// A status is seen as it is, field by field.
pub proof fn law_status_is_seen_as_it_is(status: FileStatus, k: Seq<char>)
    ensures
        status@.id == status.id && status@.is_dir == status.is_dir && status@.len == status.len,
        status@.mtime == status.mtime && status@.atime == status.atime,
        status@.mode == status.mode && status@.nlink == status.nlink,
        status@.path == status.path@ && status@.name == status.name@,
        status@.owner == status.owner@ && status@.group == status.group@,
        status@.x_attr.contains_key(k) <==> status.x_attr@.contains_key(k),
        status.x_attr@.contains_key(k) ==> status@.x_attr[k] == status.x_attr@[k]@,
{
}

/// A change of attributes is seen as it is: what it gives, what it adds, and
/// every name that it removes.
pub proof fn law_change_is_seen_as_it_is(opts: SetAttrOpts, i: int, k: Seq<char>)
    ensures
        opts@.mtime == opts.mtime && opts@.atime == opts.atime && opts@.mode == opts.mode,
        opts.owner matches Some(v) ==> opts@.owner == Some(v@),
        opts.owner is None ==> opts@.owner is None,
        opts.group matches Some(v) ==> opts@.group == Some(v@),
        opts.group is None ==> opts@.group is None,
        opts@.add_x_attr.contains_key(k) <==> opts.add_x_attr@.contains_key(k),
        opts.add_x_attr@.contains_key(k) ==> opts@.add_x_attr[k] == opts.add_x_attr@[k]@,
        0 <= i < opts.remove_x_attr@.len() ==> opts@.remove_x_attr.contains(
            opts.remove_x_attr@[i]@,
        ),
        opts@.remove_x_attr.contains(k) ==> exists|j: int|
            0 <= j < opts.remove_x_attr@.len() && (#[trigger] opts.remove_x_attr@[j])@ == k,
{
    let names = texts(opts.remove_x_attr@);
    if 0 <= i < opts.remove_x_attr@.len() {
        assert(names[i] == opts.remove_x_attr@[i]@);
        assert(names.contains(opts.remove_x_attr@[i]@));
    }
    if opts@.remove_x_attr.contains(k) {
        assert(names.contains(k));
        let j = choose|j: int| 0 <= j < names.len() && names[j] == k;
        assert(opts.remove_x_attr@[j]@ == k);
    }
}

/// A value that is given is taken, else the present one stays.
pub proof fn law_given_value_is_taken<T>(value: Option<T>, current: T)
    ensures
        value matches Some(v) ==> given_or(value, current) == v,
        value is None ==> given_or(value, current) == current,
{
}

} // verus!
