//! The state file: a mark, a version, the directory tree, the open files, the
//! open directories and the last handle number.
use vstd::prelude::*;

use crate::dcache::dir_tree::DirTree;
use crate::dcache::tree_view::TreeView;
use crate::error::{FuseError, FuseResult};
use crate::persist::handle::{
    SavedDirHandle, SavedDirHandleView, SavedHandle, SavedHandleView,
};
use crate::record;
use crate::record::{joined, Record, StateReader};

verus! {

/// The version of the state file.
pub const STATE_FILE_VERSION: u64 = 1;

/// The mark that a state file starts with.
pub open spec fn magic() -> Seq<u8> {
    seq![0x43u8, 0x56u8, 0x46u8, 0x53u8]
}

/// The mark that a state file starts with.
pub fn state_file_magic() -> (r: Vec<u8>)
    ensures
        r@ == magic(),
{
    let mut r: Vec<u8> = Vec::new();
    r.push(0x43);
    r.push(0x56);
    r.push(0x46);
    r.push(0x53);
    assert(r@ =~= magic());
    r
}

/// Bytes that are written at the end.
pub struct StateWriter {
    bytes: Vec<u8>,
}

impl View for StateWriter {
    type V = Seq<u8>;

    closed spec fn view(&self) -> Seq<u8> {
        self.bytes@
    }
}

impl StateWriter {
    /// Nothing written.
    pub fn new() -> (r: Self)
        ensures
            r@ == Seq::<u8>::empty(),
    {
        StateWriter { bytes: Vec::new() }
    }

    /// Writes some bytes.
    pub fn write_all(&mut self, data: Vec<u8>)
        ensures
            final(self)@ == old(self)@ + data@,
    {
        let mut data = data;
        self.bytes.append(&mut data);
    }

    /// Hands the bytes over.
    pub fn into_bytes(self) -> (r: Vec<u8>)
        ensures
            r@ == self@,
    {
        self.bytes
    }
}

/// The value that makes up all of some bytes.
pub open spec fn whole_value<T: Record>(bytes: Seq<u8>) -> Option<T::Model> {
    match T::parse(bytes) {
        Some((value, rest)) => if rest.len() == 0 {
            Some(value)
        } else {
            None
        },
        None => None,
    }
}

/// The first `n` framed values of some bytes, as far as there are frames, the
/// bytes behind the last frame that is there, and whether none is missing. A
/// frame that holds no value gives `None`.
pub open spec fn framed<T: Record>(s: Seq<u8>, n: nat) -> (Seq<Option<T::Model>>, Seq<u8>, bool)
    decreases n,
{
    if n == 0 {
        (Seq::empty(), s, true)
    } else {
        let (values, rest, complete) = framed::<T>(s, (n - 1) as nat);
        if !complete {
            (values, rest, false)
        } else {
            match <Vec<u8> as Record>::parse(rest) {
                None => (values, rest, false),
                Some((frame, rest2)) => (values.push(whole_value::<T>(frame)), rest2, true),
            }
        }
    }
}

/// Where a frame is missing, reading on changes nothing.
proof fn lemma_framed_stops<T: Record>(s: Seq<u8>, i: nat, n: nat)
    requires
        i <= n,
        !framed::<T>(s, i).2,
    ensures
        framed::<T>(s, n) == framed::<T>(s, i),
    decreases n - i,
{
    if i < n {
        lemma_framed_stops::<T>(s, i + 1, n);
    }
}

/// The first `n` framed values of some bytes up to the first frame that is
/// missing or holds no value, the bytes behind the last frame that was looked
/// at, and whether each was there.
pub open spec fn framed_all<T: Record>(s: Seq<u8>, n: nat) -> (Seq<T::Model>, Seq<u8>, bool)
    decreases n,
{
    if n == 0 {
        (Seq::empty(), s, true)
    } else {
        let (values, rest, complete) = framed_all::<T>(s, (n - 1) as nat);
        if !complete {
            (values, rest, false)
        } else {
            match <Vec<u8> as Record>::parse(rest) {
                None => (values, rest, false),
                Some((frame, rest2)) => match whole_value::<T>(frame) {
                    None => (values, rest2, false),
                    Some(value) => (values.push(value), rest2, true),
                },
            }
        }
    }
}

/// Behind a frame that is missing or holds no value nothing more is read.
proof fn lemma_framed_all_stops<T: Record>(s: Seq<u8>, i: nat, n: nat)
    requires
        i <= n,
        !framed_all::<T>(s, i).2,
    ensures
        framed_all::<T>(s, n) == framed_all::<T>(s, i),
    decreases n - i,
{
    if i < n {
        lemma_framed_all_stops::<T>(s, i + 1, n);
    }
}

/// Frames that each hold a value are all read.
proof fn lemma_framed_all<T: Record>(s: Seq<u8>, n: nat, values: Seq<T::Model>, rest: Seq<u8>)
    requires
        framed::<T>(s, n) == (all_some(values), rest, true),
    ensures
        framed_all::<T>(s, n) == (values, rest, true),
    decreases n,
{
    if n == 0 {
        assert(all_some(values).len() == 0);
        assert(values =~= Seq::empty());
    } else {
        let (before, rest1, complete) = framed::<T>(s, (n - 1) as nat);
        let some = all_some(values);
        assert(some.last() == Some(values.last()));
        assert(before =~= some.drop_last());
        assert(before =~= all_some(values.drop_last()));
        lemma_framed_all::<T>(s, (n - 1) as nat, values.drop_last(), rest1);
        assert(values =~= values.drop_last().push(values.last()));
    }
}

/// The mathematical values of a list with gaps.
pub open spec fn opt_models<T: Record>(values: Seq<Option<T>>) -> Seq<Option<T::Model>> {
    values.map_values(
        |v: Option<T>|
            match v {
                Some(x) => Some(x.model()),
                None => None,
            },
    )
}

/// The value that makes up all of some bytes.
fn decode_whole<T: Record>(bytes: Vec<u8>) -> (r: Option<T>)
    ensures
        match r {
            Some(x) => whole_value::<T>(bytes@) == Some(x.model()),
            None => whole_value::<T>(bytes@) is None,
        },
{
    let mut reader = StateReader::new(bytes);
    match T::decode(&mut reader) {
        Some(x) => {
            if reader.remaining() == 0 {
                Some(x)
            } else {
                None
            }
        },
        None => None,
    }
}

/// Reads framed values. The second part says whether there was a frame for
/// each.
fn read_framed<T: Record>(reader: &mut StateReader, n: u64) -> (r: (Vec<Option<T>>, bool))
    ensures
        final(reader).whole() == old(reader).whole(),
        framed::<T>(old(reader)@, n as nat) == (opt_models(r.0@), final(reader)@, r.1),
{
    let ghost start = reader@;
    let mut values: Vec<Option<T>> = Vec::new();
    let mut i: u64 = 0;
    assert(opt_models(values@) =~= Seq::empty());
    while i < n
        invariant
            i <= n,
            start == old(reader)@,
            reader.whole() == old(reader).whole(),
            framed::<T>(start, i as nat) == (opt_models(values@), reader@, true),
        decreases n - i,
    {
        let ghost before = values@;
        match <Vec<u8> as Record>::decode(reader) {
            None => {
                proof {
                    assert(!framed::<T>(start, (i + 1) as nat).2);
                    lemma_framed_stops::<T>(start, (i + 1) as nat, n as nat);
                }
                return (values, false);
            },
            Some(frame) => {
                let value = decode_whole::<T>(frame);
                values.push(value);
                assert(opt_models(values@) =~= opt_models(before).push(
                    whole_value::<T>(frame@),
                ));
            },
        }
        i = i + 1;
    }
    (values, true)
}

/// Reads framed values up to the first frame that is missing or holds no
/// value. The second part says whether each was there.
fn read_framed_all<T: Record>(reader: &mut StateReader, n: u64) -> (r: (Vec<T>, bool))
    ensures
        final(reader).whole() == old(reader).whole(),
        framed_all::<T>(old(reader)@, n as nat) == (record::models(r.0@), final(reader)@, r.1),
{
    let ghost start = reader@;
    let mut values: Vec<T> = Vec::new();
    let mut i: u64 = 0;
    assert(record::models(values@) =~= Seq::empty());
    while i < n
        invariant
            i <= n,
            start == old(reader)@,
            reader.whole() == old(reader).whole(),
            framed_all::<T>(start, i as nat) == (record::models(values@), reader@, true),
        decreases n - i,
    {
        let ghost before = values@;
        let value = match <Vec<u8> as Record>::decode(reader) {
            None => None,
            Some(frame) => decode_whole::<T>(frame),
        };
        match value {
            None => {
                proof {
                    assert(!framed_all::<T>(start, (i + 1) as nat).2);
                    lemma_framed_all_stops::<T>(start, (i + 1) as nat, n as nat);
                }
                return (values, false);
            },
            Some(x) => {
                values.push(x);
                assert(record::models(values@) =~= record::models(before).push(x.model()));
            },
        }
        i = i + 1;
    }
    (values, true)
}

/// What was read of a state file, as far as it could be read.
pub struct StateImage {
    pub tree: Option<DirTree>,
    pub handles: Vec<Option<SavedHandle>>,
    pub dir_handles: Vec<SavedDirHandle>,
    pub end: FuseResult<u64>,
}

/// What was read of a state file, as mathematical values: the tree, the open
/// files with a gap for each that could not be read, the open directories, and
/// the last handle number or what kept the rest from being read.
#[verifier::ext_equal]
pub struct ImageView {
    pub tree: Option<TreeView>,
    pub handles: Seq<Option<SavedHandleView>>,
    pub dir_handles: Seq<SavedDirHandleView>,
    pub end: FuseResult<u64>,
}

impl View for StateImage {
    type V = ImageView;

    open spec fn view(&self) -> ImageView {
        ImageView {
            tree: match self.tree {
                Some(t) => Some(t@),
                None => None,
            },
            handles: opt_models(self.handles@),
            dir_handles: record::models(self.dir_handles@),
            end: self.end,
        }
    }
}

/// Nothing but the reason why.
pub open spec fn nothing_read(why: FuseError) -> ImageView {
    ImageView { tree: None, handles: Seq::empty(), dir_handles: Seq::empty(), end: Err(why) }
}

/// What some bytes hold as a state file, and the bytes that are left when it
/// was read: those behind it, or those behind the last part that could be
/// read.
pub open spec fn state_of(s: Seq<u8>) -> (ImageView, Seq<u8>) {
    if s.len() < 4 {
        (nothing_read(FuseError::CorruptState), s)
    } else if s.take(4) != magic() {
        (nothing_read(FuseError::InvalidMagic { mark: [s[0], s[1], s[2], s[3]] }), s.skip(4))
    } else {
        match u64::parse(s.skip(4)) {
            None => (nothing_read(FuseError::CorruptState), s.skip(4)),
            Some((version, s1)) => if version != STATE_FILE_VERSION {
                (nothing_read(FuseError::UnsupportedVersion { version }), s1)
            } else {
                match DirTree::parse(s1) {
                    None => (nothing_read(FuseError::CorruptState), s1),
                    Some((tree, s2)) => {
                        let (image, left) = handles_of(s2);
                        (ImageView { tree: Some(tree), ..image }, left)
                    },
                }
            },
        }
    }
}

/// What some bytes hold as a state file.
pub open spec fn image_of(s: Seq<u8>) -> ImageView {
    state_of(s).0
}

/// The bytes that are left when a state file was read.
pub open spec fn behind_state(s: Seq<u8>) -> Seq<u8> {
    state_of(s).1
}

/// What the bytes behind the tree hold, and the bytes that are left.
pub open spec fn handles_of(s: Seq<u8>) -> (ImageView, Seq<u8>) {
    match u64::parse(s) {
        None => (nothing_read(FuseError::CorruptState), s),
        Some((n, s1)) => {
            let (handles, s2, complete) = framed::<SavedHandle>(s1, n as nat);
            if !complete {
                (ImageView { handles, ..nothing_read(FuseError::CorruptState) }, s2)
            } else {
                let (image, left) = dir_handles_of(s2);
                (ImageView { handles, ..image }, left)
            }
        },
    }
}

/// What the bytes behind the open files hold, and the bytes that are left.
pub open spec fn dir_handles_of(s: Seq<u8>) -> (ImageView, Seq<u8>) {
    match u64::parse(s) {
        None => (nothing_read(FuseError::CorruptState), s),
        Some((n, s1)) => {
            let (dir_handles, s2, complete) = framed_all::<SavedDirHandle>(s1, n as nat);
            let failed = ImageView { dir_handles, ..nothing_read(FuseError::CorruptState) };
            if !complete {
                (failed, s2)
            } else {
                match u64::parse(s2) {
                    None => (failed, s2),
                    Some((fh, s3)) => (ImageView { end: Ok(fh), ..failed }, s3),
                }
            }
        },
    }
}

impl StateImage {
    /// Nothing but the reason why.
    fn nothing(why: FuseError) -> (r: Self)
        ensures
            r@ == nothing_read(why),
    {
        let r = StateImage {
            tree: None,
            handles: Vec::new(),
            dir_handles: Vec::new(),
            end: Err(why),
        };
        assert(r@ =~= nothing_read(why));
        r
    }

    /// Reads the open directories and the last handle number.
    fn read_dir_handles(reader: &mut StateReader) -> (r: Self)
        ensures
            final(reader).whole() == old(reader).whole(),
            (r@, final(reader)@) == dir_handles_of(old(reader)@),
    {
        let n = match u64::decode(reader) {
            Some(n) => n,
            None => {
                return StateImage::nothing(FuseError::CorruptState);
            },
        };
        let (dir_handles, complete) = read_framed_all::<SavedDirHandle>(reader, n);
        let end = if !complete {
            Err(FuseError::CorruptState)
        } else {
            match u64::decode(reader) {
                Some(fh) => Ok(fh),
                None => Err(FuseError::CorruptState),
            }
        };
        let r = StateImage { tree: None, handles: Vec::new(), dir_handles, end };
        assert(r@ =~= dir_handles_of(old(reader)@).0);
        r
    }

    /// Reads what is behind the tree.
    fn read_handles(reader: &mut StateReader) -> (r: Self)
        ensures
            final(reader).whole() == old(reader).whole(),
            (r@, final(reader)@) == handles_of(old(reader)@),
    {
        let n = match u64::decode(reader) {
            Some(n) => n,
            None => {
                return StateImage::nothing(FuseError::CorruptState);
            },
        };
        let (handles, complete) = read_framed::<SavedHandle>(reader, n);
        let mut r = if complete {
            StateImage::read_dir_handles(reader)
        } else {
            StateImage::nothing(FuseError::CorruptState)
        };
        r.handles = handles;
        assert(r@ =~= handles_of(old(reader)@).0);
        r
    }

    /// Reads a state file, as far as it can be read. Nothing behind the part
    /// that cannot be read is touched.
    pub fn read(reader: &mut StateReader) -> (r: Self)
        ensures
            r@ == image_of(old(reader)@),
            final(reader)@ == behind_state(old(reader)@),
            final(reader).whole() == old(reader).whole(),
    {
        let ghost s = reader@;
        let mark = match reader.read_exact(4) {
            Some(mark) => mark,
            None => {
                return StateImage::nothing(FuseError::CorruptState);
            },
        };
        proof {
            assert(mark@[0] == s[0] && mark@[1] == s[1] && mark@[2] == s[2] && mark@[3] == s[3]);
        }
        if !(mark[0] == 0x43 && mark[1] == 0x56 && mark[2] == 0x46 && mark[3] == 0x53) {
            let found: [u8; 4] = [mark[0], mark[1], mark[2], mark[3]];
            proof {
                assert(magic()[0] == 0x43 && magic()[1] == 0x56 && magic()[2] == 0x46 && magic()[3]
                    == 0x53);
            }
            return StateImage::nothing(FuseError::InvalidMagic { mark: found });
        }
        assert(s.take(4) =~= magic());
        let version = match u64::decode(reader) {
            Some(version) => version,
            None => {
                return StateImage::nothing(FuseError::CorruptState);
            },
        };
        if version != STATE_FILE_VERSION {
            return StateImage::nothing(FuseError::UnsupportedVersion { version });
        }
        let tree = match DirTree::decode(reader) {
            Some(tree) => tree,
            None => {
                return StateImage::nothing(FuseError::CorruptState);
            },
        };
        let mut r = StateImage::read_handles(reader);
        r.tree = Some(tree);
        assert(r@ =~= image_of(s));
        r
    }
}

/// Values without gaps.
pub open spec fn all_some<T>(values: Seq<T>) -> Seq<Option<T>> {
    values.map_values(|v: T| Some(v))
}

/// Whatever follows these bytes, they are read as framed values.
spec fn encodes_framed<T: Record>(bytes: Seq<u8>, values: Seq<T::Model>) -> bool {
    forall|rest: Seq<u8>|
        framed::<T>(#[trigger] (bytes + rest), values.len()) == (all_some(values), rest, true)
}

/// One framed value more.
proof fn lemma_framed_push<T: Record>(
    bytes: Seq<u8>,
    values: Seq<T::Model>,
    more: Seq<u8>,
    frame: Seq<u8>,
    value: T::Model,
)
    requires
        encodes_framed::<T>(bytes, values),
        record::encodes::<Vec<u8>>(more, frame),
        record::encodes::<T>(frame, value),
    ensures
        encodes_framed::<T>(bytes + more, values.push(value)),
{
    assert(whole_value::<T>(frame) == Some(value)) by {
        assert(frame + Seq::<u8>::empty() =~= frame);
        assert(T::parse(frame + Seq::<u8>::empty()) == Some((value, Seq::<u8>::empty())));
    }
    assert forall|rest: Seq<u8>|
        framed::<T>(#[trigger] ((bytes + more) + rest), values.push(value).len()) == (
            all_some(values.push(value)),
            rest,
            true,
        ) by {
        assert((bytes + more) + rest =~= bytes + (more + rest));
        assert(framed::<T>(bytes + (more + rest), values.len()) == (
            all_some(values),
            more + rest,
            true,
        ));
        assert(<Vec<u8> as Record>::parse(more + rest) == Some((frame, rest)));
        assert(all_some(values.push(value)) =~= all_some(values).push(Some(value)));
        assert(values.push(value).len() - 1 == values.len());
    }
}

/// The bytes of a list of values, each in a frame.
fn encode_framed<T: Record>(values: &Vec<T>) -> (r: Vec<u8>)
    ensures
        encodes_framed::<T>(r@, record::models(values@)),
{
    let ghost all = record::models(values@);
    let mut r: Vec<u8> = Vec::new();
    let mut i: usize = 0;
    proof {
        assert forall|rest: Seq<u8>|
            framed::<T>(#[trigger] (r@ + rest), all.take(0).len()) == (
                all_some(all.take(0)),
                rest,
                true,
            ) by {
            assert(r@ + rest =~= rest);
            assert(all_some(all.take(0)) =~= Seq::empty());
        }
    }
    while i < values.len()
        invariant
            all == record::models(values@),
            i <= values@.len(),
            encodes_framed::<T>(r@, all.take(i as int)),
        decreases values@.len() - i,
    {
        let frame = values[i].encode();
        let more = frame.encode();
        proof {
            lemma_framed_push::<T>(r@, all.take(i as int), more@, frame@, all[i as int]);
            assert(all.take(i + 1) =~= all.take(i as int).push(all[i as int]));
        }
        r = joined(r, more);
        i = i + 1;
    }
    assert(all.take(i as int) =~= all);
    r
}

/// These bytes are those of this value.
#[verifier::opaque]
spec fn bytes_of<T: Record>(bytes: Seq<u8>, value: T::Model) -> bool {
    record::encodes::<T>(bytes, value)
}

/// These bytes are those of these values, each in a frame.
#[verifier::opaque]
spec fn frames_of<T: Record>(bytes: Seq<u8>, values: Seq<T::Model>) -> bool {
    encodes_framed::<T>(bytes, values)
}

/// The bytes of a value.
fn value_bytes<T: Record>(value: &T) -> (r: Vec<u8>)
    ensures
        bytes_of::<T>(r@, value.model()),
{
    let r = value.encode();
    assert(bytes_of::<T>(r@, value.model())) by {
        reveal(bytes_of);
    }
    r
}

/// The bytes of a list of values, each in a frame.
fn frame_bytes<T: Record>(values: &Vec<T>) -> (r: Vec<u8>)
    ensures
        frames_of::<T>(r@, record::models(values@)),
{
    let r = encode_framed(values);
    assert(frames_of::<T>(r@, record::models(values@))) by {
        reveal(frames_of);
    }
    r
}

/// The image of a state that was written in full.
pub open spec fn full_image(
    tree: TreeView,
    handles: Seq<SavedHandleView>,
    dir_handles: Seq<SavedDirHandleView>,
    last_fh: u64,
) -> ImageView {
    ImageView { tree: Some(tree), handles: all_some(handles), dir_handles, end: Ok(last_fh) }
}

/// Writes a state file, and nothing behind it.
pub fn write_state(
    writer: &mut StateWriter,
    tree: &DirTree,
    handles: &Vec<SavedHandle>,
    dir_handles: &Vec<SavedDirHandle>,
    last_fh: u64,
)
    ensures
        old(writer)@.is_prefix_of(final(writer)@),
        state_of(final(writer)@.skip(old(writer)@.len() as int)) == (
            full_image(tree@, record::models(handles@), record::models(dir_handles@), last_fh),
            Seq::<u8>::empty(),
        ),
{
    let ghost before = writer@;
    let file = state_bytes(tree, handles, dir_handles, last_fh);
    writer.write_all(file);
    assert(writer@.skip(before.len() as int) =~= file@);
}

/// The bytes of a state file.
fn state_bytes(
    tree: &DirTree,
    handles: &Vec<SavedHandle>,
    dir_handles: &Vec<SavedDirHandle>,
    last_fh: u64,
) -> (r: Vec<u8>)
    ensures
        state_of(r@) == (
            full_image(tree@, record::models(handles@), record::models(dir_handles@), last_fh),
            Seq::<u8>::empty(),
        ),
{
    let mark = state_file_magic();
    let version: u64 = STATE_FILE_VERSION;
    let n: u64 = handles.len() as u64;
    let m: u64 = dir_handles.len() as u64;
    let a = value_bytes(&version);
    let b = value_bytes(tree);
    let c = value_bytes(&n);
    let d = frame_bytes(handles);
    let e = value_bytes(&m);
    let f = frame_bytes(dir_handles);
    let g = value_bytes(&last_fh);
    let ghost hs = record::models(handles@);
    let ghost ds = record::models(dir_handles@);
    proof {
        lemma_tail(e@, f@, g@, ds, m, last_fh);
        lemma_middle(c@, d@, e@ + (f@ + g@), hs, ds, n, last_fh);
        lemma_head(mark@, a@, b@, c@ + (d@ + (e@ + (f@ + g@))), tree@, hs, ds, last_fh);
    }
    joined(mark, joined(a, joined(b, joined(c, joined(d, joined(e, joined(f, g)))))))
}

/// The open directories and the last handle number are read back.
proof fn lemma_tail(
    e: Seq<u8>,
    f: Seq<u8>,
    g: Seq<u8>,
    ds: Seq<SavedDirHandleView>,
    m: u64,
    last_fh: u64,
)
    requires
        m == ds.len(),
        bytes_of::<u64>(e, m),
        frames_of::<SavedDirHandle>(f, ds),
        bytes_of::<u64>(g, last_fh),
    ensures
        dir_handles_of(e + (f + g)) == (
            (ImageView {
                dir_handles: ds,
                end: Ok(last_fh),
                ..nothing_read(FuseError::CorruptState)
            }),
            Seq::<u8>::empty(),
        ),
{
    reveal(bytes_of);
    reveal(frames_of);
    assert(u64::parse(e + (f + g)) == Some((m, f + g)));
    assert(framed::<SavedDirHandle>(f + g, ds.len()) == (all_some(ds), g, true));
    lemma_framed_all::<SavedDirHandle>(f + g, ds.len(), ds, g);
    assert(g + Seq::<u8>::empty() =~= g);
    assert(u64::parse(g + Seq::<u8>::empty()) == Some((last_fh, Seq::<u8>::empty())));
}

/// The open files are read back.
proof fn lemma_middle(
    c: Seq<u8>,
    d: Seq<u8>,
    tail: Seq<u8>,
    hs: Seq<SavedHandleView>,
    ds: Seq<SavedDirHandleView>,
    n: u64,
    last_fh: u64,
)
    requires
        n == hs.len(),
        bytes_of::<u64>(c, n),
        frames_of::<SavedHandle>(d, hs),
        dir_handles_of(tail) == (
            (ImageView {
                dir_handles: ds,
                end: Ok(last_fh),
                ..nothing_read(FuseError::CorruptState)
            }),
            Seq::<u8>::empty(),
        ),
    ensures
        handles_of(c + (d + tail)) == (
            (ImageView {
                handles: all_some(hs),
                dir_handles: ds,
                end: Ok(last_fh),
                ..nothing_read(FuseError::CorruptState)
            }),
            Seq::<u8>::empty(),
        ),
{
    reveal(bytes_of);
    reveal(frames_of);
    assert(u64::parse(c + (d + tail)) == Some((n, d + tail)));
    assert(framed::<SavedHandle>(d + tail, hs.len()) == (all_some(hs), tail, true));
}

/// The mark, the version and the tree are read back.
proof fn lemma_head(
    mark: Seq<u8>,
    a: Seq<u8>,
    b: Seq<u8>,
    rest: Seq<u8>,
    tree: TreeView,
    hs: Seq<SavedHandleView>,
    ds: Seq<SavedDirHandleView>,
    last_fh: u64,
)
    requires
        mark == magic(),
        bytes_of::<u64>(a, STATE_FILE_VERSION),
        bytes_of::<DirTree>(b, tree),
        handles_of(rest) == (
            (ImageView {
                handles: all_some(hs),
                dir_handles: ds,
                end: Ok(last_fh),
                ..nothing_read(FuseError::CorruptState)
            }),
            Seq::<u8>::empty(),
        ),
    ensures
        state_of(mark + (a + (b + rest))) == (
            full_image(tree, hs, ds, last_fh),
            Seq::<u8>::empty(),
        ),
{
    reveal(bytes_of);
    let file = mark + (a + (b + rest));
    assert(file.take(4) =~= magic());
    assert(file.skip(4) =~= a + (b + rest));
    assert(u64::parse(a + (b + rest)) == Some((STATE_FILE_VERSION, b + rest)));
    assert(DirTree::parse(b + rest) == Some((tree, rest)));
}

} // verus!
