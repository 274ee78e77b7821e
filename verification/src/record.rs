//! Values as bytes: the pieces that the state file is made of.
use vstd::prelude::*;

verus! {

/// The first value of some bytes and the bytes behind it.
pub type Parsed<T> = Option<(T, Seq<u8>)>;

/// Bytes that are read from the front.
pub struct StateReader {
    bytes: Vec<u8>,
    pos: usize,
}

impl View for StateReader {
    type V = Seq<u8>;

    /// The bytes that were not read yet.
    closed spec fn view(&self) -> Seq<u8> {
        self.bytes@.skip(self.pos as int)
    }
}

impl StateReader {
    #[verifier::type_invariant]
    spec fn inside(self) -> bool {
        self.pos <= self.bytes@.len()
    }

    /// Reads these bytes from their start.
    pub fn new(bytes: Vec<u8>) -> (r: Self)
        ensures
            r@ == bytes@,
    {
        let r = StateReader { bytes, pos: 0 };
        assert(r@ =~= bytes@);
        r
    }

    /// All the bytes, with what was read.
    pub closed spec fn whole(&self) -> Seq<u8> {
        self.bytes@
    }

    /// How many bytes are left.
    pub fn remaining(&self) -> (r: usize)
        ensures
            r == self@.len(),
    {
        proof {
            use_type_invariant(&*self);
        }
        self.bytes.len() - self.pos
    }

    /// How far reading has come.
    pub fn mark(&self) -> (r: usize)
        ensures
            r <= self.whole().len(),
            self@ == self.whole().skip(r as int),
    {
        proof {
            use_type_invariant(&*self);
        }
        self.pos
    }

    /// Goes back to a place.
    pub fn reset(&mut self, mark: usize)
        requires
            mark <= old(self).whole().len(),
        ensures
            final(self).whole() == old(self).whole(),
            final(self)@ == old(self).whole().skip(mark as int),
    {
        self.pos = mark;
    }

    /// Reads a number of bytes. Where fewer are left nothing is read.
    pub fn read_exact(&mut self, n: usize) -> (r: Option<Vec<u8>>)
        ensures
            final(self).whole() == old(self).whole(),
            match r {
                Some(bytes) => {
                    &&& n <= old(self)@.len()
                    &&& bytes@ == old(self)@.take(n as int)
                    &&& final(self)@ == old(self)@.skip(n as int)
                },
                None => n > old(self)@.len() && final(self)@ == old(self)@,
            },
    {
        proof {
            use_type_invariant(&*self);
        }
        if n > self.bytes.len() - self.pos {
            return None;
        }
        let part = vstd::slice::slice_subrange(self.bytes.as_slice(), self.pos, self.pos + n);
        let r = vstd::slice::slice_to_vec(part);
        proof {
            assert(r@ =~= self@.take(n as int));
            assert(self.bytes@.skip(self.pos + n) =~= self@.skip(n as int));
        }
        self.pos = self.pos + n;
        Some(r)
    }
}

/// A value that can be written to bytes and read back.
pub trait Record: Sized {
    /// The mathematical value.
    type Model;

    /// The mathematical value.
    spec fn model(&self) -> Self::Model;

    /// The value that some bytes start with.
    spec fn parse(s: Seq<u8>) -> Parsed<Self::Model>;

    /// The bytes of the value. Whatever follows them, they are read back as
    /// the value.
    fn encode(&self) -> (r: Vec<u8>)
        ensures
            forall|rest: Seq<u8>|
                Self::parse(#[trigger] (r@ + rest)) == Some((self.model(), rest)),
    ;

    /// What is read does not depend on what follows it.
    proof fn lemma_extends(s: Seq<u8>, more: Seq<u8>)
        ensures
            Self::parse(s) matches Some((v, rest)) ==> Self::parse(s + more) == Some(
                (v, rest + more),
            ),
    ;

    /// Reads a value. Where the bytes do not start with one nothing is read.
    fn decode(reader: &mut StateReader) -> (r: Option<Self>)
        ensures
            final(reader).whole() == old(reader).whole(),
            match Self::parse(old(reader)@) {
                Some((v, rest)) => {
                    &&& r is Some
                    &&& r->Some_0.model() == v
                    &&& final(reader)@ == rest
                },
                None => r is None && final(reader)@ == old(reader)@,
            },
    ;
}

/// Whatever follows these bytes, they are read as this value.
pub open spec fn encodes<T: Record>(bytes: Seq<u8>, value: T::Model) -> bool {
    forall|rest: Seq<u8>| T::parse(#[trigger] (bytes + rest)) == Some((value, rest))
}

/// The first `n` values of some bytes.
pub open spec fn parse_list<T: Record>(s: Seq<u8>, n: nat) -> Parsed<Seq<T::Model>>
    decreases n,
{
    if n == 0 {
        Some((Seq::empty(), s))
    } else {
        match parse_list::<T>(s, (n - 1) as nat) {
            Some((values, rest)) => match T::parse(rest) {
                Some((value, rest2)) => Some((values.push(value), rest2)),
                None => None,
            },
            None => None,
        }
    }
}

/// The mathematical values of a list.
pub open spec fn models<T: Record>(values: Seq<T>) -> Seq<T::Model> {
    values.map_values(|v: T| v.model())
}

/// Where the first `i` values cannot be read, no more can be.
pub proof fn lemma_list_fails<T: Record>(s: Seq<u8>, i: nat, n: nat)
    requires
        i <= n,
        parse_list::<T>(s, i) is None,
    ensures
        parse_list::<T>(s, n) is None,
    decreases n - i,
{
    if i < n {
        assert(parse_list::<T>(s, i + 1) is None);
        lemma_list_fails::<T>(s, i + 1, n);
    }
}

/// Whatever follows these bytes, they are read as these values.
pub open spec fn encodes_list<T: Record>(bytes: Seq<u8>, values: Seq<T::Model>) -> bool {
    forall|rest: Seq<u8>|
        parse_list::<T>(#[trigger] (bytes + rest), values.len()) == Some((values, rest))
}

/// One value more.
pub proof fn lemma_encodes_push<T: Record>(
    bytes: Seq<u8>,
    values: Seq<T::Model>,
    more: Seq<u8>,
    value: T::Model,
)
    requires
        encodes_list::<T>(bytes, values),
        encodes::<T>(more, value),
    ensures
        encodes_list::<T>(bytes + more, values.push(value)),
{
    assert forall|rest: Seq<u8>|
        parse_list::<T>(#[trigger] ((bytes + more) + rest), values.push(value).len()) == Some(
            (values.push(value), rest),
        ) by {
        assert((bytes + more) + rest =~= bytes + (more + rest));
        assert(parse_list::<T>(bytes + (more + rest), values.len()) == Some(
            (values, more + rest),
        ));
        assert(values.push(value).len() - 1 == values.len());
    }
}

/// One value behind another is a pair.
pub proof fn lemma_encodes_pair<A: Record, B: Record>(
    a: Seq<u8>,
    b: Seq<u8>,
    x: A::Model,
    y: B::Model,
)
    requires
        encodes::<A>(a, x),
        encodes::<B>(b, y),
    ensures
        encodes::<(A, B)>(a + b, (x, y)),
{
    assert forall|rest: Seq<u8>| <(A, B) as Record>::parse(#[trigger] ((a + b) + rest)) == Some(
        ((x, y), rest),
    ) by {
        assert((a + b) + rest =~= a + (b + rest));
        assert(A::parse(a + (b + rest)) == Some((x, b + rest)));
        assert(B::parse(b + rest) == Some((y, rest)));
    }
}

/// The bytes of one list behind those of another.
pub fn joined(a: Vec<u8>, b: Vec<u8>) -> (r: Vec<u8>)
    ensures
        r@ == a@ + b@,
{
    let mut a = a;
    let mut b = b;
    a.append(&mut b);
    a
}

/// The bytes of a list of values, without their number.
pub fn encode_items<T: Record>(values: &Vec<T>) -> (r: Vec<u8>)
    ensures
        encodes_list::<T>(r@, models(values@)),
{
    let ghost all = models(values@);
    let mut r: Vec<u8> = Vec::new();
    let mut i: usize = 0;
    proof {
        assert forall|rest: Seq<u8>|
            parse_list::<T>(#[trigger] (r@ + rest), all.take(0).len()) == Some(
                (all.take(0), rest),
            ) by {
            assert(r@ + rest =~= rest);
            assert(all.take(0) =~= Seq::empty());
        }
    }
    while i < values.len()
        invariant
            all == models(values@),
            i <= values@.len(),
            encodes_list::<T>(r@, all.take(i as int)),
        decreases values@.len() - i,
    {
        let more = values[i].encode();
        proof {
            lemma_encodes_push::<T>(r@, all.take(i as int), more@, all[i as int]);
            assert(all.take(i + 1) =~= all.take(i as int).push(all[i as int]));
        }
        r = joined(r, more);
        i = i + 1;
    }
    assert(all.take(i as int) =~= all);
    r
}

/// Reads a number of values. Where fewer can be read nothing is read.
pub fn decode_items<T: Record>(reader: &mut StateReader, n: u64) -> (r: Option<Vec<T>>)
    ensures
        final(reader).whole() == old(reader).whole(),
        match parse_list::<T>(old(reader)@, n as nat) {
            Some((values, rest)) => {
                &&& r is Some
                &&& models(r->Some_0@) == values
                &&& final(reader)@ == rest
            },
            None => r is None && final(reader)@ == old(reader)@,
        },
{
    let mark = reader.mark();
    let ghost start = reader@;
    let ghost whole = reader.whole();
    let mut r: Vec<T> = Vec::new();
    let mut i: u64 = 0;
    assert(models(r@) =~= Seq::empty());
    while i < n
        invariant
            i <= n,
            mark <= whole.len(),
            start == whole.skip(mark as int),
            reader.whole() == whole,
            start == old(reader)@,
            whole == old(reader).whole(),
            parse_list::<T>(start, i as nat) == Some((models(r@), reader@)),
        decreases n - i,
    {
        let ghost before = r@;
        match T::decode(reader) {
            Some(value) => {
                r.push(value);
                assert(models(r@) =~= models(before).push(value.model()));
            },
            None => {
                proof {
                    assert(parse_list::<T>(start, (i + 1) as nat) is None);
                    lemma_list_fails::<T>(start, (i + 1) as nat, n as nat);
                }
                reader.reset(mark);
                return None;
            },
        }
        i = i + 1;
    }
    Some(r)
}

impl Record for u64 {
    type Model = u64;

    open spec fn model(&self) -> u64 {
        *self
    }

    open spec fn parse(s: Seq<u8>) -> Parsed<u64> {
        if s.len() < 8 {
            None
        } else {
            Some((vstd::bytes::spec_u64_from_le_bytes(s.take(8)), s.skip(8)))
        }
    }

    fn encode(&self) -> (r: Vec<u8>) {
        let r = vstd::bytes::u64_to_le_bytes(*self);
        proof {
            vstd::bytes::lemma_auto_spec_u64_to_from_le_bytes();
            assert forall|rest: Seq<u8>| u64::parse(#[trigger] (r@ + rest)) == Some(
                (*self, rest),
            ) by {
                assert((r@ + rest).take(8) =~= r@);
                assert((r@ + rest).skip(8) =~= rest);
            }
        }
        r
    }

    proof fn lemma_extends(s: Seq<u8>, more: Seq<u8>) {
        if s.len() >= 8 {
            assert((s + more).take(8) =~= s.take(8));
            assert((s + more).skip(8) =~= s.skip(8) + more);
        }
    }

    fn decode(reader: &mut StateReader) -> (r: Option<Self>) {
        match reader.read_exact(8) {
            Some(bytes) => Some(vstd::bytes::u64_from_le_bytes(bytes.as_slice())),
            None => None,
        }
    }
}

impl Record for Vec<u8> {
    type Model = Seq<u8>;

    open spec fn model(&self) -> Seq<u8> {
        self@
    }

    /// The number of bytes, then the bytes.
    open spec fn parse(s: Seq<u8>) -> Parsed<Seq<u8>> {
        match u64::parse(s) {
            Some((n, rest)) => if n <= rest.len() {
                Some((rest.take(n as int), rest.skip(n as int)))
            } else {
                None
            },
            None => None,
        }
    }

    fn encode(&self) -> (r: Vec<u8>) {
        let n: u64 = self.len() as u64;
        let head = n.encode();
        let body = vstd::slice::slice_to_vec(self.as_slice());
        let r = joined(head, body);
        proof {
            assert forall|rest: Seq<u8>| <Vec<u8> as Record>::parse(
                #[trigger] (r@ + rest),
            ) == Some((self@, rest)) by {
                assert(r@ + rest =~= head@ + (self@ + rest));
                assert(u64::parse(head@ + (self@ + rest)) == Some((n, self@ + rest)));
                assert((self@ + rest).take(n as int) =~= self@);
                assert((self@ + rest).skip(n as int) =~= rest);
            }
        }
        r
    }

    proof fn lemma_extends(s: Seq<u8>, more: Seq<u8>) {
        u64::lemma_extends(s, more);
        if let Some((n, rest)) = u64::parse(s) {
            if n <= rest.len() {
                assert((rest + more).take(n as int) =~= rest.take(n as int));
                assert((rest + more).skip(n as int) =~= rest.skip(n as int) + more);
            }
        }
    }

    fn decode(reader: &mut StateReader) -> (r: Option<Self>) {
        let mark = reader.mark();
        let n = match u64::decode(reader) {
            Some(n) => n,
            None => {
                return None;
            },
        };
        if n > reader.remaining() as u64 {
            reader.reset(mark);
            return None;
        }
        match reader.read_exact(n as usize) {
            Some(bytes) => Some(bytes),
            None => {
                reader.reset(mark);
                None
            },
        }
    }
}

/// `String::from_utf8` of std: succeeds exactly on bytes that are valid UTF-8,
/// and gives the text that they encode.
#[verifier::external_body]
fn text_from_utf8(bytes: Vec<u8>) -> (r: Option<String>)
    ensures
        r is Some == vstd::utf8::valid_utf8(bytes@),
        r matches Some(text) ==> text@ == vstd::utf8::decode_utf8(bytes@),
{
    String::from_utf8(bytes).ok()
}

impl Record for String {
    type Model = Seq<char>;

    open spec fn model(&self) -> Seq<char> {
        self@
    }

    /// The text's bytes as a list of bytes.
    open spec fn parse(s: Seq<u8>) -> Parsed<Seq<char>> {
        match <Vec<u8> as Record>::parse(s) {
            Some((bytes, rest)) => if vstd::utf8::valid_utf8(bytes) {
                Some((vstd::utf8::decode_utf8(bytes), rest))
            } else {
                None
            },
            None => None,
        }
    }

    fn encode(&self) -> (r: Vec<u8>) {
        broadcast use vstd::utf8::group_utf8_lib;

        let bytes = vstd::slice::slice_to_vec(self.as_str().as_bytes());
        assert(vstd::utf8::decode_utf8(bytes@) == self@);
        bytes.encode()
    }

    proof fn lemma_extends(s: Seq<u8>, more: Seq<u8>) {
        <Vec<u8> as Record>::lemma_extends(s, more);
    }

    fn decode(reader: &mut StateReader) -> (r: Option<Self>) {
        let mark = reader.mark();
        let bytes = match <Vec<u8> as Record>::decode(reader) {
            Some(bytes) => bytes,
            None => {
                return None;
            },
        };
        match text_from_utf8(bytes) {
            Some(text) => Some(text),
            None => {
                reader.reset(mark);
                None
            },
        }
    }
}

impl<A: Record, B: Record> Record for (A, B) {
    type Model = (A::Model, B::Model);

    open spec fn model(&self) -> (A::Model, B::Model) {
        (self.0.model(), self.1.model())
    }

    /// One value after the other.
    open spec fn parse(s: Seq<u8>) -> Parsed<(A::Model, B::Model)> {
        match A::parse(s) {
            Some((a, rest)) => match B::parse(rest) {
                Some((b, rest2)) => Some(((a, b), rest2)),
                None => None,
            },
            None => None,
        }
    }

    fn encode(&self) -> (r: Vec<u8>) {
        let a = self.0.encode();
        let b = self.1.encode();
        let r = joined(a, b);
        proof {
            assert forall|rest: Seq<u8>| <(A, B) as Record>::parse(#[trigger] (r@ + rest))
                == Some((self.model(), rest)) by {
                assert(r@ + rest =~= a@ + (b@ + rest));
                assert(A::parse(a@ + (b@ + rest)) == Some((self.0.model(), b@ + rest)));
                assert(B::parse(b@ + rest) == Some((self.1.model(), rest)));
            }
        }
        r
    }

    proof fn lemma_extends(s: Seq<u8>, more: Seq<u8>) {
        A::lemma_extends(s, more);
        if let Some((_, rest)) = A::parse(s) {
            B::lemma_extends(rest, more);
        }
    }

    fn decode(reader: &mut StateReader) -> (r: Option<Self>) {
        let mark = reader.mark();
        let a = match A::decode(reader) {
            Some(a) => a,
            None => {
                return None;
            },
        };
        match B::decode(reader) {
            Some(b) => Some((a, b)),
            None => {
                reader.reset(mark);
                None
            },
        }
    }
}

/// A number of values with the number before them.
pub open spec fn parse_counted<T: Record>(s: Seq<u8>) -> Parsed<Seq<T::Model>> {
    match u64::parse(s) {
        Some((n, rest)) => parse_list::<T>(rest, n as nat),
        None => None,
    }
}

/// Whatever follows these bytes, they are read as these values, with their
/// number before them.
pub open spec fn encodes_counted<T: Record>(bytes: Seq<u8>, values: Seq<T::Model>) -> bool {
    forall|rest: Seq<u8>| parse_counted::<T>(#[trigger] (bytes + rest)) == Some((values, rest))
}

/// The bytes of a list of values.
pub fn encode_counted<T: Record>(values: &Vec<T>) -> (r: Vec<u8>)
    ensures
        encodes_counted::<T>(r@, models(values@)),
{
    let n: u64 = values.len() as u64;
    let head = n.encode();
    let body = encode_items(values);
    let r = joined(head, body);
    proof {
        assert forall|rest: Seq<u8>| parse_counted::<T>(#[trigger] (r@ + rest)) == Some(
            (models(values@), rest),
        ) by {
            assert(r@ + rest =~= head@ + (body@ + rest));
            assert(u64::parse(head@ + (body@ + rest)) == Some((n, body@ + rest)));
            assert(parse_list::<T>(body@ + rest, models(values@).len()) == Some(
                (models(values@), rest),
            ));
        }
    }
    r
}

/// Reads a list of values. Where it cannot be read nothing is.
pub fn decode_counted<T: Record>(reader: &mut StateReader) -> (r: Option<Vec<T>>)
    ensures
        final(reader).whole() == old(reader).whole(),
        match parse_counted::<T>(old(reader)@) {
            Some((values, rest)) => {
                &&& r is Some
                &&& models(r->Some_0@) == values
                &&& final(reader)@ == rest
            },
            None => r is None && final(reader)@ == old(reader)@,
        },
{
    let mark = reader.mark();
    let n = match u64::decode(reader) {
        Some(n) => n,
        None => {
            return None;
        },
    };
    match decode_items::<T>(reader, n) {
        Some(values) => Some(values),
        None => {
            reader.reset(mark);
            None
        },
    }
}

/// What is read of a list does not depend on what follows it.
pub proof fn lemma_list_extends<T: Record>(s: Seq<u8>, n: nat, more: Seq<u8>)
    ensures
        parse_list::<T>(s, n) matches Some((values, rest)) ==> parse_list::<T>(s + more, n) == Some(
            (values, rest + more),
        ),
    decreases n,
{
    if n > 0 {
        lemma_list_extends::<T>(s, (n - 1) as nat, more);
        if let Some((_, rest)) = parse_list::<T>(s, (n - 1) as nat) {
            T::lemma_extends(rest, more);
        }
    }
}

/// What is read of a counted list does not depend on what follows it.
pub proof fn lemma_counted_extends<T: Record>(s: Seq<u8>, more: Seq<u8>)
    ensures
        parse_counted::<T>(s) matches Some((values, rest)) ==> parse_counted::<T>(s + more) == Some(
            (values, rest + more),
        ),
{
    u64::lemma_extends(s, more);
    if let Some((n, rest)) = u64::parse(s) {
        lemma_list_extends::<T>(rest, n as nat, more);
    }
}

/// A signed number as a word.
pub fn word_of_i64(v: i64) -> (r: u64)
    ensures
        r as i64 == v,
{
    let r: u64 = v as u64;
    assert((v as u64) as i64 == v) by (bit_vector);
    r
}

/// A truth value as a word.
pub fn word_of_bool(v: bool) -> (r: u64)
    ensures
        r == bool_word(v),
{
    if v {
        1
    } else {
        0
    }
}

/// A truth value as a word.
pub open spec fn bool_word(v: bool) -> u64 {
    if v {
        1
    } else {
        0
    }
}

impl Record for Option<u64> {
    type Model = Option<u64>;

    open spec fn model(&self) -> Option<u64> {
        *self
    }

    /// Zero, or one and the number.
    open spec fn parse(s: Seq<u8>) -> Parsed<Option<u64>> {
        match u64::parse(s) {
            None => None,
            Some((tag, rest)) => if tag == 0 {
                Some((None, rest))
            } else if tag == 1 {
                match u64::parse(rest) {
                    Some((v, rest2)) => Some((Some(v), rest2)),
                    None => None,
                }
            } else {
                None
            },
        }
    }

    fn encode(&self) -> (r: Vec<u8>) {
        match *self {
            None => {
                let tag: u64 = 0;
                let r = tag.encode();
                proof {
                    assert forall|rest: Seq<u8>| <Option<u64> as Record>::parse(
                        #[trigger] (r@ + rest),
                    ) == Some((*self, rest)) by {
                        assert(u64::parse(r@ + rest) == Some((0u64, rest)));
                    }
                }
                r
            },
            Some(v) => {
                let tag: u64 = 1;
                let a = tag.encode();
                let b = v.encode();
                let r = joined(a, b);
                proof {
                    assert forall|rest: Seq<u8>| <Option<u64> as Record>::parse(
                        #[trigger] (r@ + rest),
                    ) == Some((*self, rest)) by {
                        assert(r@ + rest =~= a@ + (b@ + rest));
                        assert(u64::parse(a@ + (b@ + rest)) == Some((1u64, b@ + rest)));
                        assert(u64::parse(b@ + rest) == Some((v, rest)));
                    }
                }
                r
            },
        }
    }

    proof fn lemma_extends(s: Seq<u8>, more: Seq<u8>) {
        u64::lemma_extends(s, more);
        if let Some((_, rest)) = u64::parse(s) {
            u64::lemma_extends(rest, more);
        }
    }

    fn decode(reader: &mut StateReader) -> (r: Option<Self>) {
        let mark = reader.mark();
        let tag = match u64::decode(reader) {
            Some(tag) => tag,
            None => {
                return None;
            },
        };
        if tag == 0 {
            return Some(None);
        }
        if tag == 1 {
            if let Some(v) = u64::decode(reader) {
                return Some(Some(v));
            }
        }
        reader.reset(mark);
        None
    }
}

} // verus!
